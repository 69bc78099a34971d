//! Calls over loopback HTTP.

use tender_component::endpoint::{
    decode_chunked, loopback_endpoint, post_request, post_response,
};
use tender_component::error::{ErrorKind, HostError};
use tender_component::json::Json;

fn refusal(kind: ErrorKind, subject: &str) -> HostError {
    HostError::about(kind, subject)
}

fn caused(kind: ErrorKind, cause: &str) -> HostError {
    HostError::plain(kind).because(cause)
}

fn not_utf8(bytes: &[u8]) -> String {
    std::str::from_utf8(bytes).unwrap_err().to_string()
}

#[test]
fn resident_effect_endpoints_are_literal_loopback_only() {
    assert!(loopback_endpoint("http://127.0.0.1:11434/api/show").is_ok());
    assert!(loopback_endpoint("http://localhost:11434/api/show").is_err());
    assert!(loopback_endpoint("http://10.0.0.1:11434/api/show").is_err());
    assert!(loopback_endpoint("https://127.0.0.1:11434/api/show").is_err());
}

#[test]
fn an_endpoint_has_a_port_and_a_path() {
    assert_eq!(
        loopback_endpoint("http://127.0.0.1:11434/api/show"),
        Ok((11434, "/api/show".to_owned()))
    );
    assert_eq!(loopback_endpoint("http://127.0.0.1:80"), Ok((80, "/".to_owned())));
    assert_eq!(loopback_endpoint("http://127.0.0.1:80/"), Ok((80, "/".to_owned())));
    assert_eq!(loopback_endpoint("http://127.0.0.1:+80/a/b"), Ok((80, "/a/b".to_owned())));
    assert_eq!(
        loopback_endpoint("http://127.0.0.1:/").unwrap_err().chain(),
        "resident capability endpoint has an invalid port: cannot parse integer from empty string"
    );
    for port in ["", "65536", "x", "-1", "+", "65536x", "6553x6", " 1"] {
        assert_eq!(
            loopback_endpoint(&format!("http://127.0.0.1:{port}/")),
            Err(caused(
                ErrorKind::EndpointPortInvalid,
                &port.parse::<u16>().unwrap_err().to_string()
            ))
        );
    }
    assert_eq!(
        loopback_endpoint("http://127.0.0.1:0/"),
        Err(refusal(ErrorKind::EndpointPortZero, ""))
    );
    assert_eq!(
        loopback_endpoint("http://127.0.0.10:1/"),
        Err(refusal(ErrorKind::EndpointNotLoopback, ""))
    );
}

#[test]
fn bounded_chunked_response_is_decoded_strictly() {
    assert_eq!(
        decode_chunked(b"4\r\n{\"ok\r\n7\r\n\":true}\r\n0\r\n\r\n", 32).unwrap(),
        br#"{"ok":true}"#
    );
    assert!(decode_chunked(b"20\r\noversize\r\n0\r\n\r\n", 4).is_err());
    assert!(decode_chunked(b"4\r\nno-terminator", 32).is_err());
}

#[test]
fn a_chunk_may_have_an_extension() {
    assert_eq!(decode_chunked(b" 3 ;x=1\r\nabc\r\n0\r\n\r\n", 3), Ok(b"abc".to_vec()));
}

#[test]
fn chunks_are_refused_one_reason_each() {
    assert_eq!(decode_chunked(b"4", 9), Err(refusal(ErrorKind::ChunkSizeIncomplete, "")));
    assert_eq!(
        decode_chunked(b"4\xff\r\n", 9),
        Err(caused(ErrorKind::ChunkSizeNotUtf8, &not_utf8(b"4\xff")))
    );
    for size in ["g", "", "-1", "+", "10000000000000000", "1g"] {
        assert_eq!(
            decode_chunked(format!("{size}\r\n").as_bytes(), 9),
            Err(caused(
                ErrorKind::ChunkSizeInvalid,
                &usize::from_str_radix(size, 16).unwrap_err().to_string()
            ))
        );
    }
    assert_eq!(
        decode_chunked(b"4\r\nabcd\r\n0\r\n\r\n", 3),
        Err(refusal(ErrorKind::ChunkOversize, ""))
    );
    assert_eq!(
        decode_chunked(b"4\r\nabcd", 9),
        Err(refusal(ErrorKind::ChunkOversize, ""))
    );
    assert_eq!(
        decode_chunked(b"3\r\nabcd\r\n0\r\n\r\n", 9),
        Err(refusal(ErrorKind::ChunkTerminatorMissing, ""))
    );
}

#[test]
fn chunks_decode_alike_under_every_bound_that_holds_them() {
    let chunks = b"3\r\nabc\r\n2\r\nde\r\n0\r\n\r\n";
    for bound in [5, 6, 1000, usize::MAX] {
        assert_eq!(decode_chunked(chunks, bound), Ok(b"abcde".to_vec()));
    }
    assert_eq!(decode_chunked(chunks, 4), Err(refusal(ErrorKind::ChunkOversize, "")));
}

#[test]
fn what_follows_the_last_chunk_is_not_read() {
    assert_eq!(decode_chunked(b"3\r\nabc\r\n0\r\n\r\n", 9), Ok(b"abc".to_vec()));
    assert_eq!(
        decode_chunked(b"3\r\nabc\r\n0\r\n\r\n9\r\nmore", 9),
        Ok(b"abc".to_vec())
    );
}

#[test]
fn a_request_is_written_in_full() {
    let body = Json::parse(b"{\"a\": 1}").unwrap();
    let request = post_request("http://127.0.0.1:8080/x", &body, 250, 1024).unwrap();
    assert_eq!(request.port, 8080);
    assert_eq!(
        request.bytes,
        b"POST /x HTTP/1.1\r\nHost: 127.0.0.1:8080\r\nContent-Type: application/json\r\n\
          Content-Length: 7\r\nConnection: close\r\n\r\n{\"a\":1}"
            .to_vec()
    );
    assert_eq!(request.deadline_ms, 250);
    assert_eq!(request.read_limit, 1024 + 16 * 1024 + 1);
}

#[test]
fn a_request_needs_bounds_and_an_endpoint() {
    let body = Json::Null;
    assert!(matches!(
        post_request("http://127.0.0.1:1/", &body, 0, 1),
        Err(HostError { kind: ErrorKind::HttpBoundsNotPositive, .. })
    ));
    assert!(matches!(
        post_request("http://127.0.0.1:1/", &body, 1, 0),
        Err(HostError { kind: ErrorKind::HttpBoundsNotPositive, .. })
    ));
    assert!(matches!(
        post_request("ftp://127.0.0.1:1/", &body, 1, 1),
        Err(HostError { kind: ErrorKind::EndpointNotLoopback, .. })
    ));
}

#[test]
fn a_response_is_read_within_its_bound() {
    let (json, length) =
        post_response(b"HTTP/1.1 200 OK\r\nA: b\r\n\r\n{\"ok\":true}", 11).unwrap();
    assert_eq!(json, Json::Object(vec![("ok".to_owned(), Json::Bool(true))]));
    assert_eq!(length, 11);
    let (json, length) = post_response(
        b"HTTP/1.1 299 Fine\r\nTransfer-Encoding:\x20Chunked \r\n\r\n4\r\n{\"ok\r\n7\r\n\":true}\r\n0\r\n\r\n",
        11,
    )
    .unwrap();
    assert_eq!(json, Json::Object(vec![("ok".to_owned(), Json::Bool(true))]));
    assert_eq!(length, 11);
}

#[test]
fn a_response_is_refused_one_reason_each() {
    assert_eq!(
        post_response(&vec![b'a'; 16 * 1024 + 3], 2),
        Err(refusal(ErrorKind::ResponseOversize, ""))
    );
    assert_eq!(
        post_response(b"HTTP/1.1 200 OK\r\n{}", 9),
        Err(refusal(ErrorKind::ResponseInvalid, ""))
    );
    assert_eq!(
        post_response(b"HTTP/1.1 200 \xff\r\n\r\n{}", 9),
        Err(caused(ErrorKind::ResponseHeadersNotUtf8, &not_utf8(b"HTTP/1.1 200 \xff")))
    );
    assert_eq!(
        post_response(b"HTTP/1.1 fine\r\n\r\n{}", 9),
        Err(refusal(ErrorKind::ResponseStatusInvalid, ""))
    );
    assert_eq!(
        post_response(b"HTTP/1.1 404 Not Found\r\n\r\n{}", 9),
        Err(refusal(ErrorKind::ResponseStatusRejected, "404"))
    );
    assert_eq!(
        post_response(b"HTTP/1.1 200 OK\r\n\r\n{}", 1),
        Err(refusal(ErrorKind::ResponseBodyOversize, ""))
    );
    assert_eq!(
        post_response(b"HTTP/1.1 200 OK\r\n\r\n{", 9),
        Err(caused(
            ErrorKind::ResponseBodyNotJson,
            "EOF while parsing an object at line 1 column 1"
        ))
    );
    assert_eq!(
        refusal(ErrorKind::ResponseStatusRejected, "404").message(),
        "resident capability endpoint returned HTTP 404"
    );
}
