//! Requests to the resident host, and its answers.

use tender_component::error::{ErrorKind, HostError};
use tender_component::http::{
    handle_http, header_complete, header_wants_more, request_head, route, write_http_json, Call,
    RequestHead,
};
use tender_component::json::Json;

fn head(text: &str) -> Result<RequestHead, HostError> {
    request_head(&text.as_bytes().to_vec())
}

fn kind_of(text: &str) -> ErrorKind {
    head(text).unwrap_err().kind
}

#[test]
fn a_head_ends_with_an_empty_line() {
    assert!(header_complete(&b"GET / HTTP/1.1\r\n\r\n".to_vec()));
    assert!(!header_complete(&b"\r\n".to_vec()));
    assert!(header_wants_more(&b"GET / HTTP/1.1\r\n".to_vec()));
    assert!(!header_wants_more(&b"GET / HTTP/1.1\r\n\r\n".to_vec()));
    assert!(!header_wants_more(&vec![b'a'; 16 * 1024]));
    assert!(header_wants_more(&vec![b'a'; 16 * 1024 - 1]));
}

#[test]
fn a_head_is_read() {
    assert_eq!(
        head("POST /v1/invoke HTTP/1.1\r\nHost: a\r\nCONTENT-LENGTH:  12 \r\n\r\n"),
        Ok(RequestHead {
            method: "POST".to_owned(),
            path: "/v1/invoke".to_owned(),
            content_length: 12
        })
    );
    assert_eq!(
        head("GET /healthz HTTP/1.1\r\n\r\n"),
        Ok(RequestHead {
            method: "GET".to_owned(),
            path: "/healthz".to_owned(),
            content_length: 0
        })
    );
    assert_eq!(
        head("POST / HTTP/1.1\r\nContent-Length: 1048576\r\n\r\n").unwrap().content_length,
        1048576
    );
}

#[test]
fn the_last_length_counts() {
    assert_eq!(
        head("POST / HTTP/1.1\r\nContent-Length: 3\r\nContent-Length: 5\r\n\r\n")
            .unwrap()
            .content_length,
        5
    );
}

#[test]
fn a_head_is_refused_one_reason_each() {
    assert_eq!(kind_of("GET / HTTP/1.1\r\n"), ErrorKind::HeaderIncomplete);
    assert_eq!(
        request_head(&b"GET /\xff HTTP/1.1\r\n\r\n".to_vec()).unwrap_err().chain(),
        "HTTP header is not UTF-8: invalid utf-8 sequence of 1 bytes from index 5"
    );
    assert_eq!(kind_of("GET / HTTP/1.0\r\n\r\n"), ErrorKind::VersionNotHttp11);
    assert_eq!(kind_of("\r\n\r\n"), ErrorKind::VersionNotHttp11);
    assert_eq!(
        kind_of("GET / HTTP/1.1\r\nContent-Length: x\r\n\r\n"),
        ErrorKind::ContentLengthInvalid
    );
    for length in ["x", "-1", "18446744073709551616", "1 2", "+"] {
        let header = format!("GET / HTTP/1.1\r\nContent-Length: {length}\r\n\r\n");
        assert_eq!(
            head(&header).unwrap_err().cause,
            Some(length.parse::<usize>().unwrap_err().to_string())
        );
    }
    assert_eq!(
        kind_of("GET / HTTP/1.1\r\nContent-Length: 1048577\r\n\r\n"),
        ErrorKind::RequestOversize
    );
}

#[test]
fn a_request_asks_for_one_thing() {
    assert_eq!(route(&head("GET /healthz HTTP/1.1\r\n\r\n").unwrap()), Call::Health);
    assert_eq!(route(&head("POST /v1/run HTTP/1.1\r\n\r\n").unwrap()), Call::Run);
    assert_eq!(route(&head("POST /v1/invoke HTTP/1.1\r\n\r\n").unwrap()), Call::Invoke);
    assert_eq!(route(&head("GET /v1/run HTTP/1.1\r\n\r\n").unwrap()), Call::Unknown);
    assert_eq!(route(&head("POST /healthz HTTP/1.1\r\n\r\n").unwrap()), Call::Unknown);
}

#[test]
fn a_response_is_written_in_full() {
    assert_eq!(
        write_http_json("200 OK", &Json::Array(vec![Json::Text("é".to_owned())])),
        "HTTP/1.1 200 OK\r\nContent-Type: application/json\r\nContent-Length: 6\r\n\
         Connection: close\r\n\r\n[\"é\"]"
            .as_bytes()
            .to_vec()
    );
}

#[test]
fn a_refused_request_is_answered_with_its_reason() {
    let failed: Result<Json, String> = Err("no".to_owned());
    let body = "{\"error\":\"no\",\"ok\":false}";
    for (call, status) in [
        (Call::Run, "500 Internal Server Error"),
        (Call::Invoke, "400 Bad Request"),
        (Call::Unreadable, "400 Bad Request"),
    ] {
        let answer = String::from_utf8(handle_http(call, &failed)).unwrap();
        assert!(answer.starts_with(&format!("HTTP/1.1 {status}\r\n")));
        assert!(answer.ends_with(body));
    }
    let unknown = String::from_utf8(handle_http(Call::Unknown, &failed)).unwrap();
    assert!(unknown.starts_with("HTTP/1.1 404 Not Found\r\n"));
    assert!(unknown.ends_with("{\"error\":\"not found\",\"ok\":false}"));
    let fine = String::from_utf8(handle_http(Call::Run, &Ok(Json::Null))).unwrap();
    assert!(fine.starts_with("HTTP/1.1 200 OK\r\n"));
    assert!(fine.ends_with("\r\n\r\nnull"));
}
