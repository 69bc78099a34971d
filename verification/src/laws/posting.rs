//! Calls over loopback HTTP: they go to this machine, say what they were given, and
//! take back only what succeeded and keeps within its bounds.

use vstd::prelude::*;
use vstd::utf8::{
    decode_utf8, decode_utf8_encode_utf8, encode_utf8, encode_utf8_decode_utf8,
    encode_utf8_valid_utf8, valid_utf8,
};

use crate::endpoint::{
    chunk_size, chunks, crlf, decode_chunked, head_end, is_chunked, loopback_endpoint,
    post_request, post_response, response_body, says_chunked, status_of, PostRequest,
};
use crate::error::{ErrorKind, Failure, HostError};
use crate::json::{json_parse, json_text, Json};
use crate::laws::reading::{
    all_blank, blank, is_trimmed, lemma_decimal_writes, lemma_first_behind, lemma_trim,
    lemma_trim_unique, lemma_unsigned_writes, lemma_writes_once, unsigned_part, writes,
};
use crate::laws::serving::letter;
use crate::number::{decimal, unsigned, unsigned_of, NumberError};
use crate::text::{
    before, first_at, lemma_first_at, lemma_first_is, lines, lower, stands_at, trim, words,
};

verus! {

/// What stands before the first slash holds none.
proof fn lemma_before_slash(front: Seq<char>, tail: Seq<char>)
    requires
        forall|i: int| 0 <= i < front.len() ==> #[trigger] front[i] != '/',
        tail.len() > 0 ==> tail[0] == '/',
    ensures
        before(front + tail, '/') == front,
{
    let s = front + tail;
    let mark = seq!['/'];
    if tail.len() > 0 {
        lemma_first_behind(front, mark, tail.skip(1));
        assert(s =~= front + mark + tail.skip(1));
        assert(s.take(front.len() as int) =~= front);
    } else {
        assert(s =~= front);
        lemma_first_at(s, mark, 0);
        if first_at(s, mark, 0) is Some {
            let at = first_at(s, mark, 0)->0;
            assert(s.subrange(at, at + 1)[0] == s[at]);
            assert(mark[0] == '/');
        }
    }
}

/// A capability is called on this machine alone: what is accepted is a URL of literal
/// loopback with a port that is not 0, and its path is what follows the port, or the
/// root where nothing follows.
pub proof fn law_endpoint_is_on_this_machine(
    url: &str,
    endpoint: Result<(u16, String), HostError>,
    port_text: Seq<char>,
    tail: Seq<char>,
)
    requires
        call_ensures(loopback_endpoint, (url,), endpoint),
        url@ == "http://127.0.0.1:"@ + port_text + tail,
        forall|i: int| 0 <= i < port_text.len() ==> #[trigger] port_text[i] != '/',
        tail.len() > 0 ==> tail[0] == '/',
    ensures
        match endpoint {
            Ok((port, path)) => {
                &&& port > 0
                &&& writes(unsigned_part(port_text), 10, port as int)
                &&& path@ == if tail.len() > 0 {
                    tail
                } else {
                    seq!['/']
                }
            },
            Err(error) => if writes(unsigned_part(port_text), 10, 0) {
                error.kind == ErrorKind::EndpointPortZero
            } else {
                &&& error.kind == ErrorKind::EndpointPortInvalid
                &&& forall|port: nat|
                    port <= 65535 ==> !#[trigger] writes(
                        unsigned_part(port_text),
                        10,
                        port as int,
                    )
            },
        },
{
    let prefix = "http://127.0.0.1:"@;
    assert(prefix =~= url@.subrange(0, prefix.len() as int));
    assert(url@.skip(prefix.len() as int) =~= port_text + tail);
    lemma_before_slash(port_text, tail);
    assert((port_text + tail).skip(port_text.len() as int) =~= tail);
    lemma_unsigned_writes(port_text, 10, u16::MAX as nat);
}

/// A URL that does not start with literal loopback is refused.
pub proof fn law_elsewhere_is_refused(url: &str, endpoint: Result<(u16, String), HostError>)
    requires
        call_ensures(loopback_endpoint, (url,), endpoint),
        !"http://127.0.0.1:"@.is_prefix_of(url@),
    ensures
        endpoint matches Err(error) && error.kind == ErrorKind::EndpointNotLoopback,
{
}

/// Why a port is no number is told as the cause.
pub proof fn law_refused_port_tells_why(
    url: &str,
    error: HostError,
    port: &[char],
    tail: Seq<char>,
    reason: NumberError,
    text: &'static str,
)
    requires
        call_ensures(loopback_endpoint, (url,), Err(error)),
        url@ == "http://127.0.0.1:"@ + port@ + tail,
        forall|i: int| 0 <= i < port@.len() ==> #[trigger] port@[i] != '/',
        tail.len() > 0 ==> tail[0] == '/',
        call_ensures(unsigned_of, (port, 10u32, 65535u64), Err(reason)),
        call_ensures(NumberError::text, (&reason,), text),
    ensures
        error.kind == ErrorKind::EndpointPortInvalid,
        error@.cause == Some(text@),
{
    let prefix = "http://127.0.0.1:"@;
    assert(prefix =~= url@.subrange(0, prefix.len() as int));
    assert(url@.skip(prefix.len() as int) =~= port@ + tail);
    lemma_before_slash(port@, tail);
}

/// How many bytes of a response are taken: its bound and 16 KiB for its head, as far
/// as a length goes.
pub open spec fn taken(max_response_bytes: u64) -> int {
    if max_response_bytes + 16384 <= usize::MAX {
        max_response_bytes + 16384
    } else {
        usize::MAX as int
    }
}

/// What is sent is the body that was given, to the endpoint that was given, and the
/// deadline and the bound are those that were given.
pub proof fn law_post_is_as_given(
    endpoint: &str,
    body: &Json,
    deadline_ms: u64,
    max_response_bytes: u64,
    request: Result<PostRequest, HostError>,
    read: Result<(u16, String), HostError>,
)
    requires
        call_ensures(post_request, (endpoint, body, deadline_ms, max_response_bytes), request),
        call_ensures(loopback_endpoint, (endpoint,), read),
    ensures
        request is Ok <==> deadline_ms > 0 && max_response_bytes > 0 && read is Ok,
        deadline_ms == 0 || max_response_bytes == 0 ==> (request matches Err(error) && error.kind
            == ErrorKind::HttpBoundsNotPositive),
        match (request, read) {
            (Ok(request), Ok((port, path))) => {
                &&& request.port == port
                &&& request.deadline_ms == deadline_ms
                &&& request.read_limit == taken(max_response_bytes) + 1 || request.read_limit
                    == usize::MAX == taken(max_response_bytes)
                &&& exists|port_text: Seq<char>, length: Seq<char>|
                    #![trigger writes(port_text, 10, port as int), writes(
                        length,
                        10,
                        json_text(body@).len() as int,
                    )]
                    writes(port_text, 10, port as int) && writes(
                        length,
                        10,
                        json_text(body@).len() as int,
                    ) && request.bytes@ == encode_utf8(
                        "POST "@ + path@ + " HTTP/1.1\r\nHost: 127.0.0.1:"@ + port_text
                            + "\r\nContent-Type: application/json\r\nContent-Length: "@ + length
                            + "\r\nConnection: close\r\n\r\n"@,
                    ) + json_text(body@)
            },
            _ => true,
        },
{
    if let (Ok(request), Ok((port, path))) = (request, read) {
        lemma_decimal_writes(port as nat);
        lemma_decimal_writes(json_text(body@).len());
        assert(writes(decimal(port as nat), 10, port as int));
        assert(writes(decimal(json_text(body@).len()), 10, json_text(body@).len() as int));
    }
}

/// Whether the head of a response ends at `split`: the first blank line follows.
pub open spec fn splits(response: Seq<u8>, split: int) -> bool {
    &&& 0 <= split && split + 4 <= response.len()
    &&& response.subrange(split, split + 4) == seq![13u8, 10u8, 13u8, 10u8]
    &&& forall|i: int|
        0 <= i < split ==> #[trigger] response.subrange(i, i + 4) != seq![13u8, 10u8, 13u8, 10u8]
}

proof fn lemma_splits(response: Seq<u8>)
    ensures
        match first_at(response, head_end(), 0) {
            Some(split) => splits(response, split),
            None => forall|split: int| !#[trigger] splits(response, split),
        },
        forall|split: int| #[trigger]
            splits(response, split) ==> first_at(response, head_end(), 0) == Some(split),
{
    lemma_first_at(response, head_end(), 0);
    assert forall|split: int| #[trigger] splits(response, split) implies first_at(
        response,
        head_end(),
        0,
    ) == Some(split) by {
        assert(stands_at(response, head_end(), split));
        assert forall|i: int| 0 <= i < split implies !#[trigger] stands_at(
            response,
            head_end(),
            i,
        ) by {
            assert(response.subrange(i, i + 4) != head_end());
        }
        lemma_first_is(response, head_end(), 0, split);
    }
    match first_at(response, head_end(), 0) {
        Some(split) => {
            assert forall|i: int| 0 <= i < split implies #[trigger] response.subrange(i, i + 4)
                != seq![13u8, 10u8, 13u8, 10u8] by {
                assert(!stands_at(response, head_end(), i));
            }
        },
        None => {},
    }
}

/// Whether the second word of the first line of a head writes a status.
pub open spec fn says_status(head: Seq<char>, status: int) -> bool {
    &&& lines(head).len() > 0
    &&& words(lines(head)[0]).len() > 1
    &&& writes(unsigned_part(words(lines(head)[0])[1]), 10, status)
}

proof fn lemma_status(head: Seq<char>)
    ensures
        match status_of(head) {
            Some(status) => status <= 65535 && says_status(head, status as int),
            None => forall|status: nat|
                status <= 65535 ==> !#[trigger] says_status(head, status as int),
        },
{
    if lines(head).len() > 0 && words(lines(head)[0]).len() > 1 {
        lemma_unsigned_writes(words(lines(head)[0])[1], 10, u16::MAX as nat);
    }
}

/// Whether a line says, in small letters or capitals and with white space around it
/// or not, that the body is chunked.
pub open spec fn chunked_line(line: Seq<char>) -> bool {
    exists|text: Seq<char>| #[trigger]
        is_trimmed(line, text) && text.len() == 26 && forall|i: int|
            0 <= i < 26 ==> letter(#[trigger] text[i], "transfer-encoding: chunked"@[i])
}

proof fn lemma_chunked_line(line: Seq<char>)
    ensures
        says_chunked(line) <==> chunked_line(line),
{
    reveal_strlit("transfer-encoding: chunked");
    let wanted = "transfer-encoding: chunked"@;
    assert(wanted.len() == 26);
    let text = trim(line);
    lemma_trim(line);
    assert(is_trimmed(line, text));
    let (front, back) = choose|front: Seq<char>, back: Seq<char>|
        #![trigger all_blank(front), all_blank(back)]
        all_blank(front) && all_blank(back) && line == front + text + back;
    assert(lower(line) =~= lower(front) + lower(text) + lower(back));
    assert forall|i: int| 0 <= i < lower(front).len() implies blank(#[trigger] lower(front)[i]) by {
        assert(blank(front[i]));
    }
    assert forall|i: int| 0 <= i < lower(back).len() implies blank(#[trigger] lower(back)[i]) by {
        assert(blank(back[i]));
    }
    assert(all_blank(lower(front)) && all_blank(lower(back)));
    assert(is_trimmed(lower(line), lower(text)));
    lemma_trim_unique(lower(line), lower(text));
    if says_chunked(line) {
        assert forall|i: int| 0 <= i < 26 implies letter(#[trigger] text[i], wanted[i]) by {
            assert(lower(text)[i] == wanted[i]);
        }
    }
    if chunked_line(line) {
        let other = choose|other: Seq<char>| #[trigger]
            is_trimmed(line, other) && other.len() == 26 && forall|i: int|
                0 <= i < 26 ==> letter(#[trigger] other[i], wanted[i]);
        lemma_trim_unique(line, other);
        assert forall|i: int| 0 <= i < 26 implies #[trigger] lower(text)[i] == wanted[i] by {
            assert(letter(text[i], wanted[i]));
            assert(!(0x41 <= wanted[i] as int <= 0x5a));
        }
        assert(lower(text) =~= wanted);
    }
}

/// Whether no line of a head says that the body is chunked.
pub open spec fn sent_whole(head: Seq<char>) -> bool {
    forall|i: int| 0 <= i < lines(head).len() ==> !chunked_line(#[trigger] lines(head)[i])
}

proof fn lemma_sent_whole(head: Seq<char>)
    ensures
        is_chunked(head) <==> !sent_whole(head),
{
    if is_chunked(head) {
        let i = choose|i: int|
            0 <= i < lines(head).len() && says_chunked(#[trigger] lines(head)[i]);
        lemma_chunked_line(lines(head)[i]);
    }
    if !sent_whole(head) {
        let i = choose|i: int|
            0 <= i < lines(head).len() && chunked_line(#[trigger] lines(head)[i]);
        lemma_chunked_line(lines(head)[i]);
    }
}

/// Only what succeeded is taken: whatever body is carried, the first line of the head
/// says a status from 200 to 299, and the response and its body keep within their
/// bounds.
pub proof fn law_only_success_is_taken(
    response: &[u8],
    max_response_bytes: u64,
    body: Vec<u8>,
)
    requires
        call_ensures(response_body, (response, max_response_bytes), Ok(body)),
    ensures
        response@.len() <= taken(max_response_bytes),
        body@.len() <= max_response_bytes as usize,
        exists|split: int, status: nat|
            #![trigger splits(response@, split), says_status(
                decode_utf8(response@.take(split)),
                status as int,
            )]
            splits(response@, split) && valid_utf8(response@.take(split)) && says_status(
                decode_utf8(response@.take(split)),
                status as int,
            ) && 200 <= status <= 299,
{
    lemma_splits(response@);
    let split = first_at(response@, head_end(), 0)->0;
    let head = decode_utf8(response@.take(split));
    lemma_status(head);
    let status = status_of(head)->0;
    assert(splits(response@, split) && says_status(head, status as int));
}

/// A response is taken or refused for what it says: any status but 200 to 299 is
/// refused with that status, and the body of any of these is taken as it was sent,
/// where it keeps within its bound.
pub proof fn law_status_decides(
    response: &[u8],
    max_response_bytes: u64,
    taken_body: Result<Vec<u8>, HostError>,
    split: int,
    status: nat,
)
    requires
        call_ensures(response_body, (response, max_response_bytes), taken_body),
        response@.len() <= taken(max_response_bytes),
        splits(response@, split),
        valid_utf8(response@.take(split)),
        status <= 65535,
        says_status(decode_utf8(response@.take(split)), status as int),
    ensures
        !(200 <= status <= 299) ==> (taken_body matches Err(error) && error.kind
            == ErrorKind::ResponseStatusRejected && writes(error.subject@, 10, status as int)),
        200 <= status <= 299 && sent_whole(decode_utf8(response@.take(split))) ==> {
            let raw = response@.skip(split + 4);
            if raw.len() <= max_response_bytes as usize {
                taken_body matches Ok(body) && body@ == raw
            } else {
                taken_body matches Err(error) && error.kind == ErrorKind::ResponseBodyOversize
            }
        },
{
    lemma_splits(response@);
    let head = decode_utf8(response@.take(split));
    lemma_status(head);
    let read = status_of(head)->0;
    lemma_writes_once(
        unsigned_part(words(lines(head)[0])[1]),
        10,
        read as int,
        status as int,
    );
    lemma_decimal_writes(status);
    lemma_sent_whole(head);
}

/// A chunked body is taken as its chunks decode.
pub proof fn law_chunked_body_is_decoded(
    response: &[u8],
    raw: &[u8],
    max_response_bytes: u64,
    taken_body: Result<Vec<u8>, HostError>,
    decoded: Result<Vec<u8>, HostError>,
    split: int,
    status: nat,
)
    requires
        call_ensures(response_body, (response, max_response_bytes), taken_body),
        call_ensures(decode_chunked, (raw, max_response_bytes as usize), decoded),
        response@.len() <= taken(max_response_bytes),
        splits(response@, split),
        valid_utf8(response@.take(split)),
        200 <= status <= 299,
        says_status(decode_utf8(response@.take(split)), status as int),
        !sent_whole(decode_utf8(response@.take(split))),
        raw@ == response@.skip(split + 4),
    ensures
        match (taken_body, decoded) {
            (Ok(one), Ok(other)) => one@ == other@,
            (Err(one), Err(other)) => one@ == other@,
            _ => false,
        },
{
    lemma_splits(response@);
    let head = decode_utf8(response@.take(split));
    lemma_status(head);
    let read = status_of(head)->0;
    lemma_writes_once(
        unsigned_part(words(lines(head)[0])[1]),
        10,
        read as int,
        status as int,
    );
    lemma_sent_whole(head);
}

/// What is no response is refused for the first reason: it is too long, it has no
/// head, the head is no text, or it says no status.
pub proof fn law_no_response_is_refused(
    response: &[u8],
    max_response_bytes: u64,
    taken_body: Result<Vec<u8>, HostError>,
)
    requires
        call_ensures(response_body, (response, max_response_bytes), taken_body),
    ensures
        response@.len() > taken(max_response_bytes) ==> (taken_body matches Err(error)
            && error.kind == ErrorKind::ResponseOversize),
        response@.len() <= taken(max_response_bytes) && (forall|split: int|
            !#[trigger] splits(response@, split)) ==> (taken_body matches Err(error)
            && error.kind == ErrorKind::ResponseInvalid),
        forall|split: int|
            response@.len() <= taken(max_response_bytes) && #[trigger] splits(response@, split)
                ==> if !valid_utf8(response@.take(split)) {
                taken_body matches Err(error) && error.kind == ErrorKind::ResponseHeadersNotUtf8
            } else {
                (forall|status: nat|
                    status <= 65535 ==> !#[trigger] says_status(
                        decode_utf8(response@.take(split)),
                        status as int,
                    )) ==> (taken_body matches Err(error) && error.kind
                    == ErrorKind::ResponseStatusInvalid)
            },
{
    lemma_splits(response@);
    match first_at(response@, head_end(), 0) {
        Some(split) => {
            assert(splits(response@, split));
            lemma_status(decode_utf8(response@.take(split)));
        },
        None => {},
    }
}

/// A reply is the JSON value that the body writes, and the length of the body.
pub proof fn law_reply_is_the_body(
    response: &[u8],
    max_response_bytes: u64,
    reply: Result<(Json, usize), HostError>,
    body: Result<Vec<u8>, HostError>,
)
    requires
        call_ensures(post_response, (response, max_response_bytes), reply),
        call_ensures(response_body, (response, max_response_bytes), body),
    ensures
        match body {
            Err(error) => reply matches Err(told) && told@ == error@,
            Ok(bytes) => match json_parse(bytes@) {
                Some(tree) => reply matches Ok((json, length)) && json@ == tree && length
                    == bytes@.len(),
                None => reply matches Err(error) && error.kind == ErrorKind::ResponseBodyNotJson,
            },
        },
{
}

/// Why a body is no JSON value is told as the cause.
pub proof fn law_refused_reply_tells_why(
    response: &[u8],
    max_response_bytes: u64,
    body: Vec<u8>,
    bytes: &[u8],
    error: HostError,
    cause: String,
)
    requires
        call_ensures(response_body, (response, max_response_bytes), Ok(body)),
        bytes@ == body@,
        call_ensures(Json::read, (bytes,), Err(cause)),
        call_ensures(post_response, (response, max_response_bytes), Err(error)),
    ensures
        error@.cause == Some(cause@),
{
}

proof fn lemma_first_shifts(front: Seq<u8>, rest: Seq<u8>, from: int)
    requires
        0 <= from,
    ensures
        first_at(front + rest, crlf(), front.len() + from) == match first_at(rest, crlf(), from) {
            Some(at) => Some(front.len() + at),
            None => None,
        },
    decreases rest.len() - from + 1,
{
    let s = front + rest;
    if from + 2 <= rest.len() {
        assert(s.subrange(front.len() + from, front.len() + from + 2) =~= rest.subrange(
            from,
            from + 2,
        ));
        if !stands_at(rest, crlf(), from) {
            lemma_first_shifts(front, rest, from + 1);
        }
    }
}

proof fn lemma_chunks_shift(
    front: Seq<u8>,
    rest: Seq<u8>,
    cursor: nat,
    done: Seq<u8>,
    more: Seq<u8>,
    max: int,
)
    ensures
        chunks(front + rest, front.len() + cursor, done + more, done.len() + max) == match chunks(
            rest,
            cursor,
            more,
            max,
        ) {
            Ok(body) => Ok::<Seq<u8>, Failure>(done + body),
            Err(failure) => Err(failure),
        },
    decreases rest.len() - cursor,
{
    let s = front + rest;
    lemma_first_shifts(front, rest, cursor as int);
    lemma_first_at(rest, crlf(), cursor as int);
    match first_at(rest, crlf(), cursor as int) {
        None => {},
        Some(end) => {
            let there = front.len() + end;
            assert(s.subrange((front.len() + cursor) as int, there) =~= rest.subrange(
                cursor as int,
                end,
            ));
            match chunk_size(rest.subrange(cursor as int, end)) {
                Err(_) => {},
                Ok(size) => {
                    let start = end + 2;
                    let begun = there + 2;
                    if size > 0 && more.len() + size <= max && start + size + 2 <= rest.len() {
                        assert(s.subrange(begun + size, begun + size + 2) =~= rest.subrange(
                            start + size,
                            start + size + 2,
                        ));
                        assert(s.subrange(begun, begun + size) =~= rest.subrange(
                            start,
                            start + size,
                        ));
                        let longer = more + rest.subrange(start, start + size);
                        assert(done + more + rest.subrange(start, start + size) =~= done + longer);
                        if rest.subrange(start + size, start + size + 2) == crlf() {
                            lemma_chunks_shift(
                                front,
                                rest,
                                (start + size + 2) as nat,
                                done,
                                longer,
                                max,
                            );
                            assert((front.len() + (start + size + 2) as nat) == (begun + size
                                + 2) as nat);
                        }
                    }
                },
            }
        },
    }
}

/// Whether the first line of a chunk gives this size: in hexadecimal digits, with
/// white space around them or not, and with an extension behind a semicolon or not.
pub open spec fn size_text(text: Seq<char>, size: int) -> bool {
    exists|front: Seq<char>, back: Seq<char>| #[trigger]
        size_parts(text, front, back, size)
}

/// Whether `front` is the size of a chunk and `back` its extension.
pub open spec fn size_parts(
    text: Seq<char>,
    front: Seq<char>,
    back: Seq<char>,
    size: int,
) -> bool {
    &&& text == front + back
    &&& forall|i: int| 0 <= i < front.len() ==> #[trigger] front[i] != ';'
    &&& back.len() > 0 ==> back[0] == ';'
    &&& exists|digits: Seq<char>| #[trigger]
        is_trimmed(front, digits) && writes(unsigned_part(digits), 16, size)
}

proof fn lemma_chunk_size(text: Seq<char>, size: nat)
    requires
        size_text(text, size as int),
        size <= usize::MAX,
    ensures
        chunk_size(encode_utf8(text)) == Ok::<nat, Failure>(size),
{
    encode_utf8_valid_utf8(text);
    encode_utf8_decode_utf8(text);
    let (front, back) = choose|front: Seq<char>, back: Seq<char>| #[trigger]
        size_parts(text, front, back, size as int);
    let digits = choose|digits: Seq<char>| #[trigger]
        is_trimmed(front, digits) && writes(unsigned_part(digits), 16, size as int);
    lemma_trim_unique(front, digits);
    let mark = seq![';'];
    if back.len() > 0 {
        lemma_first_behind(front, mark, back.skip(1));
        assert(text =~= front + mark + back.skip(1));
        assert(text.take(front.len() as int) =~= front);
    } else {
        assert(text =~= front);
        lemma_first_at(text, mark, 0);
        if first_at(text, mark, 0) is Some {
            let at = first_at(text, mark, 0)->0;
            assert(text.subrange(at, at + 1)[0] == text[at]);
            assert(mark[0] == ';');
        }
    }
    assert(before(text, ';') == front);
    lemma_unsigned_writes(digits, 16, usize::MAX as nat);
    match unsigned(digits, 16, usize::MAX as nat) {
        Some(read) => {
            lemma_writes_once(unsigned_part(digits), 16, read as int, size as int);
        },
        None => {},
    }
}

/// A chunk is taken off a chunked body: what is decoded is the bytes of the chunk, as
/// many as its size says, and then what the rest decodes to within the bound that is
/// left. A chunk beyond the bound is refused.
pub proof fn law_chunk_is_taken_off(
    input: &[u8],
    max: usize,
    output: Result<Vec<u8>, HostError>,
    rest: &[u8],
    left: usize,
    others: Result<Vec<u8>, HostError>,
    text: Seq<char>,
    piece: Seq<u8>,
)
    requires
        call_ensures(decode_chunked, (input, max), output),
        call_ensures(decode_chunked, (rest, left), others),
        input@ == encode_utf8(text) + seq![13u8, 10u8] + piece + seq![13u8, 10u8] + rest@,
        forall|i: int| 0 <= i < encode_utf8(text).len() ==> #[trigger] encode_utf8(text)[i] != 13,
        piece.len() > 0,
        size_text(text, piece.len() as int),
        piece.len() <= max ==> left == max - piece.len(),
    ensures
        if piece.len() > max {
            output matches Err(error) && error.kind == ErrorKind::ChunkOversize
        } else {
            match others {
                Ok(bytes) => output matches Ok(all) && all@ == piece + bytes@,
                Err(error) => output matches Err(told) && told@ == error@,
            }
        },
{
    let line = encode_utf8(text);
    let back = piece + crlf() + rest@;
    assert(input@ =~= line + crlf() + back);
    lemma_first_behind(line, crlf(), back);
    assert(input@.subrange(0, line.len() as int) =~= line);
    assert(input@.len() == input.len());
    assert(piece.len() <= input@.len());
    lemma_chunk_size(text, piece.len());
    let start = line.len() + 2;
    let size = piece.len();
    assert(input@.subrange(start as int, (start + size) as int) =~= piece);
    assert(input@.subrange((start + size) as int, (start + size + 2) as int) =~= crlf());
    if size <= max {
        let front = line + crlf() + piece + crlf();
        assert(input@ =~= front + rest@);
        let none: Seq<u8> = seq![];
        lemma_chunks_shift(front, rest@, 0, piece, none, left as int);
        assert(none + piece =~= piece + none);
    }
}

/// A chunk of size 0 ends a chunked body, whatever follows it.
pub proof fn law_empty_chunk_ends(
    input: &[u8],
    max: usize,
    output: Result<Vec<u8>, HostError>,
    text: Seq<char>,
    rest: Seq<u8>,
)
    requires
        call_ensures(decode_chunked, (input, max), output),
        input@ == encode_utf8(text) + seq![13u8, 10u8] + rest,
        forall|i: int| 0 <= i < encode_utf8(text).len() ==> #[trigger] encode_utf8(text)[i] != 13,
        size_text(text, 0),
    ensures
        output matches Ok(bytes) && bytes@.len() == 0,
{
    let line = encode_utf8(text);
    lemma_first_behind(line, crlf(), rest);
    assert(input@ =~= line + crlf() + rest);
    assert(input@.subrange(0, line.len() as int) =~= line);
    lemma_chunk_size(text, 0);
}

/// A chunked body in which no line ends is refused for that.
pub proof fn law_unended_size_is_refused(
    input: &[u8],
    max: usize,
    output: Result<Vec<u8>, HostError>,
)
    requires
        call_ensures(decode_chunked, (input, max), output),
        forall|i: int| 0 <= i < input@.len() - 1 ==> !(#[trigger] input@[i] == 13 && input@[i + 1]
            == 10),
    ensures
        output matches Err(error) && error.kind == ErrorKind::ChunkSizeIncomplete,
{
    lemma_first_at(input@, crlf(), 0);
    if let Some(at) = first_at(input@, crlf(), 0) {
        let found = input@.subrange(at, at + 2);
        assert(found[0] == input@[at] && found[1] == input@[at + 1]);
        assert(crlf()[0] == 13 && crlf()[1] == 10);
    }
}

proof fn lemma_size_is_given(text: Seq<char>)
    ensures
        chunk_size(encode_utf8(text)) matches Ok(size) ==> size_text(text, size as int) && size
            <= usize::MAX,
        chunk_size(encode_utf8(text)) matches Err(failure) ==> failure.kind
            == ErrorKind::ChunkSizeInvalid,
{
    encode_utf8_valid_utf8(text);
    encode_utf8_decode_utf8(text);
    let front = before(text, ';');
    let back = text.skip(front.len() as int);
    let mark = seq![';'];
    lemma_first_at(text, mark, 0);
    if let Some(at) = first_at(text, mark, 0) {
        assert(text.subrange(at, at + 1)[0] == text[at]);
        assert(mark[0] == ';');
        assert(back[0] == text[at]);
    }
    assert(text =~= front + back);
    assert forall|i: int| 0 <= i < front.len() implies #[trigger] front[i] != ';' by {
        assert(!stands_at(text, mark, i));
        assert(text.subrange(i, i + 1) =~= seq![text[i]]);
    }
    let digits = trim(front);
    lemma_trim(front);
    lemma_unsigned_writes(digits, 16, usize::MAX as nat);
    if let Some(size) = unsigned(digits, 16, usize::MAX as nat) {
        assert(is_trimmed(front, digits) && writes(unsigned_part(digits), 16, size as int));
        assert(size_parts(text, front, back, size as int));
    }
}

/// A chunk is refused for its first line where that is no text or gives no size that
/// can be counted, for its size where it goes beyond the bound or what was sent, and for
/// its end where no line ends there.
pub proof fn law_broken_chunk_is_refused(
    input: &[u8],
    max: usize,
    output: Result<Vec<u8>, HostError>,
    line: Seq<u8>,
    rest: Seq<u8>,
)
    requires
        call_ensures(decode_chunked, (input, max), output),
        input@ == line + seq![13u8, 10u8] + rest,
        forall|i: int| 0 <= i < line.len() ==> #[trigger] line[i] != 13,
    ensures
        !valid_utf8(line) ==> (output matches Err(error) && error.kind
            == ErrorKind::ChunkSizeNotUtf8),
        valid_utf8(line) && (forall|size: nat|
            size <= usize::MAX ==> !#[trigger] size_text(decode_utf8(line), size as int)) ==> (
        output matches Err(error) && error.kind == ErrorKind::ChunkSizeInvalid),
        forall|size: nat|
            valid_utf8(line) && 0 < size <= usize::MAX && #[trigger] size_text(
                decode_utf8(line),
                size as int,
            ) ==> {
                &&& size > max || size + 2 > rest.len() ==> (output matches Err(error)
                    && error.kind == ErrorKind::ChunkOversize)
                &&& size <= max && size + 2 <= rest.len() && rest.subrange(
                    size as int,
                    (size + 2) as int,
                ) != seq![13u8, 10u8] ==> (output matches Err(error) && error.kind
                    == ErrorKind::ChunkTerminatorMissing)
            },
{
    lemma_first_behind(line, crlf(), rest);
    assert(input@ =~= line + crlf() + rest);
    assert(input@.subrange(0, line.len() as int) =~= line);
    if valid_utf8(line) {
        let text = decode_utf8(line);
        decode_utf8_encode_utf8(line);
        lemma_size_is_given(text);
        if let Ok(size) = chunk_size(line) {
            assert(size_text(text, size as int));
        }
        assert forall|size: nat|
            0 < size <= usize::MAX && #[trigger] size_text(text, size as int) implies {
            &&& size > max || size + 2 > rest.len() ==> (output matches Err(error) && error.kind
                == ErrorKind::ChunkOversize)
            &&& size <= max && size + 2 <= rest.len() && rest.subrange(
                size as int,
                (size + 2) as int,
            ) != seq![13u8, 10u8] ==> (output matches Err(error) && error.kind
                == ErrorKind::ChunkTerminatorMissing)
        } by {
            lemma_chunk_size(text, size);
            let start = line.len() + 2;
            if size + 2 <= rest.len() {
                assert(input@.subrange((start + size) as int, (start + size + 2) as int)
                    =~= rest.subrange(size as int, (size + 2) as int));
            }
        }
    }
}

} // verus!
