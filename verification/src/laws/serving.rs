//! Requests to the resident host: what is asked for is what the request says, and
//! what is answered tells how it came out.

use vstd::prelude::*;
use vstd::utf8::{
    decode_utf8, encode_utf8, encode_utf8_decode_utf8, encode_utf8_valid_utf8, valid_utf8,
};

use crate::error::{ErrorKind, HostError};
use crate::http::{
    body_length, error_body, error_tree, gives_length, handle_http, header_complete,
    header_wants_more, length_given, request_head, response_bytes, response_message, route,
    write_http_json, Call, RequestHead,
};
use crate::json::{json_text, Json, JsonTree};
use crate::laws::holding::only;
use crate::laws::reading::{
    blank, is_trimmed, lemma_decimal_writes, lemma_parts, lemma_trim, lemma_trim_unique,
    lemma_unsigned_writes, lemma_words, no_blank, unsigned_part, writes,
};
use crate::number::{decimal, unsigned};
use crate::text::{
    before, first_at, lemma_first_at, lower, lower_char, parts, stands_at, trim, utf8_text,
    words,
};

verus! {

/// The head of a request is read until the blank line that ends it, and no further
/// than 16 KiB.
pub proof fn law_head_is_read_to_its_end(bytes: &Vec<u8>, more: bool)
    requires
        call_ensures(header_wants_more, (bytes,), more),
    ensures
        more <==> bytes@.len() < 16384 && !(bytes@.len() >= 4 && bytes@.subrange(
            bytes@.len() - 4,
            bytes@.len() as int,
        ) == seq![13u8, 10u8, 13u8, 10u8]),
{
}

/// A request line of three words, and what follows it.
pub open spec fn request_text(
    method: Seq<char>,
    path: Seq<char>,
    version: Seq<char>,
    rest: Seq<char>,
) -> Seq<char> {
    method + seq![' '] + path + seq![' '] + version + seq!['\r', '\n'] + rest
}

proof fn lemma_request_line(
    method: Seq<char>,
    path: Seq<char>,
    version: Seq<char>,
    rest: Seq<char>,
)
    requires
        method.len() > 0,
        path.len() > 0,
        version.len() > 0,
        no_blank(method),
        no_blank(path),
        no_blank(version),
    ensures
        ({
            let all = parts(request_text(method, path, version, rest), "\r\n"@);
            &&& all == seq![method + seq![' '] + path + seq![' '] + version] + parts(
                rest,
                "\r\n"@,
            )
            &&& words(all[0]) == seq![method, path, version]
        }),
{
    reveal_strlit("\r\n");
    let line = method + seq![' '] + path + seq![' '] + version;
    let end = "\r\n"@;
    assert(end =~= seq!['\r', '\n']);
    assert forall|i: int| 0 <= i < line.len() implies #[trigger] line[i] != end[0] by {
        let m = method.len() as int;
        let p = path.len() as int;
        if i < m {
            assert(line[i] == method[i]);
            assert(!blank(method[i]));
        } else if m < i < m + 1 + p {
            assert(line[i] == path[i - m - 1]);
            assert(!blank(path[i - m - 1]));
        } else if i > m + 1 + p {
            assert(line[i] == version[i - m - p - 2]);
            assert(!blank(version[i - m - p - 2]));
        }
    }
    lemma_parts(line, end, rest);
    assert(request_text(method, path, version, rest) =~= line + end + rest);
    let none: Seq<char> = seq![];
    let gap = seq![' '];
    lemma_words(version, none, none);
    assert(version + none + none =~= version);
    assert(words(none) =~= seq![]);
    lemma_words(path, gap, version);
    lemma_words(method, gap, path + gap + version);
    assert(line =~= method + gap + (path + gap + version));
    assert(words(line) =~= seq![method, path, version]);
}

/// A request is read as it was sent: the method and the path are the first two
/// words of its first line. It is refused only for another version than HTTP/1.1 or
/// for the length of its body.
pub proof fn law_request_is_read_as_sent(
    bytes: &Vec<u8>,
    head: Result<RequestHead, HostError>,
    method: Seq<char>,
    path: Seq<char>,
    version: Seq<char>,
    rest: Seq<char>,
)
    requires
        call_ensures(request_head, (bytes,), head),
        bytes@ == encode_utf8(request_text(method, path, version, rest)),
        bytes@.len() >= 4,
        bytes@.subrange(bytes@.len() - 4, bytes@.len() as int) == seq![13u8, 10u8, 13u8, 10u8],
        method.len() > 0,
        path.len() > 0,
        version.len() > 0,
        no_blank(method),
        no_blank(path),
        no_blank(version),
    ensures
        match head {
            Ok(head) => version == "HTTP/1.1"@ && head.method@ == method && head.path@ == path,
            Err(error) => if version != "HTTP/1.1"@ {
                error.kind == ErrorKind::VersionNotHttp11
            } else {
                error.kind == ErrorKind::ContentLengthInvalid || error.kind
                    == ErrorKind::RequestOversize
            },
        },
{
    let text = request_text(method, path, version, rest);
    encode_utf8_valid_utf8(text);
    encode_utf8_decode_utf8(text);
    lemma_request_line(method, path, version, rest);
    lemma_length_kinds(parts(text, "\r\n"@).skip(1));
}

/// The method, the path and the version are the first three words of the first line,
/// however they are set apart and whatever follows them.
pub proof fn law_request_line_is_its_words(
    bytes: &Vec<u8>,
    head: Result<RequestHead, HostError>,
    text: Seq<char>,
)
    requires
        call_ensures(request_head, (bytes,), head),
        bytes@ == encode_utf8(text),
        bytes@.len() >= 4,
        bytes@.subrange(bytes@.len() - 4, bytes@.len() as int) == seq![13u8, 10u8, 13u8, 10u8],
    ensures
        ({
            let found = words(parts(text, "\r\n"@)[0]);
            match head {
                Ok(head) => found.len() > 2 && found[2] == "HTTP/1.1"@ && head.method@ == found[0]
                    && head.path@ == found[1],
                Err(error) => found.len() <= 2 || found[2] != "HTTP/1.1"@ ==> error.kind
                    == ErrorKind::VersionNotHttp11,
            }
        }),
{
    encode_utf8_valid_utf8(text);
    encode_utf8_decode_utf8(text);
    reveal_strlit("HTTP/1.1");
    assert("HTTP/1.1"@.len() == 8);
}

/// A head that is not whole, or is not UTF-8, is refused for that.
pub proof fn law_unfinished_head_is_refused(bytes: &Vec<u8>, head: Result<RequestHead, HostError>)
    requires
        call_ensures(request_head, (bytes,), head),
    ensures
        !(bytes@.len() >= 4 && bytes@.subrange(bytes@.len() - 4, bytes@.len() as int) == seq![
            13u8,
            10u8,
            13u8,
            10u8,
        ]) ==> (head matches Err(error) && error.kind == ErrorKind::HeaderIncomplete),
        bytes@.len() >= 4 && bytes@.subrange(bytes@.len() - 4, bytes@.len() as int) == seq![
            13u8,
            10u8,
            13u8,
            10u8,
        ] && !valid_utf8(bytes@) ==> (head matches Err(error) && error.kind
            == ErrorKind::HeaderNotUtf8),
{
}

/// Why a head is no text is told as the cause.
pub proof fn law_unreadable_head_tells_why(
    bytes: &Vec<u8>,
    error: HostError,
    slice: &[u8],
    cause: String,
)
    requires
        call_ensures(request_head, (bytes,), Err(error)),
        bytes@.len() >= 4,
        bytes@.subrange(bytes@.len() - 4, bytes@.len() as int) == seq![13u8, 10u8, 13u8, 10u8],
        slice@ == bytes@,
        call_ensures(utf8_text, (slice,), Err(cause)),
    ensures
        error.kind == ErrorKind::HeaderNotUtf8,
        error@.cause == Some(cause@),
{
}

proof fn lemma_length_kinds(lines: Seq<Seq<char>>)
    ensures
        body_length(lines) matches Err(failure) ==> failure.kind == ErrorKind::ContentLengthInvalid
            || failure.kind == ErrorKind::RequestOversize,
    decreases lines.len(),
{
    if lines.len() > 0 {
        lemma_length_kinds(lines.drop_last());
    }
}

/// Whether a letter is `small`, or the capital of it.
pub open spec fn letter(c: char, small: char) -> bool {
    c == small || (0x61 <= small as int <= 0x7a && c as int == small as int - 0x20)
}

/// Whether a line gives the length of a body as `value`: its name is
/// `content-length` in small letters or capitals, and the value is what stands
/// behind the colon.
pub open spec fn length_line(line: Seq<char>, value: Seq<char>) -> bool {
    &&& line.len() == 15 + value.len()
    &&& forall|i: int| 0 <= i < 15 ==> letter(#[trigger] line[i], "content-length:"@[i])
    &&& value == line.skip(15)
}

proof fn lemma_length_line(line: Seq<char>)
    ensures
        gives_length(line) <==> length_line(line, line.skip(15)),
        gives_length(line) ==> before(line, ':').len() == 14,
{
    reveal_strlit("content-length:");
    let name = "content-length:"@;
    assert(name.len() == 15);
    let small = lower(line);
    assert(small.len() == line.len());
    assert forall|i: int| 0 <= i < line.len() implies #[trigger] small[i] == lower_char(
        line[i],
    ) by {}
    if gives_length(line) {
        assert forall|i: int| 0 <= i < 15 implies letter(#[trigger] line[i], name[i]) by {
            assert(small.subrange(0, 15)[i] == small[i]);
            assert(name[i] == small[i]);
        }
        assert forall|i: int| 0 <= i < 14 implies #[trigger] line[i] != ':' by {
            assert(letter(line[i], name[i]));
            assert(name[i] != ':');
        }
        assert(letter(line[14], name[14]));
        assert(line[14] == ':');
        assert(line.subrange(14, 15) =~= seq![':']);
        lemma_first_at(line, seq![':'], 0);
        assert(stands_at(line, seq![':'], 14));
        let at = first_at(line, seq![':'], 0)->0;
        assert(line.subrange(at, at + 1)[0] == line[at]);
        assert(seq![':'][0] == ':');
    }
    if length_line(line, line.skip(15)) {
        assert forall|i: int| 0 <= i < 15 implies #[trigger] small[i] == name[i] by {
            assert(letter(line[i], name[i]));
            assert(name[i] as int <= 0x7a && !(0x41 <= name[i] as int <= 0x5a));
        }
        assert(small.subrange(0, 15) =~= name);
    }
}

/// Whether a text writes a length, with white space around it or not.
pub open spec fn gives(value: Seq<char>, length: int) -> bool {
    exists|text: Seq<char>| #[trigger]
        is_trimmed(value, text) && writes(unsigned_part(text), 10, length)
}

proof fn lemma_length_given(line: Seq<char>)
    requires
        gives_length(line),
    ensures
        length_given(line) matches Ok(length) ==> gives(line.skip(15), length as int) && length
            <= 1048576,
{
    lemma_length_line(line);
    let value = line.skip(15);
    assert(line.skip(before(line, ':').len() as int + 1) =~= value);
    lemma_trim(value);
    let text = trim(value);
    lemma_unsigned_writes(text, 10, usize::MAX as nat);
    assert(is_trimmed(value, text));
}

/// Whether no line behind `i` gives a length.
pub open spec fn last_length(lines: Seq<Seq<char>>, i: int) -> bool {
    &&& length_line(lines[i], lines[i].skip(15))
    &&& forall|j: int|
        i < j < lines.len() ==> !length_line(#[trigger] lines[j], lines[j].skip(15))
}

proof fn lemma_body_length(lines: Seq<Seq<char>>)
    ensures
        body_length(lines) matches Ok(length) ==> {
            &&& length <= 1048576
            &&& forall|i: int|
                0 <= i < lines.len() && #[trigger] last_length(lines, i) ==> gives(
                    lines[i].skip(15),
                    length as int,
                )
            &&& (forall|i: int|
                0 <= i < lines.len() ==> !length_line(#[trigger] lines[i], lines[i].skip(15)))
                ==> length == 0
        },
    decreases lines.len(),
{
    if lines.len() > 0 {
        let front = lines.drop_last();
        let last = lines.len() - 1;
        lemma_body_length(front);
        lemma_length_line(lines[last]);
        if gives_length(lines[last]) {
            lemma_length_given(lines[last]);
        }
        if let Ok(length) = body_length(lines) {
            assert forall|i: int| 0 <= i < lines.len() && #[trigger] last_length(
                lines,
                i,
            ) implies gives(lines[i].skip(15), length as int) by {
                if i < last {
                    assert(!length_line(lines[last], lines[last].skip(15)));
                    assert(front[i] == lines[i]);
                    assert forall|j: int| i < j < front.len() implies !length_line(
                        #[trigger] front[j],
                        front[j].skip(15),
                    ) by {
                        assert(front[j] == lines[j]);
                    }
                    assert(last_length(front, i));
                }
            }
            if forall|i: int|
                0 <= i < lines.len() ==> !length_line(#[trigger] lines[i], lines[i].skip(15)) {
                assert forall|i: int| 0 <= i < front.len() implies !length_line(
                    #[trigger] front[i],
                    front[i].skip(15),
                ) by {
                    assert(front[i] == lines[i]);
                }
            }
        }
    }
}

/// The length of a body is what the last line that gives one says, at most 1 MiB,
/// and 0 where no line gives one.
pub proof fn law_length_is_as_given(bytes: &Vec<u8>, head: RequestHead)
    requires
        call_ensures(request_head, (bytes,), Ok(head)),
    ensures
        head.content_length <= 1048576,
        ({
            let lines = parts(decode_utf8(bytes@), "\r\n"@).skip(1);
            &&& forall|i: int|
                0 <= i < lines.len() && #[trigger] last_length(lines, i) ==> gives(
                    lines[i].skip(15),
                    head.content_length as int,
                )
            &&& (forall|i: int|
                0 <= i < lines.len() ==> !length_line(#[trigger] lines[i], lines[i].skip(15)))
                ==> head.content_length == 0
        }),
{
    lemma_body_length(parts(decode_utf8(bytes@), "\r\n"@).skip(1));
}

/// Whether a line is refused for the length that it gives: for one beyond 1 MiB, or
/// for none that can be counted.
pub open spec fn length_refused(line: Seq<char>, kind: ErrorKind) -> bool {
    &&& length_line(line, line.skip(15))
    &&& kind == ErrorKind::RequestOversize || kind == ErrorKind::ContentLengthInvalid
    &&& kind == ErrorKind::RequestOversize ==> exists|length: int| #[trigger]
        gives(line.skip(15), length) && 1048576 < length <= usize::MAX
    &&& kind == ErrorKind::ContentLengthInvalid ==> forall|length: nat| #[trigger]
        gives(line.skip(15), length as int) ==> length > usize::MAX
}

/// Whether a line that gives a length gives one of at most 1 MiB.
pub open spec fn length_allowed(line: Seq<char>) -> bool {
    length_line(line, line.skip(15)) ==> exists|length: int| #[trigger]
        gives(line.skip(15), length) && length <= 1048576
}

proof fn lemma_line_refused(line: Seq<char>)
    requires
        gives_length(line),
    ensures
        length_given(line) matches Err(failure) ==> length_refused(line, failure.kind),
{
    lemma_length_line(line);
    let value = line.skip(15);
    assert(line.skip(before(line, ':').len() as int + 1) =~= value);
    lemma_trim(value);
    let text = trim(value);
    lemma_unsigned_writes(text, 10, usize::MAX as nat);
    assert(is_trimmed(value, text));
    match unsigned(text, 10, usize::MAX as nat) {
        Some(length) => {
            assert(gives(value, length as int));
        },
        None => {
            assert forall|length: nat| #[trigger] gives(value, length as int) implies length
                > usize::MAX by {
                let other = choose|other: Seq<char>| #[trigger]
                    is_trimmed(value, other) && writes(unsigned_part(other), 10, length as int);
                lemma_trim_unique(value, other);
            }
        },
    }
}

proof fn lemma_lengths_checked(lines: Seq<Seq<char>>)
    ensures
        match body_length(lines) {
            Ok(_) => forall|i: int| 0 <= i < lines.len() ==> length_allowed(#[trigger] lines[i]),
            Err(failure) => exists|i: int|
                0 <= i < lines.len() && length_refused(#[trigger] lines[i], failure.kind),
        },
    decreases lines.len(),
{
    if lines.len() > 0 {
        let front = lines.drop_last();
        let last = lines.len() - 1;
        lemma_lengths_checked(front);
        lemma_length_line(lines[last]);
        if gives_length(lines[last]) {
            lemma_length_given(lines[last]);
            lemma_line_refused(lines[last]);
        }
        match body_length(front) {
            Err(failure) => {
                let i = choose|i: int|
                    0 <= i < front.len() && length_refused(#[trigger] front[i], failure.kind);
                assert(length_refused(lines[i], failure.kind));
            },
            Ok(_) => {
                if let Err(failure) = body_length(lines) {
                    assert(length_refused(lines[last], failure.kind));
                } else {
                    assert forall|i: int| 0 <= i < lines.len() implies length_allowed(
                        #[trigger] lines[i],
                    ) by {
                        if i < last {
                            assert(front[i] == lines[i]);
                        }
                    }
                }
            },
        }
    }
}

/// A request of HTTP/1.1 is refused for the length of its body only where one of its
/// lines gives a length that is too great or cannot be counted; it is read only where
/// none does.
pub proof fn law_each_length_is_checked(bytes: &Vec<u8>, head: Result<RequestHead, HostError>)
    requires
        call_ensures(request_head, (bytes,), head),
    ensures
        ({
            let lines = parts(decode_utf8(bytes@), "\r\n"@).skip(1);
            match head {
                Ok(_) => forall|i: int|
                    0 <= i < lines.len() ==> length_allowed(#[trigger] lines[i]),
                Err(error) => error.kind == ErrorKind::RequestOversize || error.kind
                    == ErrorKind::ContentLengthInvalid ==> exists|i: int|
                    0 <= i < lines.len() && length_refused(#[trigger] lines[i], error.kind),
            }
        }),
{
    lemma_lengths_checked(parts(decode_utf8(bytes@), "\r\n"@).skip(1));
}

/// A head is whole exactly where it ends with a blank line.
pub proof fn law_head_ends_with_a_blank_line(bytes: &Vec<u8>, complete: bool)
    requires
        call_ensures(header_complete, (bytes,), complete),
    ensures
        complete <==> bytes@.len() >= 4 && bytes@.subrange(
            bytes@.len() - 4,
            bytes@.len() as int,
        ) == seq![13u8, 10u8, 13u8, 10u8],
{
}

/// What is asked for depends on the method and the path alone: each call of the
/// host has one method and one path, and anything else is asked of nothing.
pub proof fn law_route(head: &RequestHead, call: Call)
    requires
        call_ensures(route, (head,), call),
    ensures
        call == Call::Health <==> head.method@ == "GET"@ && head.path@ == "/healthz"@,
        call == Call::Run <==> head.method@ == "POST"@ && head.path@ == "/v1/run"@,
        call == Call::Invoke <==> head.method@ == "POST"@ && head.path@ == "/v1/invoke"@,
        call != Call::Unreadable,
{
    reveal_strlit("GET");
    reveal_strlit("POST");
    reveal_strlit("/v1/run");
    reveal_strlit("/v1/invoke");
    assert("GET"@.len() == 3 && "POST"@.len() == 4);
    assert("/v1/run"@.len() == 7 && "/v1/invoke"@.len() == 10);
}

/// Whether bytes are a response of this status with the text of a JSON value as
/// its body and the length of the body in its head.
pub open spec fn responds(bytes: Seq<u8>, status: Seq<char>, body: JsonTree) -> bool {
    exists|length: Seq<char>| #[trigger]
        writes(length, 10, json_text(body).len() as int) && bytes == encode_utf8(
            "HTTP/1.1 "@ + status
                + "\r\nContent-Type: application/json\r\nContent-Length: "@ + length
                + "\r\nConnection: close\r\n\r\n"@,
        ) + json_text(body)
}

proof fn lemma_responds(status: Seq<char>, body: JsonTree)
    ensures
        responds(response_bytes(status, body), status, body),
{
    lemma_decimal_writes(json_text(body).len());
    assert(writes(decimal(json_text(body).len()), 10, json_text(body).len() as int));
}

/// A response has the status and the body that it is given.
pub proof fn law_response_is_as_given(status: &str, body: &Json, bytes: Vec<u8>)
    requires
        call_ensures(write_http_json, (status, body), bytes),
    ensures
        responds(bytes@, status@, body@),
{
    lemma_responds(status@, body@);
}

/// A response tells how many bytes its payload has, and ends with the payload.
pub proof fn law_response_carries_its_payload(status: &str, payload: &Vec<u8>, bytes: Vec<u8>)
    requires
        call_ensures(response_message, (status, payload), bytes),
    ensures
        exists|length: Seq<char>| #[trigger]
            writes(length, 10, payload@.len() as int) && bytes@ == encode_utf8(
                "HTTP/1.1 "@ + status@
                    + "\r\nContent-Type: application/json\r\nContent-Length: "@ + length
                    + "\r\nConnection: close\r\n\r\n"@,
            ) + payload@,
{
    lemma_decimal_writes(payload@.len());
    assert(writes(decimal(payload@.len()), 10, payload@.len() as int));
}

/// Whether a JSON value reports an error: what went wrong, that it did, and no more.
pub open spec fn reports(body: JsonTree, message: Seq<char>) -> bool {
    &&& body.member("error"@) == Some(JsonTree::Text(message))
    &&& body.member("ok"@) == Some(JsonTree::Bool(false))
    &&& only(body, set!["error"@, "ok"@])
}

proof fn lemma_reports(message: Seq<char>)
    ensures
        reports(error_tree(message), message),
{
    reveal_strlit("error");
    reveal_strlit("ok");
    assert("error"@.len() == 5 && "ok"@.len() == 2);
    assert(error_tree(message)->Object_0.dom() =~= set!["error"@, "ok"@]);
}

/// An error is reported in its own words.
pub proof fn law_error_is_reported(text: &str, body: Json)
    requires
        call_ensures(error_body, (text,), body),
    ensures
        reports(body@, text@),
{
    lemma_reports(text@);
}

/// What comes out well is answered with 200 and nothing but what came out, whatever
/// was called that the host offers.
pub proof fn law_success_is_answered_with_200(
    call: Call,
    outcome: &Result<Json, String>,
    bytes: Vec<u8>,
)
    requires
        call_ensures(handle_http, (call, outcome), bytes),
        call == Call::Health || call == Call::Run || call == Call::Invoke,
        outcome is Ok,
    ensures
        responds(bytes@, "200 OK"@, outcome->Ok_0@),
{
    lemma_responds("200 OK"@, outcome->Ok_0@);
}

/// What fails is answered with the fault that it is, and with a body that reports
/// the error: a request that cannot be read or carried out is the caller's, and a
/// run that fails is the host's.
pub proof fn law_failure_is_answered_with_its_error(
    call: Call,
    outcome: &Result<Json, String>,
    bytes: Vec<u8>,
)
    requires
        call_ensures(handle_http, (call, outcome), bytes),
        call != Call::Unknown,
        outcome is Err,
    ensures
        exists|body: JsonTree| #[trigger]
            reports(body, outcome->Err_0@) && responds(
                bytes@,
                if call == Call::Invoke || call == Call::Unreadable {
                    "400 Bad Request"@
                } else {
                    "500 Internal Server Error"@
                },
                body,
            ),
{
    let body = error_tree(outcome->Err_0@);
    lemma_reports(outcome->Err_0@);
    lemma_responds("400 Bad Request"@, body);
    lemma_responds("500 Internal Server Error"@, body);
}

/// What the host does not offer is not found.
pub proof fn law_unknown_is_not_found(outcome: &Result<Json, String>, bytes: Vec<u8>)
    requires
        call_ensures(handle_http, (Call::Unknown, outcome), bytes),
    ensures
        exists|body: JsonTree| #[trigger]
            reports(body, "not found"@) && responds(bytes@, "404 Not Found"@, body),
{
    lemma_reports("not found"@);
    lemma_responds("404 Not Found"@, error_tree("not found"@));
}

} // verus!
