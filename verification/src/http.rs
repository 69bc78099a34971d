//! The resident host's own HTTP: reading a request's head, choosing what it
//! asks for, and writing the response.

use vstd::prelude::*;
use vstd::slice::slice_subrange;
use vstd::utf8::{decode_utf8, encode_utf8, valid_utf8};

use crate::endpoint::head_end;
use crate::error::{because, plain, ErrorKind, Failure, HostError};
use crate::json::{json_text, put, Json, JsonTree};
use crate::number::{decimal, decimal_of, unsigned, unsigned_error, unsigned_of};
use crate::text::{
    before, bytes_after, chars_of, lemma_first_at, lower, lower_char, lowered, part_before, parts,
    parts_of, same, stands_at, starts, texts, trim, trimmed, utf8_refusal, utf8_text, words,
    words_of,
};

verus! {

/// How many bytes the head of a request may have.
pub const MAX_HEADER_BYTES: usize = 16384;

/// How many bytes the body of a request may have.
pub const MAX_REQUEST_BYTES: usize = 1048576;

/// Whether `bytes` are a whole head: the blank line that ends it came last.
pub open spec fn is_whole_head(bytes: Seq<u8>) -> bool {
    head_end().is_suffix_of(bytes)
}

/// Whether `bytes` are a whole head.
pub fn header_complete(bytes: &Vec<u8>) -> (complete: bool)
    ensures
        complete == is_whole_head(bytes@),
{
    let n: usize = bytes.len();
    if n < 4 {
        return false;
    }
    let ghost tail = bytes@.subrange(n - 4, n as int);
    let complete: bool = bytes[n - 4] == 13 && bytes[n - 3] == 10 && bytes[n - 2] == 13 && bytes[n
        - 1] == 10;
    proof {
        assert(tail[0] == bytes@[n - 4] && tail[1] == bytes@[n - 3] && tail[2] == bytes@[n - 2]
            && tail[3] == bytes@[n - 1]);
        if complete {
            assert(tail =~= head_end());
        } else {
            assert(head_end()[0] == 13 && head_end()[1] == 10 && head_end()[2] == 13
                && head_end()[3] == 10);
        }
    }
    complete
}

/// Whether to read one more byte of a head: it is neither whole nor at its bound.
pub fn header_wants_more(bytes: &Vec<u8>) -> (more: bool)
    ensures
        more == (bytes@.len() < MAX_HEADER_BYTES && !is_whole_head(bytes@)),
{
    bytes.len() < MAX_HEADER_BYTES && !header_complete(bytes)
}

/// The head of a request.
#[derive(Debug, PartialEq, Eq)]
pub struct RequestHead {
    pub method: String,
    pub path: String,
    pub content_length: usize,
}

/// The value of a [`RequestHead`].
#[verifier::ext_equal]
pub struct RequestLine {
    pub method: Seq<char>,
    pub path: Seq<char>,
    pub content_length: nat,
}

impl View for RequestHead {
    type V = RequestLine;

    open spec fn view(&self) -> RequestLine {
        RequestLine {
            method: self.method@,
            path: self.path@,
            content_length: self.content_length as nat,
        }
    }
}

/// Whether a line of a head gives the length of the body.
pub open spec fn gives_length(line: Seq<char>) -> bool {
    "content-length:"@.is_prefix_of(lower(line))
}

/// The length that a line of a head gives: what follows its first colon.
pub open spec fn length_given(line: Seq<char>) -> Result<nat, Failure> {
    let value = trim(line.skip(before(line, ':').len() as int + 1));
    match unsigned(value, 10, usize::MAX as nat) {
        None => Err(
            because(
                plain(ErrorKind::ContentLengthInvalid),
                unsigned_error(value, 10, usize::MAX as nat).wording(),
            ),
        ),
        Some(length) => if length > MAX_REQUEST_BYTES {
            Err(plain(ErrorKind::RequestOversize))
        } else {
            Ok(length)
        },
    }
}

/// The length of the body: what the last line that gives one says, and 0 where
/// none does. Each line that gives one must give one within the bound.
pub open spec fn body_length(lines: Seq<Seq<char>>) -> Result<nat, Failure>
    decreases lines.len(),
{
    if lines.len() == 0 {
        Ok(0)
    } else {
        match body_length(lines.drop_last()) {
            Err(failure) => Err(failure),
            Ok(earlier) => if gives_length(lines.last()) {
                length_given(lines.last())
            } else {
                Ok(earlier)
            },
        }
    }
}

/// A word of a line, or nothing where the line has too few.
pub open spec fn word_at(line: Seq<char>, i: int) -> Seq<char> {
    if 0 <= i < words(line).len() {
        words(line)[i]
    } else {
        seq![]
    }
}

/// What the bytes of a head say.
pub open spec fn request_of(bytes: Seq<u8>) -> Result<RequestLine, Failure> {
    if !is_whole_head(bytes) {
        Err(plain(ErrorKind::HeaderIncomplete))
    } else if !valid_utf8(bytes) {
        Err(because(plain(ErrorKind::HeaderNotUtf8), utf8_refusal(bytes)))
    } else {
        let all = parts(decode_utf8(bytes), "\r\n"@);
        if word_at(all[0], 2) != "HTTP/1.1"@ {
            Err(plain(ErrorKind::VersionNotHttp11))
        } else {
            match body_length(all.skip(1)) {
                Err(failure) => Err(failure),
                Ok(content_length) => Ok(
                    RequestLine {
                        method: word_at(all[0], 0),
                        path: word_at(all[0], 1),
                        content_length,
                    },
                ),
            }
        }
    }
}

fn given_length(line: &[char]) -> (length: Result<usize, HostError>)
    requires
        gives_length(line@),
    ensures
        match length {
            Ok(length) => length_given(line@) == Ok::<nat, Failure>(length as nat),
            Err(error) => length_given(line@) == Err::<nat, Failure>(error@),
        },
{
    let name: &[char] = part_before(line, ':');
    let value: &[char] = if name.len() < line.len() {
        let rest: &[char] = slice_subrange(line, name.len() + 1, line.len());
        assert(rest@ =~= line@.skip(before(line@, ':').len() as int + 1));
        rest
    } else {
        proof {
            lemma_has_colon(line@);
        }
        name
    };
    match unsigned_of(trimmed(value), 10, usize::MAX as u64) {
        Err(cause) => Err(
            HostError::plain(ErrorKind::ContentLengthInvalid).because(cause.text()),
        ),
        Ok(length) => if length > MAX_REQUEST_BYTES as u64 {
            Err(HostError::plain(ErrorKind::RequestOversize))
        } else {
            Ok(length as usize)
        },
    }
}

/// A line that gives a length has a colon.
proof fn lemma_has_colon(line: Seq<char>)
    requires
        gives_length(line),
    ensures
        before(line, ':').len() < line.len(),
{
    reveal_strlit("content-length:");
    let name = "content-length:"@;
    assert(name[14] == ':');
    assert(lower(line).subrange(0, name.len() as int)[14] == ':');
    assert(lower(line)[14] == lower_char(line[14]));
    assert(line[14] == ':');
    lemma_first_at(line, seq![':'], 0);
    assert(line.subrange(14, 15) =~= seq![':']);
    assert(stands_at(line, seq![':'], 14));
}

fn take_word(found: &Vec<String>, i: usize) -> (word: String)
    ensures
        word@ == if i < found@.len() {
            found@[i as int]@
        } else {
            seq![]
        },
{
    if i < found.len() {
        found[i].clone()
    } else {
        String::new()
    }
}

/// Reads the head of a request.
pub fn request_head(bytes: &Vec<u8>) -> (head: Result<RequestHead, HostError>)
    ensures
        match head {
            Ok(head) => request_of(bytes@) == Ok::<RequestLine, Failure>(head@),
            Err(error) => request_of(bytes@) == Err::<RequestLine, Failure>(error@),
        },
{
    if !header_complete(bytes) {
        return Err(HostError::plain(ErrorKind::HeaderIncomplete));
    }
    let all: Vec<String> = match utf8_text(bytes.as_slice()) {
        Err(cause) => {
            return Err(HostError::plain(ErrorKind::HeaderNotUtf8).because(cause.as_str()));
        },
        Ok(text) => {
            proof {
                reveal_strlit("\r\n");
            }
            parts_of(chars_of(text).as_slice(), chars_of("\r\n").as_slice())
        },
    };
    let ghost lines = parts(decode_utf8(bytes@), "\r\n"@);
    proof {
        assert(texts(all@) == lines);
        assert(lines.len() > 0);
        assert(texts(all@).len() == all@.len());
        assert(texts(all@)[0] == all@[0]@);
    }
    let found: Vec<String> = words_of(chars_of(all[0].as_str()).as_slice());
    proof {
        assert(texts(found@).len() == found@.len());
        assert forall|i: int| 0 <= i < found@.len() implies #[trigger] found@[i]@ == words(
            lines[0],
        )[i] by {
            assert(texts(found@)[i] == found@[i]@);
        }
    }
    let version: String = take_word(&found, 2);
    if !same(version.as_str(), "HTTP/1.1") {
        return Err(HostError::plain(ErrorKind::VersionNotHttp11));
    }
    let mut content_length: usize = 0;
    let name: Vec<char> = chars_of("content-length:");
    let mut i: usize = 1;
    let ghost rest = lines.skip(1);
    assert(rest.take(0) =~= seq![]);
    while i < all.len()
        invariant
            1 <= i <= all@.len(),
            texts(all@) == lines,
            rest == lines.skip(1),
            name@ == "content-length:"@,
            lines.len() == all@.len(),
            is_whole_head(bytes@),
            valid_utf8(bytes@),
            lines == parts(decode_utf8(bytes@), "\r\n"@),
            word_at(lines[0], 2) == "HTTP/1.1"@,
            body_length(rest.take(i - 1)) == Ok::<nat, Failure>(content_length as nat),
        decreases all.len() - i,
    {
        let line: Vec<char> = chars_of(all[i].as_str());
        proof {
            assert(texts(all@)[i as int] == all@[i as int]@);
            assert(rest.take(i as int).drop_last() =~= rest.take(i - 1));
            assert(rest.take(i as int).last() == line@);
        }
        if starts(lowered(line.as_slice()).as_slice(), name.as_slice()) {
            match given_length(line.as_slice()) {
                Err(error) => {
                    proof {
                        lemma_length_refused(rest, i as int);
                        assert(rest.take(rest.len() as int) =~= rest);
                    }
                    return Err(error);
                },
                Ok(length) => {
                    content_length = length;
                },
            }
        }
        i += 1;
    }
    assert(rest.take(i - 1) =~= rest);
    Ok(RequestHead { method: take_word(&found, 0), path: take_word(&found, 1), content_length })
}

/// A refused length stays refused, whatever lines follow.
proof fn lemma_length_refused(lines: Seq<Seq<char>>, n: int)
    requires
        0 <= n <= lines.len(),
        body_length(lines.take(n)) is Err,
    ensures
        body_length(lines) == body_length(lines.take(n)),
    decreases lines.len() - n,
{
    if n < lines.len() {
        assert(lines.take(n + 1).drop_last() =~= lines.take(n));
        lemma_length_refused(lines, n + 1);
    } else {
        assert(lines.take(n) =~= lines);
    }
}

/// What a request asks of the resident host.
#[derive(Clone, Copy, Debug, PartialEq, Eq, Structural)]
pub enum Call {
    /// `GET /healthz`: whether the host is ready, and what it admits.
    Health,
    /// `POST /v1/run`: run the component's main export.
    Run,
    /// `POST /v1/invoke`: run one export with parameters.
    Invoke,
    /// Nothing that the host offers.
    Unknown,
    /// The request could not be read.
    Unreadable,
}

/// What a method and a path ask for.
pub open spec fn call_of(method: Seq<char>, path: Seq<char>) -> Call {
    if method == "GET"@ && path == "/healthz"@ {
        Call::Health
    } else if method == "POST"@ && path == "/v1/run"@ {
        Call::Run
    } else if method == "POST"@ && path == "/v1/invoke"@ {
        Call::Invoke
    } else {
        Call::Unknown
    }
}

/// Chooses what a request asks for.
pub fn route(head: &RequestHead) -> (call: Call)
    ensures
        call == call_of(head@.method, head@.path),
{
    if same(head.method.as_str(), "GET") && same(head.path.as_str(), "/healthz") {
        Call::Health
    } else if same(head.method.as_str(), "POST") && same(head.path.as_str(), "/v1/run") {
        Call::Run
    } else if same(head.method.as_str(), "POST") && same(head.path.as_str(), "/v1/invoke") {
        Call::Invoke
    } else {
        Call::Unknown
    }
}

/// The status line of the answer to a call that failed.
pub open spec fn failure_status(call: Call) -> Seq<char> {
    match call {
        Call::Unknown => "404 Not Found"@,
        Call::Invoke | Call::Unreadable => "400 Bad Request"@,
        Call::Health | Call::Run => "500 Internal Server Error"@,
    }
}

/// The body that reports an error.
pub open spec fn error_tree(text: Seq<char>) -> JsonTree {
    JsonTree::Object(map!["error"@ => JsonTree::Text(text), "ok"@ => JsonTree::Bool(false)])
}

/// Reports an error as a body.
pub fn error_body(text: &str) -> (json: Json)
    ensures
        json@ == error_tree(text@),
{
    let mut entries: Vec<(String, Json)> = Vec::new();
    put(&mut entries, "error", Json::from_text(text));
    put(&mut entries, "ok", Json::Bool(false));
    Json::Object(entries)
}

/// The head of a response.
pub open spec fn response_head(status: Seq<char>, length: nat) -> Seq<char> {
    "HTTP/1.1 "@ + status + "\r\nContent-Type: application/json\r\nContent-Length: "@ + decimal(
        length,
    ) + "\r\nConnection: close\r\n\r\n"@
}

/// The bytes of a response with this payload.
pub open spec fn message_bytes(status: Seq<char>, payload: Seq<u8>) -> Seq<u8> {
    encode_utf8(response_head(status, payload.len())) + payload
}

/// The bytes of a response.
pub open spec fn response_bytes(status: Seq<char>, body: JsonTree) -> Seq<u8> {
    message_bytes(status, json_text(body))
}

/// Writes a response with this payload.
pub fn response_message(status: &str, payload: &Vec<u8>) -> (bytes: Vec<u8>)
    ensures
        bytes@ == message_bytes(status@, payload@),
{
    let mut head: String = "HTTP/1.1 ".to_owned();
    head.append(status);
    head.append("\r\nContent-Type: application/json\r\nContent-Length: ");
    head.append(decimal_of(payload.len() as u64).as_str());
    head.append("\r\nConnection: close\r\n\r\n");
    bytes_after(head.as_str(), payload)
}

/// Writes a response.
pub fn write_http_json(status: &str, body: &Json) -> (bytes: Vec<u8>)
    ensures
        bytes@ == response_bytes(status@, body@),
{
    response_message(status, &body.encode())
}

/// The answer to a call: the status line and the body. A call for nothing that
/// the host offers is answered so whatever came of it.
pub open spec fn answer_of(call: Call, outcome: Result<JsonTree, Seq<char>>) -> (
    Seq<char>,
    JsonTree,
) {
    match (call, outcome) {
        (Call::Unknown, _) => (failure_status(call), error_tree("not found"@)),
        (_, Ok(body)) => ("200 OK"@, body),
        (_, Err(message)) => (failure_status(call), error_tree(message)),
    }
}

/// Writes the response to a call of which `outcome` came.
pub fn handle_http(call: Call, outcome: &Result<Json, String>) -> (bytes: Vec<u8>)
    requires
        call == Call::Health ==> outcome is Ok,
        call == Call::Unreadable ==> outcome is Err,
    ensures
        bytes@ == ({
            let answer = match *outcome {
                Ok(body) => answer_of(call, Ok(body@)),
                Err(message) => answer_of(call, Err(message@)),
            };
            response_bytes(answer.0, answer.1)
        }),
{
    if call == Call::Unknown {
        return write_http_json("404 Not Found", &error_body("not found"));
    }
    match outcome {
        Ok(body) => write_http_json("200 OK", body),
        Err(message) => {
            let status: &str = match call {
                Call::Unknown => "404 Not Found",
                Call::Invoke | Call::Unreadable => "400 Bad Request",
                Call::Health | Call::Run => "500 Internal Server Error",
            };
            write_http_json(status, &error_body(message.as_str()))
        },
    }
}

/// The length that lines give keeps within the bound.
proof fn lemma_length_bounded(lines: Seq<Seq<char>>)
    ensures
        body_length(lines) matches Ok(length) ==> length <= MAX_REQUEST_BYTES,
    decreases lines.len(),
{
    if lines.len() > 0 {
        lemma_length_bounded(lines.drop_last());
    }
}

/// A request that is read is one of HTTP/1.1 whose body keeps within the bound.
pub proof fn lemma_request_bounded(bytes: Seq<u8>)
    ensures
        request_of(bytes) matches Ok(line) ==> line.content_length <= MAX_REQUEST_BYTES && word_at(
            parts(decode_utf8(bytes), "\r\n"@)[0],
            2,
        ) == "HTTP/1.1"@,
{
    lemma_length_bounded(parts(decode_utf8(bytes), "\r\n"@).skip(1));
}

} // verus!
