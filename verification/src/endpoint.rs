//! Calls of the resident capabilities over loopback HTTP: where they go, what
//! they send, and how the response is read within its bounds.

use vstd::prelude::*;
use vstd::slice::{slice_subrange, slice_to_vec};
use vstd::utf8::{
    decode_utf8, encode_utf8, encode_utf8_decode_utf8, encode_utf8_valid_utf8, is_ascii_chars,
    is_ascii_chars_encode_utf8, valid_utf8,
};

use crate::error::{about, because, plain, told, ErrorKind, Failure, HostError};
use crate::json::{json_read, json_text, Json, JsonTree};
use crate::number::{
    decimal, decimal_of, digit, digits, lemma_digits_read_back, unsigned, unsigned_error,
    unsigned_of,
};
use crate::text::{
    before, bytes_after, chars_of, find_bytes, first_at, is_white, lemma_first_at, lemma_first_is,
    lines, lines_of, lower, lowered, part_before, same, stands_at, starts, text_of, texts, trim,
    trim_end, trim_start, trimmed, utf8_refusal, utf8_text, words, words_of,
};

verus! {

/// What the URL of a capability starts with.
pub open spec fn loopback_prefix() -> Seq<char> {
    "http://127.0.0.1:"@
}

/// The port and the path of a URL that names literal loopback.
pub open spec fn endpoint_of(url: Seq<char>) -> Result<(u16, Seq<char>), Failure> {
    if !loopback_prefix().is_prefix_of(url) {
        Err(plain(ErrorKind::EndpointNotLoopback))
    } else {
        let rest = url.skip(loopback_prefix().len() as int);
        let authority = before(rest, '/');
        let path = if authority.len() < rest.len() {
            rest.skip(authority.len() as int)
        } else {
            seq!['/']
        };
        match unsigned(authority, 10, u16::MAX as nat) {
            None => Err(
                because(
                    plain(ErrorKind::EndpointPortInvalid),
                    unsigned_error(authority, 10, u16::MAX as nat).wording(),
                ),
            ),
            Some(port) => if port == 0 {
                Err(plain(ErrorKind::EndpointPortZero))
            } else {
                Ok((port as u16, path))
            },
        }
    }
}

/// Reads a capability's URL. The address is 127.0.0.1; the port and the path are
/// returned.
pub fn loopback_endpoint(url: &str) -> (endpoint: Result<(u16, String), HostError>)
    ensures
        told(endpoint) == endpoint_of(url@),
{
    let chars: Vec<char> = chars_of(url);
    let prefix: Vec<char> = chars_of("http://127.0.0.1:");
    if !starts(chars.as_slice(), prefix.as_slice()) {
        return Err(HostError::plain(ErrorKind::EndpointNotLoopback));
    }
    let rest: &[char] = slice_subrange(chars.as_slice(), prefix.len(), chars.len());
    assert(rest@ =~= url@.skip(loopback_prefix().len() as int));
    let authority: &[char] = part_before(rest, '/');
    let path: String = if authority.len() < rest.len() {
        let tail: &[char] = slice_subrange(rest, authority.len(), rest.len());
        assert(tail@ =~= rest@.skip(authority@.len() as int));
        text_of(tail)
    } else {
        let root: [char; 1] = ['/'];
        assert(root@ =~= seq!['/']);
        text_of(&root)
    };
    match unsigned_of(authority, 10, 65535) {
        Err(cause) => Err(HostError::plain(ErrorKind::EndpointPortInvalid).because(cause.text())),
        Ok(port) => if port == 0 {
            Err(HostError::plain(ErrorKind::EndpointPortZero))
        } else {
            Ok((port as u16, path))
        },
    }
}

/// The two bytes that end a line of HTTP.
pub open spec fn crlf() -> Seq<u8> {
    seq![13u8, 10u8]
}

/// The size that the first line of a chunk gives.
pub open spec fn chunk_size(line: Seq<u8>) -> Result<nat, Failure> {
    if !valid_utf8(line) {
        Err(because(plain(ErrorKind::ChunkSizeNotUtf8), utf8_refusal(line)))
    } else {
        let digits = trim(before(decode_utf8(line), ';'));
        match unsigned(digits, 16, usize::MAX as nat) {
            None => Err(
                because(
                    plain(ErrorKind::ChunkSizeInvalid),
                    unsigned_error(digits, 16, usize::MAX as nat).wording(),
                ),
            ),
            Some(size) => Ok(size),
        }
    }
}

/// What a chunked body holds from `cursor` on, after `done`. No chunk may take
/// the whole beyond `max` bytes; a chunk of size 0 ends the body.
pub open spec fn chunks(input: Seq<u8>, cursor: nat, done: Seq<u8>, max: int) -> Result<
    Seq<u8>,
    Failure,
>
    decreases input.len() - cursor,
{
    match first_at(input, crlf(), cursor as int) {
        None => Err(plain(ErrorKind::ChunkSizeIncomplete)),
        Some(end) => match chunk_size(input.subrange(cursor as int, end)) {
            Err(failure) => Err(failure),
            Ok(size) => {
                let start = end + 2;
                if size == 0 {
                    Ok(done)
                } else if done.len() + size > max || start + size + 2 > input.len() {
                    Err(plain(ErrorKind::ChunkOversize))
                } else if input.subrange(start + size, start + size + 2) != crlf() {
                    Err(plain(ErrorKind::ChunkTerminatorMissing))
                } else {
                    proof {
                        lemma_first_at(input, crlf(), cursor as int);
                    }
                    chunks(
                        input,
                        (start + size + 2) as nat,
                        done + input.subrange(start, start + size),
                        max,
                    )
                }
            },
        },
    }
}

fn size_of_chunk(line: &[u8]) -> (size: Result<usize, HostError>)
    ensures
        match size {
            Ok(size) => chunk_size(line@) == Ok::<nat, Failure>(size as nat),
            Err(error) => chunk_size(line@) == Err::<nat, Failure>(error@),
        },
{
    match utf8_text(line) {
        Err(cause) => Err(HostError::plain(ErrorKind::ChunkSizeNotUtf8).because(cause.as_str())),
        Ok(text) => {
            let chars: Vec<char> = chars_of(text);
            let digits: &[char] = trimmed(part_before(chars.as_slice(), ';'));
            match unsigned_of(digits, 16, usize::MAX as u64) {
                Err(cause) => Err(
                    HostError::plain(ErrorKind::ChunkSizeInvalid).because(cause.text()),
                ),
                Ok(size) => Ok(size as usize),
            }
        },
    }
}

/// Decodes a chunked body of at most `max_bytes` bytes.
pub fn decode_chunked(input: &[u8], max_bytes: usize) -> (output: Result<Vec<u8>, HostError>)
    ensures
        told(output) == chunks(input@, 0, seq![], max_bytes as int),
        output matches Ok(bytes) ==> bytes@.len() <= max_bytes,
{
    let line_end: [u8; 2] = [13, 10];
    assert(line_end@ =~= crlf());
    let mut cursor: usize = 0;
    let mut output: Vec<u8> = Vec::new();
    loop
        invariant
            cursor <= input@.len(),
            input@.len() == input.len(),
            line_end@ == crlf(),
            output@.len() <= max_bytes,
            chunks(input@, cursor as nat, output@, max_bytes as int) == chunks(
                input@,
                0,
                seq![],
                max_bytes as int,
            ),
        decreases input@.len() - cursor,
    {
        match find_bytes(input, &line_end, cursor) {
            None => {
                return Err(HostError::plain(ErrorKind::ChunkSizeIncomplete));
            },
            Some(end) => {
                match size_of_chunk(slice_subrange(input, cursor, end)) {
                    Err(error) => {
                        return Err(error);
                    },
                    Ok(size) => {
                        let start: usize = end + 2;
                        if size == 0 {
                            return Ok(output);
                        }
                        if size > max_bytes - output.len() || input.len() - start < 2 || size
                            > input.len() - start - 2 {
                            return Err(HostError::plain(ErrorKind::ChunkOversize));
                        }
                        let chunk: &[u8] = slice_subrange(input, start, start + size);
                        let ended: bool = input[start + size] == 13 && input[start + size + 1]
                            == 10;
                        proof {
                            let terminator = input@.subrange(
                                start + size,
                                start + size + 2,
                            );
                            assert(terminator.len() == 2);
                            if ended {
                                assert(terminator =~= crlf());
                            } else {
                                assert(terminator[0] != 13 || terminator[1] != 10);
                                assert(crlf()[0] == 13 && crlf()[1] == 10);
                            }
                        }
                        if !ended {
                            return Err(HostError::plain(ErrorKind::ChunkTerminatorMissing));
                        }
                        let ghost decoded = output@;
                        output.extend_from_slice(chunk);
                        assert(output@ =~= decoded + chunk@);
                        cursor = start + size + 2;
                    },
                }
            },
        }
    }
}

/// The line that gives a chunk of `size` bytes.
pub open spec fn size_line(size: nat) -> Seq<u8> {
    encode_utf8(digits(size, 16)) + crlf()
}

/// A body sent in these chunks: each with its size before it, and a chunk of
/// size 0 at the end.
pub open spec fn chunked(pieces: Seq<Seq<u8>>) -> Seq<u8>
    decreases pieces.len(),
{
    if pieces.len() == 0 {
        size_line(0) + crlf()
    } else {
        size_line(pieces[0].len()) + pieces[0] + crlf() + chunked(pieces.drop_first())
    }
}

/// The chunks of a body, one after the other.
pub open spec fn whole(pieces: Seq<Seq<u8>>) -> Seq<u8>
    decreases pieces.len(),
{
    if pieces.len() == 0 {
        seq![]
    } else {
        pieces[0] + whole(pieces.drop_first())
    }
}

/// The size of a chunk is read from its line, which holds no carriage return.
proof fn lemma_size_read(size: nat)
    requires
        size <= usize::MAX,
    ensures
        chunk_size(encode_utf8(digits(size, 16))) == Ok::<nat, Failure>(size),
        forall|i: int|
            0 <= i < encode_utf8(digits(size, 16)).len() ==> #[trigger] encode_utf8(
                digits(size, 16),
            )[i] != 13,
{
    let text = digits(size, 16);
    let line = encode_utf8(text);
    lemma_digits_read_back(size, 16);
    assert forall|i: int| 0 <= i < text.len() implies '0' <= #[trigger] text[i] <= 'f' && text[i]
        != ';' && !is_white(text[i]) by {
        assert(digit(text[i], 16) is Some);
    }
    assert(is_ascii_chars(text));
    is_ascii_chars_encode_utf8(text);
    assert forall|i: int| 0 <= i < line.len() implies #[trigger] line[i] != 13 by {
        assert(text[i] as u8 == line[i]);
    }
    encode_utf8_valid_utf8(text);
    encode_utf8_decode_utf8(text);
    lemma_first_at(text, seq![';'], 0);
    if first_at(text, seq![';'], 0) is Some {
        let at = first_at(text, seq![';'], 0)->0;
        assert(text.subrange(at, at + 1)[0] == text[at]);
        assert(seq![';'][0] == ';');
    }
    assert(before(text, ';') == text);
    assert(trim_start(text) == text);
    assert(trim_end(text) == text);
    assert(text[0] != '+');
}

/// A line without a carriage return ends where it seems to.
proof fn lemma_line_ends(front: Seq<u8>, line: Seq<u8>, back: Seq<u8>)
    requires
        forall|i: int| 0 <= i < line.len() ==> #[trigger] line[i] != 13,
    ensures
        first_at(front + line + crlf() + back, crlf(), front.len() as int) == Some(
            (front.len() + line.len()) as int,
        ),
        (front + line + crlf() + back).subrange(
            front.len() as int,
            (front.len() + line.len()) as int,
        ) == line,
{
    let input = front + line + crlf() + back;
    let end = (front.len() + line.len()) as int;
    assert(input.subrange(front.len() as int, end) =~= line);
    assert(input.subrange(end, end + 2) =~= crlf());
    assert forall|i: int| front.len() <= i < end implies !#[trigger] stands_at(
        input,
        crlf(),
        i,
    ) by {
        assert(input[i] == line[i - front.len()]);
        if stands_at(input, crlf(), i) {
            assert(input.subrange(i, i + 2)[0] == input[i]);
            assert(crlf()[0] == 13);
        }
    }
    lemma_first_is(input, crlf(), front.len() as int, end);
}

proof fn lemma_chunks(front: Seq<u8>, pieces: Seq<Seq<u8>>, done: Seq<u8>, max: int)
    requires
        done.len() + whole(pieces).len() <= max,
        max <= usize::MAX,
        forall|i: int| 0 <= i < pieces.len() ==> (#[trigger] pieces[i]).len() > 0,
    ensures
        chunks(front + chunked(pieces), front.len(), done, max) == Ok::<Seq<u8>, Failure>(
            done + whole(pieces),
        ),
    decreases pieces.len(),
{
    let input = front + chunked(pieces);
    if pieces.len() == 0 {
        lemma_size_read(0);
        lemma_line_ends(front, encode_utf8(digits(0, 16)), crlf());
        assert(input =~= front + encode_utf8(digits(0, 16)) + crlf() + crlf());
        assert(done + whole(pieces) =~= done);
    } else {
        let piece = pieces[0];
        let rest = pieces.drop_first();
        assert(piece.len() <= whole(pieces).len());
        let line = encode_utf8(digits(piece.len(), 16));
        let back = piece + crlf() + chunked(rest);
        lemma_size_read(piece.len());
        lemma_line_ends(front, line, back);
        assert(input =~= front + line + crlf() + back);
        let start = (front.len() + line.len() + 2) as int;
        let size = piece.len() as int;
        assert(input.subrange(start, start + size) =~= piece);
        assert(input.subrange(start + size, start + size + 2) =~= crlf());
        let next = front + line + crlf() + piece + crlf();
        assert(input =~= next + chunked(rest));
        assert(next.len() == start + size + 2);
        assert forall|i: int| 0 <= i < rest.len() implies (#[trigger] rest[i]).len() > 0 by {
            assert(rest[i] == pieces[i + 1]);
        }
        lemma_chunks(next, rest, done + piece, max);
        assert((done + piece) + whole(rest) =~= done + whole(pieces));
    }
}

/// A body that is sent in chunks is decoded as what was sent, where it keeps
/// within the bound.
pub proof fn lemma_chunked_reads_back(pieces: Seq<Seq<u8>>, max: int)
    requires
        whole(pieces).len() <= max <= usize::MAX,
        forall|i: int| 0 <= i < pieces.len() ==> (#[trigger] pieces[i]).len() > 0,
    ensures
        chunks(chunked(pieces), 0, seq![], max) == Ok::<Seq<u8>, Failure>(whole(pieces)),
{
    let empty: Seq<u8> = seq![];
    lemma_chunks(empty, pieces, empty, max);
    assert(empty + chunked(pieces) =~= chunked(pieces));
    assert(empty + whole(pieces) =~= whole(pieces));
}

/// Whatever is decoded keeps within the bound.
pub proof fn lemma_chunks_bounded(input: Seq<u8>, cursor: nat, done: Seq<u8>, max: int)
    requires
        done.len() <= max,
    ensures
        chunks(input, cursor, done, max) matches Ok(body) ==> body.len() <= max,
    decreases input.len() - cursor,
{
    match first_at(input, crlf(), cursor as int) {
        None => {},
        Some(end) => match chunk_size(input.subrange(cursor as int, end)) {
            Err(_) => {},
            Ok(size) => {
                let start = end + 2;
                if size > 0 && done.len() + size <= max && start + size + 2 <= input.len()
                    && input.subrange(start + size, start + size + 2) == crlf() {
                    lemma_first_at(input, crlf(), cursor as int);
                    lemma_chunks_bounded(
                        input,
                        (start + size + 2) as nat,
                        done + input.subrange(start, start + size),
                        max,
                    );
                }
            },
        },
    }
}

/// A decoded body is the same under every bound that holds it, and is refused under
/// a smaller one.
pub proof fn lemma_chunks_under_any_bound(
    input: Seq<u8>,
    cursor: nat,
    done: Seq<u8>,
    max: int,
    other: int,
)
    requires
        chunks(input, cursor, done, max) is Ok,
        done.len() <= other,
    ensures
        ({
            let body = chunks(input, cursor, done, max)->Ok_0;
            &&& done.len() <= body.len()
            &&& chunks(input, cursor, done, other) == if body.len() <= other {
                Ok::<Seq<u8>, Failure>(body)
            } else {
                Err(plain(ErrorKind::ChunkOversize))
            }
        }),
    decreases input.len() - cursor,
{
    let end = first_at(input, crlf(), cursor as int)->0;
    let size = chunk_size(input.subrange(cursor as int, end))->Ok_0;
    if size > 0 {
        let start = end + 2;
        let longer = done + input.subrange(start, start + size);
        lemma_first_at(input, crlf(), cursor as int);
        if longer.len() <= other {
            lemma_chunks_under_any_bound(input, (start + size + 2) as nat, longer, max, other);
        } else {
            lemma_chunks_under_any_bound(input, (start + size + 2) as nat, longer, max, max);
        }
    }
}

/// What stands first in bytes stands first in longer ones.
proof fn lemma_first_stays(input: Seq<u8>, tail: Seq<u8>, from: int)
    requires
        0 <= from,
        first_at(input, crlf(), from) is Some,
    ensures
        first_at(input + tail, crlf(), from) == first_at(input, crlf(), from),
{
    lemma_first_at(input, crlf(), from);
    let end = first_at(input, crlf(), from)->0;
    let longer = input + tail;
    assert(longer.subrange(end, end + 2) =~= input.subrange(end, end + 2));
    assert forall|i: int| from <= i < end implies !#[trigger] stands_at(longer, crlf(), i) by {
        assert(longer.subrange(i, i + 2) =~= input.subrange(i, i + 2));
        assert(!stands_at(input, crlf(), i));
    }
    lemma_first_is(longer, crlf(), from, end);
}

/// Bytes that follow the last chunk of a body change nothing.
pub proof fn lemma_chunks_ignore_what_follows(
    input: Seq<u8>,
    tail: Seq<u8>,
    cursor: nat,
    done: Seq<u8>,
    max: int,
)
    requires
        chunks(input, cursor, done, max) is Ok,
    ensures
        chunks(input + tail, cursor, done, max) == chunks(input, cursor, done, max),
    decreases input.len() - cursor,
{
    let longer = input + tail;
    let end = first_at(input, crlf(), cursor as int)->0;
    lemma_first_at(input, crlf(), cursor as int);
    lemma_first_stays(input, tail, cursor as int);
    assert(longer.subrange(cursor as int, end) =~= input.subrange(cursor as int, end));
    let size = chunk_size(input.subrange(cursor as int, end))->Ok_0;
    if size > 0 {
        let start = end + 2;
        assert(longer.subrange(start, start + size) =~= input.subrange(start, start + size));
        assert(longer.subrange(start + size, start + size + 2) =~= input.subrange(
            start + size,
            start + size + 2,
        ));
        lemma_chunks_ignore_what_follows(
            input,
            tail,
            (start + size + 2) as nat,
            done + input.subrange(start, start + size),
            max,
        );
    }
}

/// A request that is ready to be sent to 127.0.0.1.
pub struct PostRequest {
    pub port: u16,
    /// The head and the body, as they are sent.
    pub bytes: Vec<u8>,
    /// How long to wait for the connection, and for each read and write.
    pub deadline_ms: u64,
    /// How many bytes of the response to read at most: one more than accepted.
    pub read_limit: u64,
}

/// How many bytes a response may have in all: its body's bound and 16 KiB for
/// its head.
pub open spec fn hard_limit(max_response_bytes: u64) -> int {
    let bound: int = if max_response_bytes <= usize::MAX {
        max_response_bytes as int
    } else {
        usize::MAX as int
    };
    if bound + 16384 <= usize::MAX {
        bound + 16384
    } else {
        usize::MAX as int
    }
}

fn limit_of(max_response_bytes: u64) -> (limit: usize)
    ensures
        limit == hard_limit(max_response_bytes),
{
    let bound: usize = if max_response_bytes <= usize::MAX as u64 {
        max_response_bytes as usize
    } else {
        usize::MAX
    };
    if bound <= usize::MAX - 16384 {
        bound + 16384
    } else {
        usize::MAX
    }
}

/// The head of a request: one to `path` on `port` with a body of `length` bytes.
pub open spec fn post_head(port: u16, path: Seq<char>, length: nat) -> Seq<char> {
    "POST "@ + path + " HTTP/1.1\r\nHost: 127.0.0.1:"@ + decimal(port as nat)
        + "\r\nContent-Type: application/json\r\nContent-Length: "@ + decimal(length)
        + "\r\nConnection: close\r\n\r\n"@
}

/// What is sent for a request with this payload.
pub open spec fn message_bytes(port: u16, path: Seq<char>, payload: Seq<u8>) -> Seq<u8> {
    encode_utf8(post_head(port, path, payload.len())) + payload
}

/// What is sent for a request with this body.
pub open spec fn post_bytes(port: u16, path: Seq<char>, body: JsonTree) -> Seq<u8> {
    message_bytes(port, path, json_text(body))
}

/// Writes a request with this payload.
pub fn post_message(port: u16, path: &str, payload: &Vec<u8>) -> (bytes: Vec<u8>)
    ensures
        bytes@ == message_bytes(port, path@, payload@),
{
    let mut head: String = "POST ".to_owned();
    head.append(path);
    head.append(" HTTP/1.1\r\nHost: 127.0.0.1:");
    head.append(decimal_of(port as u64).as_str());
    head.append("\r\nContent-Type: application/json\r\nContent-Length: ");
    head.append(decimal_of(payload.len() as u64).as_str());
    head.append("\r\nConnection: close\r\n\r\n");
    bytes_after(head.as_str(), payload)
}

/// Prepares a request that posts `body` to a capability's endpoint.
pub fn post_request(
    endpoint: &str,
    body: &Json,
    deadline_ms: u64,
    max_response_bytes: u64,
) -> (prepared: Result<PostRequest, HostError>)
    ensures
        match prepared {
            Ok(request) => {
                &&& deadline_ms > 0
                &&& max_response_bytes > 0
                &&& endpoint_of(endpoint@) matches Ok((port, path))
                &&& request.port == port
                &&& request.bytes@ == post_bytes(port, path, body@)
                &&& request.deadline_ms == deadline_ms
                &&& request.read_limit == if hard_limit(max_response_bytes) < usize::MAX {
                    hard_limit(max_response_bytes) + 1
                } else {
                    hard_limit(max_response_bytes)
                }
            },
            Err(error) => if deadline_ms == 0 || max_response_bytes == 0 {
                error@ == plain(ErrorKind::HttpBoundsNotPositive)
            } else {
                endpoint_of(endpoint@) == Err::<(u16, Seq<char>), Failure>(error@)
            },
        },
{
    if deadline_ms == 0 || max_response_bytes == 0 {
        return Err(HostError::plain(ErrorKind::HttpBoundsNotPositive));
    }
    match loopback_endpoint(endpoint) {
        Err(error) => Err(error),
        Ok((port, path)) => {
            let limit: usize = limit_of(max_response_bytes);
            let read_limit: u64 = if limit < usize::MAX {
                (limit + 1) as u64
            } else {
                limit as u64
            };
            Ok(
                PostRequest {
                    port,
                    bytes: post_message(port, path.as_str(), &body.encode()),
                    deadline_ms,
                    read_limit,
                },
            )
        },
    }
}

/// The bytes that end the head of a message.
pub open spec fn head_end() -> Seq<u8> {
    seq![13u8, 10u8, 13u8, 10u8]
}

/// The status in the first line of a response's head.
pub open spec fn status_of(head: Seq<char>) -> Option<nat> {
    if lines(head).len() > 0 && words(lines(head)[0]).len() > 1 {
        unsigned(words(lines(head)[0])[1], 10, u16::MAX as nat)
    } else {
        None
    }
}

/// Whether a line of a response's head says that its body is chunked.
pub open spec fn says_chunked(line: Seq<char>) -> bool {
    trim(lower(line)) == "transfer-encoding: chunked"@
}

/// Whether a response's head says that its body is chunked.
pub open spec fn is_chunked(head: Seq<char>) -> bool {
    exists|i: int| 0 <= i < lines(head).len() && says_chunked(#[trigger] lines(head)[i])
}

/// The body of a response, after `head`.
pub open spec fn body_of(head: Seq<char>, raw: Seq<u8>, max: usize) -> Result<Seq<u8>, Failure> {
    if is_chunked(head) {
        chunks(raw, 0, seq![], max as int)
    } else {
        Ok(raw)
    }
}

/// The body that a response carries.
pub open spec fn carried(response: Seq<u8>, max_response_bytes: u64) -> Result<Seq<u8>, Failure> {
    if response.len() > hard_limit(max_response_bytes) {
        Err(plain(ErrorKind::ResponseOversize))
    } else {
        match first_at(response, head_end(), 0) {
            None => Err(plain(ErrorKind::ResponseInvalid)),
            Some(split) => if !valid_utf8(response.take(split)) {
                Err(
                    because(
                        plain(ErrorKind::ResponseHeadersNotUtf8),
                        utf8_refusal(response.take(split)),
                    ),
                )
            } else {
                let head = decode_utf8(response.take(split));
                match status_of(head) {
                    None => Err(plain(ErrorKind::ResponseStatusInvalid)),
                    Some(status) => if !(200 <= status < 300) {
                        Err(about(ErrorKind::ResponseStatusRejected, decimal(status)))
                    } else {
                        match body_of(head, response.skip(split + 4), max_response_bytes as usize) {
                            Err(failure) => Err(failure),
                            Ok(body) => if body.len() > max_response_bytes as usize {
                                Err(plain(ErrorKind::ResponseBodyOversize))
                            } else {
                                Ok(body)
                            },
                        }
                    },
                }
            },
        }
    }
}

/// The JSON value that a response carries, and the length of its body.
pub open spec fn reply_of(response: Seq<u8>, max_response_bytes: u64) -> Result<
    (JsonTree, nat),
    Failure,
> {
    match carried(response, max_response_bytes) {
        Err(failure) => Err(failure),
        Ok(body) => match json_read(body) {
            Err(cause) => Err(because(plain(ErrorKind::ResponseBodyNotJson), cause)),
            Ok(tree) => Ok((tree, body.len())),
        },
    }
}

fn read_status(head: &Vec<String>) -> (status: Option<u64>)
    ensures
        match status {
            Some(status) => head@.len() > 0 && words(head@[0]@).len() > 1 && unsigned(
                words(head@[0]@)[1],
                10,
                u16::MAX as nat,
            ) == Some(status as nat),
            None => !(head@.len() > 0 && words(head@[0]@).len() > 1 && unsigned(
                words(head@[0]@)[1],
                10,
                u16::MAX as nat,
            ) is Some),
        },
{
    if head.len() == 0 {
        return None;
    }
    let first: Vec<char> = chars_of(head[0].as_str());
    let found: Vec<String> = words_of(first.as_slice());
    assert(texts(found@).len() == found@.len());
    if found.len() < 2 {
        return None;
    }
    assert(texts(found@)[1] == found@[1]@);
    let status: Vec<char> = chars_of(found[1].as_str());
    match unsigned_of(status.as_slice(), 10, 65535) {
        Ok(status) => Some(status),
        Err(_) => None,
    }
}

fn find_chunked(head: &Vec<String>) -> (chunked: bool)
    ensures
        chunked == exists|i: int| 0 <= i < head@.len() && says_chunked(#[trigger] head@[i]@),
{
    let mut i: usize = 0;
    while i < head.len()
        invariant
            i <= head@.len(),
            forall|j: int| 0 <= j < i ==> !says_chunked(#[trigger] head@[j]@),
        decreases head.len() - i,
    {
        let line: Vec<char> = chars_of(head[i].as_str());
        let small: Vec<char> = lowered(line.as_slice());
        let bare: String = text_of(trimmed(small.as_slice()));
        if same(bare.as_str(), "transfer-encoding: chunked") {
            assert(says_chunked(head@[i as int]@));
            return true;
        }
        i += 1;
    }
    false
}

/// Takes the body of a response: its status must tell success, and the body must
/// have at most `max_response_bytes` bytes.
pub fn response_body(response: &[u8], max_response_bytes: u64) -> (body: Result<
    Vec<u8>,
    HostError,
>)
    ensures
        told(body) == carried(response@, max_response_bytes),
        body matches Ok(bytes) ==> bytes@.len() <= max_response_bytes as usize,
{
    if response.len() > limit_of(max_response_bytes) {
        return Err(HostError::plain(ErrorKind::ResponseOversize));
    }
    let end: [u8; 4] = [13, 10, 13, 10];
    assert(end@ =~= head_end());
    let split: usize = match find_bytes(response, &end, 0) {
        None => {
            return Err(HostError::plain(ErrorKind::ResponseInvalid));
        },
        Some(split) => split,
    };
    let head_bytes: &[u8] = slice_subrange(response, 0, split);
    assert(head_bytes@ =~= response@.take(split as int));
    let head: Vec<String> = match utf8_text(head_bytes) {
        Err(cause) => {
            return Err(
                HostError::plain(ErrorKind::ResponseHeadersNotUtf8).because(cause.as_str()),
            );
        },
        Ok(text) => lines_of(chars_of(text).as_slice()),
    };
    let ghost text = decode_utf8(response@.take(split as int));
    proof {
        assert(texts(head@) == lines(text));
        assert(texts(head@).len() == head@.len());
        assert forall|i: int| 0 <= i < head@.len() implies #[trigger] head@[i]@ == lines(
            text,
        )[i] by {
            assert(texts(head@)[i] == head@[i]@);
        }
    }
    let status: u64 = match read_status(&head) {
        None => {
            return Err(HostError::plain(ErrorKind::ResponseStatusInvalid));
        },
        Some(status) => status,
    };
    if !(200 <= status && status < 300) {
        return Err(
            HostError::about(ErrorKind::ResponseStatusRejected, decimal_of(status).as_str()),
        );
    }
    let raw: &[u8] = slice_subrange(response, split + 4, response.len());
    assert(raw@ =~= response@.skip(split + 4));
    let chunked: bool = find_chunked(&head);
    proof {
        if is_chunked(text) {
            let i = choose|i: int|
                0 <= i < lines(text).len() && says_chunked(#[trigger] lines(text)[i]);
            assert(says_chunked(head@[i]@));
        }
    }
    let max: usize = max_response_bytes as usize;
    let body: Vec<u8> = if chunked {
        match decode_chunked(raw, max) {
            Err(error) => {
                return Err(error);
            },
            Ok(bytes) => bytes,
        }
    } else {
        slice_to_vec(raw)
    };
    if body.len() > max {
        return Err(HostError::plain(ErrorKind::ResponseBodyOversize));
    }
    Ok(body)
}

/// Reads a response: its status must tell success, and its body must be one JSON
/// value of at most `max_response_bytes` bytes.
pub fn post_response(response: &[u8], max_response_bytes: u64) -> (reply: Result<
    (Json, usize),
    HostError,
>)
    ensures
        match reply {
            Ok((json, length)) => reply_of(response@, max_response_bytes) == Ok::<
                (JsonTree, nat),
                Failure,
            >((json@, length as nat)) && length <= max_response_bytes as usize,
            Err(error) => reply_of(response@, max_response_bytes) == Err::<
                (JsonTree, nat),
                Failure,
            >(error@),
        },
{
    let body: Vec<u8> = match response_body(response, max_response_bytes) {
        Err(error) => {
            return Err(error);
        },
        Ok(body) => body,
    };
    match Json::read(body.as_slice()) {
        Err(cause) => Err(
            HostError::plain(ErrorKind::ResponseBodyNotJson).because(cause.as_str()),
        ),
        Ok(json) => Ok((json, body.len())),
    }
}

/// A capability is called on this machine alone: its URL names literal loopback,
/// and a port that is not 0.
pub proof fn lemma_endpoint_is_loopback(url: Seq<char>)
    ensures
        endpoint_of(url) matches Ok((port, _)) ==> loopback_prefix().is_prefix_of(url) && port > 0,
{
}

} // verus!
