//! Text: white space, lines, words, small letters, and the search for a
//! pattern.

use vstd::prelude::*;
use vstd::slice::{slice_subrange, slice_to_vec};
use vstd::utf8::{decode_utf8, encode_utf8, encode_utf8_decode_utf8, valid_utf8};

verus! {

/// `String::push`: the character comes last.
pub assume_specification[ String::push ](text: &mut String, character: char)
    ensures
        final(text)@ == old(text)@.push(character),
;

/// What `core::str::from_utf8` says of bytes that are no UTF-8.
pub uninterp spec fn utf8_refusal(bytes: Seq<u8>) -> Seq<char>;

/// `core::str::from_utf8`: the text whose UTF-8 encoding the bytes are, where
/// they are one, and else what the error says.
#[verifier::external_body]
fn read_utf8(bytes: &[u8]) -> (text: Result<&str, String>)
    ensures
        match text {
            Ok(text) => valid_utf8(bytes@) && encode_utf8(text@) == bytes@,
            Err(cause) => !valid_utf8(bytes@) && cause@ == utf8_refusal(bytes@),
        },
{
    match core::str::from_utf8(bytes) {
        Ok(text) => Ok(text),
        Err(error) => Err(error.to_string()),
    }
}

/// The text of UTF-8 bytes, or why they are none.
pub fn utf8_text(bytes: &[u8]) -> (text: Result<&str, String>)
    ensures
        match text {
            Ok(text) => valid_utf8(bytes@) && text@ == decode_utf8(bytes@),
            Err(cause) => !valid_utf8(bytes@) && cause@ == utf8_refusal(bytes@),
        },
{
    match read_utf8(bytes) {
        Ok(text) => {
            proof {
                encode_utf8_decode_utf8(text@);
            }
            Ok(text)
        },
        Err(cause) => Err(cause),
    }
}

/// Whether two texts are the same.
pub fn same(a: &str, b: &str) -> (equal: bool)
    ensures
        equal == (a@ == b@),
{
    let left: &[u8] = a.as_bytes();
    let right: &[u8] = b.as_bytes();
    proof {
        encode_utf8_decode_utf8(a@);
        encode_utf8_decode_utf8(b@);
    }
    if left.len() != right.len() {
        return false;
    }
    let mut i: usize = 0;
    while i < left.len()
        invariant
            i <= left.len(),
            left@.len() == right@.len(),
            left@ == encode_utf8(a@),
            right@ == encode_utf8(b@),
            forall|j: int| 0 <= j < i ==> left@[j] == right@[j],
        decreases left.len() - i,
    {
        if left[i] != right[i] {
            return false;
        }
        i += 1;
    }
    assert(left@ =~= right@);
    true
}

/// The characters of a text.
pub fn chars_of(text: &str) -> (chars: Vec<char>)
    ensures
        chars@ == text@,
{
    let mut chars: Vec<char> = Vec::new();
    for character in it: text.chars()
        invariant
            it.seq() == text@,
            chars@ == text@.take(it.index() as int),
    {
        proof {
            let i = it.index() as int;
            assert(text@.take(i + 1) =~= text@.take(i).push(character));
        }
        chars.push(character);
    }
    assert(text@.take(text@.len() as int) =~= text@);
    chars
}

/// The text of characters.
pub fn text_of(chars: &[char]) -> (text: String)
    ensures
        text@ == chars@,
{
    let mut text = String::new();
    let mut i: usize = 0;
    while i < chars.len()
        invariant
            i <= chars.len(),
            text@ == chars@.take(i as int),
        decreases chars.len() - i,
    {
        text.push(chars[i]);
        proof {
            assert(chars@.take(i + 1) =~= chars@.take(i as int).push(chars@[i as int]));
        }
        i += 1;
    }
    assert(chars@.take(i as int) =~= chars@);
    text
}

/// The texts of a sequence of strings.
pub open spec fn texts(strings: Seq<String>) -> Seq<Seq<char>> {
    Seq::new(strings.len(), |i: int| strings[i]@)
}

/// The characters that Unicode counts as white space.
pub open spec fn is_white(c: char) -> bool {
    ||| '\u{9}' <= c <= '\u{d}'
    ||| c == '\u{20}'
    ||| c == '\u{85}'
    ||| c == '\u{a0}'
    ||| c == '\u{1680}'
    ||| '\u{2000}' <= c <= '\u{200a}'
    ||| c == '\u{2028}'
    ||| c == '\u{2029}'
    ||| c == '\u{202f}'
    ||| c == '\u{205f}'
    ||| c == '\u{3000}'
}

fn white(c: char) -> (yes: bool)
    ensures
        yes == is_white(c),
{
    ('\u{9}' <= c && c <= '\u{d}') || c == '\u{20}' || c == '\u{85}' || c == '\u{a0}' || c
        == '\u{1680}' || ('\u{2000}' <= c && c <= '\u{200a}') || c == '\u{2028}' || c == '\u{2029}'
        || c == '\u{202f}' || c == '\u{205f}' || c == '\u{3000}'
}

/// A text without the white space at its start.
pub open spec fn trim_start(s: Seq<char>) -> Seq<char>
    decreases s.len(),
{
    if s.len() > 0 && is_white(s[0]) {
        trim_start(s.skip(1))
    } else {
        s
    }
}

/// A text without the white space at its end.
pub open spec fn trim_end(s: Seq<char>) -> Seq<char>
    decreases s.len(),
{
    if s.len() > 0 && is_white(s.last()) {
        trim_end(s.drop_last())
    } else {
        s
    }
}

/// A text without the white space around it.
pub open spec fn trim(s: Seq<char>) -> Seq<char> {
    trim_end(trim_start(s))
}

fn start_of(s: &[char]) -> (start: usize)
    ensures
        start <= s@.len(),
        trim_start(s@) == s@.skip(start as int),
{
    let mut i: usize = 0;
    assert(s@.skip(0) =~= s@);
    while i < s.len() && white(s[i])
        invariant
            i <= s@.len(),
            trim_start(s@) == trim_start(s@.skip(i as int)),
        decreases s.len() - i,
    {
        assert(s@.skip(i as int).skip(1) =~= s@.skip(i + 1));
        i += 1;
    }
    i
}

/// Removes the white space around a text.
pub fn trimmed(s: &[char]) -> (t: &[char])
    ensures
        t@ == trim(s@),
{
    let start: usize = start_of(s);
    let rest: &[char] = slice_subrange(s, start, s.len());
    assert(rest@ =~= s@.skip(start as int));
    let mut end: usize = rest.len();
    assert(rest@.take(end as int) =~= rest@);
    while end > 0 && white(rest[end - 1])
        invariant
            end <= rest@.len(),
            trim_end(rest@) == trim_end(rest@.take(end as int)),
        decreases end,
    {
        assert(rest@.take(end as int).drop_last() =~= rest@.take(end - 1));
        end -= 1;
    }
    let t: &[char] = slice_subrange(rest, 0, end);
    assert(t@ =~= rest@.take(end as int));
    t
}

/// How many characters of `s` come before the first white space.
pub open spec fn word_length(s: Seq<char>) -> nat
    decreases s.len(),
{
    if s.len() == 0 || is_white(s[0]) {
        0
    } else {
        1 + word_length(s.skip(1))
    }
}

/// A word is no longer than its text, and not empty where none but it starts the text.
pub proof fn lemma_word_length(s: Seq<char>)
    ensures
        word_length(s) <= s.len(),
        s.len() > 0 && !is_white(s[0]) ==> word_length(s) > 0,
    decreases s.len(),
{
    if s.len() > 0 && !is_white(s[0]) {
        lemma_word_length(s.skip(1));
    }
}

/// The words of a text: its longest parts without white space.
pub open spec fn words(s: Seq<char>) -> Seq<Seq<char>>
    decreases s.len(),
{
    if s.len() == 0 {
        seq![]
    } else if is_white(s[0]) {
        words(s.skip(1))
    } else {
        proof {
            lemma_word_length(s);
        }
        seq![s.take(word_length(s) as int)] + words(s.skip(word_length(s) as int))
    }
}

/// Splits a text into its words.
pub fn words_of(s: &[char]) -> (found: Vec<String>)
    ensures
        texts(found@) == words(s@),
{
    let mut found: Vec<String> = Vec::new();
    let mut i: usize = 0;
    assert(s@.skip(0) =~= s@);
    assert(texts(found@) + words(s@) =~= words(s@));
    while i < s.len()
        invariant
            i <= s@.len(),
            texts(found@) + words(s@.skip(i as int)) == words(s@),
        decreases s.len() - i,
    {
        let ghost rest = s@.skip(i as int);
        if white(s[i]) {
            assert(rest.skip(1) =~= s@.skip(i + 1));
            i += 1;
        } else {
            let mut end: usize = i;
            assert(s@.skip(i as int) =~= rest);
            while end < s.len() && !white(s[end])
                invariant
                    i <= end <= s@.len(),
                    rest == s@.skip(i as int),
                    word_length(rest) == (end - i) + word_length(s@.skip(end as int)),
                decreases s.len() - end,
            {
                assert(s@.skip(end as int).skip(1) =~= s@.skip(end + 1));
                end += 1;
            }
            let word: String = text_of(slice_subrange(s, i, end));
            proof {
                lemma_word_length(rest);
                let n = word_length(rest) as int;
                assert(rest.take(n) =~= s@.subrange(i as int, end as int));
                assert(rest.skip(n) =~= s@.skip(end as int));
                assert(texts(found@.push(word)) =~= texts(found@).push(word@));
                assert(texts(found@).push(word@) + words(rest.skip(n)) =~= texts(found@) + (
                seq![word@] + words(rest.skip(n))));
            }
            found.push(word);
            i = end;
        }
    }
    assert(words(s@.skip(i as int)) =~= seq![]);
    assert(texts(found@) =~= words(s@));
    found
}

/// Whether `pattern` stands in `s` at `at`.
pub open spec fn stands_at<A>(s: Seq<A>, pattern: Seq<A>, at: int) -> bool {
    0 <= at && at + pattern.len() <= s.len() && s.subrange(at, at + pattern.len()) == pattern
}

/// Where `pattern` stands in `s` first, from `from` on.
pub open spec fn first_at<A>(s: Seq<A>, pattern: Seq<A>, from: int) -> Option<int>
    decreases s.len() - from + 1,
{
    if from + pattern.len() > s.len() {
        None
    } else if stands_at(s, pattern, from) {
        Some(from)
    } else {
        first_at(s, pattern, from + 1)
    }
}

/// [`first_at`] finds a place of the pattern, and the first one.
pub proof fn lemma_first_at<A>(s: Seq<A>, pattern: Seq<A>, from: int)
    requires
        0 <= from,
    ensures
        match first_at(s, pattern, from) {
            Some(at) => from <= at && stands_at(s, pattern, at) && forall|i: int|
                from <= i < at ==> !#[trigger] stands_at(s, pattern, i),
            None => forall|i: int| from <= i ==> !#[trigger] stands_at(s, pattern, i),
        },
    decreases s.len() - from + 1,
{
    if from + pattern.len() <= s.len() && !stands_at(s, pattern, from) {
        lemma_first_at(s, pattern, from + 1);
    }
}

/// Where a pattern stands and stood nowhere before, it stands first.
pub proof fn lemma_first_is<A>(s: Seq<A>, pattern: Seq<A>, from: int, at: int)
    requires
        0 <= from <= at,
        stands_at(s, pattern, at),
        forall|i: int| from <= i < at ==> !#[trigger] stands_at(s, pattern, i),
    ensures
        first_at(s, pattern, from) == Some(at),
    decreases at - from,
{
    if from < at {
        assert(!stands_at(s, pattern, from));
        lemma_first_is(s, pattern, from + 1, at);
    }
}

/// What a pattern is made of.
trait Unit: Copy {
    fn same_as(self, other: Self) -> (equal: bool)
        ensures
            equal == (self == other),
    ;
}

impl Unit for u8 {
    fn same_as(self, other: u8) -> (equal: bool) {
        self == other
    }
}

impl Unit for char {
    fn same_as(self, other: char) -> (equal: bool) {
        self == other
    }
}

/// Finds where `pattern` stands first, from `from` on.
fn find<A: Unit>(s: &[A], pattern: &[A], from: usize) -> (found: Option<usize>)
    requires
        from <= s@.len(),
    ensures
        match found {
            Some(at) => first_at(s@, pattern@, from as int) == Some(at as int) && from <= at && at
                + pattern@.len() <= s@.len(),
            None => first_at(s@, pattern@, from as int) is None,
        },
{
    let mut at: usize = from;
    while pattern.len() <= s.len() - at
        invariant
            from <= at <= s@.len(),
            first_at(s@, pattern@, from as int) == first_at(s@, pattern@, at as int),
        decreases s.len() - at,
    {
        let mut i: usize = 0;
        while i < pattern.len() && s[at + i].same_as(pattern[i])
            invariant
                i <= pattern@.len(),
                at + pattern@.len() <= s@.len(),
                s@.len() == s.len(),
                forall|j: int| 0 <= j < i ==> s@[at + j] == pattern@[j],
            decreases pattern.len() - i,
        {
            i += 1;
        }
        let ghost part = s@.subrange(at as int, at + pattern@.len());
        if i == pattern.len() {
            assert(part =~= pattern@);
            return Some(at);
        }
        assert(part[i as int] != pattern@[i as int]);
        if at == s.len() {
            return None;
        }
        at += 1;
    }
    None
}

/// Finds where `pattern` stands first, from `from` on.
pub fn find_bytes(s: &[u8], pattern: &[u8], from: usize) -> (found: Option<usize>)
    requires
        from <= s@.len(),
    ensures
        match found {
            Some(at) => first_at(s@, pattern@, from as int) == Some(at as int) && from <= at && at
                + pattern@.len() <= s@.len(),
            None => first_at(s@, pattern@, from as int) is None,
        },
{
    find(s, pattern, from)
}

/// Finds where `pattern` stands first, from `from` on.
pub fn find_chars(s: &[char], pattern: &[char], from: usize) -> (found: Option<usize>)
    requires
        from <= s@.len(),
    ensures
        match found {
            Some(at) => first_at(s@, pattern@, from as int) == Some(at as int) && from <= at && at
                + pattern@.len() <= s@.len(),
            None => first_at(s@, pattern@, from as int) is None,
        },
{
    find(s, pattern, from)
}

/// A line without the carriage return that ends it.
pub open spec fn without_return(line: Seq<char>) -> Seq<char> {
    if line.len() > 0 && line.last() == '\r' {
        line.drop_last()
    } else {
        line
    }
}

/// The lines of a text. A line feed, or a carriage return and a line feed, ends
/// a line; the last line need not be ended.
pub open spec fn lines(s: Seq<char>) -> Seq<Seq<char>>
    decreases s.len(),
{
    if s.len() == 0 {
        seq![]
    } else {
        match first_at(s, seq!['\n'], 0) {
            Some(at) => if 0 <= at < s.len() {
                seq![without_return(s.take(at))] + lines(s.skip(at + 1))
            } else {
                seq![s]
            },
            None => seq![s],
        }
    }
}

/// Splits a text into its lines.
pub fn lines_of(s: &[char]) -> (found: Vec<String>)
    ensures
        texts(found@) == lines(s@),
{
    let feed: [char; 1] = ['\n'];
    assert(feed@ =~= seq!['\n']);
    let mut found: Vec<String> = Vec::new();
    let mut i: usize = 0;
    assert(s@.skip(0) =~= s@);
    assert(texts(found@) + lines(s@) =~= lines(s@));
    while i < s.len()
        invariant
            i <= s@.len(),
            feed@ == seq!['\n'],
            texts(found@) + lines(s@.skip(i as int)) == lines(s@),
        decreases s.len() - i,
    {
        let rest: &[char] = slice_subrange(s, i, s.len());
        assert(rest@ =~= s@.skip(i as int));
        match find_chars(rest, &feed, 0) {
            Some(at) => {
                let end: usize = if at > 0 && rest[at - 1] == '\r' {
                    at - 1
                } else {
                    at
                };
                let line: String = text_of(slice_subrange(rest, 0, end));
                proof {
                    assert(line@ =~= without_return(rest@.take(at as int)));
                    assert(rest@.skip(at + 1) =~= s@.skip(i + at + 1));
                    assert(texts(found@.push(line)) =~= texts(found@).push(line@));
                    assert(texts(found@).push(line@) + lines(rest@.skip(at + 1)) =~= texts(found@)
                        + (seq![line@] + lines(rest@.skip(at + 1))));
                }
                found.push(line);
                i += at + 1;
            },
            None => {
                let line: String = text_of(rest);
                proof {
                    assert(texts(found@.push(line)) =~= texts(found@).push(line@));
                    assert(texts(found@) + seq![line@] =~= texts(found@).push(line@));
                }
                found.push(line);
                return found;
            },
        }
    }
    assert(lines(s@.skip(i as int)) =~= seq![]);
    assert(texts(found@) =~= lines(s@));
    found
}

/// The parts of a text between the places where `pattern` stands.
pub open spec fn parts(s: Seq<char>, pattern: Seq<char>) -> Seq<Seq<char>>
    decreases s.len(),
{
    match first_at(s, pattern, 0) {
        Some(at) => if pattern.len() > 0 && 0 <= at && at + pattern.len() <= s.len() {
            seq![s.take(at)] + parts(s.skip(at + pattern.len()), pattern)
        } else {
            seq![s]
        },
        None => seq![s],
    }
}

/// Splits a text where `pattern` stands.
pub fn parts_of(s: &[char], pattern: &[char]) -> (found: Vec<String>)
    requires
        pattern@.len() > 0,
    ensures
        texts(found@) == parts(s@, pattern@),
{
    let mut found: Vec<String> = Vec::new();
    let mut i: usize = 0;
    assert(s@.skip(0) =~= s@);
    assert(texts(found@) + parts(s@, pattern@) =~= parts(s@, pattern@));
    loop
        invariant
            i <= s@.len(),
            pattern@.len() > 0,
            texts(found@) + parts(s@.skip(i as int), pattern@) == parts(s@, pattern@),
        decreases s.len() - i,
    {
        let rest: &[char] = slice_subrange(s, i, s.len());
        assert(rest@ =~= s@.skip(i as int));
        match find_chars(rest, pattern, 0) {
            Some(at) => {
                let part: String = text_of(slice_subrange(rest, 0, at));
                proof {
                    let next = at + pattern@.len();
                    assert(part@ =~= rest@.take(at as int));
                    assert(rest@.skip(next) =~= s@.skip(i + next));
                    assert(texts(found@.push(part)) =~= texts(found@).push(part@));
                    assert(texts(found@).push(part@) + parts(rest@.skip(next), pattern@) =~= texts(
                        found@,
                    ) + (seq![part@] + parts(rest@.skip(next), pattern@)));
                }
                found.push(part);
                i += at + pattern.len();
            },
            None => {
                let part: String = text_of(rest);
                proof {
                    assert(texts(found@.push(part)) =~= texts(found@).push(part@));
                    assert(texts(found@) + seq![part@] =~= texts(found@).push(part@));
                }
                found.push(part);
                return found;
            },
        }
    }
}

/// An ASCII capital as its small letter; any other character as it is.
pub open spec fn lower_char(c: char) -> char {
    if 'A' <= c <= 'Z' {
        (c as u32 + 32) as char
    } else {
        c
    }
}

/// A text with its ASCII capitals as small letters.
pub open spec fn lower(s: Seq<char>) -> Seq<char> {
    s.map_values(|c: char| lower_char(c))
}

/// Makes the ASCII capitals of a text small letters.
pub fn lowered(s: &[char]) -> (small: Vec<char>)
    ensures
        small@ == lower(s@),
{
    let mut small: Vec<char> = Vec::new();
    let mut i: usize = 0;
    while i < s.len()
        invariant
            i <= s@.len(),
            small@ == lower(s@.take(i as int)),
        decreases s.len() - i,
    {
        let c: char = s[i];
        let l: char = if 'A' <= c && c <= 'Z' {
            (c as u8 + 32) as char
        } else {
            c
        };
        assert(s@.take(i + 1) =~= s@.take(i as int).push(c));
        assert(lower(s@.take(i + 1)) =~= lower(s@.take(i as int)).push(l));
        small.push(l);
        i += 1;
    }
    assert(s@.take(i as int) =~= s@);
    small
}

/// A text up to the first `mark`, or all of it.
pub open spec fn before(s: Seq<char>, mark: char) -> Seq<char> {
    match first_at(s, seq![mark], 0) {
        Some(at) => s.take(at),
        None => s,
    }
}

/// The part of a text before the first `mark`.
pub fn part_before(s: &[char], mark: char) -> (part: &[char])
    ensures
        part@ == before(s@, mark),
        part@.len() <= s@.len(),
{
    let marks: [char; 1] = [mark];
    assert(marks@ =~= seq![mark]);
    match find_chars(s, &marks, 0) {
        Some(at) => {
            let part: &[char] = slice_subrange(s, 0, at);
            assert(part@ =~= s@.take(at as int));
            part
        },
        None => s,
    }
}

/// Whether a text starts with another.
pub fn starts(s: &[char], prefix: &[char]) -> (yes: bool)
    ensures
        yes == prefix@.is_prefix_of(s@),
{
    if prefix.len() > s.len() {
        return false;
    }
    let mut i: usize = 0;
    while i < prefix.len()
        invariant
            i <= prefix@.len() <= s@.len(),
            forall|j: int| 0 <= j < i ==> s@[j] == prefix@[j],
        decreases prefix.len() - i,
    {
        if s[i] != prefix[i] {
            assert(s@.subrange(0, prefix@.len() as int)[i as int] != prefix@[i as int]);
            return false;
        }
        i += 1;
    }
    assert(s@.subrange(0, prefix@.len() as int) =~= prefix@);
    true
}

/// The UTF-8 bytes of a text, and then `bytes`.
pub fn bytes_after(text: &str, bytes: &Vec<u8>) -> (all: Vec<u8>)
    ensures
        all@ == encode_utf8(text@) + bytes@,
{
    let mut all: Vec<u8> = slice_to_vec(text.as_bytes());
    all.extend_from_slice(bytes.as_slice());
    assert(all@ =~= encode_utf8(text@) + bytes@);
    all
}

} // verus!
