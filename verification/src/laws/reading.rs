//! Text and numbers: what is split or trimmed off is what separates, and digits are
//! worth what they write.

use vstd::prelude::*;

use crate::number::{
    all_digits, decimal, decimal_of, digit, digits, digits_error, lemma_digits_read_back, signed,
    signed_of, unsigned, unsigned_of, NumberError,
};
use crate::text::{
    first_at, is_white, lemma_first_at, lemma_first_is, lemma_word_length, lines, lines_of,
    lowered, part_before, parts, parts_of, stands_at, texts, trim, trim_end, trim_start, trimmed,
    without_return, word_length, words, words_of,
};

verus! {

/// Whether a character is white space: a control of layout, a blank, or one of the
/// wider blanks and separators.
pub open spec fn blank(c: char) -> bool {
    let code = c as int;
    ||| 0x9 <= code <= 0xd
    ||| code == 0x20 || code == 0x85 || code == 0xa0 || code == 0x1680
    ||| 0x2000 <= code <= 0x200a
    ||| code == 0x2028 || code == 0x2029 || code == 0x202f || code == 0x205f || code == 0x3000
}

/// Whether a text is white space alone.
pub open spec fn all_blank(s: Seq<char>) -> bool {
    forall|i: int| 0 <= i < s.len() ==> blank(#[trigger] s[i])
}

/// Whether a text holds no white space.
pub open spec fn no_blank(s: Seq<char>) -> bool {
    forall|i: int| 0 <= i < s.len() ==> !blank(#[trigger] s[i])
}

proof fn lemma_trim_start(s: Seq<char>) -> (i: int)
    ensures
        0 <= i <= s.len(),
        trim_start(s) == s.skip(i),
        all_blank(s.take(i)),
        i < s.len() ==> !blank(s[i]),
    decreases s.len(),
{
    if s.len() > 0 && is_white(s[0]) {
        let rest = s.skip(1);
        let i = lemma_trim_start(rest);
        assert(rest.skip(i) =~= s.skip(i + 1));
        assert forall|k: int| 0 <= k < i + 1 implies blank(#[trigger] s.take(i + 1)[k]) by {
            if k > 0 {
                assert(rest.take(i)[k - 1] == s[k]);
            }
        }
        i + 1
    } else {
        assert(s.skip(0) =~= s);
        0
    }
}

proof fn lemma_trim_end(s: Seq<char>) -> (i: int)
    ensures
        0 <= i <= s.len(),
        trim_end(s) == s.take(i),
        all_blank(s.skip(i)),
        i > 0 ==> !blank(s[i - 1]),
    decreases s.len(),
{
    if s.len() > 0 && is_white(s.last()) {
        let rest = s.drop_last();
        let i = lemma_trim_end(rest);
        assert(rest.take(i) =~= s.take(i));
        assert forall|k: int| 0 <= k < s.skip(i).len() implies blank(#[trigger] s.skip(i)[k]) by {
            if k + i < rest.len() {
                assert(rest.skip(i)[k] == s[k + i]);
            }
        }
        i
    } else {
        assert(s.take(s.len() as int) =~= s);
        s.len() as int
    }
}

/// Whether `t` is `s` without the white space around it.
pub open spec fn is_trimmed(s: Seq<char>, t: Seq<char>) -> bool {
    &&& t.len() > 0 ==> !blank(t[0]) && !blank(t.last())
    &&& exists|front: Seq<char>, back: Seq<char>|
        #![trigger all_blank(front), all_blank(back)]
        all_blank(front) && all_blank(back) && s == front + t + back
}

/// A text without the white space around it.
pub proof fn lemma_trim(s: Seq<char>)
    ensures
        is_trimmed(s, trim(s)),
{
    let i = lemma_trim_start(s);
    let rest = trim_start(s);
    let j = lemma_trim_end(rest);
    let t = trim(s);
    assert(s =~= s.take(i) + t + rest.skip(j));
    assert(all_blank(s.take(i)) && all_blank(rest.skip(j)));
    if t.len() > 0 {
        assert(t[0] == s[i]);
        assert(t.last() == rest[j - 1]);
    }
}

/// A text is trimmed in one way.
pub proof fn lemma_trim_unique(s: Seq<char>, t: Seq<char>)
    requires
        is_trimmed(s, t),
    ensures
        t == trim(s),
{
    lemma_trim(s);
    let u = trim(s);
    let (front, back) = choose|front: Seq<char>, back: Seq<char>|
        #![trigger all_blank(front), all_blank(back)]
        all_blank(front) && all_blank(back) && s == front + t + back;
    let (head, tail) = choose|head: Seq<char>, tail: Seq<char>|
        #![trigger all_blank(head), all_blank(tail)]
        all_blank(head) && all_blank(tail) && s == head + u + tail;
    let f = front.len() as int;
    let h = head.len() as int;
    if t.len() > 0 {
        assert(s[f] == t[0]);
        assert(s[f + t.len() - 1] == t.last());
    }
    if u.len() > 0 {
        assert(s[h] == u[0]);
        assert(s[h + u.len() - 1] == u.last());
    }
    if t.len() > 0 {
        if f < h {
            assert(s[f] == head[f]);
        } else if f >= h + u.len() {
            assert(s[f] == tail[f - h - u.len()]);
        }
        let e = f + t.len() - 1;
        if e < h {
            assert(s[e] == head[e]);
        } else if e >= h + u.len() {
            assert(s[e] == tail[e - h - u.len()]);
        }
    }
    if u.len() > 0 {
        if h < f {
            assert(s[h] == front[h]);
        } else if h >= f + t.len() {
            assert(s[h] == back[h - f - t.len()]);
        }
        let e = h + u.len() - 1;
        if e < f {
            assert(s[e] == front[e]);
        } else if e >= f + t.len() {
            assert(s[e] == back[e - f - t.len()]);
        }
    }
    if t.len() > 0 || u.len() > 0 {
        assert(f == h && t.len() == u.len());
        assert forall|i: int| 0 <= i < t.len() implies t[i] == u[i] by {
            assert(s[f + i] == t[i]);
            assert(s[h + i] == u[i]);
        }
    }
    assert(t =~= u);
}

/// What is trimmed off a text is white space, and all of it that stands around it.
pub proof fn law_trimmed(s: &[char], t: &[char])
    requires
        call_ensures(trimmed, (s,), t),
    ensures
        is_trimmed(s@, t@),
{
    lemma_trim(s@);
}

proof fn lemma_word_ends(word: Seq<char>, rest: Seq<char>)
    requires
        no_blank(word),
        rest.len() > 0 ==> blank(rest[0]),
    ensures
        word_length(word + rest) == word.len(),
    decreases word.len(),
{
    let s = word + rest;
    if word.len() > 0 {
        let tail = word.skip(1);
        assert forall|i: int| 0 <= i < tail.len() implies !blank(#[trigger] tail[i]) by {
            assert(tail[i] == word[i + 1]);
        }
        lemma_word_ends(tail, rest);
        assert(s.skip(1) =~= tail + rest);
        assert(s[0] == word[0]);
        assert(!blank(word[0]));
    } else {
        assert(s =~= rest);
    }
}

/// A word, white space and the rest have that word and the words of the rest.
pub proof fn lemma_words(word: Seq<char>, gap: Seq<char>, rest: Seq<char>)
    requires
        no_blank(word),
        all_blank(gap),
        gap.len() > 0 || rest.len() == 0,
    ensures
        words(word + gap + rest) == if word.len() > 0 {
            seq![word] + words(rest)
        } else {
            words(rest)
        },
{
    let s = word + gap + rest;
    lemma_gap(gap, rest);
    if word.len() > 0 {
        let back = gap + rest;
        if back.len() > 0 {
            assert(back[0] == gap[0]);
            assert(blank(gap[0]));
        }
        lemma_word_ends(word, back);
        assert(s =~= word + back);
        assert(s.take(word.len() as int) =~= word);
        assert(s.skip(word.len() as int) =~= back);
        assert(s[0] == word[0]);
        assert(!blank(word[0]));
        lemma_word_length(s);
    } else {
        assert(s =~= gap + rest);
    }
}

proof fn lemma_gap(gap: Seq<char>, rest: Seq<char>)
    requires
        all_blank(gap),
    ensures
        words(gap + rest) == words(rest),
    decreases gap.len(),
{
    let s = gap + rest;
    if gap.len() > 0 {
        let tail = gap.skip(1);
        assert forall|i: int| 0 <= i < tail.len() implies blank(#[trigger] tail[i]) by {
            assert(tail[i] == gap[i + 1]);
        }
        lemma_gap(tail, rest);
        assert(s.skip(1) =~= tail + rest);
        assert(s[0] == gap[0]);
        assert(blank(gap[0]));
    } else {
        assert(s =~= rest);
    }
}

/// A text is split into its words at its white space.
pub proof fn law_words_of(
    s: &[char],
    found: Vec<String>,
    rest: &[char],
    others: Vec<String>,
    word: Seq<char>,
    gap: Seq<char>,
)
    requires
        call_ensures(words_of, (s,), found),
        call_ensures(words_of, (rest,), others),
        s@ == word + gap + rest@,
        no_blank(word),
        all_blank(gap),
        word.len() > 0,
        gap.len() > 0 || rest@.len() == 0,
    ensures
        found@.len() == others@.len() + 1,
        found@[0]@ == word,
        forall|i: int| 0 <= i < others@.len() ==> (#[trigger] others@[i])@ == found@[i + 1]@,
{
    lemma_words(word, gap, rest@);
    assert(texts(found@).len() == found@.len());
    assert(texts(others@).len() == others@.len());
    assert(texts(found@)[0] == found@[0]@);
    assert forall|i: int| 0 <= i < others@.len() implies (#[trigger] others@[i])@ == found@[i
        + 1]@ by {
        assert(texts(others@)[i] == others@[i]@);
        assert(texts(found@)[i + 1] == found@[i + 1]@);
    }
}

/// Where `pattern` stands nowhere earlier, it stands first behind `front`.
pub proof fn lemma_first_behind<A>(front: Seq<A>, pattern: Seq<A>, rest: Seq<A>)
    requires
        pattern.len() > 0,
        forall|i: int| 0 <= i < front.len() ==> #[trigger] front[i] != pattern[0],
    ensures
        first_at(front + pattern + rest, pattern, 0) == Some(front.len() as int),
{
    let s = front + pattern + rest;
    let at = front.len() as int;
    assert(s.subrange(at, at + pattern.len()) =~= pattern);
    assert forall|i: int| 0 <= i < at implies !#[trigger] stands_at(s, pattern, i) by {
        if stands_at(s, pattern, i) {
            assert(s.subrange(i, i + pattern.len())[0] == s[i]);
            assert(s[i] == front[i]);
        }
    }
    lemma_first_is(s, pattern, 0, at);
}

/// The first part of a text is what stands before the pattern.
pub proof fn lemma_parts(front: Seq<char>, pattern: Seq<char>, rest: Seq<char>)
    requires
        pattern.len() > 0,
        forall|i: int| 0 <= i < front.len() ==> #[trigger] front[i] != pattern[0],
    ensures
        parts(front + pattern + rest, pattern) == seq![front] + parts(rest, pattern),
{
    let s = front + pattern + rest;
    lemma_first_behind(front, pattern, rest);
    assert(s.take(front.len() as int) =~= front);
    assert(s.skip((front.len() + pattern.len()) as int) =~= rest);
}

/// A text is split into the parts between the places of a pattern, in turn.
pub proof fn law_parts_of(
    s: &[char],
    pattern: &[char],
    found: Vec<String>,
    rest: &[char],
    others: Vec<String>,
    front: Seq<char>,
)
    requires
        call_ensures(parts_of, (s, pattern), found),
        call_ensures(parts_of, (rest, pattern), others),
        pattern@.len() > 0,
        s@ == front + pattern@ + rest@,
        forall|i: int| 0 <= i < front.len() ==> #[trigger] front[i] != pattern@[0],
    ensures
        found@.len() == others@.len() + 1,
        found@[0]@ == front,
        forall|i: int| 0 <= i < others@.len() ==> (#[trigger] others@[i])@ == found@[i + 1]@,
{
    lemma_parts(front, pattern@, rest@);
    assert(texts(found@).len() == found@.len());
    assert(texts(others@).len() == others@.len());
    assert(texts(found@)[0] == found@[0]@);
    assert forall|i: int| 0 <= i < others@.len() implies (#[trigger] others@[i])@ == found@[i
        + 1]@ by {
        assert(texts(others@)[i] == others@[i]@);
        assert(texts(found@)[i + 1] == found@[i + 1]@);
    }
}

/// The first line of a text is what stands before its first line feed.
pub proof fn lemma_lines(line: Seq<char>, rest: Seq<char>)
    requires
        forall|i: int| 0 <= i < line.len() ==> #[trigger] line[i] != '\n',
    ensures
        lines(line + seq!['\n'] + rest) == seq![without_return(line)] + lines(rest),
        line.len() > 0 ==> lines(line) == seq![line],
{
    let s = line + seq!['\n'] + rest;
    lemma_first_behind(line, seq!['\n'], rest);
    assert(s.take(line.len() as int) =~= line);
    assert(s.skip(line.len() as int + 1) =~= rest);
    if line.len() > 0 {
        lemma_first_at(line, seq!['\n'], 0);
        if first_at(line, seq!['\n'], 0) is Some {
            let at = first_at(line, seq!['\n'], 0)->0;
            assert(line.subrange(at, at + 1)[0] == line[at]);
        }
    }
}

/// A line feed ends a line, and so does a carriage return and a line feed.
pub proof fn law_lines_of(
    s: &[char],
    found: Vec<String>,
    rest: &[char],
    others: Vec<String>,
    line: Seq<char>,
)
    requires
        call_ensures(lines_of, (s,), found),
        call_ensures(lines_of, (rest,), others),
        forall|i: int| 0 <= i < line.len() ==> #[trigger] line[i] != '\n' && line[i] != '\r',
        s@ == line + seq!['\n'] + rest@ || s@ == line + seq!['\r'] + seq!['\n'] + rest@,
    ensures
        found@.len() == others@.len() + 1,
        found@[0]@ == line,
        forall|i: int| 0 <= i < others@.len() ==> (#[trigger] others@[i])@ == found@[i + 1]@,
{
    lemma_lines(line, rest@);
    let ended = line + seq!['\r'];
    assert forall|i: int| 0 <= i < ended.len() implies #[trigger] ended[i] != '\n' by {
        if i < line.len() {
            assert(ended[i] == line[i]);
        }
    }
    lemma_lines(ended, rest@);
    assert(ended.drop_last() =~= line);
    if line.len() > 0 {
        assert(line[line.len() - 1] != '\r');
    }
    assert(lines(s@) == seq![line] + lines(rest@));
    assert(texts(found@).len() == found@.len());
    assert(texts(others@).len() == others@.len());
    assert(texts(found@)[0] == found@[0]@);
    assert forall|i: int| 0 <= i < others@.len() implies (#[trigger] others@[i])@ == found@[i
        + 1]@ by {
        assert(texts(others@)[i] == others@[i]@);
        assert(texts(found@)[i + 1] == found@[i + 1]@);
    }
}

/// The part of a text before a mark holds no mark, and all of the text where there
/// is none.
pub proof fn law_part_before(s: &[char], mark: char, part: &[char])
    requires
        call_ensures(part_before, (s, mark), part),
    ensures
        forall|i: int| 0 <= i < part@.len() ==> #[trigger] part@[i] != mark,
        part@ == s@ || exists|rest: Seq<char>| s@ == #[trigger] (part@ + seq![mark] + rest),
{
    let marks = seq![mark];
    lemma_first_at(s@, marks, 0);
    assert forall|i: int| 0 <= i < part@.len() implies #[trigger] part@[i] != mark by {
        if s@[i] == mark {
            assert(s@.subrange(i, i + 1) =~= marks);
            assert(stands_at(s@, marks, i));
        }
    }
    match first_at(s@, marks, 0) {
        Some(at) => {
            assert(s@[at] == s@.subrange(at, at + 1)[0]);
            assert(s@ =~= part@ + marks + s@.skip(at + 1));
        },
        None => {},
    }
}

/// Capitals of the Latin alphabet become their small letters, and nothing else
/// changes.
pub proof fn law_lowered(s: &[char], small: Vec<char>, i: int)
    requires
        call_ensures(lowered, (s,), small),
        0 <= i < s@.len(),
    ensures
        small@.len() == s@.len(),
        0x41 <= s@[i] as int <= 0x5a ==> small@[i] as int == s@[i] as int + 0x20,
        !(0x41 <= s@[i] as int <= 0x5a) ==> small@[i] == s@[i],
{
}

/// What a digit is worth; none where it is no digit at all.
pub open spec fn worth_of(c: char) -> Option<int> {
    let code = c as int;
    if 0x30 <= code <= 0x39 {
        Some(code - 0x30)
    } else if 0x61 <= code <= 0x7a {
        Some(code - 0x61 + 10)
    } else if 0x41 <= code <= 0x5a {
        Some(code - 0x41 + 10)
    } else {
        None
    }
}

/// What digits are worth, the last one least.
pub open spec fn worth(s: Seq<char>, radix: int) -> int
    decreases s.len(),
{
    if s.len() == 0 {
        0
    } else {
        worth(s.drop_last(), radix) * radix + worth_of(s.last()).unwrap_or(0)
    }
}

/// Whether digits of `radix` write `value`.
pub open spec fn writes(s: Seq<char>, radix: int, value: int) -> bool {
    &&& s.len() > 0
    &&& forall|i: int|
        0 <= i < s.len() ==> (worth_of(#[trigger] s[i]) matches Some(worth) && worth < radix)
    &&& worth(s, radix) == value
}

/// Digits write one number.
pub proof fn lemma_writes_once(s: Seq<char>, radix: int, one: int, other: int)
    requires
        writes(s, radix, one),
        writes(s, radix, other),
    ensures
        one == other,
{
}

proof fn lemma_worth(s: Seq<char>, radix: nat)
    requires
        2 <= radix <= 36,
        all_digits(s, radix),
    ensures
        worth(s, radix as int) == crate::number::number(s, radix),
    decreases s.len(),
{
    if s.len() > 0 {
        let front = s.drop_last();
        assert forall|i: int| 0 <= i < front.len() implies digit(#[trigger] front[i], radix)
            is Some by {
            assert(digit(s[i], radix) is Some);
        }
        lemma_worth(front, radix);
        assert(digit(s[s.len() - 1], radix) is Some);
    }
}

proof fn lemma_digits_worth(s: Seq<char>, radix: nat)
    requires
        2 <= radix <= 36,
    ensures
        all_digits(s, radix) <==> forall|i: int|
            0 <= i < s.len() ==> (worth_of(#[trigger] s[i]) matches Some(worth) && worth < radix),
{
    assert forall|c: char| (#[trigger] digit(c, radix) is Some) == (worth_of(c) matches Some(worth)
        && worth < radix) by {}
    if all_digits(s, radix) {
        assert forall|i: int| 0 <= i < s.len() implies (worth_of(#[trigger] s[i]) matches Some(
            worth,
        ) && worth < radix) by {
            assert(digit(s[i], radix) is Some);
        }
    } else {
        let i = choose|i: int| 0 <= i < s.len() && digit(#[trigger] s[i], radix) is None;
        assert(!(worth_of(s[i]) matches Some(worth) && worth < radix));
    }
}

/// A text without its plus sign.
pub open spec fn unsigned_part(s: Seq<char>) -> Seq<char> {
    if s.len() > 0 && s[0] == '+' {
        s.skip(1)
    } else {
        s
    }
}

/// What is read as a number is what digits write, within the bound.
pub proof fn lemma_unsigned_writes(s: Seq<char>, radix: nat, max: nat)
    requires
        2 <= radix <= 36,
    ensures
        match unsigned(s, radix, max) {
            Some(value) => value <= max && writes(unsigned_part(s), radix as int, value as int),
            None => forall|value: nat|
                value <= max ==> !#[trigger] writes(unsigned_part(s), radix as int, value as int),
        },
{
    let part = unsigned_part(s);
    lemma_digits_worth(part, radix);
    if all_digits(part, radix) {
        lemma_worth(part, radix);
    }
}

/// A number is read exactly where digits write it, with a plus sign before them or
/// none, and where it keeps within the bound.
pub proof fn law_unsigned_of(s: &[char], radix: u32, max: u64, value: Result<u64, NumberError>)
    requires
        call_ensures(unsigned_of, (s, radix, max), value),
        2 <= radix <= 36,
    ensures
        match value {
            Ok(number) => number <= max && writes(unsigned_part(s@), radix as int, number as int),
            Err(_) => forall|number: u64|
                number <= max ==> !#[trigger] writes(
                    unsigned_part(s@),
                    radix as int,
                    number as int,
                ),
        },
{
    lemma_unsigned_writes(s@, radix as nat, max as nat);
}

/// Whether a text writes a number with a sign or none.
pub open spec fn writes_signed(s: Seq<char>, value: int) -> bool {
    if s.len() > 0 && s[0] == '-' {
        writes(s.skip(1), 10, -value)
    } else {
        writes(unsigned_part(s), 10, value)
    }
}

/// What is read as a number with a sign is what a text writes.
pub proof fn lemma_signed_writes(s: Seq<char>)
    ensures
        match signed(s) {
            Some(value) => i64::MIN <= value <= i64::MAX && writes_signed(s, value),
            None => forall|value: i64| !#[trigger] writes_signed(s, value as int),
        },
{
    let part = if s.len() > 0 && (s[0] == '+' || s[0] == '-') {
        s.skip(1)
    } else {
        s
    };
    lemma_digits_worth(part, 10);
    if all_digits(part, 10) {
        lemma_worth(part, 10);
    }
}

/// A number with a sign is read exactly where a text writes it and it fits.
pub proof fn law_signed_of(s: &[char], value: Result<i64, NumberError>)
    requires
        call_ensures(signed_of, (s,), value),
    ensures
        match value {
            Ok(number) => writes_signed(s@, number as int),
            Err(_) => forall|number: i64| !#[trigger] writes_signed(s@, number as int),
        },
{
    lemma_signed_writes(s@);
}

/// The decimal digits of a number write it, without a zero in front.
pub proof fn lemma_decimal_writes(value: nat)
    ensures
        writes(decimal(value), 10, value as int),
        forall|i: int|
            0 <= i < decimal(value).len() ==> '0' <= #[trigger] decimal(value)[i] <= '9',
        decimal(value).len() > 1 ==> decimal(value)[0] != '0',
    decreases value,
{
    lemma_digits_read_back(value, 10);
    lemma_digits_worth(decimal(value), 10);
    lemma_worth(decimal(value), 10);
    assert forall|i: int| 0 <= i < decimal(value).len() implies '0' <= #[trigger] decimal(value)[i]
        <= '9' by {
        assert(digit(decimal(value)[i], 10) is Some);
    }
    if value >= 10 {
        lemma_decimal_writes(value / 10);
        assert(decimal(value)[0] == digits(value / 10, 10)[0]);
        if value / 10 < 10 {
            assert(value / 10 > 0);
        }
        assert(digits(value / 10, 10).len() == 1 ==> digits(value / 10, 10)[0] != '0') by {
            if value / 10 >= 10 {
                lemma_digits_read_back(value / 100, 10);
            }
        }
    }
}

/// A number is written in its decimal digits.
pub proof fn law_decimal_of(value: u64, text: String)
    requires
        call_ensures(decimal_of, (value,), text),
    ensures
        writes(text@, 10, value as int),
        text@.len() > 1 ==> text@[0] != '0',
{
    lemma_decimal_writes(value as nat);
}

/// Whether a beginning of digits writes a number beyond `max`.
pub open spec fn goes_beyond(s: Seq<char>, radix: int, max: int, k: int) -> bool {
    0 < k <= s.len() && exists|value: int| #[trigger] writes(s.take(k), radix, value) && value > max
}

/// Whether a text is digits alone, and at least one.
pub open spec fn digits_alone(s: Seq<char>, radix: int) -> bool {
    s.len() > 0 && forall|i: int|
        0 <= i < s.len() ==> (worth_of(#[trigger] s[i]) matches Some(worth) && worth < radix)
}

proof fn lemma_digits_error(s: Seq<char>, radix: nat, max: nat)
    requires
        2 <= radix <= 36,
    ensures
        match digits_error(s, radix, max) {
            Some(NumberError::TooLarge) => exists|k: int| #[trigger]
                goes_beyond(s, radix as int, max as int, k),
            Some(NumberError::InvalidDigit) => !all_digits(s, radix),
            Some(_) => false,
            None => all_digits(s, radix),
        },
    decreases s.len(),
{
    if s.len() > 0 {
        let front = s.drop_last();
        lemma_digits_error(front, radix, max);
        match digits_error(front, radix, max) {
            Some(NumberError::TooLarge) => {
                let k = choose|k: int| #[trigger] goes_beyond(front, radix as int, max as int, k);
                assert(front.take(k) =~= s.take(k));
                assert(goes_beyond(s, radix as int, max as int, k));
            },
            Some(_) => {
                if all_digits(s, radix) {
                    assert forall|i: int| 0 <= i < front.len() implies digit(
                        #[trigger] front[i],
                        radix,
                    ) is Some by {
                        assert(digit(s[i], radix) is Some);
                    }
                }
            },
            None => {
                if digit(s.last(), radix) is None {
                    assert(digit(s[s.len() - 1], radix) is None);
                } else {
                    assert forall|i: int| 0 <= i < s.len() implies digit(
                        #[trigger] s[i],
                        radix,
                    ) is Some by {
                        if i < front.len() {
                            assert(digit(front[i], radix) is Some);
                        }
                    }
                    lemma_worth(s, radix);
                    lemma_digits_worth(s, radix);
                    let k = s.len() as int;
                    assert(s.take(k) =~= s);
                    assert(writes(s.take(k), radix as int, worth(s, radix as int)));
                    if digits_error(s, radix, max) is Some {
                        assert(goes_beyond(s, radix as int, max as int, k));
                    }
                }
            },
        }
    }
}

/// Why a text writes no number is told: that there is nothing, that the number is too
/// large, or that something is no digit.
pub proof fn law_unsigned_reason(s: &[char], radix: u32, max: u64, reason: NumberError)
    requires
        call_ensures(unsigned_of, (s, radix, max), Err(reason)),
        2 <= radix <= 36,
    ensures
        reason == NumberError::Empty <==> s@.len() == 0,
        reason != NumberError::TooSmall,
        reason == NumberError::TooLarge ==> exists|k: int| #[trigger]
            goes_beyond(unsigned_part(s@), radix as int, max as int, k),
        digits_alone(unsigned_part(s@), radix as int) ==> reason == NumberError::TooLarge,
{
    let part = unsigned_part(s@);
    lemma_digits_error(part, radix as nat, max as nat);
    lemma_digits_worth(part, radix as nat);
    lemma_unsigned_writes(s@, radix as nat, max as nat);
    if digits_alone(part, radix as int) {
        lemma_worth(part, radix as nat);
        if digits_error(part, radix as nat, max as nat) is None {
            lemma_all_read(part, radix as nat, max as nat);
        }
        if s@.len() == 1 && s@[0] == '-' {
            assert(worth_of(part[0]) is Some);
        }
    }
}

proof fn lemma_all_read(s: Seq<char>, radix: nat, max: nat)
    requires
        2 <= radix <= 36,
        s.len() > 0,
        digits_error(s, radix, max) is None,
    ensures
        crate::number::number(s, radix) <= max,
{
}

/// The same of a number with a sign: one below the least is too small.
pub proof fn law_signed_reason(s: &[char], reason: NumberError)
    requires
        call_ensures(signed_of, (s,), Err(reason)),
    ensures
        reason == NumberError::Empty <==> s@.len() == 0,
        reason == NumberError::TooSmall ==> s@[0] == '-',
        reason == NumberError::TooLarge ==> s@[0] != '-',
        s@.len() > 0 && s@[0] == '-' && digits_alone(s@.skip(1), 10) ==> reason
            == NumberError::TooSmall,
        s@.len() > 0 && s@[0] != '-' && digits_alone(unsigned_part(s@), 10) ==> reason
            == NumberError::TooLarge,
{
    if s@.len() > 0 {
        let part = if s@[0] == '-' || s@[0] == '+' {
            s@.skip(1)
        } else {
            s@
        };
        let max: nat = if s@[0] == '-' {
            0x8000_0000_0000_0000
        } else {
            0x7fff_ffff_ffff_ffff
        };
        lemma_digits_error(part, 10, max);
        lemma_digits_worth(part, 10);
        if digits_alone(part, 10) && digits_error(part, 10, max) is None {
            lemma_all_read(part, 10, max);
        }
    }
}

/// A reason is told in its own words.
pub proof fn law_reason_is_told(reason: &NumberError, text: &'static str)
    requires
        call_ensures(NumberError::text, (reason,), text),
    ensures
        match *reason {
            NumberError::Empty => text@ == "cannot parse integer from empty string"@,
            NumberError::InvalidDigit => text@ == "invalid digit found in string"@,
            NumberError::TooLarge => text@ == "number too large to fit in target type"@,
            NumberError::TooSmall => text@ == "number too small to fit in target type"@,
        },
{
}

/// White space before the words of a text changes nothing, and alone it has none.
pub proof fn law_white_space_has_no_words(
    s: &[char],
    found: Vec<String>,
    rest: &[char],
    others: Vec<String>,
    gap: Seq<char>,
)
    requires
        call_ensures(words_of, (s,), found),
        call_ensures(words_of, (rest,), others),
        s@ == gap + rest@,
        all_blank(gap),
    ensures
        found@.len() == others@.len(),
        forall|i: int| 0 <= i < found@.len() ==> (#[trigger] found@[i])@ == others@[i]@,
        rest@.len() == 0 ==> found@.len() == 0,
{
    lemma_gap(gap, rest@);
    assert(texts(found@).len() == found@.len());
    assert(texts(others@).len() == others@.len());
    assert forall|i: int| 0 <= i < found@.len() implies (#[trigger] found@[i])@
        == others@[i]@ by {
        assert(texts(found@)[i] == found@[i]@);
        assert(texts(others@)[i] == others@[i]@);
    }
}

/// A text in which a pattern does not stand is one part.
pub proof fn law_whole_is_one_part(s: &[char], pattern: &[char], found: Vec<String>)
    requires
        call_ensures(parts_of, (s, pattern), found),
        pattern@.len() > 0,
        forall|i: int| 0 <= i < s@.len() ==> #[trigger] s@[i] != pattern@[0],
    ensures
        found@.len() == 1,
        found@[0]@ == s@,
{
    lemma_first_at(s@, pattern@, 0);
    if let Some(at) = first_at(s@, pattern@, 0) {
        assert(s@.subrange(at, at + pattern@.len())[0] == s@[at]);
    }
    assert(texts(found@).len() == found@.len());
    assert(texts(found@)[0] == found@[0]@);
}

/// The last line need not be ended; where nothing follows the end of a line, no line
/// does.
pub proof fn law_last_line_need_not_end(s: &[char], found: Vec<String>)
    requires
        call_ensures(lines_of, (s,), found),
        forall|i: int| 0 <= i < s@.len() ==> #[trigger] s@[i] != '\n',
    ensures
        if s@.len() == 0 {
            found@.len() == 0
        } else {
            found@.len() == 1 && found@[0]@ == s@
        },
{
    let mark = seq!['\n'];
    lemma_first_at(s@, mark, 0);
    if let Some(at) = first_at(s@, mark, 0) {
        assert(s@.subrange(at, at + 1)[0] == s@[at]);
        assert(mark[0] == '\n');
    }
    assert(texts(found@).len() == found@.len());
    if s@.len() > 0 {
        assert(texts(found@)[0] == found@[0]@);
    }
}

} // verus!
