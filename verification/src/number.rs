//! Numbers written in digits.

use vstd::prelude::*;
use vstd::slice::slice_subrange;

use crate::text::text_of;

verus! {

/// What a character counts as a digit; none where it is no digit of `radix`.
pub open spec fn digit(c: char, radix: nat) -> Option<nat> {
    let value = if '0' <= c <= '9' {
        (c as int - '0' as int) as nat
    } else if 'a' <= c <= 'z' {
        (c as int - 'a' as int + 10) as nat
    } else if 'A' <= c <= 'Z' {
        (c as int - 'A' as int + 10) as nat
    } else {
        radix
    };
    if value < radix {
        Some(value)
    } else {
        None
    }
}

/// Whether every character is a digit of `radix`.
pub open spec fn all_digits(s: Seq<char>, radix: nat) -> bool {
    forall|i: int| 0 <= i < s.len() ==> digit(#[trigger] s[i], radix) is Some
}

/// The number that digits of `radix` write.
pub open spec fn number(s: Seq<char>, radix: nat) -> nat
    decreases s.len(),
{
    if s.len() == 0 {
        0
    } else {
        number(s.drop_last(), radix) * radix + digit(s.last(), radix).unwrap_or(0)
    }
}

/// The number up to `max` that a text writes in digits of `radix`, with a plus
/// sign before them or none.
pub open spec fn unsigned(s: Seq<char>, radix: nat, max: nat) -> Option<nat> {
    let digits = if s.len() > 0 && s[0] == '+' {
        s.skip(1)
    } else {
        s
    };
    if digits.len() > 0 && all_digits(digits, radix) && number(digits, radix) <= max {
        Some(number(digits, radix))
    } else {
        None
    }
}

/// The number that a text writes in decimal digits, with a sign before them or
/// none, where it fits in 64 bits with a sign.
pub open spec fn signed(s: Seq<char>) -> Option<int> {
    let negative = s.len() > 0 && s[0] == '-';
    let digits = if s.len() > 0 && (s[0] == '+' || s[0] == '-') {
        s.skip(1)
    } else {
        s
    };
    let value = if negative {
        -(number(digits, 10) as int)
    } else {
        number(digits, 10) as int
    };
    if digits.len() > 0 && all_digits(digits, 10) && i64::MIN <= value <= i64::MAX {
        Some(value)
    } else {
        None
    }
}

/// Why a text writes no number.
#[derive(Clone, Copy, Debug, PartialEq, Eq, Structural)]
pub enum NumberError {
    /// "cannot parse integer from empty string"
    Empty,
    /// "invalid digit found in string"
    InvalidDigit,
    /// "number too large to fit in target type"
    TooLarge,
    /// "number too small to fit in target type"
    TooSmall,
}

impl NumberError {
    /// The sentence of the reason.
    pub open spec fn wording(self) -> Seq<char> {
        match self {
            NumberError::Empty => "cannot parse integer from empty string"@,
            NumberError::InvalidDigit => "invalid digit found in string"@,
            NumberError::TooLarge => "number too large to fit in target type"@,
            NumberError::TooSmall => "number too small to fit in target type"@,
        }
    }

    /// The sentence of the reason.
    pub fn text(&self) -> (text: &'static str)
        ensures
            text@ == self.wording(),
    {
        match self {
            NumberError::Empty => "cannot parse integer from empty string",
            NumberError::InvalidDigit => "invalid digit found in string",
            NumberError::TooLarge => "number too large to fit in target type",
            NumberError::TooSmall => "number too small to fit in target type",
        }
    }
}

/// Why digits write no number up to `max`: the first digit that is none, or that
/// takes the number beyond it, counts.
pub open spec fn digits_error(s: Seq<char>, radix: nat, max: nat) -> Option<NumberError>
    decreases s.len(),
{
    if s.len() == 0 {
        None
    } else {
        match digits_error(s.drop_last(), radix, max) {
            Some(error) => Some(error),
            None => if digit(s.last(), radix) is None {
                Some(NumberError::InvalidDigit)
            } else if number(s, radix) > max {
                Some(NumberError::TooLarge)
            } else {
                None
            },
        }
    }
}

/// Whether a text is a sign and nothing else.
pub open spec fn lone_sign(s: Seq<char>) -> bool {
    s.len() == 1 && (s[0] == '+' || s[0] == '-')
}

/// Why a text writes no number up to `max`, where it writes none.
pub open spec fn unsigned_error(s: Seq<char>, radix: nat, max: nat) -> NumberError {
    if s.len() == 0 {
        NumberError::Empty
    } else if lone_sign(s) {
        NumberError::InvalidDigit
    } else {
        let digits = if s[0] == '+' {
            s.skip(1)
        } else {
            s
        };
        match digits_error(digits, radix, max) {
            Some(error) => error,
            None => NumberError::InvalidDigit,
        }
    }
}

/// Why a text writes no number of 64 bits with a sign, where it writes none.
pub open spec fn signed_error(s: Seq<char>) -> NumberError {
    if s.len() == 0 {
        NumberError::Empty
    } else if lone_sign(s) {
        NumberError::InvalidDigit
    } else if s[0] == '-' {
        match digits_error(s.skip(1), 10, 0x8000_0000_0000_0000) {
            Some(NumberError::TooLarge) => NumberError::TooSmall,
            Some(error) => error,
            None => NumberError::InvalidDigit,
        }
    } else {
        let digits = if s[0] == '+' {
            s.skip(1)
        } else {
            s
        };
        match digits_error(digits, 10, 0x7fff_ffff_ffff_ffff) {
            Some(error) => error,
            None => NumberError::InvalidDigit,
        }
    }
}

/// What is wrong with the first digits is wrong with all.
proof fn lemma_error_stays(s: Seq<char>, n: int, radix: nat, max: nat)
    requires
        0 <= n <= s.len(),
        digits_error(s.take(n), radix, max) is Some,
    ensures
        digits_error(s, radix, max) == digits_error(s.take(n), radix, max),
    decreases s.len(),
{
    if n < s.len() {
        let front = s.drop_last();
        assert(front.take(n) =~= s.take(n));
        lemma_error_stays(front, n, radix, max);
    } else {
        assert(s.take(n) =~= s);
    }
}

/// The number that the first digits write is at most the number that all write.
proof fn lemma_number_grows(s: Seq<char>, n: int, radix: nat)
    requires
        0 <= n <= s.len(),
        radix >= 2,
        all_digits(s, radix),
    ensures
        number(s.take(n), radix) <= number(s, radix),
    decreases s.len(),
{
    if s.len() == 0 {
        assert(s.take(n) =~= s);
    } else {
        let front = s.drop_last();
        assert(digit(s[s.len() - 1], radix) is Some);
        assert forall|i: int| 0 <= i < front.len() implies digit(
            #[trigger] front[i],
            radix,
        ) is Some by {
            assert(digit(s[i], radix) is Some);
        }
        if n == s.len() {
            assert(s.take(n) =~= s);
            assert(front.take(front.len() as int) =~= front);
            lemma_number_grows(front, front.len() as int, radix);
            assert(number(front, radix) * radix >= 0) by (nonlinear_arith)
                requires
                    number(front, radix) >= 0,
                    radix >= 2,
            ;
        } else {
            assert(front.take(n) =~= s.take(n));
            lemma_number_grows(front, n, radix);
            assert(number(front, radix) * radix >= number(front, radix)) by (nonlinear_arith)
                requires
                    number(front, radix) >= 0,
                    radix >= 2,
            ;
        }
    }
}

fn digit_of(c: char, radix: u32) -> (value: Option<u32>)
    requires
        2 <= radix <= 36,
    ensures
        match value {
            Some(value) => digit(c, radix as nat) == Some(value as nat) && value < radix,
            None => digit(c, radix as nat) is None,
        },
{
    let value: u32 = if '0' <= c && c <= '9' {
        c as u32 - '0' as u32
    } else if 'a' <= c && c <= 'z' {
        c as u32 - 'a' as u32 + 10
    } else if 'A' <= c && c <= 'Z' {
        c as u32 - 'A' as u32 + 10
    } else {
        radix
    };
    if value < radix {
        Some(value)
    } else {
        None
    }
}

/// Reads digits up to `max`.
fn digits_of(s: &[char], radix: u32, max: u64) -> (value: Result<u64, NumberError>)
    requires
        2 <= radix <= 36,
        s@.len() > 0,
    ensures
        match value {
            Ok(value) => all_digits(s@, radix as nat) && number(s@, radix as nat) == value && value
                <= max,
            Err(error) => !(all_digits(s@, radix as nat) && number(s@, radix as nat) <= max)
                && digits_error(s@, radix as nat, max as nat) == Some(error),
        },
{
    let mut sum: u128 = 0;
    let mut i: usize = 0;
    while i < s.len()
        invariant
            i <= s@.len(),
            2 <= radix <= 36,
            sum <= max,
            sum == number(s@.take(i as int), radix as nat),
            all_digits(s@.take(i as int), radix as nat),
            digits_error(s@.take(i as int), radix as nat, max as nat) is None,
        decreases s.len() - i,
    {
        let ghost longer = s@.take(i + 1);
        proof {
            assert(longer.drop_last() =~= s@.take(i as int));
            assert(longer.last() == s@[i as int]);
        }
        match digit_of(s[i], radix) {
            Some(value) => {
                proof {
                    assert forall|j: int| 0 <= j < longer.len() implies digit(
                        #[trigger] longer[j],
                        radix as nat,
                    ) is Some by {
                        if j < i {
                            assert(digit(s@.take(i as int)[j], radix as nat) is Some);
                        }
                    }
                    assert(sum * radix <= u64::MAX * 36) by (nonlinear_arith)
                        requires
                            sum <= u64::MAX,
                            radix <= 36,
                    ;
                }
                sum = sum * (radix as u128) + value as u128;
                if sum > max as u128 {
                    proof {
                        if all_digits(s@, radix as nat) {
                            lemma_number_grows(s@, i + 1, radix as nat);
                        }
                        lemma_error_stays(s@, i + 1, radix as nat, max as nat);
                    }
                    return Err(NumberError::TooLarge);
                }
            },
            None => {
                proof {
                    assert(digit(s@[i as int], radix as nat) is None);
                    lemma_error_stays(s@, i + 1, radix as nat, max as nat);
                }
                return Err(NumberError::InvalidDigit);
            },
        }
        i += 1;
    }
    assert(s@.take(i as int) =~= s@);
    Ok(sum as u64)
}

/// Reads a number without a minus sign, or tells why there is none.
pub fn unsigned_of(s: &[char], radix: u32, max: u64) -> (value: Result<u64, NumberError>)
    requires
        2 <= radix <= 36,
    ensures
        match value {
            Ok(value) => unsigned(s@, radix as nat, max as nat) == Some(value as nat) && value
                <= max,
            Err(error) => unsigned(s@, radix as nat, max as nat) is None && error == unsigned_error(
                s@,
                radix as nat,
                max as nat,
            ),
        },
{
    if s.len() == 0 {
        return Err(NumberError::Empty);
    }
    if s.len() == 1 && (s[0] == '+' || s[0] == '-') {
        assert(digit(s@[0], radix as nat) is None);
        return Err(NumberError::InvalidDigit);
    }
    if s[0] == '+' {
        let digits: &[char] = slice_subrange(s, 1, s.len());
        assert(digits@ =~= s@.skip(1));
        digits_of(digits, radix, max)
    } else {
        digits_of(s, radix, max)
    }
}

/// Reads a number with or without a sign, or tells why there is none.
pub fn signed_of(s: &[char]) -> (value: Result<i64, NumberError>)
    ensures
        match value {
            Ok(value) => signed(s@) == Some(value as int),
            Err(error) => signed(s@) is None && error == signed_error(s@),
        },
{
    if s.len() == 0 {
        return Err(NumberError::Empty);
    }
    if s.len() == 1 && (s[0] == '+' || s[0] == '-') {
        return Err(NumberError::InvalidDigit);
    }
    if s[0] == '-' {
        let digits: &[char] = slice_subrange(s, 1, s.len());
        assert(digits@ =~= s@.skip(1));
        match digits_of(digits, 10, 0x8000_0000_0000_0000) {
            Ok(value) => if value == 0x8000_0000_0000_0000 {
                Ok(i64::MIN)
            } else {
                Ok(-(value as i64))
            },
            Err(NumberError::TooLarge) => Err(NumberError::TooSmall),
            Err(error) => Err(error),
        }
    } else {
        let digits: &[char] = if s[0] == '+' {
            slice_subrange(s, 1, s.len())
        } else {
            s
        };
        assert(s@[0] == '+' ==> digits@ =~= s@.skip(1));
        match digits_of(digits, 10, 0x7fff_ffff_ffff_ffff) {
            Ok(value) => Ok(value as i64),
            Err(error) => Err(error),
        }
    }
}

/// The digit that counts as `value`.
pub open spec fn digit_char(value: int) -> char {
    if value < 10 {
        ('0' as int + value) as char
    } else {
        ('a' as int + value - 10) as char
    }
}

/// A number in digits of `radix`, without zeros in front.
pub open spec fn digits(value: nat, radix: nat) -> Seq<char>
    decreases value,
{
    if value < radix || radix < 2 {
        seq![digit_char(value as int)]
    } else {
        proof {
            assert(value / radix < value) by (nonlinear_arith)
                requires
                    radix >= 2,
                    value >= radix,
            ;
        }
        digits(value / radix, radix).push(digit_char((value % radix) as int))
    }
}

/// A number in decimal digits.
pub open spec fn decimal(value: nat) -> Seq<char> {
    digits(value, 10)
}

/// Writes a number in decimal digits.
pub fn decimal_of(value: u64) -> (text: String)
    ensures
        text@ == decimal(value as nat),
    decreases value,
{
    if value < 10 {
        let only: [char; 1] = [('0' as u8 + value as u8) as char];
        let text: String = text_of(&only);
        assert(text@ =~= decimal(value as nat));
        text
    } else {
        let mut text: String = decimal_of(value / 10);
        text.push(('0' as u8 + (value % 10) as u8) as char);
        text
    }
}

/// Digits read back as the number that they write.
pub proof fn lemma_digits_read_back(value: nat, radix: nat)
    requires
        2 <= radix <= 16,
    ensures
        digits(value, radix).len() > 0,
        all_digits(digits(value, radix), radix),
        number(digits(value, radix), radix) == value,
        forall|i: int|
            0 <= i < digits(value, radix).len() ==> '0' <= #[trigger] digits(value, radix)[i]
                <= 'f',
    decreases value,
{
    let written = digits(value, radix);
    let last = (value % radix) as int;
    assert(0 <= last < radix) by (nonlinear_arith)
        requires
            last == value % radix,
            radix >= 2,
    ;
    assert(digit(digit_char(last), radix) == Some(last as nat));
    if value < radix {
        assert(last == value) by (nonlinear_arith)
            requires
                last == value % radix,
                value < radix,
        ;
        assert(written.drop_last() =~= seq![]);
        assert(number(written.drop_last(), radix) == 0);
    } else {
        assert(value / radix < value) by (nonlinear_arith)
            requires
                radix >= 2,
                value >= radix,
        ;
        lemma_digits_read_back(value / radix, radix);
        assert(written.drop_last() =~= digits(value / radix, radix));
        assert((value / radix) * radix + value % radix == value) by (nonlinear_arith)
            requires
                radix >= 2,
        ;
    }
}

/// The decimal digits of a number read back as the number, whatever bound it
/// keeps.
pub proof fn lemma_decimal_reads_back(value: nat, max: nat)
    requires
        value <= max,
    ensures
        unsigned(decimal(value), 10, max) == Some(value),
{
    lemma_digits_read_back(value, 10);
    assert(decimal(value)[0] != '+');
}

} // verus!
