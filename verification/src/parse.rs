//! Reading a pair of texts as a pair of decimal `i32` numbers.
//!
//! A number is written as an optional minus sign followed by one or more of
//! the digits `0` to `9`, and nothing else: no plus sign, no blanks, no
//! separators.

use vstd::prelude::*;
use vstd::string::*;

verus! {

/// A text was not a number; it carries that text.
#[derive(Debug, PartialEq, Eq)]
pub struct ParseError(pub String);

impl View for ParseError {
    type V = Seq<char>;

    open spec fn view(&self) -> Seq<char> {
        self.0@
    }
}

/// Whether `c` is one of the ten decimal digits.
pub open spec fn is_digit(c: char) -> bool {
    '0' <= c <= '9'
}

/// The number that the digit `c` stands for.
pub open spec fn digit_value(c: char) -> nat {
    (c as nat - '0' as nat) as nat
}

/// Whether `s` holds decimal digits only.
pub open spec fn all_digits(s: Seq<char>) -> bool {
    forall|i: int| 0 <= i < s.len() ==> is_digit(#[trigger] s[i])
}

/// The number that the digits of `s` write, the last digit counting least.
pub open spec fn digits_value(s: Seq<char>) -> nat
    decreases s.len(),
{
    if s.len() == 0 {
        0
    } else {
        digits_value(s.drop_last()) * 10 + digit_value(s.last())
    }
}

/// Whether `s` begins with a minus sign.
pub open spec fn has_sign(s: Seq<char>) -> bool {
    s.len() > 0 && s[0] == '-'
}

/// What is left of `s` without its minus sign, if it has one.
pub open spec fn unsigned_part(s: Seq<char>) -> Seq<char> {
    if has_sign(s) {
        s.subrange(1, s.len() as int)
    } else {
        s
    }
}

/// Whether `s` is written as a number: an optional minus sign, then at least
/// one digit, then nothing.
pub open spec fn is_decimal(s: Seq<char>) -> bool {
    unsigned_part(s).len() > 0 && all_digits(unsigned_part(s))
}

/// The number that `s` writes, where `is_decimal(s)`.
pub open spec fn decimal_value(s: Seq<char>) -> int {
    if has_sign(s) {
        -(digits_value(unsigned_part(s)) as int)
    } else {
        digits_value(unsigned_part(s)) as int
    }
}

/// Whether `s` is written as a number that an `i32` can hold.
pub open spec fn reads_as_i32(s: Seq<char>) -> bool {
    is_decimal(s) && i32::MIN <= decimal_value(s) <= i32::MAX
}

/// A longer run of digits writes no smaller a number than its beginning.
proof fn lemma_digits_value_grows(s: Seq<char>, n: int)
    requires
        0 <= n <= s.len(),
    ensures
        digits_value(s.take(n)) <= digits_value(s),
    decreases s.len(),
{
    if n == s.len() {
        assert(s.take(n) =~= s);
    } else {
        assert(s.drop_last().take(n) =~= s.take(n));
        lemma_digits_value_grows(s.drop_last(), n);
    }
}

/// A text with a character outside ASCII is not written as a number.
proof fn lemma_decimal_is_ascii(s: Seq<char>)
    requires
        is_decimal(s),
    ensures
        vstd::utf8::is_ascii_chars(s),
{
    assert forall|i: int| 0 <= i < s.len() implies '\0' <= #[trigger] s[i] <= '\u{7f}' by {
        if has_sign(s) {
            if i > 0 {
                assert(is_digit(unsigned_part(s)[i - 1]));
            }
        } else {
            assert(is_digit(unsigned_part(s)[i]));
        }
    }
}

/// Reads `s` as a decimal `i32`.
///
/// The result is the number where `s` is an optional minus sign followed by
/// digits and the number lies in the range of `i32`, and `None` otherwise.
pub fn parse_i32(s: &str) -> (res: Option<i32>)
    ensures
        res is Some <==> reads_as_i32(s@),
        res is Some ==> res->Some_0 as int == decimal_value(s@),
{
    if !s.is_ascii() {
        proof {
            if is_decimal(s@) {
                lemma_decimal_is_ascii(s@);
            }
        }
        return None;
    }
    let n: usize = s.unicode_len();
    if n == 0 {
        return None;
    }
    let negative: bool = s.get_ascii(0) == 45u8;
    let start: usize = if negative { 1 } else { 0 };
    if start == n {
        return None;
    }
    let ghost digits = unsigned_part(s@);
    assert(negative == has_sign(s@));
    assert(digits =~= s@.subrange(start as int, n as int));
    let limit: u64 = if negative { 2147483648 } else { 2147483647 };
    let mut value: u64 = 0;
    let mut i: usize = start;
    while i < n
        invariant
            s.is_ascii(),
            n == s@.len(),
            start <= i <= n,
            negative == has_sign(s@),
            digits == unsigned_part(s@),
            digits =~= s@.subrange(start as int, n as int),
            limit == if negative { 2147483648u64 } else { 2147483647u64 },
            all_digits(digits.take(i - start)),
            value == digits_value(digits.take(i - start)),
            value <= limit,
        decreases n - i,
    {
        let b: u8 = s.get_ascii(i);
        assert(digits[i - start] == s@[i as int]);
        assert('\0' <= s@[i as int] <= '\u{7f}');
        if b < 48u8 || b > 57u8 {
            assert(!is_digit(digits[i - start]));
            return None;
        }
        let ghost before = digits.take(i - start);
        let ghost after = digits.take(i + 1 - start);
        assert(after.drop_last() =~= before);
        assert(after.last() == s@[i as int]);
        assert(digit_value(s@[i as int]) == b - 48);
        assert forall|j: int| 0 <= j < after.len() implies is_digit(#[trigger] after[j]) by {
            if j < before.len() {
                assert(after[j] == before[j]);
            }
        }
        value = value * 10 + (b - 48u8) as u64;
        if value > limit {
            proof {
                lemma_digits_value_grows(digits, i + 1 - start);
            }
            return None;
        }
        i += 1;
    }
    assert(digits.take(i - start) =~= digits);
    if negative {
        if value == 2147483648 {
            Some(i32::MIN)
        } else {
            Some(-(value as i32))
        }
    } else {
        Some(value as i32)
    }
}

/// Reads both texts of `pair` as decimal `i32` numbers.
///
/// Where both are numbers, the result holds them in the same order. Where
/// the first is not, the error carries the first text, whatever the second
/// is; where only the second is not, it carries the second.
pub fn parse(pair: (&str, &str)) -> (res: Result<(i32, i32), ParseError>)
    ensures
        match res {
            Ok(numbers) => {
                &&& reads_as_i32(pair.0@)
                &&& reads_as_i32(pair.1@)
                &&& numbers.0 as int == decimal_value(pair.0@)
                &&& numbers.1 as int == decimal_value(pair.1@)
            },
            Err(e) => if !reads_as_i32(pair.0@) {
                e@ == pair.0@
            } else {
                !reads_as_i32(pair.1@) && e@ == pair.1@
            },
        },
{
    let (a, b) = pair;
    match (parse_i32(a), parse_i32(b)) {
        (Some(x), Some(y)) => Ok((x, y)),
        (None, _) => Err(ParseError(a.to_string())),
        (_, None) => Err(ParseError(b.to_string())),
    }
}

} // verus!
