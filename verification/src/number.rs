//! Unsigned decimal literals.

use vstd::prelude::*;
use vstd::string::StringExecFns;

verus! {

/// Why a text is no unsigned 32-bit decimal literal.
#[derive(Clone, Copy, Debug, PartialEq, Eq, Structural)]
pub enum IntParseError {
    /// The text is empty.
    Empty,
    /// A character is no decimal digit, or a sign stands alone.
    InvalidDigit,
    /// The digits denote more than `u32::MAX`.
    PosOverflow,
}

pub open spec fn is_digit(b: u8) -> bool {
    0x30 <= b && b <= 0x39
}

/// The number that the digits denote, read from left to right. The first
/// character that is no digit, or that takes the number past `u32::MAX`,
/// ends the reading with its error.
pub open spec fn digits_value(s: Seq<u8>) -> Result<u32, IntParseError>
    decreases s.len(),
{
    if s.len() == 0 {
        Ok(0)
    } else {
        match digits_value(s.drop_last()) {
            Err(e) => Err(e),
            Ok(v) => if !is_digit(s.last()) {
                Err(IntParseError::InvalidDigit)
            } else if v * 10 + (s.last() - 0x30) > u32::MAX {
                Err(IntParseError::PosOverflow)
            } else {
                Ok((v * 10 + (s.last() - 0x30)) as u32)
            },
        }
    }
}

/// The value of an unsigned decimal literal: digits, with one `+` allowed
/// in front of them.
pub open spec fn literal_value(s: Seq<u8>) -> Result<u32, IntParseError> {
    if s.len() == 0 {
        Err(IntParseError::Empty)
    } else if s.len() == 1 && (s[0] == 0x2b || s[0] == 0x2d) {
        Err(IntParseError::InvalidDigit)
    } else if s[0] == 0x2b {
        digits_value(s.subrange(1, s.len() as int))
    } else {
        digits_value(s)
    }
}

/// Reads the digits of `bytes` between `from` and `to`.
fn parse_digits(bytes: &[u8], from: usize, to: usize) -> (r: Result<u32, IntParseError>)
    requires
        from <= to <= bytes.len(),
    ensures
        r == digits_value(bytes@.subrange(from as int, to as int)),
{
    let mut value: u32 = 0;
    let mut i: usize = from;
    assert(bytes@.subrange(from as int, from as int) =~= Seq::<u8>::empty());
    while i < to
        invariant
            from <= i <= to <= bytes.len(),
            digits_value(bytes@.subrange(from as int, i as int)) == Ok::<u32, IntParseError>(
                value,
            ),
        decreases to - i,
    {
        let b = bytes[i];
        proof {
            let next = bytes@.subrange(from as int, i + 1);
            assert(next.drop_last() =~= bytes@.subrange(from as int, i as int));
            assert(next.last() == b);
            lemma_error_stays(bytes@.subrange(from as int, to as int), i + 1 - from);
            assert(bytes@.subrange(from as int, to as int).take(i + 1 - from) =~= next);
        }
        if b < 0x30 || b > 0x39 {
            return Err(IntParseError::InvalidDigit);
        }
        let digit: u32 = (b - 0x30) as u32;
        if value > (u32::MAX - digit) / 10 {
            return Err(IntParseError::PosOverflow);
        }
        value = value * 10 + digit;
        i = i + 1;
    }
    assert(bytes@.subrange(from as int, i as int) =~= bytes@.subrange(from as int, to as int));
    Ok(value)
}

/// An error met while reading a prefix is the result of reading the whole.
pub proof fn lemma_error_stays(s: Seq<u8>, n: int)
    requires
        0 <= n <= s.len(),
    ensures
        digits_value(s.take(n)) is Err ==> digits_value(s) == digits_value(s.take(n)),
    decreases s.len() - n,
{
    if n < s.len() {
        lemma_error_stays(s, n + 1);
        assert(s.take(n + 1).drop_last() =~= s.take(n));
    } else {
        assert(s.take(n) =~= s);
    }
}

/// Reads an unsigned decimal literal.
pub fn parse_u32(bytes: &[u8]) -> (r: Result<u32, IntParseError>)
    ensures
        r == literal_value(bytes@),
{
    let n = bytes.len();
    if n == 0 {
        return Err(IntParseError::Empty);
    }
    let first = bytes[0];
    if n == 1 && (first == 0x2b || first == 0x2d) {
        return Err(IntParseError::InvalidDigit);
    }
    if first == 0x2b {
        parse_digits(bytes, 1, n)
    } else {
        assert(bytes@.subrange(0, n as int) =~= bytes@);
        parse_digits(bytes, 0, n)
    }
}

/// The character of a decimal digit.
pub open spec fn digit_text(d: int) -> Seq<char> {
    if d == 0 {
        "0"@
    } else if d == 1 {
        "1"@
    } else if d == 2 {
        "2"@
    } else if d == 3 {
        "3"@
    } else if d == 4 {
        "4"@
    } else if d == 5 {
        "5"@
    } else if d == 6 {
        "6"@
    } else if d == 7 {
        "7"@
    } else if d == 8 {
        "8"@
    } else {
        "9"@
    }
}

/// A number in decimal digits, without leading zeros.
pub open spec fn decimal(n: nat) -> Seq<char>
    decreases n,
{
    if n < 10 {
        digit_text(n as int)
    } else {
        decimal(n / 10) + digit_text((n % 10) as int)
    }
}

fn digit_str(d: u64) -> (r: &'static str)
    requires
        d < 10,
    ensures
        r@ == digit_text(d as int),
{
    if d == 0 {
        "0"
    } else if d == 1 {
        "1"
    } else if d == 2 {
        "2"
    } else if d == 3 {
        "3"
    } else if d == 4 {
        "4"
    } else if d == 5 {
        "5"
    } else if d == 6 {
        "6"
    } else if d == 7 {
        "7"
    } else if d == 8 {
        "8"
    } else {
        "9"
    }
}

/// Writes a number in decimal digits.
pub fn to_decimal(n: u64) -> (r: String)
    ensures
        r@ == decimal(n as nat),
    decreases n,
{
    if n < 10 {
        digit_str(n).to_owned()
    } else {
        let mut text = to_decimal(n / 10);
        text.append(digit_str(n % 10));
        text
    }
}

} // verus!
