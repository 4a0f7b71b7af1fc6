//! Decimal numbers as text: reading a `u32` and writing one.
//!
//! Reading accepts what `str::parse::<u32>` accepts: an optional `+`, then one
//! or more of the digits `0` to `9`, with a value that fits. Nothing else, no
//! blank and no `-`, is accepted.

use vstd::prelude::*;

verus! {

/// Whether `c` is one of `0` to `9`.
pub open spec fn is_digit(c: char) -> bool {
    '0' <= c && c <= '9'
}

/// The value of a digit.
pub open spec fn digit_value(c: char) -> nat {
    (c as nat - '0' as nat) as nat
}

/// The digit with a value below ten.
pub open spec fn digit_char(d: nat) -> char {
    ('0' as nat + d) as char
}

/// Every character is a digit.
pub open spec fn all_digits(text: Seq<char>) -> bool {
    forall|i: int| 0 <= i < text.len() ==> is_digit(#[trigger] text[i])
}

/// The number that a run of digits writes, most significant digit first.
pub open spec fn digits_value(digits: Seq<char>) -> nat
    decreases digits.len(),
{
    if digits.len() == 0 {
        0
    } else {
        10 * digits_value(digits.drop_last()) + digit_value(digits.last())
    }
}

/// The text without a leading `+`.
pub open spec fn unsigned(text: Seq<char>) -> Seq<char> {
    if text.len() > 0 && text[0] == '+' {
        text.skip(1)
    } else {
        text
    }
}

/// The number that a text writes, if it writes one that fits in 32 bits.
pub open spec fn decimal_u32(text: Seq<char>) -> Option<u32> {
    let digits = unsigned(text);
    if digits.len() > 0 && all_digits(digits) && digits_value(digits) <= u32::MAX {
        Some(digits_value(digits) as u32)
    } else {
        None
    }
}

/// The digits that write a number, without leading zeros.
pub open spec fn decimal_digits(n: nat) -> Seq<char>
    decreases n,
{
    if n < 10 {
        seq![digit_char(n)]
    } else {
        decimal_digits(n / 10).push(digit_char(n % 10))
    }
}

/// A run of digits is worth at least as much as any of its beginnings.
pub proof fn lemma_digits_value_grows(digits: Seq<char>, k: int)
    requires
        0 <= k <= digits.len(),
    ensures
        digits_value(digits.take(k)) <= digits_value(digits),
    decreases digits.len(),
{
    if k == digits.len() {
        assert(digits.take(k) =~= digits);
    } else {
        assert(digits.drop_last().take(k) =~= digits.take(k));
        lemma_digits_value_grows(digits.drop_last(), k);
    }
}

/// The digits that write a number are digits, begin with no sign and are
/// worth that number.
pub proof fn lemma_decimal_digits_value(n: nat)
    ensures
        decimal_digits(n).len() > 0,
        all_digits(decimal_digits(n)),
        digits_value(decimal_digits(n)) == n,
    decreases n,
{
    let digits = decimal_digits(n);
    if n < 10 {
        assert(digits.drop_last() =~= Seq::<char>::empty());
        assert(digits_value(digits.drop_last()) == 0);
    } else {
        lemma_decimal_digits_value(n / 10);
        assert(digits.drop_last() =~= decimal_digits(n / 10));
    }
}

/// Reading gives back the number that was written.
pub proof fn law_written_number_is_read(n: u32)
    ensures
        decimal_u32(decimal_digits(n as nat)) == Some(n),
{
    lemma_decimal_digits_value(n as nat);
    let digits = decimal_digits(n as nat);
    assert(is_digit(digits[0]));
}

/// Reads a decimal number.
pub fn parse_decimal(text: &str) -> (r: Option<u32>)
    ensures
        r == decimal_u32(text@),
{
    let mut value: u64 = 0;
    let mut any = false;
    let mut first = true;
    let ghost digits = unsigned(text@);
    let ghost offset: int = text@.len() - digits.len();
    assert(digits.take(0) =~= Seq::<char>::empty());
    for c in it: text.chars()
        invariant
            it.seq() == text@,
            digits == unsigned(text@),
            offset == text@.len() - digits.len(),
            first == (it.index() == 0),
            it.index() == 0 || it.index() >= offset,
            ({
                let n = if it.index() == 0 {
                    0
                } else {
                    it.index() - offset
                };
                &&& all_digits(digits.take(n))
                &&& value == digits_value(digits.take(n))
                &&& any == (n > 0)
            }),
            value <= u32::MAX,
    {
        let ghost i = it.index();
        if first && c == '+' {
            first = false;
        } else {
            first = false;
            proof {
                assert(i >= offset);
                assert(digits[i - offset] == c);
                assert(digits.take(i - offset + 1).drop_last() =~= digits.take(i - offset));
                assert(digits.take(i - offset + 1).last() == c);
            }
            if c >= '0' && c <= '9' {
                let d = (c as u32 - '0' as u32) as u64;
                value = value * 10 + d;
                any = true;
                if value > 0xffff_ffff {
                    proof {
                        lemma_digits_value_grows(digits, i - offset + 1);
                    }
                    return None;
                }
            } else {
                assert(!is_digit(digits[i - offset]));
                return None;
            }
        }
    }
    proof {
        let n = if text@.len() == 0 {
            0
        } else {
            text@.len() - offset
        };
        assert(digits.take(n) =~= digits);
    }
    if any {
        Some(value as u32)
    } else {
        None
    }
}

/// Appends the decimal digits of `n` to `out`.
pub fn push_decimal(out: &mut String, n: u32)
    ensures
        final(out)@ == old(out)@ + decimal_digits(n as nat),
    decreases n,
{
    if n >= 10 {
        push_decimal(out, n / 10);
    }
    let d = (n % 10) as u8;
    let c = (48u8 + d) as char;
    assert(c == digit_char((n % 10) as nat));
    out.push(c);
    assert(out@ =~= old(out)@ + decimal_digits(n as nat));
}

} // verus!
