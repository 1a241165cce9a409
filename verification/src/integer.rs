//! Unsigned integer literals of a map file.

use crate::decimal::{is_digit, BYTE_NINE, BYTE_PLUS, BYTE_ZERO};
use vstd::prelude::*;

verus! {

/// The number that a sequence of digits denotes, the last digit counting
/// least. The empty sequence denotes zero.
pub open spec fn digits_value(digits: Seq<u8>) -> nat
    decreases digits.len(),
{
    if digits.len() == 0 {
        0
    } else {
        digits_value(digits.drop_last()) * 10 + (digits.last() - BYTE_ZERO) as nat
    }
}

/// The digits of an integer literal: what follows an optional `+`.
pub open spec fn integer_digits(text: Seq<u8>) -> Seq<u8> {
    if text.len() > 0 && text[0] == BYTE_PLUS {
        text.skip(1)
    } else {
        text
    }
}

/// An integer literal is an optional `+` followed by one digit or more.
pub open spec fn is_integer_literal(text: Seq<u8>) -> bool {
    let digits = integer_digits(text);
    &&& digits.len() > 0
    &&& forall|i: int| 0 <= i < digits.len() ==> is_digit(#[trigger] digits[i])
}

/// The number that an integer literal denotes.
pub open spec fn integer_value(text: Seq<u8>) -> nat {
    digits_value(integer_digits(text))
}

/// Why a text is not an unsigned integer of the machine.
#[derive(Clone, Copy, Debug, PartialEq, Eq, Structural)]
pub enum IntegerError {
    /// The text is no integer literal.
    InvalidDigit,
    /// The literal denotes more than the largest `usize`.
    TooLarge,
}

/// A longer sequence of digits denotes no less than its beginning.
pub proof fn lemma_digits_value_prefix(digits: Seq<u8>, k: int)
    requires
        0 <= k <= digits.len(),
        forall|i: int| 0 <= i < digits.len() ==> is_digit(#[trigger] digits[i]),
    ensures
        digits_value(digits.take(k)) <= digits_value(digits),
    decreases digits.len() - k,
{
    if k == digits.len() {
        assert(digits.take(k) =~= digits);
    } else {
        lemma_digits_value_prefix(digits, k + 1);
        assert(digits.take(k + 1).drop_last() =~= digits.take(k));
        assert(is_digit(digits[k]));
    }
}

/// Reads an unsigned integer literal. A text that is no literal is
/// `InvalidDigit`, whatever its length; a literal is its value, or `TooLarge`
/// where the value does not fit.
pub fn parse_usize(text: &[u8]) -> (r: Result<usize, IntegerError>)
    ensures
        match r {
            Ok(v) => is_integer_literal(text@) && v == integer_value(text@),
            Err(IntegerError::InvalidDigit) => !is_integer_literal(text@),
            Err(IntegerError::TooLarge) => is_integer_literal(text@) && integer_value(text@)
                > usize::MAX,
        },
{
    let n = text.len();
    let start: usize = if n > 0 && text[0] == BYTE_PLUS {
        1
    } else {
        0
    };
    let ghost digits = integer_digits(text@);
    assert(digits == text@.skip(start as int));
    if start == n {
        return Err(IntegerError::InvalidDigit);
    }
    let mut i: usize = start;
    while i < n
        invariant
            start <= i <= n,
            n == text@.len(),
            digits == text@.skip(start as int),
            digits == integer_digits(text@),
            forall|k: int| 0 <= k < i - start ==> is_digit(#[trigger] digits[k]),
        decreases n - i,
    {
        let b = text[i];
        assert(digits[i - start] == b);
        if !(BYTE_ZERO <= b && b <= BYTE_NINE) {
            return Err(IntegerError::InvalidDigit);
        }
        i += 1;
    }
    let mut value: usize = 0;
    i = start;
    while i < n
        invariant
            start <= i <= n,
            n == text@.len(),
            digits == text@.skip(start as int),
            digits == integer_digits(text@),
            forall|k: int| 0 <= k < digits.len() ==> is_digit(#[trigger] digits[k]),
            value == digits_value(digits.take(i - start)),
        decreases n - i,
    {
        let b = text[i];
        assert(digits[i - start] == b);
        let d: usize = (b - BYTE_ZERO) as usize;
        proof {
            assert(digits.take(i - start + 1).drop_last() =~= digits.take(i - start));
            lemma_digits_value_prefix(digits, i - start + 1);
        }
        if value > (usize::MAX - d) / 10 {
            return Err(IntegerError::TooLarge);
        }
        value = value * 10 + d;
        i += 1;
    }
    assert(digits.take(n - start) =~= digits);
    Ok(value)
}

/// The digits of a number, the first of them not zero unless the number is.
pub open spec fn decimal_digits(n: nat) -> Seq<u8>
    decreases n,
{
    if n < 10 {
        seq![(BYTE_ZERO + n) as u8]
    } else {
        decimal_digits(n / 10).push((BYTE_ZERO + n % 10) as u8)
    }
}

/// The digits of a number are an integer literal that denotes it.
pub proof fn lemma_decimal_digits(n: nat)
    ensures
        decimal_digits(n).len() >= 1,
        forall|i: int| 0 <= i < decimal_digits(n).len() ==> is_digit(#[trigger] decimal_digits(n)[i]),
        is_integer_literal(decimal_digits(n)),
        integer_value(decimal_digits(n)) == n,
    decreases n,
{
    let d = decimal_digits(n);
    if n < 10 {
        assert(d =~= seq![(BYTE_ZERO + n) as u8]);
        assert(d.drop_last() =~= Seq::<u8>::empty());
        assert(digits_value(d.drop_last()) == 0);
        assert(digits_value(d) == n);
    } else {
        lemma_decimal_digits(n / 10);
        let head = decimal_digits(n / 10);
        assert(d.drop_last() =~= head);
        assert(integer_digits(head) == head);
        assert(digits_value(d) == digits_value(head) * 10 + n % 10);
    }
    assert(is_digit(d[0]));
    assert(integer_digits(d) == d);
}

} // verus!
