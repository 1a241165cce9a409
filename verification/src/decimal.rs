//! Decimal literals: the text of a number as it stands in a map file.
//!
//! A [`Decimal`] keeps the literal itself, so no digit is lost; whoever draws
//! the map turns it into the number type of the renderer.

use vstd::prelude::*;
use vstd::slice::slice_to_vec;

verus! {

pub const BYTE_PLUS: u8 = 0x2b;

pub const BYTE_MINUS: u8 = 0x2d;

pub const BYTE_DOT: u8 = 0x2e;

pub const BYTE_ZERO: u8 = 0x30;

pub const BYTE_NINE: u8 = 0x39;

/// True for the bytes `0` to `9`.
pub open spec fn is_digit(b: u8) -> bool {
    BYTE_ZERO <= b <= BYTE_NINE
}

/// True for the bytes `+` and `-`.
pub open spec fn is_sign(b: u8) -> bool {
    b == BYTE_PLUS || b == BYTE_MINUS
}

/// The part of a literal behind its optional sign.
pub open spec fn unsigned_part(text: Seq<u8>) -> Seq<u8> {
    if text.len() > 0 && is_sign(text[0]) {
        text.skip(1)
    } else {
        text
    }
}

/// A decimal literal is an optional sign followed by digits with at most one
/// `.` among them, and at least one digit.
pub open spec fn is_decimal_literal(text: Seq<u8>) -> bool {
    let body = unsigned_part(text);
    &&& forall|i: int| 0 <= i < body.len() ==> is_digit(#[trigger] body[i]) || body[i] == BYTE_DOT
    &&& forall|i: int, j: int|
        0 <= i < body.len() && 0 <= j < body.len() && #[trigger] body[i] == BYTE_DOT
            && #[trigger] body[j] == BYTE_DOT ==> i == j
    &&& exists|i: int| 0 <= i < body.len() && is_digit(#[trigger] body[i])
}

/// Decides whether `text` is a decimal literal.
pub fn is_decimal(text: &[u8]) -> (ok: bool)
    ensures
        ok == is_decimal_literal(text@),
{
    let n = text.len();
    let start: usize = if n > 0 && (text[0] == BYTE_PLUS || text[0] == BYTE_MINUS) {
        1
    } else {
        0
    };
    let ghost body = unsigned_part(text@);
    assert(body == text@.skip(start as int));
    let mut i: usize = start;
    let mut seen_digit = false;
    let mut seen_dot = false;
    while i < n
        invariant
            start <= i <= n,
            n == text@.len(),
            body == text@.skip(start as int),
            body == unsigned_part(text@),
            forall|k: int| 0 <= k < i - start ==> is_digit(#[trigger] body[k]) || body[k] == BYTE_DOT,
            forall|k: int, l: int|
                0 <= k < i - start && 0 <= l < i - start && #[trigger] body[k] == BYTE_DOT
                    && #[trigger] body[l] == BYTE_DOT ==> k == l,
            seen_dot == exists|k: int| 0 <= k < i - start && #[trigger] body[k] == BYTE_DOT,
            seen_digit == exists|k: int| 0 <= k < i - start && is_digit(#[trigger] body[k]),
        decreases n - i,
    {
        let b = text[i];
        assert(body[i - start] == b);
        if BYTE_ZERO <= b && b <= BYTE_NINE {
            seen_digit = true;
        } else if b == BYTE_DOT {
            if seen_dot {
                proof {
                    let k = choose|k: int| 0 <= k < i - start && #[trigger] body[k] == BYTE_DOT;
                    assert(body[k] == BYTE_DOT && body[i - start] == BYTE_DOT);
                }
                return false;
            }
            seen_dot = true;
        } else {
            return false;
        }
        i += 1;
    }
    seen_digit
}

/// A number of a map file, held as the decimal literal that was read.
#[derive(Debug)]
pub struct Decimal {
    text: Vec<u8>,
}

impl View for Decimal {
    type V = Seq<u8>;

    /// The bytes of the literal.
    closed spec fn view(&self) -> Seq<u8> {
        self.text@
    }
}

impl Decimal {
    /// A `Decimal` is made from a decimal literal only.
    #[verifier::type_invariant]
    spec fn holds_literal(&self) -> bool {
        is_decimal_literal(self.text@)
    }

    /// The bytes are a decimal literal. Every `Decimal` that runs through a
    /// program is so; a statement about all records says it of their views.
    pub open spec fn wf(&self) -> bool {
        is_decimal_literal(self@)
    }

    /// Reads a literal: `Some` exactly for a decimal literal, and then with
    /// the same bytes.
    pub fn parse(text: &[u8]) -> (r: Option<Decimal>)
        ensures
            r is Some == is_decimal_literal(text@),
            r is Some ==> r->0@ == text@ && r->0.wf(),
    {
        if is_decimal(text) {
            Some(Decimal { text: slice_to_vec(text) })
        } else {
            None
        }
    }

    /// The bytes of the literal.
    pub fn as_bytes(&self) -> (bytes: &[u8])
        ensures
            bytes@ == self@,
            self.wf(),
    {
        proof {
            use_type_invariant(self);
        }
        self.text.as_slice()
    }

    /// A copy of this literal.
    pub fn duplicate(&self) -> (copy: Decimal)
        ensures
            copy@ == self@,
            copy.wf(),
    {
        proof {
            use_type_invariant(self);
        }
        Decimal { text: slice_to_vec(self.text.as_slice()) }
    }

    /// True when both hold the same literal, byte for byte.
    pub fn same_text(&self, other: &Decimal) -> (same: bool)
        ensures
            same == (self@ == other@),
    {
        if self.text.len() != other.text.len() {
            return false;
        }
        let mut i: usize = 0;
        while i < self.text.len()
            invariant
                i <= self.text.len(),
                self.text.len() == other.text.len(),
                forall|k: int| 0 <= k < i ==> self.text@[k] == other.text@[k],
            decreases self.text.len() - i,
        {
            if self.text[i] != other.text[i] {
                return false;
            }
            i += 1;
        }
        assert(self.text@ =~= other.text@);
        true
    }
}

} // verus!
