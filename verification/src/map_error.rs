//! What can be wrong with a map file, and on which line.

use crate::decimal::BYTE_ZERO;
use crate::integer::decimal_digits;
use vstd::prelude::*;
use vstd::string::StringExecFns;

verus! {

/// The ways in which a map file can be malformed.
#[derive(Clone, Copy, Debug, PartialEq, Eq, Structural)]
pub enum MapFileErrorKind {
    /// A line starts a record with a byte that names no geometry type.
    UnknownGeometryType(u8),
    /// A byte inside a record that no number and no delimiter can hold.
    UnexpectedCharacter(u8),
    /// A `)`, `,` or newline where a number had to come first.
    EmptyField,
    /// A record goes on after its seventh field.
    TooManyFields,
    /// One of the first four fields is no decimal literal.
    InvalidFloat,
    /// A texture field is no unsigned integer literal.
    InvalidDigit,
    /// A texture field denotes more than the machine's largest unsigned
    /// integer.
    IntegerOverflow,
    /// The space index of a texture is zero.
    ZeroSpaceIndex,
    /// A record ended with fewer than four fields; `supplied` counts those
    /// that were there.
    MissingPositional { supplied: u8 },
    /// A texture reference ended after its space index.
    MissingAtlasIndex,
    /// A texture reference ended after its atlas index.
    MissingInnerIndex,
    /// The inner index of a texture is the machine's largest unsigned integer,
    /// which is kept free.
    InnerIndexReserved,
}

/// A malformed map file: what is wrong, and the line counted when it was
/// found. Lines count from one.
#[derive(Clone, Copy, Debug, PartialEq, Eq, Structural)]
pub struct MapFileParseError {
    pub line: usize,
    pub kind: MapFileErrorKind,
}

/// A [`MapFileParseError`] with its line as a mathematical number.
pub struct ParseErrorView {
    pub line: nat,
    pub kind: MapFileErrorKind,
}

impl View for MapFileParseError {
    type V = ParseErrorView;

    open spec fn view(&self) -> ParseErrorView {
        ParseErrorView { line: self.line as nat, kind: self.kind }
    }
}

/// Puts one character behind a text.
///
/// This is `String::push` of the standard library, taken on trust: the text
/// afterwards is the text before with `c` as its new last character.
#[verifier::external_body]
fn push_char(text: &mut String, c: char)
    ensures
        final(text)@ == old(text)@.push(c),
{
    text.push(c);
}

/// The digits of a number as characters.
pub open spec fn decimal_text(n: nat) -> Seq<char> {
    decimal_digits(n).map_values(|b: u8| b as char)
}

fn push_decimal(text: &mut String, v: usize)
    ensures
        final(text)@ == old(text)@ + decimal_text(v as nat),
    decreases v,
{
    if v >= 10 {
        push_decimal(text, v / 10);
    }
    let digit: u8 = BYTE_ZERO + (v % 10) as u8;
    push_char(text, digit as char);
    assert(text@ =~= old(text)@ + decimal_text(v as nat));
}

impl MapFileErrorKind {
    /// What is wrong, in words.
    pub open spec fn message_spec(self) -> Seq<char> {
        match self {
            MapFileErrorKind::UnknownGeometryType(b) => {
                "unrecognized first character of a record: '"@.push(b as char)
                    + "'; a record starts with 'R' for a rectangle"@
            },
            MapFileErrorKind::UnexpectedCharacter(b) => {
                "unrecognized character inside a record: '"@.push(b as char)
                    + "'; a record holds only #()+,-.0-9, spaces and the newline"@
            },
            MapFileErrorKind::EmptyField => {
                "empty field: a number has to stand before each ')', ',' and newline of a record"@
            },
            MapFileErrorKind::TooManyFields => {
                "too many fields: a record has four numbers and at most three texture indices"@
            },
            MapFileErrorKind::InvalidFloat => "invalid float literal"@,
            MapFileErrorKind::InvalidDigit => "invalid digit found in string"@,
            MapFileErrorKind::IntegerOverflow => "number too large to fit in target type"@,
            MapFileErrorKind::ZeroSpaceIndex => "number would be zero for non-zero type"@,
            MapFileErrorKind::MissingPositional { supplied } => {
                if supplied == 0 {
                    "missing positional fields: x, y, w and h"@
                } else if supplied == 1 {
                    "missing positional fields: y, w and h"@
                } else if supplied == 2 {
                    "missing positional fields: w and h"@
                } else {
                    "missing positional field: h"@
                }
            },
            MapFileErrorKind::MissingAtlasIndex => {
                "missing atlas_index of the texture reference: only space_index is there"@
            },
            MapFileErrorKind::MissingInnerIndex => {
                "missing inner_index of the texture reference: only space_index and atlas_index are there"@
            },
            MapFileErrorKind::InnerIndexReserved => {
                "inner_index cannot be the largest unsigned integer of the machine"@
            },
        }
    }

    /// What is wrong, in words.
    pub fn message(&self) -> (m: String)
        ensures
            m@ == self.message_spec(),
    {
        match *self {
            MapFileErrorKind::UnknownGeometryType(b) => {
                let mut m = String::from_str("unrecognized first character of a record: '");
                push_char(&mut m, b as char);
                m.append("'; a record starts with 'R' for a rectangle");
                m
            },
            MapFileErrorKind::UnexpectedCharacter(b) => {
                let mut m = String::from_str("unrecognized character inside a record: '");
                push_char(&mut m, b as char);
                m.append("'; a record holds only #()+,-.0-9, spaces and the newline");
                m
            },
            MapFileErrorKind::EmptyField => String::from_str(
                "empty field: a number has to stand before each ')', ',' and newline of a record",
            ),
            MapFileErrorKind::TooManyFields => String::from_str(
                "too many fields: a record has four numbers and at most three texture indices",
            ),
            MapFileErrorKind::InvalidFloat => String::from_str("invalid float literal"),
            MapFileErrorKind::InvalidDigit => String::from_str("invalid digit found in string"),
            MapFileErrorKind::IntegerOverflow => String::from_str(
                "number too large to fit in target type",
            ),
            MapFileErrorKind::ZeroSpaceIndex => String::from_str(
                "number would be zero for non-zero type",
            ),
            MapFileErrorKind::MissingPositional { supplied } => {
                if supplied == 0 {
                    String::from_str("missing positional fields: x, y, w and h")
                } else if supplied == 1 {
                    String::from_str("missing positional fields: y, w and h")
                } else if supplied == 2 {
                    String::from_str("missing positional fields: w and h")
                } else {
                    String::from_str("missing positional field: h")
                }
            },
            MapFileErrorKind::MissingAtlasIndex => String::from_str(
                "missing atlas_index of the texture reference: only space_index is there",
            ),
            MapFileErrorKind::MissingInnerIndex => String::from_str(
                "missing inner_index of the texture reference: only space_index and atlas_index are there",
            ),
            MapFileErrorKind::InnerIndexReserved => String::from_str(
                "inner_index cannot be the largest unsigned integer of the machine",
            ),
        }
    }
}

impl MapFileParseError {
    /// The error as one line of text: the line of the map, then what is
    /// wrong there.
    pub open spec fn describe_spec(self) -> Seq<char> {
        "[Line #"@ + decimal_text(self.line as nat) + "] Poorly formatted map file: "@
            + self.kind.message_spec()
    }

    /// What is wrong, in words.
    pub fn message(&self) -> (m: String)
        ensures
            m@ == self.kind.message_spec(),
    {
        self.kind.message()
    }

    /// The error as one line of text: the line of the map, then what is
    /// wrong there.
    pub fn describe(&self) -> (text: String)
        ensures
            text@ == self.describe_spec(),
    {
        let mut text = String::from_str("[Line #");
        push_decimal(&mut text, self.line);
        text.append("] Poorly formatted map file: ");
        let m = self.kind.message();
        text.append(m.as_str());
        text
    }
}

} // verus!
