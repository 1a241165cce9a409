//! The map format, as a machine that reads one byte at a time.
//!
//! A map is text. Each line is blank, a comment, or one record:
//!
//! ```text
//! R(x, y, w, h)                       # a rectangle
//! R(x, y, w, h, space, atlas, inner)  # a rectangle with a texture
//! ```
//!
//! [`parse_spec`] is what a text means. It is the state of [`scan`] after the
//! last byte: the records so far, or the first error.

use crate::decimal::{is_decimal_literal, is_digit, is_sign, BYTE_DOT};
use crate::geometry::{GeometryTypeView, GeometryView, RectView, TextureIndexView};
use crate::integer::{integer_value, is_integer_literal};
use crate::map_error::{MapFileErrorKind, ParseErrorView};
use vstd::prelude::*;

verus! {

pub const BYTE_NEWLINE: u8 = 0x0a;

pub const BYTE_SPACE: u8 = 0x20;

pub const BYTE_HASH: u8 = 0x23;

pub const BYTE_OPEN: u8 = 0x28;

pub const BYTE_CLOSE: u8 = 0x29;

pub const BYTE_COMMA: u8 = 0x2c;

pub const BYTE_RECT: u8 = 0x52;

/// The fields that give a rectangle its place and size.
pub const POSITIONAL_FIELDS: usize = 4;

/// The most fields a record can have: four numbers and a texture reference
/// of three.
pub const MAX_FIELDS: usize = 7;

/// The bytes that a number is made of.
pub open spec fn is_number_byte(b: u8) -> bool {
    is_digit(b) || is_sign(b) || b == BYTE_DOT
}

/// What the reader knows after some bytes.
pub struct ScanState {
    /// The number of the line that the next byte stands on, from one.
    pub line: nat,
    /// A `#` was seen on this line.
    pub in_comment: bool,
    /// A record was begun on this line.
    pub in_record: bool,
    /// The last field was closed by `)` and no byte of a number came since.
    pub closed: bool,
    /// The bytes of the field being read.
    pub buffer: Seq<u8>,
    /// The positional fields of the record that are complete.
    pub position: Seq<Seq<u8>>,
    /// The texture fields of the record that are complete.
    pub texture: Seq<nat>,
    /// The records of the lines before this one.
    pub records: Seq<GeometryView>,
    /// The first error, after which nothing changes any more.
    pub error: Option<ParseErrorView>,
}

/// The state before the first byte.
pub open spec fn initial_state() -> ScanState {
    fresh_state(1, Seq::empty())
}

/// The state at the start of line `line`, with `records` read so far.
pub open spec fn fresh_state(line: nat, records: Seq<GeometryView>) -> ScanState {
    ScanState {
        line,
        in_comment: false,
        in_record: false,
        closed: false,
        buffer: Seq::empty(),
        position: Seq::empty(),
        texture: Seq::empty(),
        records,
        error: None,
    }
}

/// The number of fields of the record that are complete.
pub open spec fn fields(s: ScanState) -> nat {
    s.position.len() + s.texture.len()
}

/// The state `s` stopped by an error of kind `kind` on the current line.
pub open spec fn fail(s: ScanState, kind: MapFileErrorKind) -> ScanState {
    ScanState { error: Some(ParseErrorView { line: s.line, kind }), ..s }
}

/// Turns the buffer into the next field. The first four fields are decimal
/// literals; the next three are unsigned integers of the machine, the first
/// of them not zero.
pub open spec fn close_field(s: ScanState, by_paren: bool) -> ScanState {
    if fields(s) < POSITIONAL_FIELDS {
        if is_decimal_literal(s.buffer) {
            ScanState {
                position: s.position.push(s.buffer),
                buffer: Seq::empty(),
                closed: by_paren,
                ..s
            }
        } else {
            fail(s, MapFileErrorKind::InvalidFloat)
        }
    } else if !is_integer_literal(s.buffer) {
        fail(s, MapFileErrorKind::InvalidDigit)
    } else if integer_value(s.buffer) > usize::MAX {
        fail(s, MapFileErrorKind::IntegerOverflow)
    } else if fields(s) == POSITIONAL_FIELDS && integer_value(s.buffer) == 0 {
        fail(s, MapFileErrorKind::ZeroSpaceIndex)
    } else {
        ScanState {
            texture: s.texture.push(integer_value(s.buffer)),
            buffer: Seq::empty(),
            closed: by_paren,
            ..s
        }
    }
}

/// A `)` or a `,` inside a record: it closes a field, which must not be
/// empty.
pub open spec fn delimiter(s: ScanState, by_paren: bool) -> ScanState {
    if s.buffer.len() == 0 {
        fail(s, MapFileErrorKind::EmptyField)
    } else {
        close_field(s, by_paren)
    }
}

/// The texture reference of a complete record, if it has one.
pub open spec fn texture_of(s: ScanState) -> Option<TextureIndexView> {
    if s.texture.len() == 3 {
        Some(
            TextureIndexView {
                space_index: s.texture[0],
                texture_index: s.texture[1],
                inner_index: Some(s.texture[2]),
            },
        )
    } else {
        None
    }
}

/// The rectangle that a complete record describes.
pub open spec fn record_of(s: ScanState) -> GeometryView {
    GeometryView {
        kind: GeometryTypeView::Rect(
            RectView { x: s.position[0], y: s.position[1], w: s.position[2], h: s.position[3] },
        ),
        t_index: texture_of(s),
    }
}

/// The end of a record's line: with four fields, or with seven, the record
/// joins the others; with any other number something is missing.
pub open spec fn finish_record(s: ScanState) -> ScanState {
    let n = fields(s);
    if n < POSITIONAL_FIELDS {
        fail(s, MapFileErrorKind::MissingPositional { supplied: n as u8 })
    } else if n == 5 {
        fail(s, MapFileErrorKind::MissingAtlasIndex)
    } else if n == 6 {
        fail(s, MapFileErrorKind::MissingInnerIndex)
    } else if s.texture.len() == 3 && s.texture[2] == usize::MAX {
        fail(s, MapFileErrorKind::InnerIndexReserved)
    } else {
        ScanState { records: s.records.push(record_of(s)), ..fresh_state(s.line, s.records) }
    }
}

/// A newline. It closes the field being read, if there is one; straight
/// after a `)` there is none to close. Then the next line begins, and the
/// record of the line that ended is complete or in error.
pub open spec fn end_line(s: ScanState) -> ScanState {
    let closing = if s.in_record && fields(s) < MAX_FIELDS {
        if s.buffer.len() > 0 {
            close_field(s, false)
        } else if s.closed {
            s
        } else {
            fail(s, MapFileErrorKind::EmptyField)
        }
    } else {
        s
    };
    if closing.error is Some {
        closing
    } else {
        let next = ScanState { in_comment: false, line: closing.line + 1, ..closing };
        if next.in_record {
            finish_record(next)
        } else {
            next
        }
    }
}

/// What one byte does to the state.
///
/// Spaces and `(` mean nothing anywhere. A `#` starts a comment, which runs to
/// the end of the line. Outside a record only `R` can follow, which begins a
/// rectangle. Inside a record the bytes of a number gather in the buffer until
/// a `)`, a `,` or the newline closes the field; after the seventh field only
/// the newline can follow.
pub open spec fn step(s: ScanState, b: u8) -> ScanState {
    if s.error is Some {
        s
    } else if b == BYTE_SPACE || b == BYTE_OPEN {
        s
    } else if b == BYTE_HASH {
        ScanState { in_comment: true, ..s }
    } else if b == BYTE_NEWLINE {
        end_line(s)
    } else if s.in_comment {
        s
    } else if !s.in_record {
        if b == BYTE_RECT {
            ScanState { in_record: true, ..s }
        } else {
            fail(s, MapFileErrorKind::UnknownGeometryType(b))
        }
    } else if fields(s) >= MAX_FIELDS {
        fail(s, MapFileErrorKind::TooManyFields)
    } else if b == BYTE_CLOSE || b == BYTE_COMMA {
        delimiter(s, b == BYTE_CLOSE)
    } else if is_number_byte(b) {
        ScanState { buffer: s.buffer.push(b), closed: false, ..s }
    } else {
        fail(s, MapFileErrorKind::UnexpectedCharacter(b))
    }
}

/// The state after all of `bytes`, read from state `s`.
pub open spec fn scan(s: ScanState, bytes: Seq<u8>) -> ScanState
    decreases bytes.len(),
{
    if bytes.len() == 0 {
        s
    } else {
        step(scan(s, bytes.drop_last()), bytes.last())
    }
}

/// What a state amounts to when the text ends there: the first error, or the
/// records of the lines that were ended. A last line without its newline
/// adds no record.
pub open spec fn outcome(s: ScanState) -> Result<Seq<GeometryView>, ParseErrorView> {
    match s.error {
        Some(e) => Err(e),
        None => Ok(s.records),
    }
}

/// What a map text means.
pub open spec fn parse_spec(bytes: Seq<u8>) -> Result<Seq<GeometryView>, ParseErrorView> {
    outcome(scan(initial_state(), bytes))
}

} // verus!
