//! Reading a map: the bytes of a map file in, its shapes out.

use crate::decimal::{Decimal, BYTE_DOT, BYTE_MINUS, BYTE_NINE, BYTE_PLUS, BYTE_ZERO};
use crate::geometry::{views_of, Geometry, GeometryMap, GeometryView, TextureIndex};
use crate::integer::{parse_usize, IntegerError};
use crate::map_error::{MapFileErrorKind, MapFileParseError, ParseErrorView};
use crate::map_format::{
    close_field, end_line, fields, finish_record, initial_state, parse_spec, record_of, scan,
    step, ScanState, BYTE_CLOSE, BYTE_COMMA, BYTE_HASH, BYTE_NEWLINE, BYTE_OPEN, BYTE_RECT,
    BYTE_SPACE, MAX_FIELDS, POSITIONAL_FIELDS,
};
use vstd::prelude::*;

verus! {

/// The literals of some numbers, in their order.
pub open spec fn texts_of(items: Seq<Decimal>) -> Seq<Seq<u8>> {
    items.map_values(|d: Decimal| d@)
}

/// Machine integers as mathematical ones.
pub open spec fn nats_of(items: Seq<usize>) -> Seq<nat> {
    items.map_values(|v: usize| v as nat)
}

/// The reader between two bytes. It holds no error: the first one ends the
/// reading.
struct Scanner {
    /// The lines that have ended: one less than the number of the current
    /// line.
    ended: usize,
    in_comment: bool,
    in_record: bool,
    closed: bool,
    buffer: Vec<u8>,
    position: Vec<Decimal>,
    texture: Vec<usize>,
    records: Vec<Geometry>,
}

impl View for Scanner {
    type V = ScanState;

    closed spec fn view(&self) -> ScanState {
        ScanState {
            line: self.ended as nat + 1,
            in_comment: self.in_comment,
            in_record: self.in_record,
            closed: self.closed,
            buffer: self.buffer@,
            position: texts_of(self.position@),
            texture: nats_of(self.texture@),
            records: views_of(self.records@),
            error: None,
        }
    }
}

impl Scanner {
    /// Positional fields come first, and every number held is valid.
    closed spec fn inv(&self) -> bool {
        &&& self.position@.len() <= POSITIONAL_FIELDS
        &&& self.position@.len() + self.texture@.len() <= MAX_FIELDS
        &&& self.texture@.len() > 0 ==> self.position@.len() == POSITIONAL_FIELDS
        &&& self.texture@.len() > 0 ==> self.texture@[0] >= 1
        &&& forall|i: int| 0 <= i < self.position@.len() ==> (#[trigger] self.position@[i]).wf()
        &&& forall|i: int| 0 <= i < self.records@.len() ==> (#[trigger] self.records@[i]).wf()
    }

    fn new() -> (s: Scanner)
        ensures
            s.inv(),
            s@ == initial_state(),
    {
        let s = Scanner {
            ended: 0,
            in_comment: false,
            in_record: false,
            closed: false,
            buffer: Vec::new(),
            position: Vec::new(),
            texture: Vec::new(),
            records: Vec::new(),
        };
        assert(texts_of(s.position@) =~= Seq::empty());
        assert(nats_of(s.texture@) =~= Seq::empty());
        assert(views_of(s.records@) =~= Seq::empty());
        s
    }

    fn error(&self, kind: MapFileErrorKind) -> (e: MapFileParseError)
        requires
            self.ended < usize::MAX,
        ensures
            e@ == (ParseErrorView { line: self@.line, kind }),
    {
        MapFileParseError { line: self.ended + 1, kind }
    }

    fn close_field(&mut self, by_paren: bool) -> (r: Result<(), MapFileParseError>)
        requires
            old(self).inv(),
            old(self).ended < usize::MAX,
            fields(old(self)@) < MAX_FIELDS,
        ensures
            match r {
                Ok(()) => final(self).inv() && final(self)@ == close_field(old(self)@, by_paren)
                    && final(self)@.error is None,
                Err(e) => close_field(old(self)@, by_paren).error == Some(e@),
            },
            r is Ok ==> final(self).ended == old(self).ended,
            r is Ok ==> final(self).in_record == old(self).in_record,
    {
        let n = self.position.len() + self.texture.len();
        if n < POSITIONAL_FIELDS {
            match Decimal::parse(self.buffer.as_slice()) {
                Some(d) => {
                    self.position.push(d);
                    assert(texts_of(self.position@) =~= texts_of(old(self).position@).push(d@));
                },
                None => {
                    return Err(self.error(MapFileErrorKind::InvalidFloat));
                },
            }
        } else {
            match parse_usize(self.buffer.as_slice()) {
                Ok(v) => {
                    if n == POSITIONAL_FIELDS && v == 0 {
                        return Err(self.error(MapFileErrorKind::ZeroSpaceIndex));
                    }
                    self.texture.push(v);
                    assert(nats_of(self.texture@) =~= nats_of(old(self).texture@).push(v as nat));
                },
                Err(IntegerError::InvalidDigit) => {
                    return Err(self.error(MapFileErrorKind::InvalidDigit));
                },
                Err(IntegerError::TooLarge) => {
                    return Err(self.error(MapFileErrorKind::IntegerOverflow));
                },
            }
        }
        self.buffer.clear();
        self.closed = by_paren;
        Ok(())
    }

    fn finish_record(&mut self) -> (r: Result<(), MapFileParseError>)
        requires
            old(self).inv(),
            old(self).ended < usize::MAX,
        ensures
            match r {
                Ok(()) => final(self).inv() && final(self)@ == finish_record(old(self)@)
                    && final(self)@.error is None,
                Err(e) => finish_record(old(self)@).error == Some(e@),
            },
            r is Ok ==> final(self).ended == old(self).ended && !final(self).in_record,
    {
        let n = self.position.len() + self.texture.len();
        if n < POSITIONAL_FIELDS {
            return Err(self.error(MapFileErrorKind::MissingPositional { supplied: n as u8 }));
        } else if n == 5 {
            return Err(self.error(MapFileErrorKind::MissingAtlasIndex));
        } else if n == 6 {
            return Err(self.error(MapFileErrorKind::MissingInnerIndex));
        }
        let t_index = if self.texture.len() == 3 {
            if self.texture[2] == usize::MAX {
                return Err(self.error(MapFileErrorKind::InnerIndexReserved));
            }
            Some(TextureIndex::new(self.texture[0], self.texture[1], Some(self.texture[2])))
        } else {
            None
        };
        let ghost before = self@;
        let h = self.position.pop().unwrap();
        let w = self.position.pop().unwrap();
        let y = self.position.pop().unwrap();
        let x = self.position.pop().unwrap();
        let g = Geometry::new_rect(x, y, w, h, t_index);
        assert(g@ == record_of(before));
        self.records.push(g);
        assert(views_of(self.records@) =~= views_of(old(self).records@).push(g@));
        self.texture.clear();
        self.buffer.clear();
        self.in_record = false;
        self.in_comment = false;
        self.closed = false;
        assert(texts_of(self.position@) =~= Seq::empty());
        assert(nats_of(self.texture@) =~= Seq::empty());
        Ok(())
    }

    fn end_line(&mut self) -> (r: Result<(), MapFileParseError>)
        requires
            old(self).inv(),
            old(self).ended < usize::MAX,
            old(self).in_record ==> old(self).ended + 1 < usize::MAX,
        ensures
            match r {
                Ok(()) => final(self).inv() && final(self)@ == end_line(old(self)@)
                    && final(self)@.error is None,
                Err(e) => end_line(old(self)@).error == Some(e@),
            },
            r is Ok ==> final(self).ended == old(self).ended + 1 && !final(self).in_record,
    {
        if self.in_record && self.position.len() + self.texture.len() < MAX_FIELDS {
            if self.buffer.len() > 0 {
                self.close_field(false)?;
            } else if !self.closed {
                return Err(self.error(MapFileErrorKind::EmptyField));
            }
        }
        self.in_comment = false;
        self.ended = self.ended + 1;
        if self.in_record {
            self.finish_record()
        } else {
            Ok(())
        }
    }

    /// Takes the next byte of the text.
    fn feed(&mut self, b: u8) -> (r: Result<(), MapFileParseError>)
        requires
            old(self).inv(),
            old(self).ended < usize::MAX,
            old(self).in_record ==> old(self).ended + 1 < usize::MAX,
        ensures
            match r {
                Ok(()) => final(self).inv() && final(self)@ == step(old(self)@, b)
                    && final(self)@.error is None,
                Err(e) => step(old(self)@, b).error == Some(e@),
            },
            r is Ok ==> final(self).ended <= old(self).ended + 1,
            r is Ok && final(self).in_record ==> final(self).ended == old(self).ended,
    {
        if b == BYTE_SPACE || b == BYTE_OPEN {
            return Ok(());
        }
        if b == BYTE_HASH {
            self.in_comment = true;
            return Ok(());
        }
        if b == BYTE_NEWLINE {
            return self.end_line();
        }
        if self.in_comment {
            return Ok(());
        }
        if !self.in_record {
            if b == BYTE_RECT {
                self.in_record = true;
                return Ok(());
            }
            return Err(self.error(MapFileErrorKind::UnknownGeometryType(b)));
        }
        if self.position.len() + self.texture.len() >= MAX_FIELDS {
            return Err(self.error(MapFileErrorKind::TooManyFields));
        }
        if b == BYTE_CLOSE || b == BYTE_COMMA {
            if self.buffer.len() == 0 {
                return Err(self.error(MapFileErrorKind::EmptyField));
            }
            return self.close_field(b == BYTE_CLOSE);
        }
        if (BYTE_ZERO <= b && b <= BYTE_NINE) || b == BYTE_PLUS || b == BYTE_MINUS || b
            == BYTE_DOT {
            self.buffer.push(b);
            self.closed = false;
            Ok(())
        } else {
            Err(self.error(MapFileErrorKind::UnexpectedCharacter(b)))
        }
    }
}

/// Once an error is found, the bytes that follow change nothing.
pub proof fn lemma_error_sticks(s: ScanState, bytes: Seq<u8>, k: int)
    requires
        0 <= k <= bytes.len(),
        scan(s, bytes.take(k)).error is Some,
    ensures
        scan(s, bytes) == scan(s, bytes.take(k)),
    decreases bytes.len() - k,
{
    if k == bytes.len() {
        assert(bytes.take(k) =~= bytes);
    } else {
        assert(bytes.take(k + 1).drop_last() =~= bytes.take(k));
        lemma_error_sticks(s, bytes, k + 1);
    }
}

/// Reads the text of a map. The result is what the format says the text
/// means: its shapes in the order of their lines, or the first error with
/// its line.
pub fn parse_map_file(bytes: &[u8]) -> (r: Result<GeometryMap, MapFileParseError>)
    ensures
        match r {
            Ok(map) => parse_spec(bytes@) == Ok::<Seq<GeometryView>, ParseErrorView>(map@)
                && map.wf(),
            Err(e) => parse_spec(bytes@) == Err::<Seq<GeometryView>, ParseErrorView>(e@),
        },
{
    let mut scanner = Scanner::new();
    let mut i: usize = 0;
    while i < bytes.len()
        invariant
            i <= bytes.len(),
            scanner.inv(),
            scanner@ == scan(initial_state(), bytes@.take(i as int)),
            scanner.ended <= i,
            scanner.in_record ==> scanner.ended + 1 <= i,
        decreases bytes.len() - i,
    {
        let ghost before = scanner@;
        assert(bytes@.take(i + 1).drop_last() =~= bytes@.take(i as int));
        match scanner.feed(bytes[i]) {
            Ok(()) => {},
            Err(e) => {
                proof {
                    lemma_error_sticks(initial_state(), bytes@, i + 1);
                }
                return Err(e);
            },
        }
        i += 1;
    }
    assert(bytes@.take(i as int) =~= bytes@);
    Ok(GeometryMap { inner: scanner.records })
}

/// Reads a map file from its content. A newline is put behind the content
/// first, so that a last line without one still counts.
pub fn read_map_file(file: Vec<u8>) -> (r: Result<GeometryMap, MapFileParseError>)
    ensures
        match r {
            Ok(map) => parse_spec(file@.push(BYTE_NEWLINE)) == Ok::<
                Seq<GeometryView>,
                ParseErrorView,
            >(map@) && map.wf(),
            Err(e) => parse_spec(file@.push(BYTE_NEWLINE)) == Err::<
                Seq<GeometryView>,
                ParseErrorView,
            >(e@),
        },
{
    let mut file = file;
    file.push(BYTE_NEWLINE);
    parse_map_file(file.as_slice())
}

} // verus!
