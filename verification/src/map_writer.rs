//! Writing a map as text that reads back as the same map.

use crate::decimal::{is_decimal_literal, BYTE_ZERO};
use crate::geometry::{
    Geometry, GeometryMap, GeometryType, GeometryTypeView, GeometryView, TextureIndexView,
};
use crate::integer::{decimal_digits, lemma_decimal_digits};
use crate::map_error::ParseErrorView;
use crate::map_format::{
    parse_spec, BYTE_CLOSE, BYTE_COMMA, BYTE_NEWLINE, BYTE_OPEN, BYTE_RECT,
};
use crate::map_laws::{
    at_line_start, law_rect_line, law_textured_rect_line, lemma_empty_at_line_start,
    records_after, rect_line, rect_view, textured_rect_line,
};
use vstd::prelude::*;

verus! {

/// The texture reference can be written: it names a slot inside its texture,
/// and every number of it is one of the machine, the slot not the largest.
pub open spec fn texture_writable(t: TextureIndexView) -> bool {
    &&& 1 <= t.space_index <= usize::MAX
    &&& t.texture_index <= usize::MAX
    &&& t.inner_index matches Some(i) && i < usize::MAX
}

/// The record can be written: its numbers are decimal literals and its
/// texture reference, if it has one, can be written.
pub open spec fn writable(g: GeometryView) -> bool {
    &&& match g.kind {
        GeometryTypeView::Rect(r) => is_decimal_literal(r.x) && is_decimal_literal(r.y)
            && is_decimal_literal(r.w) && is_decimal_literal(r.h),
    }
    &&& match g.t_index {
        Some(t) => texture_writable(t),
        None => true,
    }
}

/// The line of a record.
pub open spec fn line_of(g: GeometryView) -> Seq<u8> {
    match g.kind {
        GeometryTypeView::Rect(r) => match g.t_index {
            Some(t) => textured_rect_line(
                r.x,
                r.y,
                r.w,
                r.h,
                decimal_digits(t.space_index),
                decimal_digits(t.texture_index),
                decimal_digits(t.inner_index.unwrap()),
            ),
            None => rect_line(r.x, r.y, r.w, r.h),
        },
    }
}

/// The text of a map: the lines of its records, one after the other.
pub open spec fn format_spec(records: Seq<GeometryView>) -> Seq<u8>
    decreases records.len(),
{
    if records.len() == 0 {
        Seq::empty()
    } else {
        format_spec(records.drop_last()) + line_of(records.last())
    }
}

/// The text of a map reads back as the same map: the same records in the
/// same order, each with its numbers and its texture reference.
pub proof fn law_round_trip(records: Seq<GeometryView>)
    requires
        forall|i: int| 0 <= i < records.len() ==> writable(#[trigger] records[i]),
    ensures
        parse_spec(format_spec(records)) == Ok::<Seq<GeometryView>, ParseErrorView>(records),
        at_line_start(format_spec(records)),
    decreases records.len(),
{
    if records.len() == 0 {
        lemma_empty_at_line_start();
        assert(records =~= Seq::<GeometryView>::empty());
    } else {
        let head = records.drop_last();
        let g = records.last();
        assert(forall|i: int| 0 <= i < head.len() ==> head[i] == records[i]);
        law_round_trip(head);
        let before = format_spec(head);
        assert(records_after(before) == head);
        assert(writable(records[records.len() - 1]));
        match g.kind {
            GeometryTypeView::Rect(r) => {
                match g.t_index {
                    Some(t) => {
                        let i = t.inner_index.unwrap();
                        lemma_decimal_digits(t.space_index);
                        lemma_decimal_digits(t.texture_index);
                        lemma_decimal_digits(i);
                        law_textured_rect_line(
                            before,
                            r.x,
                            r.y,
                            r.w,
                            r.h,
                            decimal_digits(t.space_index),
                            decimal_digits(t.texture_index),
                            decimal_digits(i),
                        );
                        assert(g == rect_view(r.x, r.y, r.w, r.h, Some(t)));
                    },
                    None => {
                        law_rect_line(before, r.x, r.y, r.w, r.h);
                        assert(g == rect_view(r.x, r.y, r.w, r.h, None));
                    },
                }
            },
        }
        assert(head.push(g) =~= records);
    }
}

fn push_all(out: &mut Vec<u8>, bytes: &[u8])
    ensures
        final(out)@ == old(out)@ + bytes@,
{
    let mut i: usize = 0;
    while i < bytes.len()
        invariant
            i <= bytes.len(),
            out@ == old(out)@ + bytes@.take(i as int),
        decreases bytes.len() - i,
    {
        out.push(bytes[i]);
        assert(bytes@.take(i + 1) =~= bytes@.take(i as int).push(bytes@[i as int]));
        assert(out@ =~= old(out)@ + bytes@.take(i + 1));
        i += 1;
    }
    assert(bytes@.take(i as int) =~= bytes@);
}

fn push_number(out: &mut Vec<u8>, v: usize)
    ensures
        final(out)@ == old(out)@ + decimal_digits(v as nat),
    decreases v,
{
    if v >= 10 {
        push_number(out, v / 10);
    }
    let digit: u8 = (v % 10) as u8;
    out.push(BYTE_ZERO + digit);
    assert(out@ =~= old(out)@ + decimal_digits(v as nat));
}

/// Puts `bytes` behind what was written, with a comma before them.
fn push_field(out: &mut Vec<u8>, bytes: &[u8])
    ensures
        final(out)@ == old(out)@ + seq![BYTE_COMMA] + bytes@,
{
    out.push(BYTE_COMMA);
    assert(out@ =~= old(out)@ + seq![BYTE_COMMA]);
    push_all(out, bytes);
}

/// Puts the digits of `v` behind what was written, with a comma before them.
fn push_number_field(out: &mut Vec<u8>, v: usize)
    ensures
        final(out)@ == old(out)@ + seq![BYTE_COMMA] + decimal_digits(v as nat),
{
    out.push(BYTE_COMMA);
    assert(out@ =~= old(out)@ + seq![BYTE_COMMA]);
    push_number(out, v);
}

/// Writes the line of one record behind what was written, if the record can
/// be written.
fn write_record(out: &mut Vec<u8>, g: &Geometry) -> (written: bool)
    ensures
        written == writable(g@),
        written ==> final(out)@ == old(out)@ + line_of(g@),
{
    let slot = match g.t_index {
        Some(t) => match t.inner_index() {
            Some(slot) => {
                if slot == usize::MAX {
                    return false;
                }
                slot
            },
            None => {
                return false;
            },
        },
        None => 0,
    };
    match &g.kind {
        GeometryType::Rect(r) => {
            let x = r.x.as_bytes();
            let y = r.y.as_bytes();
            let w = r.w.as_bytes();
            let h = r.h.as_bytes();
            let ghost before = out@;
            out.push(BYTE_RECT);
            out.push(BYTE_OPEN);
            let ghost opened = seq![BYTE_RECT, BYTE_OPEN];
            assert(out@ =~= before + opened);
            push_all(out, x);
            let ghost with_x = opened + x@;
            assert(out@ =~= before + with_x);
            push_field(out, y);
            let ghost with_y = with_x + seq![BYTE_COMMA] + y@;
            assert(out@ =~= before + with_y);
            push_field(out, w);
            let ghost with_w = with_y + seq![BYTE_COMMA] + w@;
            assert(out@ =~= before + with_w);
            push_field(out, h);
            let ghost with_h = with_w + seq![BYTE_COMMA] + h@;
            assert(out@ =~= before + with_h);
            match g.t_index {
                Some(t) => {
                    push_number_field(out, t.space_index());
                    let ghost with_space = with_h + seq![BYTE_COMMA] + decimal_digits(t@.space_index);
                    assert(out@ =~= before + with_space);
                    push_number_field(out, t.texture_index());
                    let ghost with_atlas = with_space + seq![BYTE_COMMA] + decimal_digits(t@.texture_index);
                    assert(out@ =~= before + with_atlas);
                    push_number_field(out, slot);
                    let ghost with_slot = with_atlas + seq![BYTE_COMMA] + decimal_digits(slot as nat);
                    assert(out@ =~= before + with_slot);
                    out.push(BYTE_CLOSE);
                    out.push(BYTE_NEWLINE);
                    assert(out@ =~= before + (with_slot + seq![BYTE_CLOSE, BYTE_NEWLINE]));
                },
                None => {
                    out.push(BYTE_CLOSE);
                    out.push(BYTE_NEWLINE);
                    assert(out@ =~= before + (with_h + seq![BYTE_CLOSE, BYTE_NEWLINE]));
                },
            }
        },
    }
    true
}

/// Writes a map as text, one line for each record, in their order. The text
/// reads back as the same map. There is a text for every map but one that
/// holds a texture reference without a slot, or with the largest number of
/// the machine as its slot: the format has no way to write those.
pub fn write_map_file(map: &GeometryMap) -> (r: Option<Vec<u8>>)
    ensures
        r is Some <==> forall|i: int| 0 <= i < map@.len() ==> writable(#[trigger] map@[i]),
        match r {
            Some(text) => text@ == format_spec(map@) && parse_spec(text@) == Ok::<
                Seq<GeometryView>,
                ParseErrorView,
            >(map@),
            None => true,
        },
{
    let mut out: Vec<u8> = Vec::new();
    let mut i: usize = 0;
    while i < map.inner.len()
        invariant
            i <= map.inner.len(),
            map@.len() == map.inner.len(),
            out@ == format_spec(map@.take(i as int)),
            forall|k: int| 0 <= k < i ==> writable(#[trigger] map@[k]),
        decreases map.inner.len() - i,
    {
        assert(map@[i as int] == map.inner[i as int]@);
        if !write_record(&mut out, &map.inner[i]) {
            return None;
        }
        proof {
            assert(map@.take(i + 1).drop_last() =~= map@.take(i as int));
            assert(map@.take(i + 1).last() == map@[i as int]);
        }
        i += 1;
    }
    proof {
        assert(map@.take(i as int) =~= map@);
        law_round_trip(map@);
    }
    Some(out)
}

} // verus!
