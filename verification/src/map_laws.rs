//! What the map format promises, proved of [`parse_spec`].

use crate::decimal::{is_decimal_literal, is_sign};
use crate::geometry::{GeometryTypeView, GeometryView, RectView, TextureIndexView};
use crate::integer::{integer_value, is_integer_literal};
use crate::map_error::{MapFileErrorKind, ParseErrorView};
use crate::map_format::{
    close_field, fields, finish_record, fresh_state, initial_state, is_number_byte, parse_spec,
    scan, step, ScanState, BYTE_CLOSE, BYTE_COMMA, BYTE_HASH, BYTE_NEWLINE, BYTE_OPEN,
    BYTE_RECT, BYTE_SPACE, MAX_FIELDS, POSITIONAL_FIELDS,
};
use vstd::prelude::*;

verus! {

/// Reading a text in two parts is reading it whole.
pub proof fn lemma_scan_concat(s: ScanState, a: Seq<u8>, b: Seq<u8>)
    ensures
        scan(s, a + b) == scan(scan(s, a), b),
    decreases b.len(),
{
    if b.len() == 0 {
        assert(a + b =~= a);
    } else {
        assert((a + b).drop_last() =~= a + b.drop_last());
        lemma_scan_concat(s, a, b.drop_last());
    }
}

/// Reading one byte is one step.
pub proof fn lemma_scan_one(s: ScanState, b: u8)
    ensures
        scan(s, seq![b]) == step(s, b),
{
    assert(seq![b].drop_last() =~= Seq::<u8>::empty());
    assert(scan(s, seq![b].drop_last()) == s);
}

/// Reading a byte behind a text is one step more.
pub proof fn lemma_scan_push(s: ScanState, a: Seq<u8>, b: u8)
    ensures
        scan(s, a.push(b)) == step(scan(s, a), b),
{
    assert(a.push(b).drop_last() =~= a);
}

/// After an error nothing changes.
pub proof fn lemma_scan_after_error(s: ScanState, bytes: Seq<u8>)
    requires
        s.error is Some,
    ensures
        scan(s, bytes) == s,
    decreases bytes.len(),
{
    if bytes.len() > 0 {
        lemma_scan_after_error(s, bytes.drop_last());
    }
}

/// Inside a record the bytes of a number gather in the buffer.
pub proof fn lemma_scan_number(s: ScanState, text: Seq<u8>)
    requires
        s.error is None,
        s.in_record,
        !s.in_comment,
        fields(s) < MAX_FIELDS,
        forall|i: int| 0 <= i < text.len() ==> is_number_byte(#[trigger] text[i]),
    ensures
        scan(s, text) == (ScanState {
            buffer: s.buffer + text,
            closed: if text.len() > 0 {
                false
            } else {
                s.closed
            },
            ..s
        }),
    decreases text.len(),
{
    if text.len() == 0 {
        assert(s.buffer + text =~= s.buffer);
    } else {
        lemma_scan_number(s, text.drop_last());
        assert(is_number_byte(text[text.len() - 1]));
        assert((s.buffer + text.drop_last()).push(text.last()) =~= s.buffer + text);
    }
}

/// Every byte of a decimal literal is a byte of a number, and there is one.
pub proof fn lemma_decimal_bytes(text: Seq<u8>)
    requires
        is_decimal_literal(text),
    ensures
        text.len() > 0,
        forall|i: int| 0 <= i < text.len() ==> is_number_byte(#[trigger] text[i]),
{
    let body = crate::decimal::unsigned_part(text);
    assert forall|i: int| 0 <= i < text.len() implies is_number_byte(#[trigger] text[i]) by {
        if text.len() > 0 && is_sign(text[0]) {
            if i > 0 {
                assert(body[i - 1] == text[i]);
            }
        } else {
            assert(body[i] == text[i]);
        }
    }
}

/// Every byte of an integer literal is a byte of a number, and there is one.
pub proof fn lemma_integer_bytes(text: Seq<u8>)
    requires
        is_integer_literal(text),
    ensures
        text.len() > 0,
        forall|i: int| 0 <= i < text.len() ==> is_number_byte(#[trigger] text[i]),
{
    let digits = crate::integer::integer_digits(text);
    assert forall|i: int| 0 <= i < text.len() implies is_number_byte(#[trigger] text[i]) by {
        if text.len() > 0 && text[0] == crate::decimal::BYTE_PLUS {
            if i > 0 {
                assert(digits[i - 1] == text[i]);
            }
        } else {
            assert(digits[i] == text[i]);
        }
    }
}

/// Some fields with a comma between each two.
pub open spec fn joined(fs: Seq<Seq<u8>>) -> Seq<u8>
    decreases fs.len(),
{
    if fs.len() == 0 {
        Seq::empty()
    } else if fs.len() == 1 {
        fs[0]
    } else {
        joined(fs.drop_last()) + seq![BYTE_COMMA] + fs.last()
    }
}

/// The line of a record with the fields `fs`: `R(`, the fields with commas
/// between them, `)` and the newline.
pub open spec fn record_line(fs: Seq<Seq<u8>>) -> Seq<u8> {
    seq![BYTE_RECT, BYTE_OPEN] + joined(fs) + seq![BYTE_CLOSE, BYTE_NEWLINE]
}

/// The fields can stand in a record: at most seven; the first four decimal
/// literals; the others unsigned integers of the machine, the first of them
/// not zero.
pub open spec fn valid_fields(fs: Seq<Seq<u8>>) -> bool {
    &&& fs.len() <= MAX_FIELDS
    &&& forall|i: int|
        0 <= i < fs.len() && i < POSITIONAL_FIELDS ==> is_decimal_literal(#[trigger] fs[i])
    &&& forall|i: int|
        POSITIONAL_FIELDS <= i < fs.len() ==> is_integer_literal(#[trigger] fs[i])
            && integer_value(fs[i]) <= usize::MAX
    &&& fs.len() > POSITIONAL_FIELDS ==> integer_value(fs[POSITIONAL_FIELDS as int]) >= 1
}

/// The positional fields among `fs`.
pub open spec fn position_fields(fs: Seq<Seq<u8>>) -> Seq<Seq<u8>> {
    if fs.len() <= POSITIONAL_FIELDS {
        fs
    } else {
        fs.take(POSITIONAL_FIELDS as int)
    }
}

/// The values of the texture fields among `fs`.
pub open spec fn texture_fields(fs: Seq<Seq<u8>>) -> Seq<nat> {
    if fs.len() <= POSITIONAL_FIELDS {
        Seq::empty()
    } else {
        Seq::new(
            (fs.len() - POSITIONAL_FIELDS) as nat,
            |i: int| integer_value(fs[i + POSITIONAL_FIELDS]),
        )
    }
}

/// The state inside a record on line `line` whose fields `fs` are complete.
pub open spec fn record_state(
    line: nat,
    records: Seq<GeometryView>,
    fs: Seq<Seq<u8>>,
    closed: bool,
) -> ScanState {
    ScanState {
        line,
        in_comment: false,
        in_record: true,
        closed,
        buffer: Seq::empty(),
        position: position_fields(fs),
        texture: texture_fields(fs),
        records,
        error: None,
    }
}

/// Closing a valid field adds it to the complete ones.
pub proof fn lemma_close_valid_field(
    line: nat,
    records: Seq<GeometryView>,
    fs: Seq<Seq<u8>>,
    was_closed: bool,
    by_paren: bool,
)
    requires
        valid_fields(fs),
        fs.len() >= 1,
    ensures
        close_field(
            ScanState {
                buffer: fs.last(),
                ..record_state(line, records, fs.drop_last(), was_closed)
            },
            by_paren,
        ) == record_state(line, records, fs, by_paren),
{
    let head = fs.drop_last();
    let s = ScanState { buffer: fs.last(), ..record_state(line, records, head, was_closed) };
    let k = fs.len() - 1;
    assert(fs[k] == fs.last());
    if k < POSITIONAL_FIELDS {
        assert(position_fields(head) == head);
        assert(fields(s) == k);
        assert(is_decimal_literal(fs[k]));
        assert(position_fields(fs) =~= head.push(fs.last()));
        assert(texture_fields(fs) =~= texture_fields(head));
    } else {
        assert(fields(s) == k);
        assert(is_integer_literal(fs[k]) && integer_value(fs[k]) <= usize::MAX);
        assert(position_fields(fs) =~= position_fields(head));
        assert(texture_fields(fs) =~= texture_fields(head).push(integer_value(fs.last())));
    }
}

/// After `R(` and the fields with their commas, all fields but the last are
/// complete and the last stands in the buffer.
pub proof fn lemma_scan_joined(line: nat, records: Seq<GeometryView>, fs: Seq<Seq<u8>>)
    requires
        valid_fields(fs),
        fs.len() >= 1,
    ensures
        scan(record_state(line, records, Seq::empty(), false), joined(fs)) == (ScanState {
            buffer: fs.last(),
            ..record_state(line, records, fs.drop_last(), false)
        }),
    decreases fs.len(),
{
    let start = record_state(line, records, Seq::empty(), false);
    let k = fs.len() - 1;
    assert(fs[k] == fs.last());
    if k < POSITIONAL_FIELDS {
        lemma_decimal_bytes(fs[k]);
    } else {
        lemma_integer_bytes(fs[k]);
    }
    if fs.len() == 1 {
        assert(fs.drop_last() =~= Seq::<Seq<u8>>::empty());
        lemma_scan_number(start, fs[0]);
        assert(start.buffer + fs[0] =~= fs[0]);
    } else {
        let head = fs.drop_last();
        assert(valid_fields(head)) by {
            assert forall|i: int| 0 <= i < head.len() implies head[i] == fs[i] by {}
        }
        lemma_scan_joined(line, records, head);
        let s1 = ScanState {
            buffer: head.last(),
            ..record_state(line, records, head.drop_last(), false)
        };
        lemma_close_valid_field(line, records, head, false, false);
        let s2 = record_state(line, records, head, false);
        if head.len() - 1 < POSITIONAL_FIELDS {
            lemma_decimal_bytes(head.last());
        } else {
            lemma_integer_bytes(head.last());
        }
        assert(fields(s1) == head.len() - 1);
        assert(step(s1, BYTE_COMMA) == s2);
        lemma_scan_push(start, joined(head), BYTE_COMMA);
        assert(joined(head).push(BYTE_COMMA) =~= joined(head) + seq![BYTE_COMMA]);
        lemma_scan_concat(start, joined(head) + seq![BYTE_COMMA], fs.last());
        assert(fields(s2) == head.len());
        lemma_scan_number(s2, fs.last());
        assert(s2.buffer + fs.last() =~= fs.last());
    }
}

/// A line `R(f1,...,fk)` of valid fields, read from the start of a line,
/// leaves the record with all its fields at the end of that line.
pub proof fn lemma_record_line(line: nat, records: Seq<GeometryView>, fs: Seq<Seq<u8>>)
    requires
        valid_fields(fs),
        fs.len() >= 1,
    ensures
        scan(fresh_state(line, records), record_line(fs)) == finish_record(
            record_state(line + 1, records, fs, true),
        ),
{
    let s0 = fresh_state(line, records);
    let start = record_state(line, records, Seq::empty(), false);
    let head = seq![BYTE_RECT, BYTE_OPEN];
    assert(position_fields(Seq::<Seq<u8>>::empty()) =~= Seq::<Seq<u8>>::empty());
    assert(texture_fields(Seq::<Seq<u8>>::empty()) =~= Seq::<nat>::empty());
    assert(scan(s0, head) == start) by {
        assert(head =~= seq![BYTE_RECT].push(BYTE_OPEN));
        lemma_scan_push(s0, seq![BYTE_RECT], BYTE_OPEN);
        lemma_scan_one(s0, BYTE_RECT);
    }
    lemma_scan_joined(line, records, fs);
    let s1 = ScanState { buffer: fs.last(), ..record_state(line, records, fs.drop_last(), false) };
    lemma_scan_concat(s0, head, joined(fs));
    assert(scan(s0, head + joined(fs)) == s1);
    lemma_close_valid_field(line, records, fs, false, true);
    let s2 = record_state(line, records, fs, true);
    let k = fs.len() - 1;
    assert(fs[k] == fs.last());
    if k < POSITIONAL_FIELDS {
        lemma_decimal_bytes(fs[k]);
    } else {
        lemma_integer_bytes(fs[k]);
    }
    assert(fields(s1) == fs.len() - 1);
    assert(step(s1, BYTE_CLOSE) == s2);
    assert(fields(s2) == fs.len());
    assert(step(s2, BYTE_NEWLINE) == finish_record(record_state(line + 1, records, fs, true)));
    let tail = seq![BYTE_CLOSE, BYTE_NEWLINE];
    assert(scan(s1, tail) == step(s2, BYTE_NEWLINE)) by {
        assert(tail =~= seq![BYTE_CLOSE].push(BYTE_NEWLINE));
        lemma_scan_push(s1, seq![BYTE_CLOSE], BYTE_NEWLINE);
        lemma_scan_one(s1, BYTE_CLOSE);
    }
    lemma_scan_concat(s0, head + joined(fs), tail);
}

/// The text was read without error and ends where a line starts: the reader
/// is in no record and in no comment.
pub open spec fn at_line_start(text: Seq<u8>) -> bool {
    let s = scan(initial_state(), text);
    s == fresh_state(s.line, s.records)
}

/// The records of the lines of `text`.
pub open spec fn records_after(text: Seq<u8>) -> Seq<GeometryView> {
    scan(initial_state(), text).records
}

/// The number of the line that follows `text`.
pub open spec fn line_after(text: Seq<u8>) -> nat {
    scan(initial_state(), text).line
}

/// A rectangle as the reader gives it.
pub open spec fn rect_view(
    x: Seq<u8>,
    y: Seq<u8>,
    w: Seq<u8>,
    h: Seq<u8>,
    t_index: Option<TextureIndexView>,
) -> GeometryView {
    GeometryView { kind: GeometryTypeView::Rect(RectView { x, y, w, h }), t_index }
}

/// The line `R(x,y,w,h)`.
pub open spec fn rect_line(x: Seq<u8>, y: Seq<u8>, w: Seq<u8>, h: Seq<u8>) -> Seq<u8> {
    seq![BYTE_RECT, BYTE_OPEN] + x + seq![BYTE_COMMA] + y + seq![BYTE_COMMA] + w + seq![
        BYTE_COMMA,
    ] + h + seq![BYTE_CLOSE, BYTE_NEWLINE]
}

/// The line `R(x,y,w,h,space,atlas,inner)`.
pub open spec fn textured_rect_line(
    x: Seq<u8>,
    y: Seq<u8>,
    w: Seq<u8>,
    h: Seq<u8>,
    space: Seq<u8>,
    atlas: Seq<u8>,
    inner: Seq<u8>,
) -> Seq<u8> {
    seq![BYTE_RECT, BYTE_OPEN] + x + seq![BYTE_COMMA] + y + seq![BYTE_COMMA] + w + seq![
        BYTE_COMMA,
    ] + h + seq![BYTE_COMMA] + space + seq![BYTE_COMMA] + atlas + seq![BYTE_COMMA] + inner
        + seq![BYTE_CLOSE, BYTE_NEWLINE]
}

/// The empty text ends where a line starts.
pub proof fn lemma_empty_at_line_start()
    ensures
        at_line_start(Seq::empty()),
        records_after(Seq::empty()) == Seq::<GeometryView>::empty(),
        line_after(Seq::empty()) == 1,
{
}

proof fn lemma_joined_four(x: Seq<u8>, y: Seq<u8>, w: Seq<u8>, h: Seq<u8>)
    ensures
        record_line(seq![x, y, w, h]) == rect_line(x, y, w, h),
{
    let fs = seq![x, y, w, h];
    let f3 = fs.drop_last();
    let f2 = f3.drop_last();
    let f1 = f2.drop_last();
    assert(f3 =~= seq![x, y, w]);
    assert(f2 =~= seq![x, y]);
    assert(f1 =~= seq![x]);
    assert(joined(f1) == x);
    assert(joined(f2) == x + seq![BYTE_COMMA] + y);
    assert(joined(f3) == x + seq![BYTE_COMMA] + y + seq![BYTE_COMMA] + w);
    assert(joined(fs) == joined(f3) + seq![BYTE_COMMA] + h);
    assert(record_line(fs) =~= rect_line(x, y, w, h));
}

proof fn lemma_joined_seven(
    x: Seq<u8>,
    y: Seq<u8>,
    w: Seq<u8>,
    h: Seq<u8>,
    space: Seq<u8>,
    atlas: Seq<u8>,
    inner: Seq<u8>,
)
    ensures
        record_line(seq![x, y, w, h, space, atlas, inner]) == textured_rect_line(
            x,
            y,
            w,
            h,
            space,
            atlas,
            inner,
        ),
{
    let fs = seq![x, y, w, h, space, atlas, inner];
    let f6 = fs.drop_last();
    let f5 = f6.drop_last();
    let f4 = f5.drop_last();
    let f3 = f4.drop_last();
    let f2 = f3.drop_last();
    let f1 = f2.drop_last();
    assert(f6 =~= seq![x, y, w, h, space, atlas]);
    assert(f5 =~= seq![x, y, w, h, space]);
    assert(f4 =~= seq![x, y, w, h]);
    assert(f3 =~= seq![x, y, w]);
    assert(f2 =~= seq![x, y]);
    assert(f1 =~= seq![x]);
    let c = seq![BYTE_COMMA];
    assert(joined(f1) == x);
    assert(joined(f2) == x + c + y);
    assert(joined(f3) == joined(f2) + c + w);
    assert(joined(f4) == joined(f3) + c + h);
    assert(joined(f5) == joined(f4) + c + space);
    assert(joined(f6) == joined(f5) + c + atlas);
    assert(joined(fs) == joined(f6) + c + inner);
    assert(record_line(fs) =~= textured_rect_line(x, y, w, h, space, atlas, inner));
}

/// A line `R(x,y,w,h)` of four decimal literals gives one rectangle with
/// exactly those four numbers and no texture, behind the records of the lines
/// before it; and the next line starts afresh.
pub proof fn law_rect_line(before: Seq<u8>, x: Seq<u8>, y: Seq<u8>, w: Seq<u8>, h: Seq<u8>)
    requires
        at_line_start(before),
        is_decimal_literal(x),
        is_decimal_literal(y),
        is_decimal_literal(w),
        is_decimal_literal(h),
    ensures
        parse_spec(before + rect_line(x, y, w, h)) == Ok::<Seq<GeometryView>, ParseErrorView>(
            records_after(before).push(rect_view(x, y, w, h, None)),
        ),
        at_line_start(before + rect_line(x, y, w, h)),
        line_after(before + rect_line(x, y, w, h)) == line_after(before) + 1,
{
    let fs = seq![x, y, w, h];
    let s = scan(initial_state(), before);
    lemma_joined_four(x, y, w, h);
    lemma_record_line(s.line, s.records, fs);
    lemma_scan_concat(initial_state(), before, rect_line(x, y, w, h));
    assert(position_fields(fs) == fs);
    assert(texture_fields(fs) =~= Seq::<nat>::empty());
}

/// A line `R(x,y,w,h,space,atlas,inner)` of four decimal literals and three
/// unsigned integers of the machine, `space` at least one and `inner` not the
/// largest of them, gives one rectangle with the texture reference
/// `{space, atlas, inner}`.
pub proof fn law_textured_rect_line(
    before: Seq<u8>,
    x: Seq<u8>,
    y: Seq<u8>,
    w: Seq<u8>,
    h: Seq<u8>,
    space: Seq<u8>,
    atlas: Seq<u8>,
    inner: Seq<u8>,
)
    requires
        at_line_start(before),
        is_decimal_literal(x),
        is_decimal_literal(y),
        is_decimal_literal(w),
        is_decimal_literal(h),
        is_integer_literal(space),
        is_integer_literal(atlas),
        is_integer_literal(inner),
        1 <= integer_value(space) <= usize::MAX,
        integer_value(atlas) <= usize::MAX,
        integer_value(inner) < usize::MAX,
    ensures
        parse_spec(before + textured_rect_line(x, y, w, h, space, atlas, inner)) == Ok::<
            Seq<GeometryView>,
            ParseErrorView,
        >(
            records_after(before).push(
                rect_view(
                    x,
                    y,
                    w,
                    h,
                    Some(
                        TextureIndexView {
                            space_index: integer_value(space),
                            texture_index: integer_value(atlas),
                            inner_index: Some(integer_value(inner)),
                        },
                    ),
                ),
            ),
        ),
        at_line_start(before + textured_rect_line(x, y, w, h, space, atlas, inner)),
        line_after(before + textured_rect_line(x, y, w, h, space, atlas, inner)) == line_after(
            before,
        ) + 1,
{
    let fs = seq![x, y, w, h, space, atlas, inner];
    let s = scan(initial_state(), before);
    let line = textured_rect_line(x, y, w, h, space, atlas, inner);
    lemma_joined_seven(x, y, w, h, space, atlas, inner);
    lemma_record_line(s.line, s.records, fs);
    lemma_scan_concat(initial_state(), before, line);
    assert(position_fields(fs) =~= seq![x, y, w, h]);
    assert(texture_fields(fs) =~= seq![
        integer_value(space),
        integer_value(atlas),
        integer_value(inner),
    ]);
}

/// An error, once found, is what the whole text means.
pub proof fn lemma_error_is_final(
    before: Seq<u8>,
    line: Seq<u8>,
    after: Seq<u8>,
    e: ParseErrorView,
)
    requires
        scan(scan(initial_state(), before), line).error == Some(e),
    ensures
        parse_spec(before + line + after) == Err::<Seq<GeometryView>, ParseErrorView>(e),
{
    lemma_scan_concat(initial_state(), before, line);
    lemma_scan_concat(initial_state(), before + line, after);
    lemma_scan_after_error(scan(initial_state(), before + line), after);
}

/// A record that stops after its space index, or after its atlas index, is
/// rejected on the line where it ends short: the error names the field that is
/// missing.
pub proof fn law_partial_texture_rejected(before: Seq<u8>, fs: Seq<Seq<u8>>, after: Seq<u8>)
    requires
        at_line_start(before),
        valid_fields(fs),
        fs.len() == 5 || fs.len() == 6,
    ensures
        parse_spec(before + record_line(fs) + after) == Err::<Seq<GeometryView>, ParseErrorView>(
            ParseErrorView {
                line: line_after(before) + 1,
                kind: if fs.len() == 5 {
                    MapFileErrorKind::MissingAtlasIndex
                } else {
                    MapFileErrorKind::MissingInnerIndex
                },
            },
        ),
{
    let s = scan(initial_state(), before);
    lemma_record_line(s.line, s.records, fs);
    let e = ParseErrorView {
        line: s.line + 1,
        kind: if fs.len() == 5 {
            MapFileErrorKind::MissingAtlasIndex
        } else {
            MapFileErrorKind::MissingInnerIndex
        },
    };
    assert(fields(record_state(s.line + 1, s.records, fs, true)) == fs.len());
    lemma_error_is_final(before, record_line(fs), after, e);
}

/// A record with one, two or three fields is rejected on the line where it
/// ends short, and the error says how many fields were there.
pub proof fn law_missing_positional_rejected(before: Seq<u8>, fs: Seq<Seq<u8>>, after: Seq<u8>)
    requires
        at_line_start(before),
        valid_fields(fs),
        1 <= fs.len() < POSITIONAL_FIELDS,
    ensures
        parse_spec(before + record_line(fs) + after) == Err::<Seq<GeometryView>, ParseErrorView>(
            ParseErrorView {
                line: line_after(before) + 1,
                kind: MapFileErrorKind::MissingPositional { supplied: fs.len() as u8 },
            },
        ),
{
    let s = scan(initial_state(), before);
    lemma_record_line(s.line, s.records, fs);
    let e = ParseErrorView {
        line: s.line + 1,
        kind: MapFileErrorKind::MissingPositional { supplied: fs.len() as u8 },
    };
    assert(fields(record_state(s.line + 1, s.records, fs, true)) == fs.len());
    lemma_error_is_final(before, record_line(fs), after, e);
}

/// A record without any field is rejected where its first field is missing:
/// at the first `)`, `,` or newline behind the `R`.
pub proof fn law_empty_record_rejected(before: Seq<u8>, b: u8, after: Seq<u8>)
    requires
        at_line_start(before),
        b == BYTE_CLOSE || b == BYTE_COMMA || b == BYTE_NEWLINE,
    ensures
        parse_spec(before + seq![BYTE_RECT, b] + after) == Err::<
            Seq<GeometryView>,
            ParseErrorView,
        >(ParseErrorView { line: line_after(before), kind: MapFileErrorKind::EmptyField }),
{
    let s = scan(initial_state(), before);
    let line = seq![BYTE_RECT, b];
    assert(line =~= seq![BYTE_RECT].push(b));
    lemma_scan_push(s, seq![BYTE_RECT], b);
    lemma_scan_one(s, BYTE_RECT);
    let e = ParseErrorView { line: s.line, kind: MapFileErrorKind::EmptyField };
    lemma_error_is_final(before, line, after, e);
}

/// A byte that starts a line and is neither `R` nor one of the bytes that
/// mean nothing there (space, `(`, `#`, newline) is rejected: the error names
/// the byte and the line.
pub proof fn law_unknown_discriminator(before: Seq<u8>, b: u8, after: Seq<u8>)
    requires
        at_line_start(before),
        b != BYTE_RECT,
        b != BYTE_SPACE,
        b != BYTE_OPEN,
        b != BYTE_HASH,
        b != BYTE_NEWLINE,
    ensures
        parse_spec(before + seq![b] + after) == Err::<Seq<GeometryView>, ParseErrorView>(
            ParseErrorView {
                line: line_after(before),
                kind: MapFileErrorKind::UnknownGeometryType(b),
            },
        ),
{
    let s = scan(initial_state(), before);
    lemma_scan_one(s, b);
    let e = ParseErrorView { line: s.line, kind: MapFileErrorKind::UnknownGeometryType(b) };
    lemma_error_is_final(before, seq![b], after, e);
}

/// The number of newlines in a text.
pub open spec fn newline_count(text: Seq<u8>) -> nat
    decreases text.len(),
{
    if text.len() == 0 {
        0
    } else {
        newline_count(text.drop_last()) + if text.last() == BYTE_NEWLINE {
            1nat
        } else {
            0nat
        }
    }
}

/// Lines count from one, and each newline that is read begins the next: while
/// no error is found, the line is one more than the newlines so far. The line
/// of an error is a line of the text, or the one behind its last newline.
pub proof fn law_line_number(text: Seq<u8>)
    ensures
        scan(initial_state(), text).error is None ==> line_after(text) == 1 + newline_count(
            text,
        ),
        match scan(initial_state(), text).error {
            Some(e) => 1 <= e.line <= line_after(text) <= 1 + newline_count(text),
            None => true,
        },
    decreases text.len(),
{
    if text.len() > 0 {
        law_line_number(text.drop_last());
    }
}

/// The bytes that mean nothing wherever they stand: the space and `(`.
pub open spec fn is_filler(b: u8) -> bool {
    b == BYTE_SPACE || b == BYTE_OPEN
}

/// A blank line: nothing but spaces and `(` before the newline.
pub open spec fn blank_line(indent: Seq<u8>) -> Seq<u8> {
    indent.push(BYTE_NEWLINE)
}

/// A line that is all comment: a `#` behind spaces and `(` at most, and what
/// follows it up to the newline.
pub open spec fn comment_line(indent: Seq<u8>, comment: Seq<u8>) -> Seq<u8> {
    indent + seq![BYTE_HASH] + comment + seq![BYTE_NEWLINE]
}

/// Spaces and `(` change nothing.
pub proof fn lemma_scan_filler(s: ScanState, indent: Seq<u8>)
    requires
        forall|i: int| 0 <= i < indent.len() ==> is_filler(#[trigger] indent[i]),
    ensures
        scan(s, indent) == s,
    decreases indent.len(),
{
    if indent.len() > 0 {
        lemma_scan_filler(s, indent.drop_last());
        assert(is_filler(indent[indent.len() - 1]));
    }
}

/// Inside a comment nothing changes before the newline.
pub proof fn lemma_scan_comment(s: ScanState, comment: Seq<u8>)
    requires
        s.in_comment,
        forall|i: int| 0 <= i < comment.len() ==> #[trigger] comment[i] != BYTE_NEWLINE,
    ensures
        scan(s, comment) == s,
    decreases comment.len(),
{
    if comment.len() > 0 {
        lemma_scan_comment(s, comment.drop_last());
        assert(comment[comment.len() - 1] != BYTE_NEWLINE);
    }
}

/// The state `s` as it would be had one more line come before it.
pub open spec fn one_line_later(s: ScanState) -> ScanState {
    ScanState {
        line: s.line + 1,
        error: match s.error {
            Some(e) => Some(ParseErrorView { line: e.line + 1, kind: e.kind }),
            None => None,
        },
        ..s
    }
}

/// What a text does depends on the line it starts on only in the lines of
/// its errors.
pub proof fn lemma_scan_one_line_later(s: ScanState, bytes: Seq<u8>)
    ensures
        scan(one_line_later(s), bytes) == one_line_later(scan(s, bytes)),
    decreases bytes.len(),
{
    if bytes.len() > 0 {
        lemma_scan_one_line_later(s, bytes.drop_last());
        let t = scan(s, bytes.drop_last());
        let b = bytes.last();
        assert(step(one_line_later(t), b) == one_line_later(step(t, b)));
    }
}

/// What a text means when one more line comes before it: the same records,
/// or the same error one line further down.
pub open spec fn moved_down(r: Result<Seq<GeometryView>, ParseErrorView>) -> Result<
    Seq<GeometryView>,
    ParseErrorView,
> {
    match r {
        Ok(records) => Ok(records),
        Err(e) => Err(ParseErrorView { line: e.line + 1, kind: e.kind }),
    }
}

proof fn lemma_noop_line(before: Seq<u8>, line: Seq<u8>, after: Seq<u8>)
    requires
        at_line_start(before),
        scan(scan(initial_state(), before), line) == fresh_state(
            line_after(before) + 1,
            records_after(before),
        ),
    ensures
        at_line_start(before + line),
        records_after(before + line) == records_after(before),
        line_after(before + line) == line_after(before) + 1,
        parse_spec(before + line + after) == moved_down(parse_spec(before + after)),
{
    let s = scan(initial_state(), before);
    lemma_scan_concat(initial_state(), before, line);
    lemma_scan_concat(initial_state(), before + line, after);
    lemma_scan_concat(initial_state(), before, after);
    assert(scan(initial_state(), before + line) == one_line_later(s));
    lemma_scan_one_line_later(s, after);
}

/// A blank line between two parts of a text is no record and changes none:
/// the text means what it means without that line, but for the lines of the
/// errors behind it, which count one more.
pub proof fn law_blank_line(before: Seq<u8>, indent: Seq<u8>, after: Seq<u8>)
    requires
        at_line_start(before),
        forall|i: int| 0 <= i < indent.len() ==> is_filler(#[trigger] indent[i]),
    ensures
        at_line_start(before + blank_line(indent)),
        records_after(before + blank_line(indent)) == records_after(before),
        line_after(before + blank_line(indent)) == line_after(before) + 1,
        parse_spec(before + blank_line(indent) + after) == moved_down(
            parse_spec(before + after),
        ),
{
    let s = scan(initial_state(), before);
    lemma_scan_filler(s, indent);
    lemma_scan_push(s, indent, BYTE_NEWLINE);
    lemma_noop_line(before, blank_line(indent), after);
}

/// A line that is all comment between two parts of a text is no record and
/// changes none, whatever the comment holds.
pub proof fn law_comment_line(
    before: Seq<u8>,
    indent: Seq<u8>,
    comment: Seq<u8>,
    after: Seq<u8>,
)
    requires
        at_line_start(before),
        forall|i: int| 0 <= i < indent.len() ==> is_filler(#[trigger] indent[i]),
        forall|i: int| 0 <= i < comment.len() ==> #[trigger] comment[i] != BYTE_NEWLINE,
    ensures
        at_line_start(before + comment_line(indent, comment)),
        records_after(before + comment_line(indent, comment)) == records_after(before),
        line_after(before + comment_line(indent, comment)) == line_after(before) + 1,
        parse_spec(before + comment_line(indent, comment) + after) == moved_down(
            parse_spec(before + after),
        ),
{
    let s = scan(initial_state(), before);
    let c = ScanState { in_comment: true, ..s };
    lemma_scan_filler(s, indent);
    lemma_scan_push(s, indent, BYTE_HASH);
    assert(indent.push(BYTE_HASH) =~= indent + seq![BYTE_HASH]);
    lemma_scan_concat(s, indent + seq![BYTE_HASH], comment);
    lemma_scan_comment(c, comment);
    lemma_scan_push(s, indent + seq![BYTE_HASH] + comment, BYTE_NEWLINE);
    assert((indent + seq![BYTE_HASH] + comment).push(BYTE_NEWLINE) =~= comment_line(
        indent,
        comment,
    ));
    lemma_noop_line(before, comment_line(indent, comment), after);
}

/// A comment behind a record changes nothing either: with `#` and what
/// follows it put before the newline of a line, the text means the same.
pub proof fn law_trailing_comment(before: Seq<u8>, comment: Seq<u8>, after: Seq<u8>)
    requires
        forall|i: int| 0 <= i < comment.len() ==> #[trigger] comment[i] != BYTE_NEWLINE,
    ensures
        parse_spec(before + seq![BYTE_HASH] + comment + seq![BYTE_NEWLINE] + after)
            == parse_spec(before + seq![BYTE_NEWLINE] + after),
{
    let s = scan(initial_state(), before);
    let c = step(s, BYTE_HASH);
    lemma_scan_concat(initial_state(), before, seq![BYTE_HASH]);
    lemma_scan_one(s, BYTE_HASH);
    lemma_scan_concat(initial_state(), before + seq![BYTE_HASH], comment);
    if s.error is Some {
        lemma_scan_after_error(s, comment);
    } else {
        lemma_scan_comment(c, comment);
    }
    let full = before + seq![BYTE_HASH] + comment;
    lemma_scan_concat(initial_state(), full, seq![BYTE_NEWLINE]);
    lemma_scan_one(c, BYTE_NEWLINE);
    lemma_scan_concat(initial_state(), before, seq![BYTE_NEWLINE]);
    lemma_scan_one(s, BYTE_NEWLINE);
    let with_comment = step(c, BYTE_NEWLINE);
    let without = step(s, BYTE_NEWLINE);
    assert(with_comment.error == without.error);
    lemma_scan_concat(initial_state(), full + seq![BYTE_NEWLINE], after);
    lemma_scan_concat(initial_state(), before + seq![BYTE_NEWLINE], after);
    if without.error is Some {
        lemma_scan_after_error(with_comment, after);
        lemma_scan_after_error(without, after);
    } else {
        assert(with_comment == without);
    }
}

/// A text without its spaces and its `(`.
pub open spec fn without_filler(text: Seq<u8>) -> Seq<u8>
    decreases text.len(),
{
    if text.len() == 0 {
        text
    } else if is_filler(text.last()) {
        without_filler(text.drop_last())
    } else {
        without_filler(text.drop_last()).push(text.last())
    }
}

/// Spaces and `(` mean nothing, wherever they stand: a text means what it
/// means without them.
pub proof fn law_filler_ignored(text: Seq<u8>)
    ensures
        scan(initial_state(), text) == scan(initial_state(), without_filler(text)),
        parse_spec(text) == parse_spec(without_filler(text)),
    decreases text.len(),
{
    if text.len() > 0 {
        law_filler_ignored(text.drop_last());
        if !is_filler(text.last()) {
            lemma_scan_push(
                initial_state(),
                without_filler(text.drop_last()),
                text.last(),
            );
        }
    }
}

/// What holds of every state that the reader can be in: outside a record
/// nothing of a record is held.
pub open spec fn nothing_pending_outside_record(s: ScanState) -> bool {
    !s.in_record ==> s.buffer.len() == 0 && s.position.len() == 0 && s.texture.len() == 0
        && !s.closed
}

/// No text leads to a state that holds a part of a record outside a record.
pub proof fn lemma_reachable(text: Seq<u8>)
    ensures
        nothing_pending_outside_record(scan(initial_state(), text)),
    decreases text.len(),
{
    if text.len() > 0 {
        lemma_reachable(text.drop_last());
    }
}

/// Every newline that is read without error leaves the reader at the start
/// of a line.
pub proof fn law_newline_starts_line(text: Seq<u8>)
    requires
        text.len() > 0,
        text.last() == BYTE_NEWLINE,
        parse_spec(text) is Ok,
    ensures
        at_line_start(text),
{
    lemma_reachable(text.drop_last());
    let s = scan(initial_state(), text.drop_last());
    let t = scan(initial_state(), text);
    assert(t == step(s, BYTE_NEWLINE));
    assert(t.buffer =~= Seq::<u8>::empty());
    assert(t.position =~= Seq::<Seq<u8>>::empty());
    assert(t.texture =~= Seq::<nat>::empty());
}

} // verus!
