use game::decimal::Decimal;
use game::geometry::{Geometry, GeometryMap, GeometryType, TextureIndex};
use game::integer::{parse_usize, IntegerError};
use game::map_error::{MapFileErrorKind, MapFileParseError};
use game::map_reader::parse_map_file;
use game::map_writer::write_map_file;

fn dec(text: &str) -> Decimal {
    Decimal::parse(text.as_bytes()).unwrap()
}

fn texts(g: &Geometry) -> [Vec<u8>; 4] {
    match &g.kind {
        GeometryType::Rect(r) => [
            r.x.as_bytes().to_vec(),
            r.y.as_bytes().to_vec(),
            r.w.as_bytes().to_vec(),
            r.h.as_bytes().to_vec(),
        ],
    }
}

#[test]
fn written_map_has_one_line_for_each_record() {
    let map = GeometryMap {
        inner: vec![
            Geometry::new_rect(dec("10"), dec("10"), dec("50"), dec("50"), None),
            Geometry::new_rect(
                dec("0"),
                dec("-0.5"),
                dec("100"),
                dec("+100."),
                Some(TextureIndex::new(2, 0, Some(3))),
            ),
        ],
    };
    let text = write_map_file(&map).unwrap();
    assert_eq!(text, b"R(10,10,50,50)\nR(0,-0.5,100,+100.,2,0,3)\n".to_vec());
}

#[test]
fn written_map_reads_back_the_same() {
    let map = GeometryMap {
        inner: vec![
            Geometry::new_rect(dec("1.5"), dec("-2"), dec(".25"), dec("4."), None),
            Geometry::new_rect(
                dec("0"),
                dec("0"),
                dec("1280"),
                dec("720"),
                Some(TextureIndex::new(1, 12345, Some(0))),
            ),
            Geometry::new_rect(
                dec("7"),
                dec("8"),
                dec("9"),
                dec("10"),
                Some(TextureIndex::new(usize::MAX, usize::MAX, Some(usize::MAX - 1))),
            ),
        ],
    };
    let text = write_map_file(&map).unwrap();
    let back = parse_map_file(&text).unwrap();
    assert_eq!(back.inner.len(), map.inner.len());
    for i in 0..map.inner.len() {
        assert_eq!(texts(&back.inner[i]), texts(&map.inner[i]));
        assert_eq!(back.inner[i].t_index, map.inner[i].t_index);
    }
    assert_eq!(write_map_file(&back).unwrap(), text);
}

#[test]
fn empty_map_is_empty_text() {
    let text = write_map_file(&GeometryMap { inner: vec![] }).unwrap();
    assert!(text.is_empty());
    assert_eq!(parse_map_file(&text).unwrap().inner.len(), 0);
}

#[test]
fn texture_without_slot_cannot_be_written() {
    let map = GeometryMap {
        inner: vec![Geometry::new_rect(
            dec("1"),
            dec("2"),
            dec("3"),
            dec("4"),
            Some(TextureIndex::new(1, 0, None)),
        )],
    };
    assert!(write_map_file(&map).is_none());
    let map = GeometryMap {
        inner: vec![Geometry::new_rect(
            dec("1"),
            dec("2"),
            dec("3"),
            dec("4"),
            Some(TextureIndex::new(1, 0, Some(usize::MAX))),
        )],
    };
    assert!(write_map_file(&map).is_none());
}

#[test]
fn unsigned_integers() {
    assert_eq!(parse_usize(b"0"), Ok(0));
    assert_eq!(parse_usize(b"+42"), Ok(42));
    assert_eq!(parse_usize(b"0007"), Ok(7));
    assert_eq!(parse_usize(usize::MAX.to_string().as_bytes()), Ok(usize::MAX));
    assert_eq!(parse_usize(b""), Err(IntegerError::InvalidDigit));
    assert_eq!(parse_usize(b"+"), Err(IntegerError::InvalidDigit));
    assert_eq!(parse_usize(b"-1"), Err(IntegerError::InvalidDigit));
    assert_eq!(parse_usize(b"1.0"), Err(IntegerError::InvalidDigit));
    assert_eq!(parse_usize(b"++1"), Err(IntegerError::InvalidDigit));
    assert_eq!(parse_usize(format!("{}0", usize::MAX).as_bytes()), Err(IntegerError::TooLarge));
    assert_eq!(
        parse_usize(b"000000000000000000000000000000000000000000000012"),
        Ok(12)
    );
}

#[test]
fn unsigned_integers_agree_with_the_standard_parser() {
    let alphabet = [b'+', b'-', b'.', b'0', b'3'];
    for len in 1..=5usize {
        let total = alphabet.len().pow(len as u32);
        for code in 0..total {
            let mut text = Vec::new();
            let mut c = code;
            for _ in 0..len {
                text.push(alphabet[c % alphabet.len()]);
                c /= alphabet.len();
            }
            let std_value = std::str::from_utf8(&text).unwrap().parse::<usize>().ok();
            assert_eq!(parse_usize(&text).ok(), std_value, "{:?}", String::from_utf8_lossy(&text));
        }
    }
}

#[test]
fn messages_name_the_offending_byte() {
    assert_eq!(
        MapFileErrorKind::UnknownGeometryType(b'L').message(),
        "unrecognized first character of a record: 'L'; a record starts with 'R' for a rectangle"
    );
    assert_eq!(
        MapFileErrorKind::UnexpectedCharacter(b'x').message(),
        "unrecognized character inside a record: 'x'; a record holds only #()+,-.0-9, spaces and the newline"
    );
    assert_eq!(
        MapFileErrorKind::UnknownGeometryType(0xe9).message(),
        "unrecognized first character of a record: '\u{e9}'; a record starts with 'R' for a rectangle"
    );
}

#[test]
fn messages_of_the_other_kinds() {
    assert_eq!(MapFileErrorKind::InvalidFloat.message(), "invalid float literal");
    assert_eq!(MapFileErrorKind::InvalidDigit.message(), "invalid digit found in string");
    assert_eq!(
        MapFileErrorKind::IntegerOverflow.message(),
        "number too large to fit in target type"
    );
    assert_eq!(
        MapFileErrorKind::ZeroSpaceIndex.message(),
        "number would be zero for non-zero type"
    );
    assert_eq!(
        MapFileErrorKind::MissingPositional { supplied: 0 }.message(),
        "missing positional fields: x, y, w and h"
    );
    assert_eq!(
        MapFileErrorKind::MissingPositional { supplied: 1 }.message(),
        "missing positional fields: y, w and h"
    );
    assert_eq!(
        MapFileErrorKind::MissingPositional { supplied: 2 }.message(),
        "missing positional fields: w and h"
    );
    assert_eq!(
        MapFileErrorKind::MissingPositional { supplied: 3 }.message(),
        "missing positional field: h"
    );
    assert!(MapFileErrorKind::EmptyField.message().starts_with("empty field"));
    assert!(MapFileErrorKind::TooManyFields.message().starts_with("too many fields"));
    assert!(MapFileErrorKind::MissingAtlasIndex.message().starts_with("missing atlas_index"));
    assert!(MapFileErrorKind::MissingInnerIndex.message().starts_with("missing inner_index"));
    assert!(MapFileErrorKind::InnerIndexReserved.message().starts_with("inner_index cannot"));
}

#[test]
fn description_holds_line_and_message() {
    let e = MapFileParseError { line: 1204, kind: MapFileErrorKind::InvalidFloat };
    assert_eq!(e.describe(), "[Line #1204] Poorly formatted map file: invalid float literal");
    assert_eq!(e.message(), "invalid float literal");
    let e = MapFileParseError { line: 7, kind: MapFileErrorKind::UnknownGeometryType(b'?') };
    assert_eq!(
        e.describe(),
        "[Line #7] Poorly formatted map file: unrecognized first character of a record: '?'; a record starts with 'R' for a rectangle"
    );
    let e = MapFileParseError { line: usize::MAX, kind: MapFileErrorKind::InvalidDigit };
    assert_eq!(
        e.describe(),
        format!("[Line #{}] Poorly formatted map file: invalid digit found in string", usize::MAX)
    );
}
