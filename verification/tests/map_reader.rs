use game::decimal::Decimal;
use game::geometry::{Geometry, GeometryMap, GeometryType, TextureIndex};
use game::map_error::{MapFileErrorKind, MapFileParseError};
use game::map_reader::{parse_map_file, read_map_file};

fn rect_of(g: &Geometry) -> [Vec<u8>; 4] {
    match &g.kind {
        GeometryType::Rect(r) => [
            r.x.as_bytes().to_vec(),
            r.y.as_bytes().to_vec(),
            r.w.as_bytes().to_vec(),
            r.h.as_bytes().to_vec(),
        ],
    }
}

fn floats_of(g: &Geometry) -> [f32; 4] {
    let texts = rect_of(g);
    let mut out = [0.0f32; 4];
    for (i, t) in texts.iter().enumerate() {
        out[i] = std::str::from_utf8(t).unwrap().parse::<f32>().unwrap();
    }
    out
}

fn parse_ok(text: &str) -> GeometryMap {
    match parse_map_file(text.as_bytes()) {
        Ok(map) => map,
        Err(e) => panic!("unexpected error: {}", e.describe()),
    }
}

fn parse_err(text: &str) -> MapFileParseError {
    match parse_map_file(text.as_bytes()) {
        Ok(map) => panic!("unexpected success with {} records", map.inner.len()),
        Err(e) => e,
    }
}

#[test]
fn example_two_records() {
    let map = parse_ok("R(10,10,50,50)\nR(0,0,100,100,2,0,3)\n");
    assert_eq!(map.inner.len(), 2);
    assert_eq!(floats_of(&map.inner[0]), [10.0, 10.0, 50.0, 50.0]);
    assert_eq!(map.inner[0].t_index, None);
    assert_eq!(floats_of(&map.inner[1]), [0.0, 0.0, 100.0, 100.0]);
    assert_eq!(map.inner[1].t_index, Some(TextureIndex::new(2, 0, Some(3))));
}

#[test]
fn rect_line_keeps_its_four_numbers() {
    let map = parse_ok("R(-3.25,+7,.5,12.)\n");
    assert_eq!(map.inner.len(), 1);
    assert_eq!(
        rect_of(&map.inner[0]),
        [b"-3.25".to_vec(), b"+7".to_vec(), b".5".to_vec(), b"12.".to_vec()]
    );
    assert_eq!(floats_of(&map.inner[0]), [-3.25, 7.0, 0.5, 12.0]);
    assert!(map.inner[0].t_index.is_none());
}

#[test]
fn textured_rect_line_keeps_its_texture() {
    let map = parse_ok("R(1,2,3,4,1,17,+005)\n");
    assert_eq!(map.inner.len(), 1);
    let t = map.inner[0].t_index.unwrap();
    assert_eq!(t.space_index(), 1);
    assert_eq!(t.texture_index(), 17);
    assert_eq!(t.inner_index(), Some(5));
}

#[test]
fn inner_index_may_be_zero_and_large() {
    let text = format!("R(1,2,3,4,2,0,0)\nR(1,2,3,4,2,0,{})\n", usize::MAX - 1);
    let map = parse_ok(&text);
    assert_eq!(map.inner[0].t_index.unwrap().inner_index(), Some(0));
    assert_eq!(map.inner[1].t_index.unwrap().inner_index(), Some(usize::MAX - 1));
}

#[test]
fn newline_closes_the_last_field() {
    let map = parse_ok("R 1,2,3,4\nR(5,6,7,8,2,1,0\n");
    assert_eq!(map.inner.len(), 2);
    assert_eq!(floats_of(&map.inner[0]), [1.0, 2.0, 3.0, 4.0]);
    assert_eq!(map.inner[1].t_index, Some(TextureIndex::new(2, 1, Some(0))));
}

#[test]
fn spaces_and_open_parentheses_mean_nothing() {
    let a = parse_ok("R(10,10,50,50)\n");
    let b = parse_ok("  R ( ( 1 0 ,  10, 5(0 ,50 )  \n");
    assert_eq!(rect_of(&a.inner[0]), rect_of(&b.inner[0]));
}

#[test]
fn five_fields_miss_the_atlas_index() {
    let e = parse_err("R(1,2,3,4,2)\n");
    assert_eq!(e, MapFileParseError { line: 2, kind: MapFileErrorKind::MissingAtlasIndex });
    assert!(e.message().contains("atlas_index"));
}

#[test]
fn six_fields_miss_the_inner_index() {
    let e = parse_err("R(1,2,3,4)\nR(1,2,3,4,2,0)\n");
    assert_eq!(e, MapFileParseError { line: 3, kind: MapFileErrorKind::MissingInnerIndex });
    assert!(e.message().contains("inner_index"));
}

#[test]
fn fewer_than_four_fields_are_rejected() {
    assert_eq!(
        parse_err("R(1)\n"),
        MapFileParseError { line: 2, kind: MapFileErrorKind::MissingPositional { supplied: 1 } }
    );
    assert_eq!(
        parse_err("R(1,2)\n"),
        MapFileParseError { line: 2, kind: MapFileErrorKind::MissingPositional { supplied: 2 } }
    );
    assert_eq!(
        parse_err("R(1,2,3\n"),
        MapFileParseError { line: 2, kind: MapFileErrorKind::MissingPositional { supplied: 3 } }
    );
}

#[test]
fn record_without_fields_is_an_empty_field() {
    assert_eq!(parse_err("R\n"), MapFileParseError { line: 1, kind: MapFileErrorKind::EmptyField });
    assert_eq!(
        parse_err("R()\n"),
        MapFileParseError { line: 1, kind: MapFileErrorKind::EmptyField }
    );
}

#[test]
fn empty_field_between_commas() {
    assert_eq!(
        parse_err("R(1,2,3,4)\nR(1,,3,4)\n"),
        MapFileParseError { line: 2, kind: MapFileErrorKind::EmptyField }
    );
    assert_eq!(
        parse_err("R(1,2,3,4,\n"),
        MapFileParseError { line: 1, kind: MapFileErrorKind::EmptyField }
    );
    assert_eq!(
        parse_err("R(1,2,3,4),\n"),
        MapFileParseError { line: 1, kind: MapFileErrorKind::EmptyField }
    );
}

#[test]
fn blank_lines_and_comments_are_no_records() {
    let plain = parse_ok("R(1,2,3,4)\nR(5,6,7,8)\n");
    let padded = parse_ok("\n# first\nR(1,2,3,4)\n\n   \n  # R(9,9,9,9)\n((\nR(5,6,7,8)\n#last\n");
    assert_eq!(padded.inner.len(), 2);
    assert_eq!(rect_of(&plain.inner[0]), rect_of(&padded.inner[0]));
    assert_eq!(rect_of(&plain.inner[1]), rect_of(&padded.inner[1]));
}

#[test]
fn blank_lines_move_the_line_of_an_error() {
    assert_eq!(parse_err("R(1,2,3,4)\nX\n").line, 2);
    assert_eq!(parse_err("R(1,2,3,4)\n\n# c\nX\n").line, 4);
}

#[test]
fn trailing_comment_ends_the_record() {
    let map = parse_ok("R(1,2,3,4) # a wall\nR(5,6,7,8 # another\n");
    assert_eq!(map.inner.len(), 2);
    assert_eq!(floats_of(&map.inner[1]), [5.0, 6.0, 7.0, 8.0]);
}

#[test]
fn unknown_discriminator_names_byte_and_line() {
    let e = parse_err("R(1,2,3,4)\n# c\nL(1,2,3,4)\n");
    assert_eq!(e, MapFileParseError { line: 3, kind: MapFileErrorKind::UnknownGeometryType(b'L') });
    assert!(e.message().contains("'L'"));
    assert_eq!(parse_err("1,2\n").kind, MapFileErrorKind::UnknownGeometryType(b'1'));
    assert_eq!(parse_err(",\n").kind, MapFileErrorKind::UnknownGeometryType(b','));
    assert_eq!(parse_err(")\n").kind, MapFileErrorKind::UnknownGeometryType(b')'));
}

#[test]
fn unexpected_character_inside_a_record() {
    let e = parse_err("R(1,2x,3,4)\n");
    assert_eq!(e, MapFileParseError { line: 1, kind: MapFileErrorKind::UnexpectedCharacter(b'x') });
    assert_eq!(parse_err("R(1,2,3,4)R\n").kind, MapFileErrorKind::UnexpectedCharacter(b'R'));
    assert_eq!(parse_err("R(1e5,2,3,4)\n").kind, MapFileErrorKind::UnexpectedCharacter(b'e'));
}

#[test]
fn too_many_fields() {
    assert_eq!(
        parse_err("R(1,2,3,4,2,0,3,9)\n"),
        MapFileParseError { line: 1, kind: MapFileErrorKind::TooManyFields }
    );
    assert_eq!(parse_err("R(1,2,3,4,2,0,3),\n").kind, MapFileErrorKind::TooManyFields);
    assert_eq!(parse_err("\nR(1,2,3,4,2,0,3)x\n").line, 2);
}

#[test]
fn seven_fields_then_comment_is_fine() {
    let map = parse_ok("R(1,2,3,4,2,0,3) # seven\n");
    assert_eq!(map.inner[0].t_index, Some(TextureIndex::new(2, 0, Some(3))));
}

#[test]
fn invalid_float() {
    for text in ["R(.,2,3,4)\n", "R(+,2,3,4)\n", "R(-,2,3,4)\n", "R(1.2.3,2,3,4)\n", "R(1-2,2,3,4)\n",
        "R(--1,2,3,4)\n", "R(1,2,3,+.)\n"]
    {
        let e = parse_err(text);
        assert_eq!(e.kind, MapFileErrorKind::InvalidFloat, "{}", text);
        assert_eq!(e.line, 1);
        assert_eq!(e.message(), "invalid float literal");
    }
}

#[test]
fn invalid_digit_in_a_texture_field() {
    for text in ["R(1,2,3,4,1.5,0,3)\n", "R(1,2,3,4,-1,0,3)\n", "R(1,2,3,4,2,+,3)\n",
        "R(1,2,3,4,2,0,3.)\n", "R(1,2,3,4,2,0,1+1)\n"]
    {
        assert_eq!(parse_err(text).kind, MapFileErrorKind::InvalidDigit, "{}", text);
    }
}

#[test]
fn integer_overflow_in_a_texture_field() {
    let text = format!("R(1,2,3,4,2,{}0,3)\n", usize::MAX);
    assert_eq!(
        parse_err(&text),
        MapFileParseError { line: 1, kind: MapFileErrorKind::IntegerOverflow }
    );
    let text = format!("R(1,2,3,4,2,0,{}9)\n", usize::MAX);
    assert_eq!(parse_err(&text).kind, MapFileErrorKind::IntegerOverflow);
}

#[test]
fn zero_space_index() {
    assert_eq!(
        parse_err("R(1,2,3,4,0,0,3)\n"),
        MapFileParseError { line: 1, kind: MapFileErrorKind::ZeroSpaceIndex }
    );
    assert_eq!(parse_err("R(1,2,3,4,+000,0,3)\n").kind, MapFileErrorKind::ZeroSpaceIndex);
}

#[test]
fn largest_inner_index_is_reserved() {
    let text = format!("R(1,2,3,4,2,0,{})\n", usize::MAX);
    assert_eq!(
        parse_err(&text),
        MapFileParseError { line: 2, kind: MapFileErrorKind::InnerIndexReserved }
    );
}

#[test]
fn largest_atlas_index_is_allowed() {
    let text = format!("R(1,2,3,4,2,{},7)\n", usize::MAX);
    let map = parse_ok(&text);
    assert_eq!(map.inner[0].t_index.unwrap().texture_index(), usize::MAX);
}

#[test]
fn first_error_wins() {
    let e = parse_err("R(1,2,3,4)\nR(1,2\nX\n");
    assert_eq!(e, MapFileParseError { line: 3, kind: MapFileErrorKind::MissingPositional { supplied: 2 } });
}

#[test]
fn empty_text_is_an_empty_map() {
    assert_eq!(parse_ok("").inner.len(), 0);
    assert_eq!(parse_ok("\n\n").inner.len(), 0);
}

#[test]
fn last_line_without_newline_adds_no_record() {
    let map = parse_ok("R(1,2,3,4)\nR(5,6,7,8)");
    assert_eq!(map.inner.len(), 1);
}

#[test]
fn read_map_file_ends_the_last_line() {
    let map = read_map_file(b"R(1,2,3,4)\nR(5,6,7,8)".to_vec()).unwrap();
    assert_eq!(map.inner.len(), 2);
    assert_eq!(floats_of(&map.inner[1]), [5.0, 6.0, 7.0, 8.0]);
    let map = read_map_file(b"R(1,2,3,4)\n".to_vec()).unwrap();
    assert_eq!(map.inner.len(), 1);
    let e = read_map_file(b"R(1,2,3".to_vec()).unwrap_err();
    assert_eq!(e, MapFileParseError { line: 2, kind: MapFileErrorKind::MissingPositional { supplied: 3 } });
}

#[test]
fn records_keep_the_order_of_their_lines() {
    let mut text = String::new();
    for i in 0..50 {
        text.push_str(&format!("R({},{},1,1)\n", i, 2 * i));
    }
    let map = parse_ok(&text);
    assert_eq!(map.inner.len(), 50);
    for i in 0..50 {
        assert_eq!(floats_of(&map.inner[i]), [i as f32, (2 * i) as f32, 1.0, 1.0]);
    }
}

#[test]
fn decimal_literals_are_what_the_float_parser_takes() {
    let alphabet = [b'+', b'-', b'.', b'0', b'7'];
    let mut count = 0;
    for len in 0..=5usize {
        let total = alphabet.len().pow(len as u32);
        for code in 0..total {
            let mut text = Vec::new();
            let mut c = code;
            for _ in 0..len {
                text.push(alphabet[c % alphabet.len()]);
                c /= alphabet.len();
            }
            let as_float = std::str::from_utf8(&text).unwrap().parse::<f32>();
            let as_decimal = Decimal::parse(&text);
            assert_eq!(as_float.is_ok(), as_decimal.is_some(), "{:?}", String::from_utf8_lossy(&text));
            count += 1;
        }
    }
    assert_eq!(count, 1 + 5 + 25 + 125 + 625 + 3125);
}

#[test]
fn decimal_keeps_its_text() {
    let d = Decimal::parse(b"-12.50").unwrap();
    assert_eq!(d.as_bytes(), b"-12.50");
    assert_eq!(d.duplicate().as_bytes(), b"-12.50");
    assert!(d.same_text(&d.duplicate()));
    assert!(!d.same_text(&Decimal::parse(b"-12.5").unwrap()));
    assert!(Decimal::parse(b"").is_none());
    assert!(Decimal::parse(b"1e3").is_none());
    assert!(Decimal::parse(b"inf").is_none());
}
