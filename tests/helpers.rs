use termiku::cell::{CellState, CharacterGroup, Cursor, Position};
use termiku::control::{
    get_parameter, get_parameter_default, interpret_long_control, parse_unknown_length,
    ControlSeqenceParser, ControlSequenceError, ControlType,
};
use termiku::geometry::{Point, Rect, RectSize};
use termiku::input::{new_cursor_state, KeyboardArrow};
use termiku::sgr::{get_color_cube, get_grayscale_color, get_hex_color_from_cube_encoding, SimpleColor};
use termiku::unicode::{
    convert_to_char, is_valid_intermediary, number_of_byte_needed, Utf8Parser, Utf8ParserError,
};
use termiku::cell::Color;

#[test]
fn interpret_cursor_controls() {
    let mut buf = Vec::new();
    assert!(matches!(interpret_long_control(b"", b"", 0x41, &mut buf), ControlType::CursorUp(1)));
    assert!(matches!(interpret_long_control(b"5", b"", 0x42, &mut buf), ControlType::CursorDown(5)));
    assert!(matches!(
        interpret_long_control(b"12;34", b"", 0x48, &mut buf),
        ControlType::CursorPosition(12, 34)
    ));
    assert!(matches!(
        interpret_long_control(b";7", b"", 0x48, &mut buf),
        ControlType::CursorPosition(1, 7)
    ));
    assert!(matches!(interpret_long_control(b"", b"", 0x4A, &mut buf), ControlType::EraseInPage(0)));
    assert!(matches!(interpret_long_control(b"", b"", 0x73, &mut buf), ControlType::SaveCursor));
    assert!(matches!(interpret_long_control(b"", b"", 0x75, &mut buf), ControlType::RestoreCursor));
    match interpret_long_control(b"1;;38", b"", 0x6D, &mut buf) {
        ControlType::SelectGraphicRendition(v) => assert_eq!(v, vec![1, 0, 38]),
        other => panic!("unexpected {:?}", other),
    }
}

#[test]
fn interpret_rejects_what_it_cannot_read() {
    let mut buf = Vec::new();
    assert!(matches!(interpret_long_control(b"1", b" ", 0x41, &mut buf), ControlType::Unknown));
    assert!(matches!(interpret_long_control(b"70000", b"", 0x41, &mut buf), ControlType::Unknown));
    assert!(matches!(interpret_long_control(b"", b"", 0x7E, &mut buf), ControlType::Unknown));
}

#[test]
fn parameter_lookup() {
    let params = [Some(3), None];
    assert_eq!(get_parameter(&params, 0), Some(3));
    assert_eq!(get_parameter(&params, 1), None);
    assert_eq!(get_parameter(&params, 5), None);
    assert_eq!(get_parameter_default(&params, 1, 9), 9);
    assert_eq!(get_parameter_default(&params, 0, 9), 3);
    assert_eq!(parse_unknown_length(&params), vec![3, 0]);
}

#[test]
fn csi_reader_accepts_a_sequence() {
    let mut p = ControlSeqenceParser::new();
    assert!(!p.is_parsing());
    for &b in b"\x1b[2;5" {
        assert!(matches!(p.parse_byte(b), Ok(None)));
    }
    assert!(p.is_parsing());
    assert!(matches!(p.parse_byte(b'H'), Ok(Some(ControlType::CursorPosition(2, 5)))));
    assert!(!p.is_parsing());
}

#[test]
fn csi_reader_reports_each_error() {
    let mut p = ControlSeqenceParser::new();
    assert!(matches!(p.parse_byte(b'a'), Err(ControlSequenceError::InvalidCsi1Byte)));
    assert!(matches!(p.parse_byte(0x1B), Ok(None)));
    assert!(matches!(p.parse_byte(b'a'), Err(ControlSequenceError::InvalidCsi2Byte)));
    assert!(matches!(p.parse_byte(b'['), Ok(None)));
    assert!(matches!(p.parse_byte(0x07), Err(ControlSequenceError::InvalidParameterByte)));
    assert!(matches!(p.parse_byte(b' '), Ok(None)));
    assert!(matches!(p.parse_byte(b'1'), Err(ControlSequenceError::InvalidIntermediaryByte)));
    assert_eq!(p.reset(), b"\x1b[ ".to_vec());
    assert!(!p.is_parsing());
    let _ = ControlSequenceError::InvalidFinalByte;
}

#[test]
fn utf8_byte_patterns() {
    assert_eq!(number_of_byte_needed(0x41), 1);
    assert_eq!(number_of_byte_needed(0xC3), 2);
    assert_eq!(number_of_byte_needed(0xE2), 3);
    assert_eq!(number_of_byte_needed(0xF0), 4);
    assert_eq!(number_of_byte_needed(0x80), 0);
    assert_eq!(number_of_byte_needed(0xF8), 0);
    assert!(is_valid_intermediary(0x80));
    assert!(is_valid_intermediary(0xBF));
    assert!(!is_valid_intermediary(0xC0));
    assert!(!is_valid_intermediary(0x7F));
}

#[test]
fn cell_parser_results() {
    let mut p = Utf8Parser::new();
    assert_eq!(p.parse_byte(b'A'), Ok(Some('A')));
    assert_eq!(p.parse_byte(0xC3), Ok(None));
    assert_eq!(p.parse_byte(0xA9), Ok(Some('é')));
    assert_eq!(p.parse_byte(0xF0), Ok(None));
    assert_eq!(p.parse_byte(0x9F), Ok(None));
    assert_eq!(p.parse_byte(0x98), Ok(None));
    assert_eq!(p.parse_byte(0x80), Ok(Some('\u{1F600}')));
    assert_eq!(p.parse_byte(0xD0), Ok(None));
    assert_eq!(p.parse_byte(0x90), Ok(Some('\u{410}')));
    assert_eq!(p.parse_byte(0xC0), Err(Utf8ParserError::InvalidByte));
    assert_eq!(p.parse_byte(0x80), Err(Utf8ParserError::UnexpectedContinuationByte));
    assert_eq!(p.parse_byte(0xC3), Ok(None));
    assert_eq!(p.parse_byte(0x41), Err(Utf8ParserError::InvalidContinuationByte));
    assert_eq!(p.parse_byte(0xED), Ok(None));
    assert_eq!(p.parse_byte(0xA0), Ok(None));
    assert_eq!(p.parse_byte(0x80), Err(Utf8ParserError::InvalidCodePoint(0xD800)));
    assert_eq!(p.parse_bytes(&[0xE0, 0x80, 0x80]), vec![Ok(None), Ok(None), Err(Utf8ParserError::InvalidCodePoint(0))]);
    assert_eq!(
        p.parse_bytes(&[0xF0, 0x8F, 0xBF, 0xBF]),
        vec![Ok(None), Ok(None), Ok(None), Err(Utf8ParserError::InvalidCodePoint(0xFFFF))]
    );
    assert_eq!(
        p.parse_bytes(&[0xF4, 0x90, 0x80, 0x80]),
        vec![Ok(None), Ok(None), Ok(None), Err(Utf8ParserError::InvalidCodePoint(0x110000))]
    );
    let results = p.parse_bytes(&[0xE2, 0x82, 0xAC]);
    assert_eq!(results, vec![Ok(None), Ok(None), Ok(Some('€'))]);
}

#[test]
fn convert_first_character() {
    assert_eq!(convert_to_char(vec![0xE2, 0x82, 0xAC, 0x41]), Some('€'));
    assert_eq!(convert_to_char(vec![0x41]), Some('A'));
    assert_eq!(convert_to_char(vec![0xE2, 0x82]), None);
    assert_eq!(convert_to_char(vec![0x80, 0x41]), None);
    assert_eq!(convert_to_char(vec![]), None);
}

#[test]
fn cell_state_transitions() {
    let empty = CellState::Empty;
    let filling = empty.next_state(0xC3);
    assert!(matches!(filling, CellState::Filling(_)));
    assert!(matches!(filling.next_state(0xA9), CellState::Filled('é')));
    assert!(matches!(filling.next_state(0xC3), CellState::Filling(_)));
    assert!(matches!(filling.next_state(0x41), CellState::Filled('A')));
    assert!(matches!(CellState::Filled('x').next_state(0x42), CellState::Filled('B')));
    assert!(matches!(CellState::Invalid.next_state(0xFF), CellState::Invalid));
}

#[test]
fn cursor_save_restore() {
    let mut c = Cursor::new();
    c.restore();
    assert_eq!(c.position, Position { x: 1, y: 1 });
    c.position = Position { x: 4, y: 2 };
    c.save();
    c.position = Position { x: 1, y: 1 };
    c.restore();
    assert_eq!(c.position, Position { x: 4, y: 2 });
}

#[test]
fn character_groups() {
    assert!(CharacterGroup::with_capacity(8).characters.is_empty());
    assert_eq!(CharacterGroup::from_string("hé").characters, vec![0x68, 0xC3, 0xA9]);
}

#[test]
fn palette_helpers() {
    assert_eq!(SimpleColor::from_u8(7).to_color(), Color(229, 229, 229, 255));
    assert_eq!(SimpleColor::from_u8(8).to_color(), Color(127, 127, 127, 255));
    assert_eq!(get_hex_color_from_cube_encoding(3), 175);
    assert_eq!(get_color_cube(0), Color(0, 0, 0, 255));
    assert_eq!(get_color_cube(5 * 36 + 2 * 6 + 1), Color(255, 135, 95, 255));
    assert_eq!(get_grayscale_color(10), Color(108, 108, 108, 255));
}

#[test]
fn rectangle_corners() {
    let r = Rect { pos: Point { x: 2, y: 3 }, size: RectSize { width: 10, height: 20 } };
    assert_eq!(r.top_left(), Point { x: 2, y: 3 });
    assert_eq!(r.top_right(), Point { x: 12, y: 3 });
    assert_eq!(r.bottom_right(), Point { x: 2, y: 23 });
    assert_eq!(r.bottom_left(), Point { x: 12, y: 23 });
}

#[test]
fn arrow_keys_send_cursor_sequences() {
    assert_eq!(KeyboardArrow::Up.to_control_sequence(), "\x1b[A");
    assert_eq!(KeyboardArrow::Down.to_control_sequence(), "\x1b[B");
    assert_eq!(KeyboardArrow::Right.to_control_sequence(), "\x1b[C");
    assert_eq!(KeyboardArrow::Left.to_control_sequence(), "\x1b[D");
}

#[test]
fn cursor_blinks_each_second() {
    assert!(new_cursor_state(0));
    assert!(new_cursor_state(1500));
    assert!(!new_cursor_state(501));
    assert!(!new_cursor_state(2999));
}
