use termiku::cell::{CellState, Color, Position};
use termiku::screen::{DisplayCellLine, PtyBuffer, Screen};

fn screen(rows: usize, cols: usize) -> Screen {
    Screen::empty(rows, cols, 0)
}

fn position(s: &Screen) -> (usize, usize) {
    (s.cursor.position.y, s.cursor.position.x)
}

fn char_at(s: &Screen, row: usize, col: usize) -> Option<char> {
    match s.screen_lines[row].cells[col].state {
        CellState::Filled(c) => Some(c),
        _ => None,
    }
}

#[test]
fn writing_three_characters_moves_three_columns() {
    let mut s = screen(24, 80);
    s.add_to_buffer(&[0x41, 0x42, 0x43]);
    assert_eq!(position(&s), (1, 4));
    assert_eq!(char_at(&s, 0, 0), Some('A'));
    assert_eq!(char_at(&s, 0, 1), Some('B'));
    assert_eq!(char_at(&s, 0, 2), Some('C'));
}

#[test]
fn cursor_position_moves_the_cursor() {
    let mut s = screen(24, 80);
    s.add_to_buffer(&[0x1B, 0x5B, 0x33, 0x3B, 0x37, 0x48]);
    assert_eq!(position(&s), (3, 7));
}

#[test]
fn cursor_motion_is_clamped_to_the_grid() {
    let mut s = screen(10, 20);
    s.add_to_buffer(b"\x1b[999;999H");
    assert_eq!(position(&s), (10, 20));
    s.add_to_buffer(b"\x1b[50A");
    assert_eq!(position(&s), (1, 20));
    s.add_to_buffer(b"\x1b[50D");
    assert_eq!(position(&s), (1, 1));
    s.add_to_buffer(b"\x1b[5B\x1b[3C");
    assert_eq!(position(&s), (6, 4));
    s.add_to_buffer(b"\x1b[0;0H");
    assert_eq!(position(&s), (1, 1));
    s.add_to_buffer(b"\x1b[2E");
    assert_eq!(position(&s), (3, 1));
    s.add_to_buffer(b"\x1b[9F");
    assert_eq!(position(&s), (1, 1));
    s.add_to_buffer(b"\x1b[15G");
    assert_eq!(position(&s), (1, 15));
    s.add_to_buffer(b"\x1b[H");
    assert_eq!(position(&s), (1, 1));
}

#[test]
fn special_bytes_move_the_cursor() {
    let mut s = screen(5, 20);
    s.add_to_buffer(b"abc\x08");
    assert_eq!(position(&s), (1, 3));
    s.add_to_buffer(b"\r");
    assert_eq!(position(&s), (1, 1));
    s.add_to_buffer(b"\x08");
    assert_eq!(position(&s), (1, 1));
    s.add_to_buffer(b"\t");
    assert_eq!(position(&s), (1, 8));
    s.add_to_buffer(b"\t");
    assert_eq!(position(&s), (1, 16));
    s.add_to_buffer(b"\t");
    assert_eq!(position(&s), (1, 20));
    s.add_to_buffer(b"\n");
    assert_eq!(position(&s), (2, 20));
    s.add_to_buffer(b"\x07");
    assert_eq!(position(&s), (2, 20));
}

#[test]
fn writing_past_the_last_column_wraps() {
    let mut s = screen(2, 3);
    s.add_to_buffer(b"abcd");
    assert_eq!(position(&s), (2, 2));
    assert_eq!(char_at(&s, 1, 0), Some('d'));
}

#[test]
fn line_feed_at_the_bottom_scrolls_into_history() {
    let mut s = screen(2, 4);
    s.add_to_buffer(b"ab\n\n");
    assert_eq!(s.history.len(), 1);
    assert_eq!(position(&s), (2, 3));
    match s.history[0].cells[0].state {
        CellState::Filled(c) => assert_eq!(c, 'a'),
        _ => panic!("history should hold the retired line"),
    }
}

#[test]
fn alternate_buffer_keeps_history_untouched() {
    let mut s = screen(2, 4);
    s.add_to_buffer(b"x\n\n");
    assert_eq!(s.history.len(), 1);
    s.add_to_buffer(b"\x1b[?1049h");
    assert!(s.state.is_alternative);
    s.add_to_buffer(b"\n\n\n\nabcdefghijkl");
    assert_eq!(s.history.len(), 1);
    s.add_to_buffer(b"\x1b[?1049l");
    assert!(!s.state.is_alternative);
    s.add_to_buffer(b"\n\n");
    assert_eq!(s.history.len(), 3);
}

#[test]
fn alternate_buffer_has_its_own_grid_and_cursor() {
    let mut s = screen(3, 5);
    s.add_to_buffer(b"hi");
    s.add_to_buffer(b"\x1b[?1049h");
    assert_eq!(position(&s), (1, 1));
    assert_eq!(char_at(&s, 0, 0), None);
    s.add_to_buffer(b"\x1b[?1049h");
    assert!(s.state.is_alternative);
    s.add_to_buffer(b"\x1b[?1049l");
    assert_eq!(position(&s), (1, 3));
    assert_eq!(char_at(&s, 0, 0), Some('h'));
}

#[test]
fn erase_in_page_modes() {
    let mut s = screen(3, 3);
    s.add_to_buffer(b"abcdefgh");
    s.add_to_buffer(b"\x1b[2;2H\x1b[J");
    assert_eq!(char_at(&s, 0, 2), Some('c'));
    assert_eq!(char_at(&s, 1, 0), Some('d'));
    assert_eq!(char_at(&s, 1, 1), None);
    assert_eq!(char_at(&s, 2, 0), None);

    let mut t = screen(3, 3);
    t.add_to_buffer(b"abcdefgh");
    t.add_to_buffer(b"\x1b[2;2H\x1b[1J");
    assert_eq!(char_at(&t, 0, 0), None);
    assert_eq!(char_at(&t, 1, 1), None);
    assert_eq!(char_at(&t, 1, 2), Some('f'));
    assert_eq!(char_at(&t, 2, 0), Some('g'));

    let mut u = screen(3, 3);
    u.add_to_buffer(b"abcdefgh\x1b[2J");
    for r in 0..3 {
        for c in 0..3 {
            assert_eq!(char_at(&u, r, c), None);
        }
    }
}

#[test]
fn delete_line_shifts_lines_up() {
    let mut s = screen(3, 2);
    s.add_to_buffer(b"aabbc");
    s.add_to_buffer(b"\x1b[1;2H\x1b[M");
    assert_eq!(char_at(&s, 0, 0), Some('b'));
    assert_eq!(char_at(&s, 1, 0), Some('c'));
    assert_eq!(char_at(&s, 2, 0), None);
    assert_eq!(position(&s), (1, 1));
    s.add_to_buffer(b"\x1b[2;1H\x1b[9M");
    assert_eq!(char_at(&s, 0, 0), Some('b'));
    assert_eq!(char_at(&s, 1, 0), None);
    assert_eq!(s.screen_lines.len(), 3);
}

#[test]
fn save_and_restore_cursor() {
    let mut s = screen(5, 5);
    s.add_to_buffer(b"\x1b[u");
    assert_eq!(position(&s), (1, 1));
    s.add_to_buffer(b"\x1b[3;4H\x1b[s\x1b[H\x1b[u");
    assert_eq!(position(&s), (3, 4));
}

#[test]
fn select_graphic_rendition_colors() {
    let mut s = screen(2, 10);
    s.add_to_buffer(b"\x1b[31;42m");
    assert_eq!(s.cursor.properties.fg, Color(205, 0, 0, 255));
    assert_eq!(s.cursor.properties.bg, Some(Color(0, 205, 0, 255)));
    s.add_to_buffer(b"x");
    assert_eq!(s.screen_lines[0].cells[0].properties.fg, Color(205, 0, 0, 255));
    s.add_to_buffer(b"\x1b[38;5;196m");
    assert_eq!(s.cursor.properties.fg, Color(255, 0, 0, 255));
    s.add_to_buffer(b"\x1b[48;5;232m");
    assert_eq!(s.cursor.properties.bg, Some(Color(8, 8, 8, 255)));
    s.add_to_buffer(b"\x1b[38;5;9m");
    assert_eq!(s.cursor.properties.fg, Color(255, 0, 0, 255));
    s.add_to_buffer(b"\x1b[38;2;1;2;3m");
    assert_eq!(s.cursor.properties.fg, Color(1, 2, 3, 255));
    s.add_to_buffer(b"\x1b[48;2;4;5;6m");
    assert_eq!(s.cursor.properties.bg, Some(Color(4, 5, 6, 255)));
    s.add_to_buffer(b"\x1b[94;103m");
    assert_eq!(s.cursor.properties.fg, Color(0, 0, 252, 255));
    assert_eq!(s.cursor.properties.bg, Some(Color(255, 255, 0, 255)));
    s.add_to_buffer(b"\x1b[39;49m");
    assert_eq!(s.cursor.properties.fg, Color(255, 255, 255, 255));
    assert_eq!(s.cursor.properties.bg, None);
    s.add_to_buffer(b"\x1b[31m\x1b[0m");
    assert_eq!(s.cursor.properties.fg, Color(255, 255, 255, 255));
    s.add_to_buffer(b"\x1b[32m\x1b[m");
    assert_eq!(s.cursor.properties.fg, Color(255, 255, 255, 255));
}

#[test]
fn truncated_and_unknown_graphic_renditions_are_skipped() {
    let mut s = screen(2, 10);
    s.add_to_buffer(b"\x1b[38m");
    assert_eq!(s.cursor.properties.fg, Color(255, 255, 255, 255));
    s.add_to_buffer(b"\x1b[38;2;1m");
    assert_eq!(s.cursor.properties.fg, Color(255, 255, 255, 255));
    s.add_to_buffer(b"\x1b[12;33m");
    assert_eq!(s.cursor.properties.fg, Color(205, 205, 0, 255));
}

#[test]
fn color_cube_levels() {
    let mut s = screen(1, 1);
    s.add_to_buffer(b"\x1b[38;5;16m");
    assert_eq!(s.cursor.properties.fg, Color(0, 0, 0, 255));
    s.add_to_buffer(b"\x1b[38;5;231m");
    assert_eq!(s.cursor.properties.fg, Color(255, 255, 255, 255));
    s.add_to_buffer(b"\x1b[38;5;67m");
    assert_eq!(s.cursor.properties.fg, Color(95, 135, 175, 255));
    s.add_to_buffer(b"\x1b[38;5;255m");
    assert_eq!(s.cursor.properties.fg, Color(238, 238, 238, 255));
}

#[test]
fn snapshots_without_writes_are_equal() {
    let mut b = PtyBuffer::new(3, 4, 7);
    b.add_input(b"ab\ncd".to_vec());
    assert!(b.is_updated());
    let first = b.get_range(0, 3);
    assert!(!b.is_updated());
    let second = b.get_range(0, 3);
    assert_eq!(format!("{:?}", first), format!("{:?}", second));
    b.dimensions_updated();
    assert!(b.is_updated());
}

#[test]
fn snapshot_is_newest_first_with_one_cursor() {
    let mut s = screen(3, 4);
    s.add_to_buffer(b"ab\ncd");
    let lines: Vec<DisplayCellLine> = s.snapshot(0, 10);
    assert_eq!(lines.len(), 3);
    let cursors: usize = lines
        .iter()
        .map(|l| l.cells.iter().filter(|c| c.is_cursor).count())
        .sum();
    assert_eq!(cursors, 1);
    assert!(lines[0].cells[0].is_cursor);
    assert!(matches!(lines[2].cells[0].cell.state, CellState::Filled('a')));
    assert_eq!(s.snapshot(1, 2).len(), 1);
    assert_eq!(s.snapshot(3, 5).len(), 0);
}

#[test]
fn raw_bytes_fill_a_cell_in_place() {
    let mut s = screen(2, 5);
    s.push_byte_to_screen(0xC3);
    assert_eq!(position(&s), (1, 1));
    s.push_byte_to_screen(0xA9);
    assert_eq!(position(&s), (1, 2));
    assert_eq!(char_at(&s, 0, 0), Some('é'));
    s.push_byte_to_screen(0xFF);
    assert_eq!(position(&s), (1, 3));
    assert!(matches!(s.screen_lines[0].cells[1].state, CellState::Invalid));
}

#[test]
fn sgr_methods_set_colors() {
    let mut s = screen(1, 1);
    s.simple_color_foreground(1);
    assert_eq!(s.cursor.properties.fg, Color(205, 0, 0, 255));
    s.simple_color_background(4);
    assert_eq!(s.cursor.properties.bg, Some(Color(0, 0, 238, 255)));
    s.cube_color_foreground(215);
    assert_eq!(s.cursor.properties.fg, Color(255, 255, 255, 255));
    s.cube_color_background(1);
    assert_eq!(s.cursor.properties.bg, Some(Color(0, 0, 95, 255)));
    s.grayscale_color_foreground(23);
    assert_eq!(s.cursor.properties.fg, Color(238, 238, 238, 255));
    s.grayscale_color_background(0);
    assert_eq!(s.cursor.properties.bg, Some(Color(8, 8, 8, 255)));
    s.true_color_foreground(1, 2, 3);
    assert_eq!(s.cursor.properties.fg, Color(1, 2, 3, 255));
    s.true_color_background(4, 5, 6);
    assert_eq!(s.cursor.properties.bg, Some(Color(4, 5, 6, 255)));
    s.default_color_foreground();
    assert_eq!(s.cursor.properties.fg, Color(255, 255, 255, 255));
    s.default_color_background();
    assert_eq!(s.cursor.properties.bg, None);
    s.simple_color_foreground(2);
    s.reset_graphics();
    assert_eq!(s.cursor.properties.fg, Color(255, 255, 255, 255));
    assert_eq!(Position::new(), Position { x: 1, y: 1 });
}

#[test]
fn resize_keeps_content_and_clamps_cursor() {
    let mut s = screen(3, 4);
    s.add_to_buffer(b"abcd\x1b[3;4H\x1b[s");
    s.resize(2, 2);
    assert_eq!(s.screen_lines.len(), 2);
    assert_eq!(s.screen_lines[0].cells.len(), 2);
    assert_eq!(char_at(&s, 0, 1), Some('b'));
    assert_eq!(position(&s), (2, 2));
    assert_eq!(s.cursor.saved, Some(Position { x: 2, y: 2 }));
    s.resize(4, 6);
    assert_eq!(s.screen_lines.len(), 4);
    assert_eq!(char_at(&s, 0, 0), Some('a'));
    assert_eq!(char_at(&s, 0, 3), None);
    assert_eq!(s.history.len(), 0);
    s.add_to_buffer(b"\x1b[9;9H");
    assert_eq!(position(&s), (4, 6));
}
