//! The screen model: two grids, a cursor each, a bounded history, and the recognizer
//! that feeds them.
use vstd::prelude::*;
use std::collections::VecDeque;
use crate::control::{
    control_type_of_function, interpret_control_function, ControlType, ControlTypeView,
};
use crate::recognizer::{parse_step, ControlView, InputView, ParserView, TerminalInput};
use crate::sgr::{
    ansi_color, apply_sgr, cube_color, get_color_cube, get_grayscale_color, get_simple_color,
    grayscale_color, select_graphic_rendition,
};
use crate::cell::{
    blank_line, cell_next_state, default_properties, initial_cursor, Cell, CellLine,
    CellProperties, CellState, Color, Cursor, Position,
};

verus! {

/// Most lines that the history keeps.
pub const MAX_HISTORY: usize = 10000;

/// Distance between tab stops.
pub const TAB_LENGTH: usize = 8;

pub const BELL_BYTE: u8 = 0x07;
pub const BACKSPACE_BYTE: u8 = 0x08;
pub const TABULATION_BYTE: u8 = 0x09;
pub const LINE_FEED_BYTE: u8 = 0x0A;
pub const CARRIAGE_RETURN_BYTE: u8 = 0x0D;

/// Bytes with an effect of their own on the screen.
pub open spec fn special_byte(byte: u8) -> bool {
    byte == BELL_BYTE || byte == BACKSPACE_BYTE || byte == TABULATION_BYTE || byte
        == LINE_FEED_BYTE || byte == CARRIAGE_RETURN_BYTE
}

pub fn is_special_byte(byte: u8) -> (r: bool)
    ensures
        r == special_byte(byte),
{
    byte == BELL_BYTE || byte == BACKSPACE_BYTE || byte == TABULATION_BYTE || byte
        == LINE_FEED_BYTE || byte == CARRIAGE_RETURN_BYTE
}

/// Whether the alternate buffer is shown.
#[derive(Copy, Clone, Default, Debug)]
pub struct ScreenState {
    pub is_alternative: bool,
}

/// The screen's model.
pub struct ScreenView {
    pub rows: nat,
    pub cols: nat,
    pub history: Seq<Seq<Cell>>,
    pub lines: Seq<Seq<Cell>>,
    pub cursor: Cursor,
    pub alt_lines: Seq<Seq<Cell>>,
    pub alt_cursor: Cursor,
    pub is_alternative: bool,
}

/// The cells of each line.
pub open spec fn grid(lines: Seq<CellLine>) -> Seq<Seq<Cell>> {
    lines.map_values(|l: CellLine| l.cells@)
}

pub open spec fn in_grid(p: Position, rows: nat, cols: nat) -> bool {
    1 <= p.y <= rows && 1 <= p.x <= cols
}

pub open spec fn cursor_ok(c: Cursor, rows: nat, cols: nat) -> bool {
    &&& in_grid(c.position, rows, cols)
    &&& c.saved is Some ==> in_grid(c.saved->Some_0, rows, cols)
}

pub open spec fn grid_ok(g: Seq<Seq<Cell>>, rows: nat, cols: nat) -> bool {
    &&& g.len() == rows
    &&& forall|i: int| 0 <= i < rows ==> (#[trigger] g[i]).len() == cols
    &&& forall|i: int, j: int| 0 <= i < rows && 0 <= j < cols ==> (#[trigger] g[i][j]).state.wf()
}

/// The invariant of the model: both grids have the screen's size and both cursors
/// lie on it.
pub open spec fn view_wf(s: ScreenView) -> bool {
    &&& 1 <= s.rows <= usize::MAX
    &&& 1 <= s.cols <= usize::MAX
    &&& grid_ok(s.lines, s.rows, s.cols)
    &&& grid_ok(s.alt_lines, s.rows, s.cols)
    &&& cursor_ok(s.cursor, s.rows, s.cols)
    &&& cursor_ok(s.alt_cursor, s.rows, s.cols)
    &&& s.history.len() <= MAX_HISTORY
}

/// A fresh screen.
pub open spec fn initial_screen(rows: nat, cols: nat) -> ScreenView {
    ScreenView {
        rows,
        cols,
        history: seq![],
        lines: Seq::new(rows, |i: int| blank_line(cols)),
        cursor: initial_cursor(),
        alt_lines: Seq::new(rows, |i: int| blank_line(cols)),
        alt_cursor: initial_cursor(),
        is_alternative: false,
    }
}

/// The history with its oldest lines dropped beyond the limit.
pub open spec fn bounded(h: Seq<Seq<Cell>>) -> Seq<Seq<Cell>> {
    if h.len() > MAX_HISTORY {
        h.take(MAX_HISTORY as int)
    } else {
        h
    }
}

/// Scrolls the grid up by one line. The top line goes to the front of the history,
/// unless the alternate buffer is shown.
pub open spec fn retire_top(s: ScreenView) -> ScreenView {
    ScreenView {
        lines: s.lines.drop_first().push(blank_line(s.cols)),
        history: if s.is_alternative {
            s.history
        } else {
            bounded(seq![s.lines[0]] + s.history)
        },
        ..s
    }
}

/// The model with the cursor moved to (`x`, `y`).
pub open spec fn moved(s: ScreenView, x: int, y: int) -> ScreenView {
    ScreenView {
        cursor: Cursor { position: Position { x: x as usize, y: y as usize }, ..s.cursor },
        ..s
    }
}

/// Moves to the next row, scrolling at the bottom; the column stays.
pub open spec fn line_feed(s: ScreenView) -> ScreenView {
    if s.cursor.position.y >= s.rows {
        retire_top(s)
    } else {
        moved(s, s.cursor.position.x as int, s.cursor.position.y + 1)
    }
}

/// Column of the next tab stop after `x`, or the last column.
pub open spec fn next_tab_stop(x: int, cols: nat) -> int {
    let stop = (x / 8 + 1) * 8;
    if stop > cols {
        cols as int
    } else {
        stop
    }
}

/// The effect of BEL, BS, HT, LF and CR.
pub open spec fn special_effect(s: ScreenView, byte: u8) -> ScreenView {
    let x = s.cursor.position.x as int;
    let y = s.cursor.position.y as int;
    if byte == BACKSPACE_BYTE {
        moved(s, if x > 1 { x - 1 } else { 1 }, y)
    } else if byte == TABULATION_BYTE {
        moved(s, next_tab_stop(x, s.cols), y)
    } else if byte == LINE_FEED_BYTE {
        line_feed(s)
    } else if byte == CARRIAGE_RETURN_BYTE {
        moved(s, 1, y)
    } else {
        s
    }
}

/// Moves past a completed cell: to the next column, else to the start of the next
/// row, scrolling at the bottom.
pub open spec fn advance(s: ScreenView) -> ScreenView {
    let x = s.cursor.position.x as int;
    let y = s.cursor.position.y as int;
    if x < s.cols {
        moved(s, x + 1, y)
    } else if y < s.rows {
        moved(s, 1, y + 1)
    } else {
        moved(retire_top(s), 1, y)
    }
}

/// The model with the cell under the cursor replaced.
pub open spec fn with_cell(s: ScreenView, cell: Cell) -> ScreenView {
    let r = s.cursor.position.y - 1;
    let c = s.cursor.position.x - 1;
    ScreenView { lines: s.lines.update(r, s.lines[r].update(c, cell)), ..s }
}

/// Writes a character under the cursor with the current properties and moves on.
pub open spec fn put_char(s: ScreenView, ch: char) -> ScreenView {
    advance(with_cell(s, Cell { state: CellState::Filled(ch), properties: s.cursor.properties }))
}

/// `y` moved up by `n`, stopping at 1.
pub open spec fn up(y: int, n: int) -> int {
    if n < y {
        y - n
    } else {
        1
    }
}

/// `v` moved forward by `n`, stopping at `max`.
pub open spec fn forward(v: int, n: int, max: nat) -> int {
    if v + n > max {
        max as int
    } else {
        v + n
    }
}

/// An absolute position: 0 means 1, and values past `max` mean `max`.
pub open spec fn absolute(v: int, max: nat) -> int {
    if v == 0 {
        1
    } else if v > max {
        max as int
    } else {
        v
    }
}

/// The model with rows `from` to `to` (excluded) of the grid made blank.
pub open spec fn blank_rows(s: ScreenView, from: int, to: int) -> ScreenView {
    ScreenView {
        lines: Seq::new(
            s.lines.len(),
            |i: int|
                if from <= i < to {
                    blank_line(s.cols)
                } else {
                    s.lines[i]
                },
        ),
        ..s
    }
}

/// The model with cells `from` to `to` (excluded) of row `row` made blank.
pub open spec fn blank_cells(s: ScreenView, row: int, from: int, to: int) -> ScreenView {
    ScreenView {
        lines: s.lines.update(
            row,
            Seq::new(
                s.lines[row].len(),
                |j: int|
                    if from <= j < to {
                        crate::cell::blank_cell()
                    } else {
                        s.lines[row][j]
                    },
            ),
        ),
        ..s
    }
}

/// ED: 0 erases from the cursor to the end of the screen, 1 from the start of the
/// screen to the cursor, 2 all of it; the cursor's cell is included.
pub open spec fn erase_in_page(s: ScreenView, mode: u16) -> ScreenView {
    let x = s.cursor.position.x as int;
    let y = s.cursor.position.y as int;
    if mode == 0 {
        blank_cells(blank_rows(s, y, s.rows as int), y - 1, x - 1, s.cols as int)
    } else if mode == 1 {
        blank_cells(blank_rows(s, 0, y - 1), y - 1, 0, x)
    } else if mode == 2 {
        blank_rows(s, 0, s.rows as int)
    } else {
        s
    }
}

/// DL: removes `n` lines (0 counts as 1, at most those down to the bottom) at the
/// cursor's row, appends as many blank lines, and moves to the first column.
pub open spec fn delete_lines(s: ScreenView, n: u16) -> ScreenView {
    let y = s.cursor.position.y as int;
    let k = if n == 0 {
        1
    } else {
        n as int
    };
    let k = if k > s.rows - y + 1 {
        s.rows - y + 1
    } else {
        k
    };
    let t = ScreenView {
        lines: s.lines.take(y - 1) + s.lines.skip(y - 1 + k) + Seq::new(
            k as nat,
            |i: int| blank_line(s.cols),
        ),
        ..s
    };
    moved(t, 1, y)
}

/// Exchanges the primary and the alternate grid and cursor.
pub open spec fn swap_buffers(s: ScreenView) -> ScreenView {
    ScreenView {
        lines: s.alt_lines,
        alt_lines: s.lines,
        cursor: s.alt_cursor,
        alt_cursor: s.cursor,
        is_alternative: !s.is_alternative,
        ..s
    }
}

/// Mode 1049, the alternate buffer.
pub const ALTERNATE_BUFFER_MODE: u16 = 1049;

/// SM: mode 1049 enters the alternate buffer, if it is not shown already.
pub open spec fn set_mode(s: ScreenView, modes: Seq<u16>) -> ScreenView {
    if modes.contains(ALTERNATE_BUFFER_MODE) && !s.is_alternative {
        swap_buffers(s)
    } else {
        s
    }
}

/// RM: mode 1049 leaves the alternate buffer, if it is shown.
pub open spec fn reset_mode(s: ScreenView, modes: Seq<u16>) -> ScreenView {
    if modes.contains(ALTERNATE_BUFFER_MODE) && s.is_alternative {
        swap_buffers(s)
    } else {
        s
    }
}

/// The effect of a control function on the screen.
pub open spec fn apply_control(s: ScreenView, control: ControlTypeView) -> ScreenView {
    let x = s.cursor.position.x as int;
    let y = s.cursor.position.y as int;
    match control {
        ControlTypeView::CursorUp(n) => moved(s, x, up(y, n as int)),
        ControlTypeView::CursorDown(n) => moved(s, x, forward(y, n as int, s.rows)),
        ControlTypeView::CursorRight(n) => moved(s, forward(x, n as int, s.cols), y),
        ControlTypeView::CursorLeft(n) => moved(s, up(x, n as int), y),
        ControlTypeView::CursorNextLine(n) => moved(s, 1, forward(y, n as int, s.rows)),
        ControlTypeView::CursorPrecedingLine(n) => moved(s, 1, up(y, n as int)),
        ControlTypeView::CursorCharacterAbsolute(n) => moved(s, absolute(n as int, s.cols), y),
        ControlTypeView::CursorPosition(r, c) => moved(
            s,
            absolute(c as int, s.cols),
            absolute(r as int, s.rows),
        ),
        ControlTypeView::EraseInPage(mode) => erase_in_page(s, mode),
        ControlTypeView::DeleteLine(n) => delete_lines(s, n),
        ControlTypeView::SetMode(modes) => set_mode(s, modes),
        ControlTypeView::ResetMode(modes) => reset_mode(s, modes),
        ControlTypeView::SelectGraphicRendition(params) => ScreenView {
            cursor: Cursor {
                properties: select_graphic_rendition(s.cursor.properties, params),
                ..s.cursor
            },
            ..s
        },
        ControlTypeView::SaveCursor => ScreenView {
            cursor: Cursor { saved: Some(s.cursor.position), ..s.cursor },
            ..s
        },
        ControlTypeView::RestoreCursor => match s.cursor.saved {
            Some(p) => moved(s, p.x as int, p.y as int),
            None => s,
        },
        ControlTypeView::Unknown => s,
    }
}

/// The effect of a control function delivered by the recognizer: a C0 control with an
/// effect of its own, or else the control function it is interpreted as.
pub open spec fn control_effect(s: ScreenView, ctl: ControlView) -> ScreenView {
    if special_byte(ctl.start) {
        special_effect(s, ctl.start)
    } else {
        apply_control(s, control_type_of_function(ctl.start, ctl.params, ctl.bytes, ctl.end))
    }
}

/// The effect of what the recognizer produced for one byte.
pub open spec fn apply_input(s: ScreenView, input: InputView) -> ScreenView {
    match input {
        InputView::Continue => s,
        InputView::Char(c) => put_char(s, c),
        InputView::SyncChar(a, c) => put_char(put_char(s, a), c),
        InputView::Control(ctl) => control_effect(s, ctl),
        InputView::SyncControl(a, ctl) => control_effect(put_char(s, a), ctl),
    }
}

/// The screen and its recognizer after a byte stream.
pub open spec fn screen_feed(s: ScreenView, p: ParserView, data: Seq<u8>) -> (ScreenView, ParserView)
    decreases data.len(),
{
    if data.len() == 0 {
        (s, p)
    } else {
        let (t, q) = screen_feed(s, p, data.drop_last());
        let (q2, input) = parse_step(q, data.last());
        (apply_input(t, input), q2)
    }
}

/// A cell of a snapshot.
#[derive(Copy, Clone, Debug)]
pub struct DisplayCell {
    pub cell: Cell,
    pub is_cursor: bool,
}

/// A line of a snapshot.
#[derive(Debug)]
pub struct DisplayCellLine {
    pub cells: Vec<DisplayCell>,
}

/// A grid line for display, with the cursor flag on column `cursor` (zero-based), if any.
pub open spec fn display_line(line: Seq<Cell>, cursor: int) -> Seq<DisplayCell> {
    Seq::new(line.len(), |j: int| DisplayCell { cell: line[j], is_cursor: j == cursor })
}

/// The lines of a snapshot.
pub open spec fn display_lines(lines: Seq<DisplayCellLine>) -> Seq<Seq<DisplayCell>> {
    lines.map_values(|l: DisplayCellLine| l.cells@)
}

/// Lines `start` to `end` (excluded, and at most all of them) of the grid, newest
/// first; the cell under the cursor is flagged.
pub open spec fn snapshot(s: ScreenView, start: int, end: int) -> Seq<Seq<DisplayCell>> {
    let stop = if end > s.rows {
        s.rows as int
    } else {
        end
    };
    if start >= stop {
        seq![]
    } else {
        Seq::new(
            (stop - start) as nat,
            |k: int|
                {
                    let i = s.rows - 1 - (start + k);
                    display_line(
                        s.lines[i],
                        if i == s.cursor.position.y - 1 {
                            s.cursor.position.x - 1
                        } else {
                            -1
                        },
                    )
                },
        )
    }
}

/// A line cut or padded with blank cells to `cols` cells.
pub open spec fn resized_line(line: Seq<Cell>, cols: nat) -> Seq<Cell> {
    Seq::new(cols, |j: int| if j < line.len() { line[j] } else { crate::cell::blank_cell() })
}

/// A grid cut or padded with blank lines and cells to `rows` by `cols`.
pub open spec fn resized_grid(g: Seq<Seq<Cell>>, rows: nat, cols: nat) -> Seq<Seq<Cell>> {
    Seq::new(rows, |i: int| if i < g.len() { resized_line(g[i], cols) } else { blank_line(cols) })
}

/// A position moved onto a grid of `rows` by `cols`.
pub open spec fn clamped(p: Position, rows: nat, cols: nat) -> Position {
    Position {
        x: if p.x > cols { cols as usize } else { p.x },
        y: if p.y > rows { rows as usize } else { p.y },
    }
}

/// A cursor, and its saved position, moved onto a grid of `rows` by `cols`.
pub open spec fn resized_cursor(c: Cursor, rows: nat, cols: nat) -> Cursor {
    Cursor {
        position: clamped(c.position, rows, cols),
        saved: match c.saved {
            Some(p) => Some(clamped(p, rows, cols)),
            None => None,
        },
        ..c
    }
}

/// New dimensions: content is kept up to the smaller of the old and new extents, the
/// cursors are moved onto the grid, and the history stays as it is.
pub open spec fn resize(s: ScreenView, rows: nat, cols: nat) -> ScreenView {
    ScreenView {
        rows,
        cols,
        lines: resized_grid(s.lines, rows, cols),
        alt_lines: resized_grid(s.alt_lines, rows, cols),
        cursor: resized_cursor(s.cursor, rows, cols),
        alt_cursor: resized_cursor(s.alt_cursor, rows, cols),
        ..s
    }
}

/// A screen with its grids, history, cursors and recognizer.
pub struct Screen {
    pub line_cell_width: usize,
    pub line_cell_height: usize,
    pub history: VecDeque<CellLine>,
    pub screen_lines: Vec<CellLine>,
    pub cursor: Cursor,
    pub alternative_screen_lines: Vec<CellLine>,
    pub alternative_cursor: Cursor,
    pub state: ScreenState,
    pub parser: crate::recognizer::TerminalInputParser,
    pub id: usize,
}

impl View for Screen {
    type V = ScreenView;

    open spec fn view(&self) -> ScreenView {
        ScreenView {
            rows: self.line_cell_height as nat,
            cols: self.line_cell_width as nat,
            history: grid(self.history@),
            lines: grid(self.screen_lines@),
            cursor: self.cursor,
            alt_lines: grid(self.alternative_screen_lines@),
            alt_cursor: self.alternative_cursor,
            is_alternative: self.state.is_alternative,
        }
    }
}

fn blank_lines(rows: usize, cols: usize) -> (r: Vec<CellLine>)
    ensures
        grid(r@) == Seq::new(rows as nat, |i: int| blank_line(cols as nat)),
{
    let mut lines: Vec<CellLine> = Vec::new();
    let mut i: usize = 0;
    while i < rows
        invariant
            i <= rows,
            grid(lines@) == Seq::new(i as nat, |k: int| blank_line(cols as nat)),
        decreases rows - i,
    {
        let line = CellLine::blank(cols);
        let ghost before = lines@;
        lines.push(line);
        assert(grid(lines@) =~= grid(before).push(line.cells@));
        i += 1;
        assert(grid(lines@) =~= Seq::new(i as nat, |k: int| blank_line(cols as nat)));
    }
    lines
}

fn resize_line(line: &CellLine, cols: usize) -> (r: CellLine)
    ensures
        r.cells@ == resized_line(line.cells@, cols as nat),
{
    let mut cells: Vec<Cell> = Vec::new();
    let mut j: usize = 0;
    while j < cols
        invariant
            j <= cols,
            cells@ == resized_line(line.cells@, cols as nat).take(j as int),
        decreases cols - j,
    {
        if j < line.cells.len() {
            cells.push(line.cells[j]);
        } else {
            cells.push(Cell::empty(CellProperties::new()));
        }
        j += 1;
        assert(cells@ =~= resized_line(line.cells@, cols as nat).take(j as int));
    }
    assert(cells@ =~= resized_line(line.cells@, cols as nat));
    CellLine { cells }
}

fn resize_lines(lines: &Vec<CellLine>, rows: usize, cols: usize) -> (r: Vec<CellLine>)
    ensures
        grid(r@) == resized_grid(grid(lines@), rows as nat, cols as nat),
{
    let mut out: Vec<CellLine> = Vec::new();
    let mut i: usize = 0;
    while i < rows
        invariant
            i <= rows,
            grid(out@) == resized_grid(grid(lines@), rows as nat, cols as nat).take(i as int),
        decreases rows - i,
    {
        let line = if i < lines.len() {
            assert(grid(lines@)[i as int] == lines@[i as int].cells@);
            resize_line(&lines[i], cols)
        } else {
            CellLine::blank(cols)
        };
        let ghost before = grid(out@);
        out.push(line);
        assert(grid(out@) =~= before.push(line.cells@));
        i += 1;
        assert(grid(out@) =~= resized_grid(grid(lines@), rows as nat, cols as nat).take(i as int));
    }
    assert(grid(out@) =~= resized_grid(grid(lines@), rows as nat, cols as nat));
    out
}

fn clamp_position(p: Position, rows: usize, cols: usize) -> (r: Position)
    ensures
        r == clamped(p, rows as nat, cols as nat),
{
    Position { x: if p.x > cols { cols } else { p.x }, y: if p.y > rows { rows } else { p.y } }
}

fn resize_cursor(c: Cursor, rows: usize, cols: usize) -> (r: Cursor)
    ensures
        r == resized_cursor(c, rows as nat, cols as nat),
{
    let saved = match c.saved {
        Some(p) => Some(clamp_position(p, rows, cols)),
        None => None,
    };
    Cursor { position: clamp_position(c.position, rows, cols), saved, properties: c.properties }
}

proof fn lemma_resized_grid_ok(g: Seq<Seq<Cell>>, old_rows: nat, old_cols: nat, rows: nat, cols: nat)
    requires
        grid_ok(g, old_rows, old_cols),
    ensures
        grid_ok(resized_grid(g, rows, cols), rows, cols),
{
    let h = resized_grid(g, rows, cols);
    assert forall|i: int, j: int| 0 <= i < rows && 0 <= j < cols implies (
    #[trigger] h[i][j]).state.wf() by {
        if i < g.len() && j < g[i].len() {
            assert(h[i][j] == g[i][j]);
        }
    }
}

impl Screen {
    pub open spec fn wf(&self) -> bool {
        view_wf(self@) && self.parser.wf()
    }

    /// A screen of `rows` lines of `cols` empty cells.
    pub fn empty(rows: usize, cols: usize, id: usize) -> (r: Self)
        requires
            rows >= 1,
            cols >= 1,
        ensures
            r.wf(),
            r@ == initial_screen(rows as nat, cols as nat),
            r.parser@ == crate::recognizer::initial_parser(),
            r.id == id,
    {
        let r = Screen {
            line_cell_width: cols,
            line_cell_height: rows,
            history: VecDeque::new(),
            screen_lines: blank_lines(rows, cols),
            cursor: Cursor::new(),
            alternative_screen_lines: blank_lines(rows, cols),
            alternative_cursor: Cursor::new(),
            state: ScreenState { is_alternative: false },
            parser: crate::recognizer::TerminalInputParser::new(),
            id,
        };
        assert(grid(r.history@) =~= Seq::<Seq<Cell>>::empty());
        r
    }

    /// Scrolls the grid up by one line; the top line goes to the history unless the
    /// alternate buffer is shown.
    pub fn push_line_to_history(&mut self)
        requires
            old(self).wf(),
        ensures
            final(self).wf(),
            final(self)@ == retire_top(old(self)@),
            final(self).parser == old(self).parser,
            final(self).id == old(self).id,
    {
        let ghost s = self@;
        let line = self.screen_lines.remove(0);
        assert(grid(self.screen_lines@) =~= s.lines.drop_first());
        if !self.state.is_alternative {
            self.history.push_front(line);
            assert(grid(self.history@) =~= seq![s.lines[0]] + s.history);
            if self.history.len() > MAX_HISTORY {
                self.history.pop_back();
                assert(grid(self.history@) =~= (seq![s.lines[0]] + s.history).take(
                    MAX_HISTORY as int,
                ));
            }
        }
        let blank = CellLine::blank(self.line_cell_width);
        self.screen_lines.push(blank);
        assert(grid(self.screen_lines@) =~= s.lines.drop_first().push(blank_line(s.cols)));
        assert(self@ =~= retire_top(s));
    }

    fn move_to(&mut self, x: usize, y: usize)
        requires
            old(self).wf(),
            1 <= x <= old(self).line_cell_width,
            1 <= y <= old(self).line_cell_height,
        ensures
            final(self).wf(),
            final(self)@ == moved(old(self)@, x as int, y as int),
            final(self).parser == old(self).parser,
            final(self).id == old(self).id,
    {
        self.cursor.position = Position { x, y };
    }

    /// Moves to the next row, scrolling at the bottom.
    pub fn next_line(&mut self)
        requires
            old(self).wf(),
        ensures
            final(self).wf(),
            final(self)@ == line_feed(old(self)@),
            final(self).parser == old(self).parser,
            final(self).id == old(self).id,
    {
        if self.cursor.position.y >= self.line_cell_height {
            self.push_line_to_history();
        } else {
            self.move_to(self.cursor.position.x, self.cursor.position.y + 1);
        }
    }

    /// Row and column indices of the cell under the cursor.
    fn get_position_pointed_by_cursor(&self) -> (r: (usize, usize))
        requires
            self.wf(),
        ensures
            r.0 == self.cursor.position.y - 1,
            r.1 == self.cursor.position.x - 1,
    {
        (self.cursor.position.y - 1, self.cursor.position.x - 1)
    }

    /// Applies BEL, BS, HT, LF or CR.
    pub fn handle_special_byte(&mut self, byte: u8)
        requires
            old(self).wf(),
        ensures
            final(self).wf(),
            final(self)@ == special_effect(old(self)@, byte),
            final(self).parser == old(self).parser,
            final(self).id == old(self).id,
    {
        let x = self.cursor.position.x;
        let y = self.cursor.position.y;
        if byte == BACKSPACE_BYTE {
            let nx = if x > 1 { x - 1 } else { 1 };
            self.move_to(nx, y);
        } else if byte == TABULATION_BYTE {
            let stop = if x / TAB_LENGTH + 1 > self.line_cell_width / TAB_LENGTH {
                self.line_cell_width
            } else {
                (x / TAB_LENGTH + 1) * TAB_LENGTH
            };
            assert(stop == next_tab_stop(x as int, self.line_cell_width as nat)) by (nonlinear_arith)
                requires
                    stop == (if x / 8 + 1 > self.line_cell_width / 8 {
                        self.line_cell_width as int
                    } else {
                        (x / 8 + 1) * 8
                    }),
                    x >= 1,
            ;
            self.move_to(stop, y);
        } else if byte == LINE_FEED_BYTE {
            self.next_line();
        } else if byte == CARRIAGE_RETURN_BYTE {
            self.move_to(1, y);
        }
    }

    /// Moves past a completed cell.
    fn advance_cursor(&mut self)
        requires
            old(self).wf(),
        ensures
            final(self).wf(),
            final(self)@ == advance(old(self)@),
            final(self).parser == old(self).parser,
            final(self).id == old(self).id,
    {
        let x = self.cursor.position.x;
        let y = self.cursor.position.y;
        if x < self.line_cell_width {
            self.move_to(x + 1, y);
        } else if y < self.line_cell_height {
            self.move_to(1, y + 1);
        } else {
            self.push_line_to_history();
            self.move_to(1, y);
        }
    }

    /// Replaces the cell under the cursor.
    fn set_cell(&mut self, cell: Cell)
        requires
            old(self).wf(),
            cell.state.wf(),
        ensures
            final(self).wf(),
            final(self)@ == with_cell(old(self)@, cell),
            final(self).parser == old(self).parser,
            final(self).id == old(self).id,
    {
        let ghost s = self@;
        let (row, col) = self.get_position_pointed_by_cursor();
        let mut line = self.screen_lines.remove(row);
        line.cells.set(col, cell);
        self.screen_lines.insert(row, line);
        assert(grid(self.screen_lines@) =~= s.lines.update(row as int, s.lines[row as int].update(col as int, cell)));
        assert(self@ =~= with_cell(s, cell));
        assert(grid_ok(self@.lines, s.rows, s.cols)) by {
            assert forall|i: int, j: int| 0 <= i < s.rows && 0 <= j < s.cols implies (
            #[trigger] self@.lines[i][j]).state.wf() by {
                if i == row && j == col {
                } else {
                    assert(self@.lines[i][j] == s.lines[i][j]);
                }
            }
        }
    }

    /// Writes a character under the cursor with the current properties and moves on.
    pub fn push_char(&mut self, c: char)
        requires
            old(self).wf(),
        ensures
            final(self).wf(),
            final(self)@ == put_char(old(self)@, c),
            final(self).parser == old(self).parser,
            final(self).id == old(self).id,
    {
        let cell = Cell { state: CellState::Filled(c), properties: self.cursor.properties };
        self.set_cell(cell);
        self.advance_cursor();
    }

    /// Writes a raw byte: a special byte takes effect; any other byte goes into the UTF-8
    /// parser of the cell under the cursor, which then takes the current properties. The
    /// cursor moves on once the cell is complete or invalid.
    pub fn push_byte_to_screen(&mut self, byte: u8)
        requires
            old(self).wf(),
        ensures
            final(self).wf(),
            special_byte(byte) ==> final(self)@ == special_effect(old(self)@, byte),
            !special_byte(byte) ==> {
                let s = old(self)@;
                let cell = s.lines[s.cursor.position.y - 1][s.cursor.position.x - 1];
                exists|next: Cell| {
                    &&& next.state@ == cell_next_state(cell.state@, byte)
                    &&& next.state.wf()
                    &&& next.properties == s.cursor.properties
                    &&& final(self)@ == if next.state.is_done() {
                        advance(with_cell(s, next))
                    } else {
                        with_cell(s, next)
                    }
                }
            },
            final(self).parser == old(self).parser,
            final(self).id == old(self).id,
    {
        if is_special_byte(byte) {
            self.handle_special_byte(byte);
            return;
        }
        let ghost s = self@;
        let (row, col) = self.get_position_pointed_by_cursor();
        assert(grid(self.screen_lines@)[row as int] == self.screen_lines@[row as int].cells@);
        assert(s.lines[row as int][col as int].state.wf());
        let state = self.screen_lines[row].cells[col].state.next_state(byte);
        let done = match state {
            CellState::Filled(_) | CellState::Invalid => true,
            _ => false,
        };
        let next = Cell { state, properties: self.cursor.properties };
        self.set_cell(next);
        if done {
            self.advance_cursor();
        }
    }

    /// Makes rows `from` to `to` (excluded) blank.
    fn blank_rows(&mut self, from: usize, to: usize)
        requires
            old(self).wf(),
            from <= to <= old(self).line_cell_height,
        ensures
            final(self).wf(),
            final(self)@ == blank_rows(old(self)@, from as int, to as int),
            final(self).parser == old(self).parser,
            final(self).id == old(self).id,
    {
        let ghost s = self@;
        let mut lines: Vec<CellLine> = Vec::new();
        std::mem::swap(&mut lines, &mut self.screen_lines);
        let mut i: usize = from;
        assert(grid(lines@) =~= blank_rows(s, from as int, from as int).lines);
        while i < to
            invariant
                from <= i <= to,
                to <= s.rows,
                s.lines.len() == s.rows,
                self.line_cell_width == s.cols,
                grid(lines@) == blank_rows(s, from as int, i as int).lines,
            decreases to - i,
        {
            let blank = CellLine::blank(self.line_cell_width);
            let ghost before = grid(lines@);
            lines.set(i, blank);
            assert(grid(lines@) =~= before.update(i as int, blank_line(s.cols)));
            i += 1;
            assert(grid(lines@) =~= blank_rows(s, from as int, i as int).lines);
        }
        std::mem::swap(&mut lines, &mut self.screen_lines);
        assert(self@ =~= blank_rows(s, from as int, to as int));
        assert(grid_ok(self@.lines, s.rows, s.cols)) by {
            let g = self@.lines;
            assert forall|r: int| 0 <= r < s.rows implies (#[trigger] g[r]).len() == s.cols && (
            forall|c: int| 0 <= c < s.cols ==> (#[trigger] g[r][c]).state.wf()) by {
                if from <= r < to {
                    assert(g[r] == blank_line(s.cols));
                } else {
                    assert(g[r] == s.lines[r]);
                }
            }
        }
    }

    /// Makes cells `from` to `to` (excluded) of row `row` blank.
    fn blank_cells(&mut self, row: usize, from: usize, to: usize)
        requires
            old(self).wf(),
            row < old(self).line_cell_height,
            from <= to <= old(self).line_cell_width,
        ensures
            final(self).wf(),
            final(self)@ == blank_cells(old(self)@, row as int, from as int, to as int),
            final(self).parser == old(self).parser,
            final(self).id == old(self).id,
    {
        let ghost s = self@;
        let mut line = self.screen_lines.remove(row);
        let ghost cells_before = line.cells@;
        assert(cells_before == s.lines[row as int]);
        let mut j: usize = from;
        while j < to
            invariant
                from <= j <= to,
                to <= cells_before.len(),
                line.cells@ == Seq::new(
                    cells_before.len(),
                    |k: int|
                        if from <= k < j {
                            crate::cell::blank_cell()
                        } else {
                            cells_before[k]
                        },
                ),
            decreases to - j,
        {
            line.cells.set(j, Cell::empty(CellProperties::new()));
            j += 1;
            assert(line.cells@ =~= Seq::new(
                cells_before.len(),
                |k: int|
                    if from <= k < j {
                        crate::cell::blank_cell()
                    } else {
                        cells_before[k]
                    },
            ));
        }
        let ghost cells = line.cells@;
        self.screen_lines.insert(row, line);
        assert(grid(self.screen_lines@) =~= s.lines.update(row as int, cells));
        assert(self@ =~= blank_cells(s, row as int, from as int, to as int));
        assert(grid_ok(self@.lines, s.rows, s.cols)) by {
            assert forall|i: int, k: int| 0 <= i < s.rows && 0 <= k < s.cols implies (
            #[trigger] self@.lines[i][k]).state.wf() by {
                if i != row {
                    assert(self@.lines[i][k] == s.lines[i][k]);
                }
            }
        }
    }

    /// ED.
    fn erase_in_page(&mut self, mode: u16)
        requires
            old(self).wf(),
        ensures
            final(self).wf(),
            final(self)@ == erase_in_page(old(self)@, mode),
            final(self).parser == old(self).parser,
            final(self).id == old(self).id,
    {
        let x = self.cursor.position.x;
        let y = self.cursor.position.y;
        if mode == 0 {
            self.blank_rows(y, self.line_cell_height);
            self.blank_cells(y - 1, x - 1, self.line_cell_width);
        } else if mode == 1 {
            self.blank_rows(0, y - 1);
            self.blank_cells(y - 1, 0, x);
        } else if mode == 2 {
            self.blank_rows(0, self.line_cell_height);
        }
    }

    /// DL.
    fn delete_lines(&mut self, n: u16)
        requires
            old(self).wf(),
        ensures
            final(self).wf(),
            final(self)@ == delete_lines(old(self)@, n),
            final(self).parser == old(self).parser,
            final(self).id == old(self).id,
    {
        let ghost s = self@;
        let y = self.cursor.position.y;
        let rows = self.line_cell_height;
        let k: usize = if n == 0 {
            1
        } else {
            n as usize
        };
        let k: usize = if k > rows - y + 1 {
            rows - y + 1
        } else {
            k
        };
        let cols = self.line_cell_width;
        let mut lines: Vec<CellLine> = Vec::new();
        std::mem::swap(&mut lines, &mut self.screen_lines);
        assert(grid(lines@) == s.lines);
        assert(s.lines.skip(y - 1 + 0) =~= s.lines.skip(y - 1));
        assert(s.lines =~= s.lines.take(y - 1) + s.lines.skip(y - 1));
        let mut m: usize = 0;
        while m < k
            invariant
                m <= k,
                k <= rows - y + 1,
                1 <= y <= rows,
                rows == s.rows,
                s.lines.len() == rows,
                lines@.len() == rows - m,
                grid(lines@) == s.lines.take(y - 1) + s.lines.skip(y - 1 + m),
            decreases k - m,
        {
            let ghost before = grid(lines@);
            lines.remove(y - 1);
            assert(grid(lines@) =~= before.remove(y - 1));
            m += 1;
            assert(grid(lines@) =~= s.lines.take(y - 1) + s.lines.skip(y - 1 + m));
        }
        let mut p: usize = 0;
        assert(grid(lines@) =~= s.lines.take(y - 1) + s.lines.skip(y - 1 + k) + Seq::new(
            0,
            |i: int| blank_line(s.cols),
        ));
        while p < k
            invariant
                p <= k,
                cols == s.cols,
                grid(lines@) == s.lines.take(y - 1) + s.lines.skip(y - 1 + k) + Seq::new(
                    p as nat,
                    |i: int| blank_line(s.cols),
                ),
            decreases k - p,
        {
            let blank = CellLine::blank(cols);
            let ghost before = grid(lines@);
            lines.push(blank);
            assert(grid(lines@) =~= before.push(blank_line(s.cols)));
            p += 1;
            assert(grid(lines@) =~= s.lines.take(y - 1) + s.lines.skip(y - 1 + k) + Seq::new(
                p as nat,
                |i: int| blank_line(s.cols),
            ));
        }
        std::mem::swap(&mut lines, &mut self.screen_lines);
        self.cursor.position.x = 1;
        assert(self@ =~= delete_lines(s, n));
        assert(grid_ok(self@.lines, s.rows, s.cols)) by {
            let g = self@.lines;
            assert forall|i: int| 0 <= i < s.rows implies (#[trigger] g[i]).len() == s.cols && (
            forall|j: int| 0 <= j < s.cols ==> (#[trigger] g[i][j]).state.wf()) by {
                if i < y - 1 {
                    assert(g[i] == s.lines[i]);
                } else if i < s.rows - k {
                    assert(g[i] == s.lines[i + k]);
                } else {
                    assert(g[i] == blank_line(s.cols));
                }
            }
        }
    }

    fn swap_buffers(&mut self)
        requires
            old(self).wf(),
        ensures
            final(self).wf(),
            final(self)@ == swap_buffers(old(self)@),
            final(self).parser == old(self).parser,
            final(self).id == old(self).id,
    {
        self.state.is_alternative = !self.state.is_alternative;
        std::mem::swap(&mut self.cursor, &mut self.alternative_cursor);
        std::mem::swap(&mut self.screen_lines, &mut self.alternative_screen_lines);
    }

    /// Applies the SM parameter at `index`; returns the index of the next one.
    fn exec_sm_property(&mut self, parameters: &[u16], index: usize) -> (r: usize)
        requires
            old(self).wf(),
            index < parameters@.len(),
        ensures
            final(self).wf(),
            final(self)@ == (if parameters@[index as int] == ALTERNATE_BUFFER_MODE
                && !old(self)@.is_alternative {
                swap_buffers(old(self)@)
            } else {
                old(self)@
            }),
            final(self).parser == old(self).parser,
            final(self).id == old(self).id,
            r == index + 1,
    {
        if parameters[index] == ALTERNATE_BUFFER_MODE && !self.state.is_alternative {
            self.swap_buffers();
        }
        index + 1
    }

    /// Applies the RM parameter at `index`; returns the index of the next one.
    fn exec_rm_property(&mut self, parameters: &[u16], index: usize) -> (r: usize)
        requires
            old(self).wf(),
            index < parameters@.len(),
        ensures
            final(self).wf(),
            final(self)@ == (if parameters@[index as int] == ALTERNATE_BUFFER_MODE
                && old(self)@.is_alternative {
                swap_buffers(old(self)@)
            } else {
                old(self)@
            }),
            final(self).parser == old(self).parser,
            final(self).id == old(self).id,
            r == index + 1,
    {
        if parameters[index] == ALTERNATE_BUFFER_MODE && self.state.is_alternative {
            self.swap_buffers();
        }
        index + 1
    }

    /// SM or RM (`set`) over all parameters.
    fn change_modes(&mut self, parameters: &[u16], set: bool)
        requires
            old(self).wf(),
        ensures
            final(self).wf(),
            set ==> final(self)@ == set_mode(old(self)@, parameters@),
            !set ==> final(self)@ == reset_mode(old(self)@, parameters@),
            final(self).parser == old(self).parser,
            final(self).id == old(self).id,
    {
        let ghost s = self@;
        let mut index: usize = 0;
        while index < parameters.len()
            invariant
                self.wf(),
                index <= parameters@.len(),
                self.parser == old(self).parser,
                self.id == old(self).id,
                set ==> self@ == set_mode(s, parameters@.take(index as int)),
                !set ==> self@ == reset_mode(s, parameters@.take(index as int)),
            decreases parameters@.len() - index,
        {
            let ghost before = parameters@.take(index as int);
            let ghost after = parameters@.take(index + 1);
            proof {
                assert(after =~= before.push(parameters@[index as int]));
                if before.contains(ALTERNATE_BUFFER_MODE) {
                    let w = choose|w: int| 0 <= w < before.len() && before[w] == ALTERNATE_BUFFER_MODE;
                    assert(after[w] == ALTERNATE_BUFFER_MODE);
                }
                if parameters@[index as int] == ALTERNATE_BUFFER_MODE {
                    assert(after[index as int] == ALTERNATE_BUFFER_MODE);
                }
                if after.contains(ALTERNATE_BUFFER_MODE) {
                    let w = choose|w: int| 0 <= w < after.len() && after[w] == ALTERNATE_BUFFER_MODE;
                    if w < index {
                        assert(before[w] == ALTERNATE_BUFFER_MODE);
                    }
                }
            }
            index = if set {
                self.exec_sm_property(parameters, index)
            } else {
                self.exec_rm_property(parameters, index)
            };
        }
        assert(parameters@.take(index as int) =~= parameters@);
    }

    /// Applies a control function.
    pub fn handle_control_sequence(&mut self, control: ControlType)
        requires
            old(self).wf(),
        ensures
            final(self).wf(),
            final(self)@ == apply_control(old(self)@, control@),
            final(self).parser == old(self).parser,
            final(self).id == old(self).id,
    {
        let x = self.cursor.position.x;
        let y = self.cursor.position.y;
        let rows = self.line_cell_height;
        let cols = self.line_cell_width;
        match control {
            ControlType::CursorUp(value) => {
                let value = value as usize;
                self.move_to(x, if value < y { y - value } else { 1 });
            },
            ControlType::CursorDown(value) => {
                let value = value as usize;
                self.move_to(x, if value > rows - y { rows } else { y + value });
            },
            ControlType::CursorRight(value) => {
                let value = value as usize;
                self.move_to(if value > cols - x { cols } else { x + value }, y);
            },
            ControlType::CursorLeft(value) => {
                let value = value as usize;
                self.move_to(if value < x { x - value } else { 1 }, y);
            },
            ControlType::CursorNextLine(value) => {
                let value = value as usize;
                self.move_to(1, if value > rows - y { rows } else { y + value });
            },
            ControlType::CursorPrecedingLine(value) => {
                let value = value as usize;
                self.move_to(1, if value < y { y - value } else { 1 });
            },
            ControlType::CursorCharacterAbsolute(value) => {
                let value = value as usize;
                let column = if value == 0 {
                    1
                } else if value > cols {
                    cols
                } else {
                    value
                };
                self.move_to(column, y);
            },
            ControlType::CursorPosition(row, column) => {
                let row = row as usize;
                let column = column as usize;
                let column = if column == 0 {
                    1
                } else if column > cols {
                    cols
                } else {
                    column
                };
                let row = if row == 0 {
                    1
                } else if row > rows {
                    rows
                } else {
                    row
                };
                self.move_to(column, row);
            },
            ControlType::EraseInPage(mode) => {
                self.erase_in_page(mode);
            },
            ControlType::DeleteLine(n) => {
                self.delete_lines(n);
            },
            ControlType::SetMode(parameters) => {
                self.change_modes(parameters.as_slice(), true);
            },
            ControlType::ResetMode(parameters) => {
                self.change_modes(parameters.as_slice(), false);
            },
            ControlType::SelectGraphicRendition(parameters) => {
                let mut properties = self.cursor.properties;
                apply_sgr(&mut properties, parameters.as_slice());
                self.cursor.properties = properties;
            },
            ControlType::SaveCursor => {
                self.cursor.save();
            },
            ControlType::RestoreCursor => {
                self.cursor.restore();
            },
            ControlType::Unknown => {},
        }
    }

    /// Applies what the recognizer produced for one byte.
    fn apply_input(&mut self, input: TerminalInput)
        requires
            old(self).wf(),
        ensures
            final(self).wf(),
            final(self)@ == apply_input(old(self)@, input@),
            final(self).parser == old(self).parser,
            final(self).id == old(self).id,
    {
        match input {
            TerminalInput::Continue => {},
            TerminalInput::Char(c) => self.push_char(c),
            TerminalInput::SyncChar(a, c) => {
                self.push_char(a);
                self.push_char(c);
            },
            TerminalInput::Control(ctl) => self.apply_control_function(&ctl),
            TerminalInput::SyncControl(a, ctl) => {
                self.push_char(a);
                self.apply_control_function(&ctl);
            },
        }
    }

    fn apply_control_function(&mut self, ctl: &crate::recognizer::ControlFunction)
        requires
            old(self).wf(),
        ensures
            final(self).wf(),
            final(self)@ == control_effect(old(self)@, ctl@),
            final(self).parser == old(self).parser,
            final(self).id == old(self).id,
    {
        let start = ctl.start();
        if is_special_byte(start) {
            self.handle_special_byte(start);
        } else {
            let control = interpret_control_function(ctl);
            self.handle_control_sequence(control);
        }
    }

    /// Feeds bytes through the recognizer and applies what comes out.
    pub fn add_to_buffer(&mut self, data: &[u8])
        requires
            old(self).wf(),
        ensures
            final(self).wf(),
            (final(self)@, final(self).parser@) == screen_feed(old(self)@, old(self).parser@, data@),
            final(self).id == old(self).id,
    {
        let mut i: usize = 0;
        while i < data.len()
            invariant
                self.wf(),
                i <= data@.len(),
                self.id == old(self).id,
                (self@, self.parser@) == screen_feed(
                    old(self)@,
                    old(self).parser@,
                    data@.subrange(0, i as int),
                ),
            decreases data@.len() - i,
        {
            let ghost prefix = data@.subrange(0, i as int);
            let input = self.parser.parse_byte(data[i]);
            self.apply_input(input);
            i += 1;
            assert(data@.subrange(0, i as int).drop_last() =~= prefix);
        }
        assert(data@.subrange(0, i as int) =~= data@);
    }

    /// Lines `start` to `end` (excluded) of the grid, newest first, with the cursor
    /// flagged.
    pub fn snapshot(&self, start: usize, end: usize) -> (r: Vec<DisplayCellLine>)
        requires
            self.wf(),
        ensures
            display_lines(r@) == snapshot(self@, start as int, end as int),
    {
        let rows = self.line_cell_height;
        let stop = if end > rows {
            rows
        } else {
            end
        };
        let mut out: Vec<DisplayCellLine> = Vec::new();
        if start >= stop {
            assert(display_lines(out@) =~= snapshot(self@, start as int, end as int));
            return out;
        }
        let ghost s = self@;
        let mut k: usize = 0;
        while k < stop - start
            invariant
                self.wf(),
                s == self@,
                start < stop <= rows,
                rows == self.line_cell_height,
                stop == (if end > rows {
                    rows
                } else {
                    end
                }),
                k <= stop - start,
                display_lines(out@) == snapshot(s, start as int, end as int).take(k as int),
            decreases stop - start - k,
        {
            let i = rows - 1 - (start + k);
            let cursor_col: usize = if i == self.cursor.position.y - 1 {
                self.cursor.position.x - 1
            } else {
                self.line_cell_width
            };
            let line = &self.screen_lines[i];
            assert(grid(self.screen_lines@)[i as int] == line.cells@);
            let mut cells: Vec<DisplayCell> = Vec::new();
            let mut j: usize = 0;
            while j < line.cells.len()
                invariant
                    j <= line.cells@.len(),
                    line.cells@.len() == self.line_cell_width,
                    cursor_col <= self.line_cell_width,
                    cells@ == display_line(line.cells@, cursor_col as int).take(j as int),
                decreases line.cells@.len() - j,
            {
                cells.push(DisplayCell { cell: line.cells[j], is_cursor: j == cursor_col });
                j += 1;
                assert(cells@ =~= display_line(line.cells@, cursor_col as int).take(j as int));
            }
            assert(cells@ =~= display_line(line.cells@, cursor_col as int));
            assert(display_line(line.cells@, cursor_col as int) =~= display_line(
                line.cells@,
                if i == s.cursor.position.y - 1 {
                    s.cursor.position.x - 1
                } else {
                    -1
                },
            ));
            assert(snapshot(s, start as int, end as int).len() == stop - start);
            assert(snapshot(s, start as int, end as int)[k as int] == display_line(
                s.lines[i as int],
                if i == s.cursor.position.y - 1 {
                    s.cursor.position.x - 1
                } else {
                    -1
                },
            ));
            let ghost before = display_lines(out@);
            out.push(DisplayCellLine { cells });
            assert(display_lines(out@) =~= before.push(cells@));
            k += 1;
            assert(display_lines(out@) =~= snapshot(s, start as int, end as int).take(k as int));
        }
        assert(snapshot(s, start as int, end as int).take(k as int) =~= snapshot(
            s,
            start as int,
            end as int,
        ));
        out
    }

    /// Changes the dimensions to `rows` by `cols`.
    pub fn resize(&mut self, rows: usize, cols: usize)
        requires
            old(self).wf(),
            rows >= 1,
            cols >= 1,
        ensures
            final(self).wf(),
            final(self)@ == resize(old(self)@, rows as nat, cols as nat),
            final(self).parser == old(self).parser,
            final(self).id == old(self).id,
    {
        let ghost s = self@;
        let lines = resize_lines(&self.screen_lines, rows, cols);
        let alt_lines = resize_lines(&self.alternative_screen_lines, rows, cols);
        self.screen_lines = lines;
        self.alternative_screen_lines = alt_lines;
        self.cursor = resize_cursor(self.cursor, rows, cols);
        self.alternative_cursor = resize_cursor(self.alternative_cursor, rows, cols);
        self.line_cell_height = rows;
        self.line_cell_width = cols;
        proof {
            lemma_resized_grid_ok(s.lines, s.rows, s.cols, rows as nat, cols as nat);
            lemma_resized_grid_ok(s.alt_lines, s.rows, s.cols, rows as nat, cols as nat);
        }
    }

    /// Resets the properties of new cells.
    pub fn reset_graphics(&mut self)
        ensures
            *final(self) == (Screen {
                cursor: Cursor { properties: default_properties(), ..old(self).cursor },
                ..*old(self)
            }),
    {
        self.cursor.properties = CellProperties::new();
    }

    /// Foreground from the ANSI colours.
    pub fn simple_color_foreground(&mut self, color: u8)
        requires
            color < 16,
        ensures
            *final(self) == (Screen {
                cursor: Cursor {
                    properties: CellProperties { fg: ansi_color(color), ..old(self).cursor.properties },
                    ..old(self).cursor
                },
                ..*old(self)
            }),
    {
        self.cursor.properties.fg = get_simple_color(color);
    }

    /// Background from the ANSI colours.
    pub fn simple_color_background(&mut self, color: u8)
        requires
            color < 16,
        ensures
            *final(self) == (Screen {
                cursor: Cursor {
                    properties: CellProperties {
                        bg: Some(ansi_color(color)),
                        ..old(self).cursor.properties
                    },
                    ..old(self).cursor
                },
                ..*old(self)
            }),
    {
        self.cursor.properties.bg = Some(get_simple_color(color));
    }

    /// Default foreground.
    pub fn default_color_foreground(&mut self)
        ensures
            *final(self) == (Screen {
                cursor: Cursor {
                    properties: CellProperties {
                        fg: default_properties().fg,
                        ..old(self).cursor.properties
                    },
                    ..old(self).cursor
                },
                ..*old(self)
            }),
    {
        self.cursor.properties.fg = CellProperties::new().fg;
    }

    /// Default background: none.
    pub fn default_color_background(&mut self)
        ensures
            *final(self) == (Screen {
                cursor: Cursor {
                    properties: CellProperties { bg: None, ..old(self).cursor.properties },
                    ..old(self).cursor
                },
                ..*old(self)
            }),
    {
        self.cursor.properties.bg = None;
    }

    /// Foreground from the colour cube.
    pub fn cube_color_foreground(&mut self, color: u8)
        requires
            color < 216,
        ensures
            *final(self) == (Screen {
                cursor: Cursor {
                    properties: CellProperties { fg: cube_color(color), ..old(self).cursor.properties },
                    ..old(self).cursor
                },
                ..*old(self)
            }),
    {
        self.cursor.properties.fg = get_color_cube(color);
    }

    /// Background from the colour cube.
    pub fn cube_color_background(&mut self, color: u8)
        requires
            color < 216,
        ensures
            *final(self) == (Screen {
                cursor: Cursor {
                    properties: CellProperties {
                        bg: Some(cube_color(color)),
                        ..old(self).cursor.properties
                    },
                    ..old(self).cursor
                },
                ..*old(self)
            }),
    {
        self.cursor.properties.bg = Some(get_color_cube(color));
    }

    /// Foreground from the grayscale ramp.
    pub fn grayscale_color_foreground(&mut self, color: u8)
        requires
            color < 24,
        ensures
            *final(self) == (Screen {
                cursor: Cursor {
                    properties: CellProperties {
                        fg: grayscale_color(color),
                        ..old(self).cursor.properties
                    },
                    ..old(self).cursor
                },
                ..*old(self)
            }),
    {
        self.cursor.properties.fg = get_grayscale_color(color);
    }

    /// Background from the grayscale ramp.
    pub fn grayscale_color_background(&mut self, color: u8)
        requires
            color < 24,
        ensures
            *final(self) == (Screen {
                cursor: Cursor {
                    properties: CellProperties {
                        bg: Some(grayscale_color(color)),
                        ..old(self).cursor.properties
                    },
                    ..old(self).cursor
                },
                ..*old(self)
            }),
    {
        self.cursor.properties.bg = Some(get_grayscale_color(color));
    }

    /// 24-bit foreground.
    pub fn true_color_foreground(&mut self, r: u8, g: u8, b: u8)
        ensures
            *final(self) == (Screen {
                cursor: Cursor {
                    properties: CellProperties { fg: Color(r, g, b, 255), ..old(self).cursor.properties },
                    ..old(self).cursor
                },
                ..*old(self)
            }),
    {
        self.cursor.properties.fg = Color::from_rgb(r, g, b);
    }

    /// 24-bit background.
    pub fn true_color_background(&mut self, r: u8, g: u8, b: u8)
        ensures
            *final(self) == (Screen {
                cursor: Cursor {
                    properties: CellProperties {
                        bg: Some(Color(r, g, b, 255)),
                        ..old(self).cursor.properties
                    },
                    ..old(self).cursor
                },
                ..*old(self)
            }),
    {
        self.cursor.properties.bg = Some(Color::from_rgb(r, g, b));
    }
}

/// A request from the screen to its host.
#[derive(Clone, Debug)]
pub struct ScreenEvent {
    pub terminal_id: usize,
    pub event: ScreenEventType,
}

#[derive(Clone, Debug)]
pub enum ScreenEventType {
    PlayYoutubeVideo(String),
}

/// A screen together with a flag that records whether it changed since the last
/// snapshot.
pub struct PtyBuffer {
    pub screen: Screen,
    pub updated: bool,
}

impl PtyBuffer {
    pub open spec fn wf(&self) -> bool {
        self.screen.wf()
    }

    pub fn new(rows: usize, cols: usize, id: usize) -> (r: PtyBuffer)
        requires
            rows >= 1,
            cols >= 1,
        ensures
            r.wf(),
            r.screen@ == initial_screen(rows as nat, cols as nat),
            r.screen.parser@ == crate::recognizer::initial_parser(),
            r.screen.id == id,
            !r.updated,
    {
        PtyBuffer { screen: Screen::empty(rows, cols, id), updated: false }
    }

    /// Feeds bytes read from the terminal.
    pub fn add_input(&mut self, input: Vec<u8>)
        requires
            old(self).wf(),
        ensures
            final(self).wf(),
            (final(self).screen@, final(self).screen.parser@) == screen_feed(
                old(self).screen@,
                old(self).screen.parser@,
                input@,
            ),
            final(self).screen.id == old(self).screen.id,
            final(self).updated,
    {
        self.updated = true;
        self.screen.add_to_buffer(input.as_slice());
    }

    pub fn is_updated(&self) -> (r: bool)
        ensures
            r == self.updated,
    {
        self.updated
    }

    /// Lines `start` to `end` (excluded) of the screen, newest first. Taking a snapshot
    /// changes nothing but the flag.
    pub fn get_range(&mut self, start: usize, end: usize) -> (r: Vec<DisplayCellLine>)
        requires
            old(self).wf(),
            start <= end,
        ensures
            final(self).wf(),
            display_lines(r@) == snapshot(old(self).screen@, start as int, end as int),
            final(self).screen == old(self).screen,
            !final(self).updated,
    {
        self.updated = false;
        self.screen.snapshot(start, end)
    }

    /// Records that the display size changed.
    pub fn dimensions_updated(&mut self)
        ensures
            final(self).screen == old(self).screen,
            final(self).updated,
    {
        self.updated = true;
    }
}

} // verus!
