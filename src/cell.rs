//! Cells, colours and the cursor of the screen model.
use vstd::prelude::*;
use vstd::string::StringSliceAdditionalSpecFns;
use crate::unicode::{
    idle_parser, utf8_parser_step, Utf8ParseResult, Utf8Parser, Utf8ParserError, Utf8ParserView,
};

verus! {

/// A cursor position; one-based, counted from the top left.
#[derive(Copy, Clone, Debug, PartialEq, Eq, Structural)]
pub struct Position {
    pub x: usize,
    pub y: usize,
}

impl Position {
    pub fn new() -> (r: Self)
        ensures
            r == (Position { x: 1, y: 1 }),
    {
        Position { x: 1, y: 1 }
    }
}

/// Red, green, blue and alpha.
#[derive(Copy, Clone, Debug, PartialEq, Eq, Structural)]
pub struct Color(pub u8, pub u8, pub u8, pub u8);

/// The default foreground colour: opaque white.
pub open spec fn default_fg() -> Color {
    Color(255, 255, 255, 255)
}

impl Color {
    pub fn from_rgb(r: u8, g: u8, b: u8) -> (c: Self)
        ensures
            c == Color(r, g, b, 255),
    {
        Color(r, g, b, 255)
    }
}

/// Properties given to newly written cells.
#[derive(Copy, Clone, Debug, PartialEq, Eq, Structural)]
pub struct CellProperties {
    pub fg: Color,
    pub bg: Option<Color>,
}

/// The default properties: default foreground, no background.
pub open spec fn default_properties() -> CellProperties {
    CellProperties { fg: default_fg(), bg: None }
}

impl CellProperties {
    pub fn new() -> (r: Self)
        ensures
            r == default_properties(),
    {
        CellProperties { fg: Color(255, 255, 255, 255), bg: None }
    }
}

/// The writing cursor: where the next cell goes, a saved position, and the properties
/// of new cells.
#[derive(Copy, Clone, Debug)]
pub struct Cursor {
    pub position: Position,
    pub saved: Option<Position>,
    pub properties: CellProperties,
}

/// The cursor of a fresh screen.
pub open spec fn initial_cursor() -> Cursor {
    Cursor { position: Position { x: 1, y: 1 }, saved: None, properties: default_properties() }
}

impl Cursor {
    pub fn new() -> (r: Self)
        ensures
            r == initial_cursor(),
    {
        Cursor { position: Position::new(), saved: None, properties: CellProperties::new() }
    }

    /// Remembers the current position.
    pub fn save(&mut self)
        ensures
            *final(self) == (Cursor { saved: Some(old(self).position), ..*old(self) }),
    {
        self.saved = Some(self.position);
    }

    /// Goes back to the remembered position, if there is one.
    pub fn restore(&mut self)
        ensures
            *final(self) == (match old(self).saved {
                Some(p) => Cursor { position: p, ..*old(self) },
                None => *old(self),
            }),
    {
        if let Some(position) = self.saved {
            self.position = position;
        }
    }
}

/// A group of bytes to be rendered together.
#[derive(Debug, Clone)]
pub struct CharacterGroup {
    pub characters: Vec<u8>,
}

impl CharacterGroup {
    pub fn with_capacity(capacity: usize) -> (r: CharacterGroup)
        ensures
            r.characters@.len() == 0,
    {
        CharacterGroup { characters: Vec::with_capacity(capacity) }
    }

    /// The group of the bytes of `content`.
    pub fn from_string(content: &str) -> (r: CharacterGroup)
        ensures
            r.characters@ == content.spec_bytes(),
    {
        let bytes = content.as_bytes();
        let mut characters: Vec<u8> = Vec::new();
        let mut i: usize = 0;
        while i < bytes.len()
            invariant
                i <= bytes@.len(),
                bytes@ == content.spec_bytes(),
                characters@ == bytes@.subrange(0, i as int),
            decreases bytes@.len() - i,
        {
            characters.push(bytes[i]);
            i += 1;
            assert(characters@ =~= bytes@.subrange(0, i as int));
        }
        assert(bytes@.subrange(0, i as int) =~= bytes@);
        CharacterGroup { characters }
    }
}

/// What a cell holds.
#[derive(Copy, Clone, Debug)]
pub enum CellState {
    Empty,
    /// Part of a UTF-8 sequence has been written into the cell.
    Filling(Utf8Parser),
    Filled(char),
    Invalid,
}

/// The cell state that a parser result gives, from the parser as it was after the byte.
pub open spec fn state_from_result(parser: Utf8Parser, r: Utf8ParseResult) -> CellState {
    match r {
        Ok(Some(c)) => CellState::Filled(c),
        Ok(None) => CellState::Filling(parser),
        Err(_) => CellState::Invalid,
    }
}

/// [`CellState`] with the pending parser seen through its model.
pub enum CellView {
    Empty,
    Filling(Utf8ParserView),
    Filled(char),
    Invalid,
}

impl View for CellState {
    type V = CellView;

    open spec fn view(&self) -> CellView {
        match self {
            CellState::Empty => CellView::Empty,
            CellState::Filling(p) => CellView::Filling(p@),
            CellState::Filled(c) => CellView::Filled(*c),
            CellState::Invalid => CellView::Invalid,
        }
    }
}

/// Feeds a byte to the cell parser in state `p`; a byte that breaks the pending
/// sequence is fed once more to the reset parser, so that it may start a new one.
pub open spec fn cell_step(p: Utf8ParserView, byte: u8) -> CellView {
    let (q1, r1) = utf8_parser_step(p, byte);
    let (q, r) = if r1 == Err::<Option<char>, Utf8ParserError>(
        Utf8ParserError::InvalidContinuationByte,
    ) {
        utf8_parser_step(q1, byte)
    } else {
        (q1, r1)
    };
    match r {
        Ok(Some(c)) => CellView::Filled(c),
        Ok(None) => CellView::Filling(q),
        Err(_) => CellView::Invalid,
    }
}

/// The state of a cell after a byte is written into it: a filling cell continues its
/// sequence, any other cell starts a new one.
pub open spec fn cell_next_state(state: CellView, byte: u8) -> CellView {
    match state {
        CellView::Filling(p) => cell_step(p, byte),
        _ => cell_step(idle_parser(), byte),
    }
}

impl CellState {
    /// Whether a pending parser is well formed.
    pub open spec fn wf(&self) -> bool {
        match self {
            CellState::Filling(p) => p.wf(),
            _ => true,
        }
    }

    /// Whether writing completed the cell, so that the cursor moves on.
    pub open spec fn is_done(&self) -> bool {
        self is Filled || self is Invalid
    }

    fn get_start(first_byte: u8) -> (r: Self)
        ensures
            r.wf(),
            r@ == cell_step(idle_parser(), first_byte),
    {
        let parser = Utf8Parser::new();
        Self::get_cell_from_parser_and_byte(parser, first_byte)
    }

    fn get_cell_from_parser_and_byte(parser: Utf8Parser, byte: u8) -> (r: CellState)
        requires
            parser.wf(),
        ensures
            r.wf(),
            r@ == cell_step(parser@, byte),
    {
        let mut parser = parser;
        match parser.parse_byte(byte) {
            Ok(Some(c)) => CellState::Filled(c),
            Ok(None) => CellState::Filling(parser),
            Err(Utf8ParserError::InvalidContinuationByte) => {
                match parser.parse_byte(byte) {
                    Ok(Some(c)) => CellState::Filled(c),
                    Ok(None) => CellState::Filling(parser),
                    Err(_) => CellState::Invalid,
                }
            },
            Err(_) => CellState::Invalid,
        }
    }

    /// The state after `new_byte` is written into the cell.
    pub fn next_state(&self, new_byte: u8) -> (r: CellState)
        requires
            self.wf(),
        ensures
            r.wf(),
            r@ == cell_next_state(self@, new_byte),
    {
        match self {
            CellState::Filling(parser) => Self::get_cell_from_parser_and_byte(*parser, new_byte),
            _ => CellState::get_start(new_byte),
        }
    }
}

/// A character cell.
#[derive(Copy, Clone, Debug)]
pub struct Cell {
    pub state: CellState,
    pub properties: CellProperties,
}

impl Cell {
    pub fn empty(properties: CellProperties) -> (r: Self)
        ensures
            r == (Cell { state: CellState::Empty, properties }),
    {
        Cell { properties, state: CellState::Empty }
    }
}

/// An empty cell with default properties.
pub open spec fn blank_cell() -> Cell {
    Cell { state: CellState::Empty, properties: default_properties() }
}

/// A line of `width` empty cells with default properties.
pub open spec fn blank_line(width: nat) -> Seq<Cell> {
    Seq::new(width, |i: int| blank_cell())
}

/// A line of cells.
#[derive(Clone, Debug)]
pub struct CellLine {
    pub cells: Vec<Cell>,
}

impl CellLine {
    pub fn new(width: usize, properties: CellProperties) -> (r: Self)
        ensures
            r.cells@ == Seq::new(width as nat, |i: int| Cell { state: CellState::Empty, properties }),
    {
        let mut cells: Vec<Cell> = Vec::new();
        let mut i: usize = 0;
        while i < width
            invariant
                i <= width,
                cells@ == Seq::new(i as nat, |k: int| Cell { state: CellState::Empty, properties }),
            decreases width - i,
        {
            cells.push(Cell::empty(properties));
            i += 1;
            assert(cells@ =~= Seq::new(i as nat, |k: int| Cell { state: CellState::Empty, properties }));
        }
        CellLine { cells }
    }

    /// A line of empty cells with default properties.
    pub fn blank(width: usize) -> (r: Self)
        ensures
            r.cells@ == blank_line(width as nat),
    {
        let r = CellLine::new(width, CellProperties::new());
        assert(r.cells@ =~= blank_line(width as nat));
        r
    }
}

} // verus!
