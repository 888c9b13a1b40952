//! Table-driven recognizer that turns a byte stream into characters and control functions.
use vstd::prelude::*;
use vstd::utf8::*;
use crate::utf8::{decode_step, DecodeState, UTF8Decoder};

verus! {

/// Byte classes of the range 0x00..0x7F; `PAD` is the extra column used to poison a state.
pub const C0: u8 = 0;
pub const C0S: u8 = 1;
pub const ESC: u8 = 2;
pub const INT: u8 = 3;
pub const PAR: u8 = 4;
pub const SEP: u8 = 5;
pub const PRI: u8 = 6;
pub const C1: u8 = 7;
pub const CSO: u8 = 8;
pub const SOS: u8 = 9;
pub const SCI: u8 = 10;
pub const CSI: u8 = 11;
pub const ST: u8 = 12;
pub const ICF: u8 = 13;
pub const DEL: u8 = 14;
pub const PAD: u8 = 15;

/// The replacement character.
pub const REPLACEMENT: char = '\u{FFFD}';

/// Class of each byte below 0x80.
const CLASS_TABLE: [u8; 128] = [
    C0, C0, C0, C0, C0, C0, C0, C0, C0S, C0S, C0S, C0S, C0S, C0S, C0, C0,
    C0, C0, C0, C0, C0, C0, C0, C0, C0, C0, C0, ESC, C0, C0, C0, C0,
    INT, INT, INT, INT, INT, INT, INT, INT, INT, INT, INT, INT, INT, INT, INT, INT,
    PAR, PAR, PAR, PAR, PAR, PAR, PAR, PAR, PAR, PAR, SEP, SEP, PRI, PRI, PRI, PRI,
    C1, C1, C1, C1, C1, C1, C1, C1, C1, C1, C1, C1, C1, C1, C1, C1,
    CSO, C1, C1, C1, C1, C1, C1, C1, SOS, C1, SCI, CSI, ST, CSO, CSO, CSO,
    ICF, ICF, ICF, ICF, ICF, ICF, ICF, ICF, ICF, ICF, ICF, ICF, ICF, ICF, ICF, ICF,
    ICF, ICF, ICF, ICF, ICF, ICF, ICF, ICF, ICF, ICF, ICF, ICF, ICF, ICF, ICF, DEL,
];

/// Transition matrix: row `16 * state + class`. Each entry packs the next base
/// state in its high nibble and the action to perform in its low nibble.
pub const STATE_TABLE: [u8; 224] = [
    // Ground
    0x02, 0x02, 0x13, 0x01, 0x01, 0x01, 0x01, 0x01, 0x01, 0x01, 0x01, 0x01, 0x01, 0x01, 0x00, 0x00,
    // Escape
    0x02, 0x02, 0x13, 0x25, 0x04, 0x04, 0x04, 0x02, 0x43, 0x63, 0x93, 0xA3, 0x02, 0x04, 0x00, 0x00,
    // ControlFunction
    0x30, 0x30, 0x30, 0x25, 0x04, 0x04, 0x04, 0x04, 0x04, 0x04, 0x04, 0x04, 0x04, 0x04, 0x00, 0x30,
    // ControlFunctionError
    0x30, 0x30, 0x30, 0x30, 0x00, 0x00, 0x00, 0x00, 0x00, 0x00, 0x00, 0x00, 0x00, 0x00, 0x30, 0x30,
    // CommandString
    0x80, 0x45, 0x50, 0x45, 0x45, 0x45, 0x45, 0x45, 0x45, 0x45, 0x45, 0x45, 0x45, 0x45, 0x80, 0x80,
    // CommandStringEscape
    0x80, 0x80, 0x80, 0x80, 0x80, 0x80, 0x80, 0x80, 0x80, 0x80, 0x80, 0x80, 0x04, 0x80, 0x80, 0x80,
    // CharacterString
    0x65, 0x65, 0x70, 0x65, 0x65, 0x65, 0x65, 0x65, 0x65, 0x65, 0x65, 0x65, 0x65, 0x65, 0x65, 0x80,
    // CharacterStringEscape
    0x66, 0x66, 0x66, 0x66, 0x66, 0x66, 0x66, 0x66, 0x66, 0x80, 0x66, 0x66, 0x04, 0x66, 0x66, 0x80,
    // ControlStringError
    0x80, 0x80, 0x80, 0x80, 0x80, 0x80, 0x80, 0x80, 0x80, 0x80, 0x80, 0x80, 0x00, 0x80, 0x80, 0x80,
    // SingleCharacter
    0x00, 0x04, 0x00, 0x04, 0x04, 0x04, 0x04, 0x04, 0x04, 0x04, 0x04, 0x04, 0x04, 0x04, 0x00, 0x00,
    // ControlSequence
    0xD0, 0xD0, 0xD0, 0xC5, 0xB8, 0xA9, 0xA7, 0x0B, 0x0B, 0x0B, 0x0B, 0x0B, 0x0B, 0x0B, 0xD0, 0xD0,
    // ControlSequenceParameter
    0xD0, 0xD0, 0xD0, 0xCA, 0xB8, 0xA9, 0xD0, 0x0B, 0x0B, 0x0B, 0x0B, 0x0B, 0x0B, 0x0B, 0xD0, 0xD0,
    // ControlSequenceIntermediate
    0xD0, 0xD0, 0xD0, 0xC5, 0xD0, 0xD0, 0xD0, 0x0B, 0x0B, 0x0B, 0x0B, 0x0B, 0x0B, 0x0B, 0xD0, 0xD0,
    // ControlSequenceError
    0xD0, 0xD0, 0xD0, 0xD0, 0xD0, 0xD0, 0xD0, 0x00, 0x00, 0x00, 0x00, 0x00, 0x00, 0x00, 0xD0, 0xD0,
];

/// Class of a byte below 0x80.
pub open spec fn class_of(b: u8) -> u8 {
    if b == 0x1B {
        ESC
    } else if 0x08 <= b <= 0x0D {
        C0S
    } else if b < 0x20 {
        C0
    } else if b < 0x30 {
        INT
    } else if b < 0x3A {
        PAR
    } else if b < 0x3C {
        SEP
    } else if b < 0x40 {
        PRI
    } else if b == 0x50 || 0x5D <= b <= 0x5F {
        CSO
    } else if b == 0x58 {
        SOS
    } else if b == 0x5A {
        SCI
    } else if b == 0x5B {
        CSI
    } else if b == 0x5C {
        ST
    } else if b < 0x60 {
        C1
    } else if b < 0x7F {
        ICF
    } else {
        DEL
    }
}

/// Base states of the recognizer.
#[derive(Copy, Clone, Eq, PartialEq, Debug, Structural)]
pub enum State {
    Ground,
    Escape,
    ControlFunction,
    ControlFunctionError,
    CommandString,
    CommandStringEscape,
    CharacterString,
    CharacterStringEscape,
    ControlStringError,
    SingleCharacter,
    ControlSequence,
    ControlSequenceParameter,
    ControlSequenceIntermediate,
    ControlSequenceError,
}

/// What the recognizer does on a transition.
#[derive(Copy, Clone, Eq, PartialEq, Debug, Structural)]
pub enum Action {
    /// Nothing is emitted.
    Continue,
    /// The byte is a printable character.
    Char,
    /// Emits a one-byte control function: `start` is the byte, nothing else is collected.
    C01Control,
    /// Sets `start` and clears what the previous function collected.
    StartSequence,
    /// Sets `end`; emits the control function.
    FinishSequence,
    /// Appends the byte to the payload.
    PushByte,
    /// Appends ESC, then the byte, to the payload.
    PushByteWithEscape,
    /// Marks the control sequence as private.
    SetPrivate,
    /// Appends a decimal digit to the parameter being read.
    AddParamValue,
    /// Commits the parameter being read.
    PushParam,
    /// Commits the parameter being read, then appends the byte to the payload.
    PushParamAndByte,
    /// Commits the parameter being read, sets `end` and emits the control function.
    PushParamAndEndSequence,
}

/// Row index of a base state in the transition matrix.
pub open spec fn state_index(s: State) -> u8 {
    match s {
        State::Ground => 0,
        State::Escape => 1,
        State::ControlFunction => 2,
        State::ControlFunctionError => 3,
        State::CommandString => 4,
        State::CommandStringEscape => 5,
        State::CharacterString => 6,
        State::CharacterStringEscape => 7,
        State::ControlStringError => 8,
        State::SingleCharacter => 9,
        State::ControlSequence => 10,
        State::ControlSequenceParameter => 11,
        State::ControlSequenceIntermediate => 12,
        State::ControlSequenceError => 13,
    }
}

/// Base state with the given row index.
pub open spec fn state_at(i: u8) -> State {
    if i == 0 {
        State::Ground
    } else if i == 1 {
        State::Escape
    } else if i == 2 {
        State::ControlFunction
    } else if i == 3 {
        State::ControlFunctionError
    } else if i == 4 {
        State::CommandString
    } else if i == 5 {
        State::CommandStringEscape
    } else if i == 6 {
        State::CharacterString
    } else if i == 7 {
        State::CharacterStringEscape
    } else if i == 8 {
        State::ControlStringError
    } else if i == 9 {
        State::SingleCharacter
    } else if i == 10 {
        State::ControlSequence
    } else if i == 11 {
        State::ControlSequenceParameter
    } else if i == 12 {
        State::ControlSequenceIntermediate
    } else {
        State::ControlSequenceError
    }
}

/// Action with the given code.
pub open spec fn action_at(i: u8) -> Action {
    if i == 0 {
        Action::Continue
    } else if i == 1 {
        Action::Char
    } else if i == 2 {
        Action::C01Control
    } else if i == 3 {
        Action::StartSequence
    } else if i == 4 {
        Action::FinishSequence
    } else if i == 5 {
        Action::PushByte
    } else if i == 6 {
        Action::PushByteWithEscape
    } else if i == 7 {
        Action::SetPrivate
    } else if i == 8 {
        Action::AddParamValue
    } else if i == 9 {
        Action::PushParam
    } else if i == 10 {
        Action::PushParamAndByte
    } else {
        Action::PushParamAndEndSequence
    }
}

/// Packed entry of the transition matrix for a state and a class.
pub open spec fn table_entry(s: State, class: u8) -> u8
    recommends
        class <= PAD,
{
    STATE_TABLE[16 * state_index(s) + class]
}

/// Next base state and action for a state and a class.
pub open spec fn transition(s: State, class: u8) -> (State, Action) {
    let e = table_entry(s, class);
    (state_at(e / 16), action_at(e % 16))
}

/// The error sibling of a state: where it goes when a byte from 0x80 up arrives.
pub open spec fn poisoned(s: State) -> State {
    transition(s, PAD).0
}

fn state_from_index(i: u8) -> (r: State)
    ensures
        r == state_at(i),
{
    match i {
        0 => State::Ground,
        1 => State::Escape,
        2 => State::ControlFunction,
        3 => State::ControlFunctionError,
        4 => State::CommandString,
        5 => State::CommandStringEscape,
        6 => State::CharacterString,
        7 => State::CharacterStringEscape,
        8 => State::ControlStringError,
        9 => State::SingleCharacter,
        10 => State::ControlSequence,
        11 => State::ControlSequenceParameter,
        12 => State::ControlSequenceIntermediate,
        _ => State::ControlSequenceError,
    }
}

fn action_from_code(i: u8) -> (r: Action)
    ensures
        r == action_at(i),
{
    match i {
        0 => Action::Continue,
        1 => Action::Char,
        2 => Action::C01Control,
        3 => Action::StartSequence,
        4 => Action::FinishSequence,
        5 => Action::PushByte,
        6 => Action::PushByteWithEscape,
        7 => Action::SetPrivate,
        8 => Action::AddParamValue,
        9 => Action::PushParam,
        10 => Action::PushParamAndByte,
        _ => Action::PushParamAndEndSequence,
    }
}

impl State {
    /// Row of this state in the transition matrix, times 16.
    fn row(self) -> (r: usize)
        ensures
            r == 16 * state_index(self),
    {
        match self {
            State::Ground => 0x00,
            State::Escape => 0x10,
            State::ControlFunction => 0x20,
            State::ControlFunctionError => 0x30,
            State::CommandString => 0x40,
            State::CommandStringEscape => 0x50,
            State::CharacterString => 0x60,
            State::CharacterStringEscape => 0x70,
            State::ControlStringError => 0x80,
            State::SingleCharacter => 0x90,
            State::ControlSequence => 0xA0,
            State::ControlSequenceParameter => 0xB0,
            State::ControlSequenceIntermediate => 0xC0,
            State::ControlSequenceError => 0xD0,
        }
    }

    /// Looks up the transition for a class and splits the packed entry.
    fn decompose(self, class: u8) -> (r: (State, Action))
        requires
            class <= PAD,
        ensures
            r == transition(self, class),
    {
        let e = STATE_TABLE[self.row() + class as usize];
        proof {
            lemma_nibbles(e);
        }
        (state_from_index(e >> 4u8), action_from_code(e & 0x0Fu8))
    }

    /// Replaces the state by its error sibling.
    fn poison(&mut self)
        ensures
            *final(self) == poisoned(*old(self)),
    {
        *self = self.decompose(PAD).0;
    }
}

proof fn lemma_nibbles(e: u8)
    ensures
        e >> 4u8 == e / 16,
        e & 0x0Fu8 == e % 16,
{
    assert(e >> 4u8 == e / 16 && e & 0x0Fu8 == e % 16) by (bit_vector);
}

/// A control sequence parameter.
#[derive(Copy, Clone, Eq, PartialEq, Debug, Structural)]
pub enum Parameter {
    /// The control function's documented default applies.
    Default,
    /// The parameter has a value.
    Value(u16),
}

/// The parameter after one more decimal digit, and whether that overflowed;
/// on overflow the parameter is left as it was.
pub open spec fn digit_pushed(p: Parameter, d: u16) -> (Parameter, bool) {
    match p {
        Parameter::Default => (Parameter::Value(d), false),
        Parameter::Value(v) => if v * 10 + d <= 0xFFFF {
            (Parameter::Value((v * 10 + d) as u16), false)
        } else {
            (p, true)
        },
    }
}

impl Parameter {
    pub fn new(v: u16) -> (r: Self)
        ensures
            r == Parameter::Value(v),
    {
        Parameter::Value(v)
    }

    /// The value of the parameter if present, otherwise `or`.
    pub fn value_or(&self, or: u16) -> (r: u16)
        ensures
            r == match *self {
                Parameter::Default => or,
                Parameter::Value(v) => v,
            },
    {
        match self {
            Parameter::Default => or,
            Parameter::Value(v) => *v,
        }
    }

    /// Appends the decimal digit `x`: a default parameter becomes `x`, a value becomes
    /// ten times itself plus `x`. Returns whether that would pass 65535, in which case
    /// the parameter is left as it was.
    pub fn add(&mut self, x: u16) -> (overflow: bool)
        requires
            x <= 9,
        ensures
            (*final(self), overflow) == digit_pushed(*old(self), x),
    {
        match self {
            Parameter::Default => {
                *self = Parameter::Value(x);
                false
            },
            Parameter::Value(v) => {
                if *v <= 6553 && *v * 10 <= 0xFFFF - x {
                    *v = *v * 10 + x;
                    false
                } else {
                    true
                }
            },
        }
    }
}

impl Default for Parameter {
    fn default() -> (r: Self)
        ensures
            r == Parameter::Default,
    {
        Parameter::Default
    }
}

/// What a control function in progress has collected.
pub struct ControlView {
    pub start: u8,
    pub private: bool,
    pub params: Seq<Parameter>,
    pub bytes: Seq<u8>,
    pub end: u8,
}

/// A control function, complete or in progress.
#[derive(Debug)]
pub struct ControlFunction {
    /// The byte that introduced the function; for C0 and C1 controls the only one.
    start: u8,
    /// Whether a control sequence carries a private parameter string.
    private: bool,
    /// The parameters of a control sequence.
    params: Vec<Parameter>,
    /// The content of a control string, or else the intermediate bytes.
    bytes: Vec<u8>,
    /// The final byte of the function.
    end: u8,
}

impl View for ControlFunction {
    type V = ControlView;

    closed spec fn view(&self) -> ControlView {
        ControlView {
            start: self.start,
            private: self.private,
            params: self.params@,
            bytes: self.bytes@,
            end: self.end,
        }
    }
}

impl ControlFunction {
    pub fn new() -> (r: Self)
        ensures
            r@ == (ControlView { start: 0, private: false, params: seq![], bytes: seq![], end: 0 }),
    {
        ControlFunction { start: 0, private: false, params: Vec::new(), bytes: Vec::new(), end: 0 }
    }

    pub fn start(&self) -> (r: u8)
        ensures
            r == self@.start,
    {
        self.start
    }

    pub fn is_private(&self) -> (r: bool)
        ensures
            r == self@.private,
    {
        self.private
    }

    pub fn params(&self) -> (r: &[Parameter])
        ensures
            r@ == self@.params,
    {
        self.params.as_slice()
    }

    pub fn bytes(&self) -> (r: &[u8])
        ensures
            r@ == self@.bytes,
    {
        self.bytes.as_slice()
    }

    pub fn end(&self) -> (r: u8)
        ensures
            r == self@.end,
    {
        self.end
    }

    /// An independent copy of the function.
    pub fn duplicate(&self) -> (r: Self)
        ensures
            r@ == self@,
    {
        let mut params: Vec<Parameter> = Vec::new();
        let mut i: usize = 0;
        while i < self.params.len()
            invariant
                i <= self.params@.len(),
                params@ == self.params@.subrange(0, i as int),
            decreases self.params@.len() - i,
        {
            params.push(self.params[i]);
            i += 1;
            assert(params@ =~= self.params@.subrange(0, i as int));
        }
        assert(params@ =~= self.params@);
        let mut bytes: Vec<u8> = Vec::new();
        let mut j: usize = 0;
        while j < self.bytes.len()
            invariant
                j <= self.bytes@.len(),
                bytes@ == self.bytes@.subrange(0, j as int),
            decreases self.bytes@.len() - j,
        {
            bytes.push(self.bytes[j]);
            j += 1;
            assert(bytes@ =~= self.bytes@.subrange(0, j as int));
        }
        assert(bytes@ =~= self.bytes@);
        ControlFunction { start: self.start, private: self.private, params, bytes, end: self.end }
    }
}

/// What one byte of input produced, on the model.
pub enum InputView {
    Continue,
    Char(char),
    SyncChar(char, char),
    Control(ControlView),
    SyncControl(char, ControlView),
}

/// What one byte of input produced.
#[derive(Debug)]
pub enum TerminalInput {
    /// Nothing yet.
    Continue,
    /// A character.
    Char(char),
    /// A replacement character for a broken UTF-8 sequence, then a character.
    SyncChar(char, char),
    /// A complete control function.
    Control(ControlFunction),
    /// A replacement character for a broken UTF-8 sequence, then a control function.
    SyncControl(char, ControlFunction),
}

impl View for TerminalInput {
    type V = InputView;

    open spec fn view(&self) -> InputView {
        match self {
            TerminalInput::Continue => InputView::Continue,
            TerminalInput::Char(c) => InputView::Char(*c),
            TerminalInput::SyncChar(a, b) => InputView::SyncChar(*a, *b),
            TerminalInput::Control(f) => InputView::Control(f@),
            TerminalInput::SyncControl(a, f) => InputView::SyncControl(*a, f@),
        }
    }
}

/// The recognizer's model: base state, the function being collected, the parameter
/// being read, and the bytes pending in the UTF-8 decoder.
pub struct ParserView {
    pub state: State,
    pub ctl: ControlView,
    pub pacc: Parameter,
    pub pending: Seq<u8>,
}

/// The recognizer in its initial state.
pub open spec fn initial_parser() -> ParserView {
    ParserView {
        state: State::Ground,
        ctl: ControlView { start: 0, private: false, params: seq![], bytes: seq![], end: 0 },
        pacc: Parameter::Default,
        pending: seq![],
    }
}

/// One step on a byte below 0x80: look up the transition, move to its base state and
/// perform its action.
pub open spec fn ascii_step(p: ParserView, b: u8) -> (ParserView, InputView) {
    let (base, action) = transition(p.state, class_of(b));
    let q = ParserView { state: base, ..p };
    match action {
        Action::Continue => (q, InputView::Continue),
        Action::Char => (q, InputView::Char(b as char)),
        Action::C01Control => {
            let ctl = ControlView { start: b, private: false, params: seq![], bytes: seq![], end: 0 };
            (ParserView { ctl, ..q }, InputView::Control(ctl))
        },
        Action::StartSequence => {
            let ctl = ControlView {
                start: b,
                private: false,
                params: seq![],
                bytes: seq![],
                ..p.ctl
            };
            (ParserView { ctl, pacc: Parameter::Default, ..q }, InputView::Continue)
        },
        Action::FinishSequence => {
            let ctl = ControlView { end: b, ..p.ctl };
            (ParserView { ctl, ..q }, InputView::Control(ctl))
        },
        Action::PushByte => {
            let ctl = ControlView { bytes: p.ctl.bytes.push(b), ..p.ctl };
            (ParserView { ctl, ..q }, InputView::Continue)
        },
        Action::PushByteWithEscape => {
            let ctl = ControlView { bytes: p.ctl.bytes.push(0x1B).push(b), ..p.ctl };
            (ParserView { ctl, ..q }, InputView::Continue)
        },
        Action::SetPrivate => {
            let ctl = ControlView { private: true, ..p.ctl };
            (ParserView { ctl, ..q }, InputView::Continue)
        },
        Action::AddParamValue => {
            let (acc, overflow) = digit_pushed(p.pacc, (b - 0x30) as u16);
            let state = if overflow {
                State::ControlSequenceError
            } else {
                base
            };
            (ParserView { state, pacc: acc, ..q }, InputView::Continue)
        },
        Action::PushParam => {
            let ctl = ControlView { params: p.ctl.params.push(p.pacc), ..p.ctl };
            (ParserView { ctl, pacc: Parameter::Default, ..q }, InputView::Continue)
        },
        Action::PushParamAndByte => {
            let ctl = ControlView {
                params: p.ctl.params.push(p.pacc),
                bytes: p.ctl.bytes.push(b),
                ..p.ctl
            };
            (ParserView { ctl, pacc: Parameter::Default, ..q }, InputView::Continue)
        },
        Action::PushParamAndEndSequence => {
            let ctl = ControlView { params: p.ctl.params.push(p.pacc), end: b, ..p.ctl };
            (ParserView { ctl, pacc: Parameter::Default, ..q }, InputView::Control(ctl))
        },
    }
}

/// One step on a byte from 0x80 up in the ground state: the byte goes to the UTF-8
/// decoder; a broken sequence yields the replacement character and the byte is fed again.
pub open spec fn utf8_step(p: ParserView, b: u8) -> (ParserView, InputView) {
    let (pending, d) = decode_step(p.pending, b);
    match d {
        DecodeState::Continue => (ParserView { pending, ..p }, InputView::Continue),
        DecodeState::Done(c) => (ParserView { pending, ..p }, InputView::Char(c)),
        DecodeState::Error => (ParserView { pending, ..p }, InputView::Char(REPLACEMENT)),
        DecodeState::Rewind => {
            let (pending2, d2) = decode_step(pending, b);
            let q = ParserView { pending: pending2, ..p };
            match d2 {
                DecodeState::Done(c) => (q, InputView::SyncChar(REPLACEMENT, c)),
                DecodeState::Error => (q, InputView::SyncChar(REPLACEMENT, REPLACEMENT)),
                _ => (q, InputView::Char(REPLACEMENT)),
            }
        },
    }
}

/// One step of the recognizer on any byte.
pub open spec fn parse_step(p: ParserView, b: u8) -> (ParserView, InputView) {
    if b >= 0x80 {
        if p.state != State::Ground {
            (ParserView { state: poisoned(p.state), ..p }, InputView::Continue)
        } else {
            utf8_step(p, b)
        }
    } else {
        ascii_step(p, b)
    }
}

/// The recognizer after a whole byte stream, and what each byte produced.
pub open spec fn parse_run(p: ParserView, bytes: Seq<u8>) -> (ParserView, Seq<InputView>)
    decreases bytes.len(),
{
    if bytes.len() == 0 {
        (p, seq![])
    } else {
        let (q, events) = parse_run(p, bytes.drop_last());
        let (r, e) = parse_step(q, bytes.last());
        (r, events.push(e))
    }
}

fn class_of_byte(b: u8) -> (r: u8)
    requires
        b < 0x80,
    ensures
        r == class_of(b),
{
    CLASS_TABLE[b as usize]
}

/// Converts bytes to characters and control functions.
pub struct TerminalInputParser {
    /// The current base state.
    state: State,
    /// The control function being collected.
    ctl: ControlFunction,
    /// The parameter being read.
    pacc: Parameter,
    /// UTF-8 decoder for bytes from 0x80 up.
    utf8: UTF8Decoder,
}

impl View for TerminalInputParser {
    type V = ParserView;

    closed spec fn view(&self) -> ParserView {
        ParserView { state: self.state, ctl: self.ctl@, pacc: self.pacc, pending: self.utf8@ }
    }
}

impl TerminalInputParser {
    pub closed spec fn wf(&self) -> bool {
        self.utf8.wf()
    }

    pub fn new() -> (r: Self)
        ensures
            r.wf(),
            r@ == initial_parser(),
    {
        TerminalInputParser {
            state: State::Ground,
            ctl: ControlFunction::new(),
            pacc: Parameter::Default,
            utf8: UTF8Decoder::new(),
        }
    }

    /// Feeds one byte.
    pub fn parse_byte(&mut self, byte: u8) -> (r: TerminalInput)
        requires
            old(self).wf(),
        ensures
            final(self).wf(),
            (final(self)@, r@) == parse_step(old(self)@, byte),
    {
        if byte >= 0x80 {
            if self.state != State::Ground {
                self.state.poison();
                return TerminalInput::Continue;
            }
            match self.utf8.decode_byte(byte) {
                DecodeState::Continue => TerminalInput::Continue,
                DecodeState::Done(c) => TerminalInput::Char(c),
                DecodeState::Error => TerminalInput::Char(REPLACEMENT),
                DecodeState::Rewind => {
                    // Nothing is pending any more, so feeding the byte again cannot rewind.
                    match self.utf8.decode_byte(byte) {
                        DecodeState::Done(c) => TerminalInput::SyncChar(REPLACEMENT, c),
                        DecodeState::Error => TerminalInput::SyncChar(REPLACEMENT, REPLACEMENT),
                        _ => TerminalInput::Char(REPLACEMENT),
                    }
                },
            }
        } else {
            let class = class_of_byte(byte);
            let (base, action) = self.state.decompose(class);
            self.state = base;
            match action {
                Action::Continue => TerminalInput::Continue,
                Action::Char => TerminalInput::Char(byte as char),
                Action::C01Control => {
                    self.ctl.start = byte;
                    self.ctl.private = false;
                    self.ctl.params.clear();
                    self.ctl.bytes.clear();
                    self.ctl.end = 0;
                    TerminalInput::Control(self.ctl.duplicate())
                },
                Action::StartSequence => {
                    self.ctl.start = byte;
                    self.ctl.private = false;
                    self.ctl.params.clear();
                    self.ctl.bytes.clear();
                    self.pacc = Parameter::Default;
                    TerminalInput::Continue
                },
                Action::FinishSequence => {
                    self.ctl.end = byte;
                    TerminalInput::Control(self.ctl.duplicate())
                },
                Action::PushByte => {
                    self.ctl.bytes.push(byte);
                    TerminalInput::Continue
                },
                Action::PushByteWithEscape => {
                    self.ctl.bytes.push(0x1B);
                    self.ctl.bytes.push(byte);
                    TerminalInput::Continue
                },
                Action::SetPrivate => {
                    self.ctl.private = true;
                    TerminalInput::Continue
                },
                Action::AddParamValue => {
                    let overflow = self.pacc.add((byte - 0x30) as u16);
                    if overflow {
                        self.state = State::ControlSequenceError;
                    }
                    TerminalInput::Continue
                },
                Action::PushParam => {
                    self.ctl.params.push(self.pacc);
                    self.pacc = Parameter::Default;
                    TerminalInput::Continue
                },
                Action::PushParamAndByte => {
                    self.ctl.bytes.push(byte);
                    self.ctl.params.push(self.pacc);
                    self.pacc = Parameter::Default;
                    TerminalInput::Continue
                },
                Action::PushParamAndEndSequence => {
                    self.ctl.params.push(self.pacc);
                    self.pacc = Parameter::Default;
                    self.ctl.end = byte;
                    TerminalInput::Control(self.ctl.duplicate())
                },
            }
        }
    }

    /// Feeds a slice of bytes and collects what each of them produced.
    pub fn parse_bytes(&mut self, bytes: &[u8]) -> (r: Vec<TerminalInput>)
        requires
            old(self).wf(),
        ensures
            final(self).wf(),
            (final(self)@, r@.map_values(|e: TerminalInput| e@)) == parse_run(old(self)@, bytes@),
    {
        let mut out: Vec<TerminalInput> = Vec::new();
        let mut i: usize = 0;
        while i < bytes.len()
            invariant
                self.wf(),
                i <= bytes@.len(),
                (self@, out@.map_values(|e: TerminalInput| e@)) == parse_run(
                    old(self)@,
                    bytes@.subrange(0, i as int),
                ),
            decreases bytes@.len() - i,
        {
            let ghost prefix = bytes@.subrange(0, i as int);
            let ghost before = out@.map_values(|e: TerminalInput| e@);
            let e = self.parse_byte(bytes[i]);
            out.push(e);
            i += 1;
            proof {
                let next = bytes@.subrange(0, i as int);
                assert(next.drop_last() =~= prefix);
                assert(out@.map_values(|e: TerminalInput| e@) =~= before.push(e@));
            }
        }
        assert(bytes@.subrange(0, i as int) =~= bytes@);
        out
    }
}

} // verus!
