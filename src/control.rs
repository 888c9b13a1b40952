//! Interpretation of control sequences, and a byte-at-a-time CSI reader.
use vstd::prelude::*;
use crate::recognizer::{ControlFunction, Parameter};

verus! {

/// ESC.
pub const CSI_1: u8 = 0x1B;

/// `[`.
pub const CSI_2: u8 = 0x5B;

/// A recognized control function, with its parameters resolved.
#[derive(Debug)]
pub enum ControlType {
    Unknown,
    /// CUU: CSI Pn A, default 1.
    CursorUp(u16),
    /// CUD: CSI Pn B, default 1.
    CursorDown(u16),
    /// CUF: CSI Pn C, default 1.
    CursorRight(u16),
    /// CUB: CSI Pn D, default 1.
    CursorLeft(u16),
    /// CNL: CSI Pn E, default 1.
    CursorNextLine(u16),
    /// CPL: CSI Pn F, default 1.
    CursorPrecedingLine(u16),
    /// CHA: CSI Pn G, default 1.
    CursorCharacterAbsolute(u16),
    /// CUP: CSI Pn1;Pn2 H, defaults 1 and 1.
    CursorPosition(u16, u16),
    /// ED: CSI Ps J, default 0.
    EraseInPage(u16),
    /// DL: CSI Pn M, default 1.
    DeleteLine(u16),
    /// SM: CSI Ps... h.
    SetMode(Vec<u16>),
    /// RM: CSI Ps... l.
    ResetMode(Vec<u16>),
    /// SGR: CSI Ps... m.
    SelectGraphicRendition(Vec<u16>),
    /// SCOSC: CSI s.
    SaveCursor,
    /// SCORC: CSI u.
    RestoreCursor,
}

/// [`ControlType`] with its parameter lists as sequences.
pub enum ControlTypeView {
    Unknown,
    CursorUp(u16),
    CursorDown(u16),
    CursorRight(u16),
    CursorLeft(u16),
    CursorNextLine(u16),
    CursorPrecedingLine(u16),
    CursorCharacterAbsolute(u16),
    CursorPosition(u16, u16),
    EraseInPage(u16),
    DeleteLine(u16),
    SetMode(Seq<u16>),
    ResetMode(Seq<u16>),
    SelectGraphicRendition(Seq<u16>),
    SaveCursor,
    RestoreCursor,
}

impl View for ControlType {
    type V = ControlTypeView;

    open spec fn view(&self) -> ControlTypeView {
        match self {
            ControlType::Unknown => ControlTypeView::Unknown,
            ControlType::CursorUp(n) => ControlTypeView::CursorUp(*n),
            ControlType::CursorDown(n) => ControlTypeView::CursorDown(*n),
            ControlType::CursorRight(n) => ControlTypeView::CursorRight(*n),
            ControlType::CursorLeft(n) => ControlTypeView::CursorLeft(*n),
            ControlType::CursorNextLine(n) => ControlTypeView::CursorNextLine(*n),
            ControlType::CursorPrecedingLine(n) => ControlTypeView::CursorPrecedingLine(*n),
            ControlType::CursorCharacterAbsolute(n) => ControlTypeView::CursorCharacterAbsolute(*n),
            ControlType::CursorPosition(r, c) => ControlTypeView::CursorPosition(*r, *c),
            ControlType::EraseInPage(n) => ControlTypeView::EraseInPage(*n),
            ControlType::DeleteLine(n) => ControlTypeView::DeleteLine(*n),
            ControlType::SetMode(v) => ControlTypeView::SetMode(v@),
            ControlType::ResetMode(v) => ControlTypeView::ResetMode(v@),
            ControlType::SelectGraphicRendition(v) => ControlTypeView::SelectGraphicRendition(v@),
            ControlType::SaveCursor => ControlTypeView::SaveCursor,
            ControlType::RestoreCursor => ControlTypeView::RestoreCursor,
        }
    }
}

/// The parameter at `index`, or `default` when it is absent or empty.
pub open spec fn param_or(params: Seq<Option<u16>>, index: int, default: u16) -> u16 {
    if 0 <= index < params.len() && params[index] is Some {
        params[index]->Some_0
    } else {
        default
    }
}

/// The parameters with empty ones read as 0.
pub open spec fn params_or_zero(params: Seq<Option<u16>>) -> Seq<u16> {
    params.map_values(|p: Option<u16>| param_or(seq![p], 0, 0))
}

/// The control function that a final byte selects, for a sequence without
/// intermediate bytes.
pub open spec fn control_type_of(params: Seq<Option<u16>>, final_byte: u8) -> ControlTypeView {
    if final_byte == 0x41 {
        ControlTypeView::CursorUp(param_or(params, 0, 1))
    } else if final_byte == 0x42 {
        ControlTypeView::CursorDown(param_or(params, 0, 1))
    } else if final_byte == 0x43 {
        ControlTypeView::CursorRight(param_or(params, 0, 1))
    } else if final_byte == 0x44 {
        ControlTypeView::CursorLeft(param_or(params, 0, 1))
    } else if final_byte == 0x45 {
        ControlTypeView::CursorNextLine(param_or(params, 0, 1))
    } else if final_byte == 0x46 {
        ControlTypeView::CursorPrecedingLine(param_or(params, 0, 1))
    } else if final_byte == 0x47 {
        ControlTypeView::CursorCharacterAbsolute(param_or(params, 0, 1))
    } else if final_byte == 0x48 {
        ControlTypeView::CursorPosition(param_or(params, 0, 1), param_or(params, 1, 1))
    } else if final_byte == 0x4A {
        ControlTypeView::EraseInPage(param_or(params, 0, 0))
    } else if final_byte == 0x4D {
        ControlTypeView::DeleteLine(param_or(params, 0, 1))
    } else if final_byte == 0x68 {
        ControlTypeView::SetMode(params_or_zero(params))
    } else if final_byte == 0x6C {
        ControlTypeView::ResetMode(params_or_zero(params))
    } else if final_byte == 0x6D {
        ControlTypeView::SelectGraphicRendition(params_or_zero(params))
    } else if final_byte == 0x73 {
        ControlTypeView::SaveCursor
    } else if final_byte == 0x75 {
        ControlTypeView::RestoreCursor
    } else {
        ControlTypeView::Unknown
    }
}

/// Whether the final byte selects a function that reads its parameters.
pub open spec fn uses_parameters(final_byte: u8) -> bool {
    0x41 <= final_byte <= 0x48 || final_byte == 0x4A || final_byte == 0x4D || final_byte == 0x68
        || final_byte == 0x6C || final_byte == 0x6D
}

/// State of reading parameter bytes from left to right: the parameters finished so
/// far and the one being read.
pub open spec fn read_parameters(bytes: Seq<u8>) -> (Seq<Option<nat>>, Option<nat>)
    decreases bytes.len(),
{
    if bytes.len() == 0 {
        (seq![], None)
    } else {
        let (done, current) = read_parameters(bytes.drop_last());
        let b = bytes.last();
        if b == 0x3A || b == 0x3B {
            (done.push(current), None)
        } else if 0x30 <= b <= 0x39 {
            let d = (b - 0x30) as nat;
            match current {
                Some(v) => (done, Some(v * 10 + d)),
                None => (done, Some(d)),
            }
        } else {
            (done, current)
        }
    }
}

/// The parameters that parameter bytes spell: separated by `:` or `;`, each a decimal
/// number or empty; other bytes are skipped. No bytes give no parameters.
pub open spec fn parameters_of(bytes: Seq<u8>) -> Seq<Option<nat>> {
    if bytes.len() == 0 {
        seq![]
    } else {
        let (done, current) = read_parameters(bytes);
        done.push(current)
    }
}

/// A parameter read from bytes fits in 16 bits.
pub open spec fn fits(p: Option<nat>) -> bool {
    match p {
        Some(v) => v <= 0xFFFF,
        None => true,
    }
}

/// The parameter as a 16-bit value.
pub open spec fn narrow(p: Option<nat>) -> Option<u16> {
    match p {
        Some(v) => Some(v as u16),
        None => None,
    }
}

/// Every parameter fits in 16 bits.
pub open spec fn all_fit(params: Seq<Option<nat>>) -> bool {
    forall|i: int| 0 <= i < params.len() ==> fits(#[trigger] params[i])
}

/// Reads parameter bytes into `buffer`. Returns false, with `buffer` unspecified, when
/// a parameter does not fit in 16 bits.
fn parse_parameters(parameter_bytes: &[u8], buffer: &mut Vec<Option<u16>>) -> (ok: bool)
    ensures
        ok == all_fit(parameters_of(parameter_bytes@)),
        ok ==> final(buffer)@ == old(buffer)@ + parameters_of(parameter_bytes@).map_values(
            |p: Option<nat>| narrow(p),
        ),
{
    if parameter_bytes.len() == 0 {
        proof {
            assert(old(buffer)@ + Seq::<Option<u16>>::empty() =~= old(buffer)@);
            assert(parameters_of(parameter_bytes@).map_values(|p: Option<nat>| narrow(p))
                =~= Seq::<Option<u16>>::empty());
        }
        return true;
    }
    let ghost start = buffer@;
    let mut current: Option<u16> = None;
    let mut i: usize = 0;
    while i < parameter_bytes.len()
        invariant
            i <= parameter_bytes@.len(),
            ({
                let (done, cur) = read_parameters(parameter_bytes@.subrange(0, i as int));
                &&& all_fit(done)
                &&& fits(cur)
                &&& buffer@ == start + done.map_values(|p: Option<nat>| narrow(p))
                &&& current == narrow(cur)
            }),
        decreases parameter_bytes@.len() - i,
    {
        let b = parameter_bytes[i];
        let ghost prefix = parameter_bytes@.subrange(0, i as int);
        let ghost next = parameter_bytes@.subrange(0, i + 1);
        proof {
            assert(next.drop_last() =~= prefix);
            assert(next.last() == b);
        }
        let ghost (done, cur) = read_parameters(prefix);
        if b == 0x3A || b == 0x3B {
            buffer.push(current);
            current = None;
            proof {
                assert(all_fit(done.push(cur))) by {
                    assert forall|j: int| 0 <= j < done.push(cur).len() implies fits(
                        #[trigger] done.push(cur)[j],
                    ) by {
                        if j < done.len() {
                            assert(done.push(cur)[j] == done[j]);
                        }
                    }
                }
                assert(start + done.push(cur).map_values(|p: Option<nat>| narrow(p)) =~= (start
                    + done.map_values(|p: Option<nat>| narrow(p))).push(narrow(cur)));
            }
        } else if 0x30 <= b && b <= 0x39 {
            let d = (b - 0x30) as u16;
            match current {
                Some(v) => {
                    if v > 6553 || v * 10 > 0xFFFF - d {
                        proof {
                            let (done2, cur2) = read_parameters(next);
                            assert(cur2 == Some(v as nat * 10 + d as nat));
                            lemma_stays_large(parameter_bytes@, i as int + 1);
                            assert(parameter_bytes@.subrange(0, parameter_bytes@.len() as int)
                                =~= parameter_bytes@);
                        }
                        return false;
                    }
                    current = Some(v * 10 + d);
                },
                None => {
                    current = Some(d);
                },
            }
        }
        i += 1;
    }
    proof {
        assert(parameter_bytes@.subrange(0, i as int) =~= parameter_bytes@);
    }
    buffer.push(current);
    proof {
        let (done, cur) = read_parameters(parameter_bytes@);
        assert(all_fit(done.push(cur))) by {
            assert forall|j: int| 0 <= j < done.push(cur).len() implies fits(
                #[trigger] done.push(cur)[j],
            ) by {
                if j < done.len() {
                    assert(done.push(cur)[j] == done[j]);
                }
            }
        }
        assert(start + done.push(cur).map_values(|p: Option<nat>| narrow(p)) =~= (start
            + done.map_values(|p: Option<nat>| narrow(p))).push(narrow(cur)));
    }
    true
}

/// Once the parameter being read exceeds 16 bits after the first `k` bytes, some
/// parameter of the whole string does.
proof fn lemma_stays_large(bytes: Seq<u8>, k: int)
    requires
        0 < k <= bytes.len(),
        !fits(read_parameters(bytes.subrange(0, k)).1),
    ensures
        !all_fit(parameters_of(bytes)),
    decreases bytes.len() - k,
{
    let (done, cur) = read_parameters(bytes.subrange(0, k));
    if k == bytes.len() {
        assert(bytes.subrange(0, k) =~= bytes);
        assert(parameters_of(bytes)[done.len() as int] == cur);
    } else {
        let next = bytes.subrange(0, k + 1);
        assert(next.drop_last() =~= bytes.subrange(0, k));
        let b = next.last();
        if b == 0x3A || b == 0x3B {
            lemma_done_kept(bytes, k + 1, done.len() as int);
            assert(read_parameters(next).0[done.len() as int] == cur);
        } else {
            lemma_stays_large(bytes, k + 1);
        }
    }
}

/// A finished parameter stays as it is while more bytes are read.
proof fn lemma_done_kept(bytes: Seq<u8>, k: int, j: int)
    requires
        0 < k <= bytes.len(),
        0 <= j < read_parameters(bytes.subrange(0, k)).0.len(),
    ensures
        ({
            let done = read_parameters(bytes.subrange(0, k)).0;
            &&& j < parameters_of(bytes).len()
            &&& parameters_of(bytes)[j] == done[j]
        }),
    decreases bytes.len() - k,
{
    if k == bytes.len() {
        assert(bytes.subrange(0, k) =~= bytes);
    } else {
        let next = bytes.subrange(0, k + 1);
        assert(next.drop_last() =~= bytes.subrange(0, k));
        lemma_done_kept(bytes, k + 1, j);
    }
}

/// The parameter at `index`, or `None` when there is none.
pub fn get_parameter(buffer: &[Option<u16>], index: usize) -> (r: Option<u16>)
    ensures
        r == (if index < buffer@.len() {
            buffer@[index as int]
        } else {
            None
        }),
{
    if index < buffer.len() {
        buffer[index]
    } else {
        None
    }
}

/// The parameter at `index`, or `default` when it is absent or empty.
pub fn get_parameter_default(buffer: &[Option<u16>], index: usize, default: u16) -> (r: u16)
    ensures
        r == param_or(buffer@, index as int, default),
{
    match get_parameter(buffer, index) {
        Some(value) => value,
        None => default,
    }
}

/// All parameters, with empty ones read as 0.
pub fn parse_unknown_length(parameters_buffer: &[Option<u16>]) -> (r: Vec<u16>)
    ensures
        r@ == params_or_zero(parameters_buffer@),
{
    let mut parameters: Vec<u16> = Vec::new();
    let mut index: usize = 0;
    while index < parameters_buffer.len()
        invariant
            index <= parameters_buffer@.len(),
            parameters@ == params_or_zero(parameters_buffer@.subrange(0, index as int)),
        decreases parameters_buffer@.len() - index,
    {
        let value = match parameters_buffer[index] {
            Some(data) => data,
            None => 0u16,
        };
        parameters.push(value);
        index += 1;
        assert(parameters@ =~= params_or_zero(parameters_buffer@.subrange(0, index as int)));
    }
    assert(parameters_buffer@.subrange(0, index as int) =~= parameters_buffer@);
    parameters
}

/// Selects the control function for a final byte, given the parameters of a sequence
/// without intermediate bytes.
pub fn interpret_parameters(parameters: &[Option<u16>], final_byte: u8) -> (r: ControlType)
    ensures
        r@ == control_type_of(parameters@, final_byte),
{
    match final_byte {
        0x41 => ControlType::CursorUp(get_parameter_default(parameters, 0, 1)),
        0x42 => ControlType::CursorDown(get_parameter_default(parameters, 0, 1)),
        0x43 => ControlType::CursorRight(get_parameter_default(parameters, 0, 1)),
        0x44 => ControlType::CursorLeft(get_parameter_default(parameters, 0, 1)),
        0x45 => ControlType::CursorNextLine(get_parameter_default(parameters, 0, 1)),
        0x46 => ControlType::CursorPrecedingLine(get_parameter_default(parameters, 0, 1)),
        0x47 => ControlType::CursorCharacterAbsolute(get_parameter_default(parameters, 0, 1)),
        0x48 => ControlType::CursorPosition(
            get_parameter_default(parameters, 0, 1),
            get_parameter_default(parameters, 1, 1),
        ),
        0x4A => ControlType::EraseInPage(get_parameter_default(parameters, 0, 0)),
        0x4D => ControlType::DeleteLine(get_parameter_default(parameters, 0, 1)),
        0x68 => ControlType::SetMode(parse_unknown_length(parameters)),
        0x6C => ControlType::ResetMode(parse_unknown_length(parameters)),
        0x6D => ControlType::SelectGraphicRendition(parse_unknown_length(parameters)),
        0x73 => ControlType::SaveCursor,
        0x75 => ControlType::RestoreCursor,
        _ => ControlType::Unknown,
    }
}

/// What a control sequence stands for, from its parameter bytes, intermediate bytes and
/// final byte. A sequence with intermediate bytes, or whose parameters do not fit in
/// 16 bits, is unknown.
pub open spec fn long_control(parameter_bytes: Seq<u8>, intermediary_bytes: Seq<u8>, final_byte: u8) -> ControlTypeView {
    let params = parameters_of(parameter_bytes);
    if intermediary_bytes.len() > 0 {
        ControlTypeView::Unknown
    } else if !uses_parameters(final_byte) {
        control_type_of(seq![], final_byte)
    } else if all_fit(params) {
        control_type_of(params.map_values(|p: Option<nat>| narrow(p)), final_byte)
    } else {
        ControlTypeView::Unknown
    }
}

/// Interprets a control sequence from its raw parts. `parameters_buffer` is scratch
/// space, reused between calls.
pub fn interpret_long_control(
    parameter_bytes: &[u8],
    intermediary_bytes: &[u8],
    final_byte: u8,
    parameters_buffer: &mut Vec<Option<u16>>,
) -> (r: ControlType)
    ensures
        r@ == long_control(parameter_bytes@, intermediary_bytes@, final_byte),
{
    if intermediary_bytes.len() > 0 {
        return ControlType::Unknown;
    }
    parameters_buffer.clear();
    let uses = (0x41 <= final_byte && final_byte <= 0x48) || final_byte == 0x4A || final_byte
        == 0x4D || final_byte == 0x68 || final_byte == 0x6C || final_byte == 0x6D;
    if !uses {
        return interpret_parameters(parameters_buffer.as_slice(), final_byte);
    }
    if !parse_parameters(parameter_bytes, parameters_buffer) {
        return ControlType::Unknown;
    }
    proof {
        assert(Seq::<Option<u16>>::empty() + parameters_of(parameter_bytes@).map_values(
            |p: Option<nat>| narrow(p),
        ) =~= parameters_of(parameter_bytes@).map_values(|p: Option<nat>| narrow(p)));
    }
    interpret_parameters(parameters_buffer.as_slice(), final_byte)
}

/// A recognizer parameter as an optional value.
pub open spec fn parameter_option(p: Parameter) -> Option<u16> {
    match p {
        Parameter::Default => None,
        Parameter::Value(v) => Some(v),
    }
}

/// The control function that a recognized control sequence (CSI, without intermediate
/// bytes) stands for; anything else is unknown.
pub open spec fn control_type_of_function(start: u8, params: Seq<Parameter>, bytes: Seq<u8>, end: u8) -> ControlTypeView {
    if start == CSI_2 && bytes.len() == 0 {
        control_type_of(params.map_values(|p: Parameter| parameter_option(p)), end)
    } else {
        ControlTypeView::Unknown
    }
}

/// Interprets a control function delivered by the recognizer.
pub fn interpret_control_function(ctl: &ControlFunction) -> (r: ControlType)
    ensures
        r@ == control_type_of_function(ctl@.start, ctl@.params, ctl@.bytes, ctl@.end),
{
    if ctl.start() != CSI_2 || ctl.bytes().len() > 0 {
        return ControlType::Unknown;
    }
    let params = ctl.params();
    let mut buffer: Vec<Option<u16>> = Vec::new();
    let mut i: usize = 0;
    while i < params.len()
        invariant
            i <= params@.len(),
            params@ == ctl@.params,
            buffer@ == params@.subrange(0, i as int).map_values(|p: Parameter| parameter_option(p)),
        decreases params@.len() - i,
    {
        let value = match params[i] {
            Parameter::Default => None,
            Parameter::Value(v) => Some(v),
        };
        buffer.push(value);
        i += 1;
        assert(buffer@ =~= params@.subrange(0, i as int).map_values(
            |p: Parameter| parameter_option(p),
        ));
    }
    assert(params@.subrange(0, i as int) =~= params@);
    interpret_parameters(buffer.as_slice(), ctl.end())
}

/// Where the CSI reader is.
#[derive(PartialEq, Eq, Debug, Copy, Clone, Structural)]
pub enum ParserState {
    NotParsing,
    ParsingCsi,
    ParsingParameter,
    ParsingIntermediary,
}

/// Which byte the CSI reader expected and did not get.
#[derive(Debug, PartialEq, Eq, Copy, Clone, Structural)]
pub enum ControlSequenceError {
    InvalidCsi1Byte,
    InvalidCsi2Byte,
    InvalidParameterByte,
    InvalidIntermediaryByte,
    InvalidFinalByte,
}

pub type ControlReturn = Result<Option<ControlType>, ControlSequenceError>;

/// [`ControlReturn`] with the control function seen through its view.
pub enum ControlReturnView {
    Pending,
    Done(ControlTypeView),
    Failed(ControlSequenceError),
}

pub open spec fn return_view(r: ControlReturn) -> ControlReturnView {
    match r {
        Ok(None) => ControlReturnView::Pending,
        Ok(Some(c)) => ControlReturnView::Done(c@),
        Err(e) => ControlReturnView::Failed(e),
    }
}

/// The CSI reader's model: its state and the bytes of the sequence so far.
pub struct CsiView {
    pub state: ParserState,
    pub bytes: Seq<u8>,
    pub parameter_length: nat,
}

pub open spec fn is_parameter_byte(b: u8) -> bool {
    0x30 <= b <= 0x3F
}

pub open spec fn is_intermediary_byte(b: u8) -> bool {
    0x20 <= b <= 0x2F
}

pub open spec fn is_final_byte(b: u8) -> bool {
    0x40 <= b <= 0x7E
}

/// What a finished sequence `ESC [ P... I... F` stands for.
pub open spec fn finished_sequence(bytes: Seq<u8>, parameter_length: nat, final_byte: u8) -> ControlTypeView {
    long_control(
        bytes.subrange(2, 2 + parameter_length as int),
        bytes.subrange(2 + parameter_length as int, bytes.len() as int),
        final_byte,
    )
}

/// One step of the CSI reader. On an unexpected byte the reader reports it and is left
/// as it was: resetting is the caller's part.
pub open spec fn csi_step(p: CsiView, b: u8) -> (CsiView, ControlReturnView) {
    let idle = CsiView { state: ParserState::NotParsing, bytes: seq![], parameter_length: 0 };
    match p.state {
        ParserState::NotParsing => if b == CSI_1 {
            (CsiView { state: ParserState::ParsingCsi, bytes: seq![b], ..p }, ControlReturnView::Pending)
        } else {
            (p, ControlReturnView::Failed(ControlSequenceError::InvalidCsi1Byte))
        },
        ParserState::ParsingCsi => if b == CSI_2 {
            (
                CsiView { state: ParserState::ParsingParameter, bytes: p.bytes.push(b), ..p },
                ControlReturnView::Pending,
            )
        } else {
            (p, ControlReturnView::Failed(ControlSequenceError::InvalidCsi2Byte))
        },
        ParserState::ParsingParameter => if is_parameter_byte(b) {
            (
                CsiView {
                    bytes: p.bytes.push(b),
                    parameter_length: p.parameter_length + 1,
                    ..p
                },
                ControlReturnView::Pending,
            )
        } else if is_intermediary_byte(b) {
            (
                CsiView { state: ParserState::ParsingIntermediary, bytes: p.bytes.push(b), ..p },
                ControlReturnView::Pending,
            )
        } else if is_final_byte(b) {
            (idle, ControlReturnView::Done(finished_sequence(p.bytes, p.parameter_length, b)))
        } else {
            (p, ControlReturnView::Failed(ControlSequenceError::InvalidParameterByte))
        },
        ParserState::ParsingIntermediary => if is_intermediary_byte(b) {
            (CsiView { bytes: p.bytes.push(b), ..p }, ControlReturnView::Pending)
        } else if is_final_byte(b) {
            (idle, ControlReturnView::Done(finished_sequence(p.bytes, p.parameter_length, b)))
        } else {
            (p, ControlReturnView::Failed(ControlSequenceError::InvalidIntermediaryByte))
        },
    }
}

/// A reader of control sequences (ECMA-48, 5.4) that takes one byte at a time.
#[derive(Debug)]
pub struct ControlSeqenceParser {
    state: ParserState,
    buffer: Vec<u8>,
    parameter_length: usize,
    intermediary_length: usize,
    parameters_buffer: Vec<Option<u16>>,
}

impl View for ControlSeqenceParser {
    type V = CsiView;

    closed spec fn view(&self) -> CsiView {
        CsiView {
            state: self.state,
            bytes: self.buffer@,
            parameter_length: self.parameter_length as nat,
        }
    }
}

impl ControlSeqenceParser {
    pub closed spec fn wf(&self) -> bool {
        &&& self.state == ParserState::NotParsing ==> self.buffer@.len() == 0
            && self.parameter_length == 0 && self.intermediary_length == 0
        &&& self.state == ParserState::ParsingCsi ==> self.buffer@.len() == 1
            && self.parameter_length == 0 && self.intermediary_length == 0
        &&& (self.state == ParserState::ParsingParameter || self.state
            == ParserState::ParsingIntermediary) ==> self.buffer@.len() == 2
            + self.parameter_length + self.intermediary_length
        &&& self.state == ParserState::ParsingParameter ==> self.intermediary_length == 0
    }

    pub fn new() -> (r: Self)
        ensures
            r.wf(),
            r@ == (CsiView { state: ParserState::NotParsing, bytes: seq![], parameter_length: 0 }),
    {
        ControlSeqenceParser {
            state: ParserState::NotParsing,
            buffer: Vec::with_capacity(64),
            parameter_length: 0,
            intermediary_length: 0,
            parameters_buffer: Vec::with_capacity(64),
        }
    }

    /// Reads one byte of a control sequence: `Ok(None)` while it goes on, the control
    /// function once the final byte arrives (the reader is then reset), or the kind of
    /// byte that was expected.
    pub fn parse_byte(&mut self, byte: u8) -> (r: ControlReturn)
        requires
            old(self).wf(),
            old(self)@.bytes.len() < usize::MAX - 1,
        ensures
            final(self).wf(),
            final(self)@ == csi_step(old(self)@, byte).0,
            return_view(r) == csi_step(old(self)@, byte).1,
    {
        let ghost next = csi_step(self@, byte).0;
        match self.state {
            ParserState::NotParsing => {
                if byte == CSI_1 {
                    self.buffer.push(byte);
                    self.state = ParserState::ParsingCsi;
                    assert(self@.bytes =~= next.bytes);
                    Ok(None)
                } else {
                    Err(ControlSequenceError::InvalidCsi1Byte)
                }
            },
            ParserState::ParsingCsi => {
                if byte == CSI_2 {
                    self.buffer.push(byte);
                    self.state = ParserState::ParsingParameter;
                    assert(self@.bytes =~= next.bytes);
                    Ok(None)
                } else {
                    Err(ControlSequenceError::InvalidCsi2Byte)
                }
            },
            ParserState::ParsingParameter => {
                if 0x30 <= byte && byte <= 0x3F {
                    self.buffer.push(byte);
                    self.parameter_length += 1;
                    assert(self@.bytes =~= next.bytes);
                    Ok(None)
                } else if 0x20 <= byte && byte <= 0x2F {
                    self.buffer.push(byte);
                    self.intermediary_length += 1;
                    self.state = ParserState::ParsingIntermediary;
                    assert(self@.bytes =~= next.bytes);
                    Ok(None)
                } else if 0x40 <= byte && byte <= 0x7E {
                    let r = self.parse_buffer(byte);
                    assert(self@.bytes =~= next.bytes);
                    Ok(Some(r))
                } else {
                    Err(ControlSequenceError::InvalidParameterByte)
                }
            },
            ParserState::ParsingIntermediary => {
                if 0x20 <= byte && byte <= 0x2F {
                    self.buffer.push(byte);
                    self.intermediary_length += 1;
                    assert(self@.bytes =~= next.bytes);
                    Ok(None)
                } else if 0x40 <= byte && byte <= 0x7E {
                    let r = self.parse_buffer(byte);
                    assert(self@.bytes =~= next.bytes);
                    Ok(Some(r))
                } else {
                    Err(ControlSequenceError::InvalidIntermediaryByte)
                }
            },
        }
    }

    /// Empties the reader and hands back the bytes it held.
    pub fn reset(&mut self) -> (r: Vec<u8>)
        ensures
            final(self).wf(),
            final(self)@ == (CsiView { state: ParserState::NotParsing, bytes: seq![], parameter_length: 0 }),
            r@ == old(self)@.bytes,
    {
        self.state = ParserState::NotParsing;
        self.intermediary_length = 0;
        self.parameter_length = 0;
        let mut bytes: Vec<u8> = Vec::new();
        std::mem::swap(&mut bytes, &mut self.buffer);
        bytes
    }

    pub fn is_parsing(&self) -> (r: bool)
        ensures
            r == (self@.state != ParserState::NotParsing),
    {
        self.state != ParserState::NotParsing
    }

    /// Interprets the sequence held, ended by `final_byte`, and resets the reader.
    fn parse_buffer(&mut self, final_byte: u8) -> (r: ControlType)
        requires
            old(self).wf(),
            old(self).state == ParserState::ParsingParameter || old(self).state
                == ParserState::ParsingIntermediary,
        ensures
            final(self).wf(),
            final(self)@ == (CsiView { state: ParserState::NotParsing, bytes: seq![], parameter_length: 0 }),
            r@ == finished_sequence(old(self)@.bytes, old(self)@.parameter_length, final_byte),
    {
        let start: usize = 2;
        let stop = self.buffer.len();
        assert(self.buffer@.len() == 2 + self.parameter_length + self.intermediary_length);
        let middle = 2 + self.parameter_length;
        let parameter_bytes = slice_of(&self.buffer, start, middle);
        let intermediary_bytes = slice_of(&self.buffer, middle, stop);
        let mut scratch: Vec<Option<u16>> = Vec::new();
        std::mem::swap(&mut scratch, &mut self.parameters_buffer);
        let control_type = interpret_long_control(
            parameter_bytes.as_slice(),
            intermediary_bytes.as_slice(),
            final_byte,
            &mut scratch,
        );
        std::mem::swap(&mut scratch, &mut self.parameters_buffer);
        self.reset();
        control_type
    }
}

/// A copy of `v[from..to]`.
fn slice_of(v: &Vec<u8>, from: usize, to: usize) -> (r: Vec<u8>)
    requires
        from <= to <= v@.len(),
    ensures
        r@ == v@.subrange(from as int, to as int),
{
    let mut out: Vec<u8> = Vec::new();
    let mut i: usize = from;
    while i < to
        invariant
            from <= i <= to,
            to <= v@.len(),
            out@ == v@.subrange(from as int, i as int),
        decreases to - i,
    {
        out.push(v[i]);
        i += 1;
        assert(out@ =~= v@.subrange(from as int, i as int));
    }
    out
}

} // verus!
