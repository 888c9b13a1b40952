//! Incremental UTF-8 decoder driven by a byte-class table and a transition matrix.
//!
//! The table layout follows Bjoern Hoehrmann's DFA decoder
//! (<https://bjoern.hoehrmann.de/utf-8/decoder/dfa/>, MIT license), with separate
//! error and rewind states.
use vstd::prelude::*;
use vstd::utf8::*;

verus! {

/// Decoder ground state: nothing pending.
const OK: u8 = 0;

/// Decoder error state: the byte cannot start a sequence.
const ER: u8 = 96;

/// Decoder rewind state: the pending sequence is broken and the byte must be fed again.
const RW: u8 = 108;

/// The first 256 entries give each byte its character class; the remaining ones map
/// `state + class` to the next state.
const UTF8_TABLE: [u8; 352] = [
    0, 0, 0, 0, 0, 0, 0, 0, 0, 0, 0, 0, 0, 0, 0, 0,
    0, 0, 0, 0, 0, 0, 0, 0, 0, 0, 0, 0, 0, 0, 0, 0,
    0, 0, 0, 0, 0, 0, 0, 0, 0, 0, 0, 0, 0, 0, 0, 0,
    0, 0, 0, 0, 0, 0, 0, 0, 0, 0, 0, 0, 0, 0, 0, 0,
    0, 0, 0, 0, 0, 0, 0, 0, 0, 0, 0, 0, 0, 0, 0, 0,
    0, 0, 0, 0, 0, 0, 0, 0, 0, 0, 0, 0, 0, 0, 0, 0,
    0, 0, 0, 0, 0, 0, 0, 0, 0, 0, 0, 0, 0, 0, 0, 0,
    0, 0, 0, 0, 0, 0, 0, 0, 0, 0, 0, 0, 0, 0, 0, 0,
    1, 1, 1, 1, 1, 1, 1, 1, 1, 1, 1, 1, 1, 1, 1, 1,
    9, 9, 9, 9, 9, 9, 9, 9, 9, 9, 9, 9, 9, 9, 9, 9,
    7, 7, 7, 7, 7, 7, 7, 7, 7, 7, 7, 7, 7, 7, 7, 7,
    7, 7, 7, 7, 7, 7, 7, 7, 7, 7, 7, 7, 7, 7, 7, 7,
    8, 8, 2, 2, 2, 2, 2, 2, 2, 2, 2, 2, 2, 2, 2, 2,
    2, 2, 2, 2, 2, 2, 2, 2, 2, 2, 2, 2, 2, 2, 2, 2,
    10, 3, 3, 3, 3, 3, 3, 3, 3, 3, 3, 3, 3, 4, 3, 3,
    11, 6, 6, 6, 5, 8, 8, 8, 8, 8, 8, 8, 8, 8, 8, 8,
    // state 0: nothing pending
    OK, ER, 12, 24, 48, 84, 72, ER, ER, ER, 36, 60,
    // state 12: one byte needed
    RW, OK, RW, RW, RW, RW, RW, OK, RW, OK, RW, RW,
    // state 24: two bytes needed
    RW, 12, RW, RW, RW, RW, RW, 12, RW, 12, RW, RW,
    // state 36: two bytes needed after E0
    RW, RW, RW, RW, RW, RW, RW, 12, RW, RW, RW, RW,
    // state 48: two bytes needed after ED
    RW, 12, RW, RW, RW, RW, RW, RW, RW, 12, RW, RW,
    // state 60: three bytes needed after F0
    RW, RW, RW, RW, RW, RW, RW, 24, RW, 24, RW, RW,
    // state 72: three bytes needed
    RW, 24, RW, RW, RW, RW, RW, 24, RW, 24, RW, RW,
    // state 84: three bytes needed after F4
    RW, 24, RW, RW, RW, RW, RW, RW, RW, RW, RW, RW,
];

/// Number of bytes in a UTF-8 sequence that starts with `lead`; zero when no
/// well-formed sequence starts with it.
pub open spec fn sequence_length(lead: u8) -> nat {
    if lead <= 0x7F {
        1
    } else if 0xC2 <= lead <= 0xDF {
        2
    } else if 0xE0 <= lead <= 0xEF {
        3
    } else if 0xF0 <= lead <= 0xF4 {
        4
    } else {
        0
    }
}

/// Whether `b` may follow `lead` in a well-formed sequence. The narrowed ranges
/// after E0, ED, F0 and F4 exclude overlong forms, surrogates and values above 0x10FFFF.
pub open spec fn second_byte_allowed(lead: u8, b: u8) -> bool {
    if lead == 0xE0 {
        0xA0 <= b <= 0xBF
    } else if lead == 0xED {
        0x80 <= b <= 0x9F
    } else if lead == 0xF0 {
        0x90 <= b <= 0xBF
    } else if lead == 0xF4 {
        0x80 <= b <= 0x8F
    } else {
        0x80 <= b <= 0xBF
    }
}

/// `s` is a non-empty initial part (or the whole) of a well-formed UTF-8 sequence.
pub open spec fn is_sequence_prefix(s: Seq<u8>) -> bool {
    &&& 1 <= s.len() <= sequence_length(s[0])
    &&& s.len() >= 2 ==> second_byte_allowed(s[0], s[1])
    &&& s.len() >= 3 ==> is_continuation_byte(s[2])
    &&& s.len() >= 4 ==> is_continuation_byte(s[3])
}

/// `s` is exactly one well-formed UTF-8 sequence.
pub open spec fn is_complete_sequence(s: Seq<u8>) -> bool {
    is_sequence_prefix(s) && s.len() == sequence_length(s[0])
}

/// `s` is a well-formed UTF-8 sequence that still lacks bytes.
pub open spec fn is_partial_sequence(s: Seq<u8>) -> bool {
    is_sequence_prefix(s) && s.len() < sequence_length(s[0])
}

/// The outcome of feeding one byte to the decoder.
#[derive(Copy, Clone, Eq, PartialEq, Debug)]
pub enum DecodeState {
    /// A code point is complete.
    Done(char),
    /// More bytes are needed.
    Continue,
    /// The byte cannot start a sequence; nothing is pending any more.
    Error,
    /// The pending sequence was broken by this byte, which must be fed again.
    Rewind,
}

/// One step of the decoder on its model: the bytes pending before, the byte fed,
/// and what is pending afterwards together with the outcome.
pub open spec fn decode_step(pending: Seq<u8>, byte: u8) -> (Seq<u8>, DecodeState) {
    let s = pending.push(byte);
    if is_complete_sequence(s) {
        (Seq::empty(), DecodeState::Done(decode_first_scalar(s) as char))
    } else if is_partial_sequence(s) {
        (s, DecodeState::Continue)
    } else if pending.len() == 0 {
        (Seq::empty(), DecodeState::Error)
    } else {
        (Seq::empty(), DecodeState::Rewind)
    }
}

/// Character class of a byte, as the first part of the table records it.
pub open spec fn byte_class(b: u8) -> u8 {
    if b <= 0x7F {
        0
    } else if b <= 0x8F {
        1
    } else if b <= 0x9F {
        9
    } else if b <= 0xBF {
        7
    } else if b <= 0xC1 {
        8
    } else if b <= 0xDF {
        2
    } else if b == 0xE0 {
        10
    } else if b == 0xED {
        4
    } else if b <= 0xEF {
        3
    } else if b == 0xF0 {
        11
    } else if b <= 0xF3 {
        6
    } else if b == 0xF4 {
        5
    } else {
        8
    }
}

/// Decoder state that corresponds to the pending bytes `s`.
spec fn state_of(s: Seq<u8>) -> u8 {
    if s.len() == 0 {
        OK
    } else if s.len() == 1 {
        let lead = s[0];
        if lead <= 0xDF {
            12
        } else if lead == 0xE0 {
            36
        } else if lead == 0xED {
            48
        } else if lead <= 0xEF {
            24
        } else if lead == 0xF0 {
            60
        } else if lead == 0xF4 {
            84
        } else {
            72
        }
    } else if sequence_length(s[0]) == s.len() + 1 {
        12
    } else {
        24
    }
}

/// Value accumulated from the bytes `s`: the data bits of the lead byte, then six
/// bits from each following byte.
spec fn partial_value(s: Seq<u8>) -> u32
    decreases s.len(),
{
    if s.len() <= 1 {
        (0xFFu32 >> (byte_class(s[0]) as u32)) & (s[0] as u32)
    } else {
        (partial_value(s.drop_last()) << 6u32) | ((s.last() as u32) & 0x3Fu32)
    }
}

/// The transition matrix agrees with the well-formedness of the pending bytes
/// extended by one byte.
proof fn lemma_transition(pending: Seq<u8>, byte: u8)
    requires
        pending.len() == 0 || is_partial_sequence(pending),
    ensures
        ({
            let s = pending.push(byte);
            let next = UTF8_TABLE[256 + state_of(pending) + byte_class(byte)];
            &&& (next == OK) == is_complete_sequence(s)
            &&& is_partial_sequence(s) ==> next == state_of(s)
            &&& !is_complete_sequence(s) && !is_partial_sequence(s) && pending.len() == 0
                ==> next == ER
            &&& !is_complete_sequence(s) && !is_partial_sequence(s) && pending.len() > 0
                ==> next == RW
        }),
{
    let s = pending.push(byte);
    assert(s[s.len() - 1] == byte);
    if pending.len() > 0 {
        assert(s[0] == pending[0]);
    }
    if pending.len() > 1 {
        assert(s[1] == pending[1]);
    }
    if pending.len() > 2 {
        assert(s[2] == pending[2]);
    }
}

/// A complete sequence accumulates a Unicode scalar value, the one it encodes.
proof fn lemma_complete_value(s: Seq<u8>)
    requires
        is_complete_sequence(s),
    ensures
        is_scalar(partial_value(s)),
        partial_value(s) == decode_first_scalar(s),
{
    let b0 = s[0];
    reveal_with_fuel(partial_value, 4);
    if s.len() == 1 {
        lemma_width_1(b0);
    } else if s.len() == 2 {
        let t = s.drop_last();
        assert(t.len() == 1 && t[0] == b0);
        lemma_width_2(b0, s[1]);
    } else if s.len() == 3 {
        let t = s.drop_last();
        let u = t.drop_last();
        assert(u.len() == 1 && u[0] == b0);
        assert(t.last() == s[1]);
        lemma_width_3(b0, s[1], s[2], byte_class(b0) as u32);
    } else {
        let t = s.drop_last();
        let u = t.drop_last();
        let v = u.drop_last();
        assert(v.len() == 1 && v[0] == b0);
        assert(u.last() == s[1]);
        assert(t.last() == s[2]);
        lemma_width_4(b0, s[1], s[2], s[3], byte_class(b0) as u32);
    }
}

proof fn lemma_width_1(b0: u8)
    requires
        b0 <= 0x7F,
    ensures
        ((0xFFu32 >> 0u32) & (b0 as u32)) == codepoint_width_1(b0),
        is_scalar(codepoint_width_1(b0)),
{
    assert(((0xFFu32 >> 0u32) & (b0 as u32)) == codepoint_width_1(b0)
        && codepoint_width_1(b0) <= 0x7F) by (bit_vector)
        requires
            b0 <= 0x7F,
    ;
}

proof fn lemma_width_2(b0: u8, b1: u8)
    requires
        0xC2 <= b0 <= 0xDF,
        0x80 <= b1 <= 0xBF,
    ensures
        (((0xFFu32 >> 2u32) & (b0 as u32)) << 6u32) | ((b1 as u32) & 0x3Fu32)
            == codepoint_width_2(b0, b1),
        0x80 <= codepoint_width_2(b0, b1) <= 0x7FF,
{
    assert((((0xFFu32 >> 2u32) & (b0 as u32)) << 6u32) | ((b1 as u32) & 0x3Fu32)
        == codepoint_width_2(b0, b1) && 0x80 <= codepoint_width_2(b0, b1) <= 0x7FF)
        by (bit_vector)
        requires
            0xC2 <= b0 <= 0xDF,
            0x80 <= b1 <= 0xBF,
    ;
}

proof fn lemma_width_3(b0: u8, b1: u8, b2: u8, c: u32)
    requires
        0xE0 <= b0 <= 0xEF,
        second_byte_allowed(b0, b1),
        0x80 <= b2 <= 0xBF,
        c == byte_class(b0) as u32,
    ensures
        (((((0xFFu32 >> c) & (b0 as u32)) << 6u32) | ((b1 as u32) & 0x3Fu32)) << 6u32) | ((
        b2 as u32) & 0x3Fu32) == codepoint_width_3(b0, b1, b2),
        has_width_3_encoding(codepoint_width_3(b0, b1, b2)),
{
    if b0 == 0xE0 {
        assert(c == 10);
    } else if b0 == 0xED {
        assert(c == 4);
    } else {
        assert(c == 3);
    }
    assert((((((0xFFu32 >> c) & (b0 as u32)) << 6u32) | ((b1 as u32) & 0x3Fu32)) << 6u32) | ((
    b2 as u32) & 0x3Fu32) == codepoint_width_3(b0, b1, b2) && has_width_3_encoding(
        codepoint_width_3(b0, b1, b2),
    )) by (bit_vector)
        requires
            0xE0 <= b0 <= 0xEF,
            b0 == 0xE0 ==> 0xA0 <= b1 <= 0xBF && c == 10,
            b0 == 0xED ==> 0x80 <= b1 <= 0x9F && c == 4,
            b0 != 0xE0 && b0 != 0xED ==> 0x80 <= b1 <= 0xBF && c == 3,
            0x80 <= b2 <= 0xBF,
    ;
}

proof fn lemma_width_4(b0: u8, b1: u8, b2: u8, b3: u8, c: u32)
    requires
        0xF0 <= b0 <= 0xF4,
        second_byte_allowed(b0, b1),
        0x80 <= b2 <= 0xBF,
        0x80 <= b3 <= 0xBF,
        c == byte_class(b0) as u32,
    ensures
        (((((((0xFFu32 >> c) & (b0 as u32)) << 6u32) | ((b1 as u32) & 0x3Fu32)) << 6u32) | ((
        b2 as u32) & 0x3Fu32)) << 6u32) | ((b3 as u32) & 0x3Fu32) == codepoint_width_4(
            b0,
            b1,
            b2,
            b3,
        ),
        has_width_4_encoding(codepoint_width_4(b0, b1, b2, b3)),
{
    if b0 == 0xF0 {
        assert(c == 11);
    } else if b0 == 0xF4 {
        assert(c == 5);
    } else {
        assert(c == 6);
    }
    assert((((((((0xFFu32 >> c) & (b0 as u32)) << 6u32) | ((b1 as u32) & 0x3Fu32)) << 6u32) | ((
    b2 as u32) & 0x3Fu32)) << 6u32) | ((b3 as u32) & 0x3Fu32) == codepoint_width_4(
        b0,
        b1,
        b2,
        b3,
    ) && has_width_4_encoding(codepoint_width_4(b0, b1, b2, b3))) by (bit_vector)
        requires
            0xF0 <= b0 <= 0xF4,
            b0 == 0xF0 ==> 0x90 <= b1 <= 0xBF && c == 11,
            b0 == 0xF4 ==> 0x80 <= b1 <= 0x8F && c == 5,
            b0 != 0xF0 && b0 != 0xF4 ==> 0x80 <= b1 <= 0xBF && c == 6,
            0x80 <= b2 <= 0xBF,
            0x80 <= b3 <= 0xBF,
    ;
}

/// A complete sequence is exactly the canonical (shortest) encoding of the scalar it
/// decodes to: the decoder reports `Done(c)` only for the bytes of `c`'s UTF-8 form.
pub proof fn lemma_complete_is_canonical(s: Seq<u8>)
    requires
        is_complete_sequence(s),
    ensures
        s == encode_scalar(decode_first_scalar(s)),
{
    let b0 = s[0];
    if s.len() == 1 {
        let v = codepoint_width_1(b0);
        assert(has_width_1_encoding(v) && leading_byte_width_1(v) == b0) by (bit_vector)
            requires
                b0 <= 0x7F,
                v == codepoint_width_1(b0),
        ;
        assert(s =~= encode_scalar(v));
    } else if s.len() == 2 {
        let b1 = s[1];
        let v = codepoint_width_2(b0, b1);
        lemma_width_2(b0, b1);
        assert(leading_byte_width_2(v) == b0 && last_continuation_byte(v) == b1) by (bit_vector)
            requires
                0xC2 <= b0 <= 0xDF,
                0x80 <= b1 <= 0xBF,
                v == codepoint_width_2(b0, b1),
        ;
        assert(s =~= encode_scalar(v));
    } else if s.len() == 3 {
        let b1 = s[1];
        let b2 = s[2];
        let v = codepoint_width_3(b0, b1, b2);
        lemma_width_3(b0, b1, b2, byte_class(b0) as u32);
        assert(leading_byte_width_3(v) == b0 && second_last_continuation_byte(v) == b1
            && last_continuation_byte(v) == b2) by (bit_vector)
            requires
                0xE0 <= b0 <= 0xEF,
                0x80 <= b1 <= 0xBF,
                0x80 <= b2 <= 0xBF,
                v == codepoint_width_3(b0, b1, b2),
        ;
        assert(s =~= encode_scalar(v));
    } else {
        let b1 = s[1];
        let b2 = s[2];
        let b3 = s[3];
        let v = codepoint_width_4(b0, b1, b2, b3);
        lemma_width_4(b0, b1, b2, b3, byte_class(b0) as u32);
        assert(leading_byte_width_4(v) == b0 && third_last_continuation_byte(v) == b1
            && second_last_continuation_byte(v) == b2 && last_continuation_byte(v) == b3)
            by (bit_vector)
            requires
                0xF0 <= b0 <= 0xF4,
                0x80 <= b1 <= 0xBF,
                0x80 <= b2 <= 0xBF,
                0x80 <= b3 <= 0xBF,
                v == codepoint_width_4(b0, b1, b2, b3),
        ;
        assert(s =~= encode_scalar(v));
    }
}

/// Relies on char::from_u32: it returns the character exactly when the value is a
/// Unicode scalar value.
#[verifier::external_body]
pub(crate) fn char_from_scalar(v: u32) -> (r: Option<char>)
    ensures
        is_scalar(v) ==> r == Some(v as char),
        !is_scalar(v) ==> r is None,
{
    char::from_u32(v)
}

/// A UTF-8 decoder that consumes one byte at a time.
#[derive(Copy, Clone)]
pub struct UTF8Decoder {
    code_point: u32,
    state: u8,
    pending: Ghost<Seq<u8>>,
}

impl View for UTF8Decoder {
    type V = Seq<u8>;

    /// The bytes of the sequence being decoded.
    closed spec fn view(&self) -> Seq<u8> {
        self.pending@
    }
}

impl UTF8Decoder {
    /// The decoder's state agrees with its pending bytes.
    pub closed spec fn wf(&self) -> bool {
        &&& (self.pending@.len() == 0 || is_partial_sequence(self.pending@))
        &&& self.state == state_of(self.pending@)
        &&& self.pending@.len() > 0 ==> self.code_point == partial_value(self.pending@)
    }

    pub fn new() -> (r: Self)
        ensures
            r.wf(),
            r@ == Seq::<u8>::empty(),
    {
        UTF8Decoder { code_point: 0, state: OK, pending: Ghost(Seq::empty()) }
    }

    /// Drops whatever sequence was pending.
    pub fn reset(&mut self)
        ensures
            final(self).wf(),
            final(self)@ == Seq::<u8>::empty(),
    {
        self.state = OK;
        self.pending = Ghost(Seq::empty());
    }

    pub fn decode_byte(&mut self, byte: u8) -> (r: DecodeState)
        requires
            old(self).wf(),
        ensures
            final(self).wf(),
            (final(self)@, r) == decode_step(old(self)@, byte),
    {
        let class = UTF8_TABLE[byte as usize];
        assert(class == byte_class(byte));
        let ghost s = self.pending@.push(byte);
        proof {
            lemma_transition(self.pending@, byte);
            if self.pending@.len() > 0 {
                assert(s.drop_last() =~= self.pending@);
            }
        }
        self.code_point = if self.state == OK {
            (0xFFu32 >> (class as u32)) & (byte as u32)
        } else {
            (self.code_point << 6u32) | ((byte as u32) & 0x3Fu32)
        };
        let next = UTF8_TABLE[256 + self.state as usize + class as usize];
        self.state = next;
        if next == OK {
            proof {
                lemma_complete_value(s);
            }
            self.pending = Ghost(Seq::empty());
            match char_from_scalar(self.code_point) {
                Some(c) => DecodeState::Done(c),
                None => DecodeState::Error,
            }
        } else if next == ER {
            self.reset();
            DecodeState::Error
        } else if next == RW {
            self.reset();
            DecodeState::Rewind
        } else {
            self.pending = Ghost(s);
            DecodeState::Continue
        }
    }
}

} // verus!
