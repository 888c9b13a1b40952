//! Byte-level UTF-8 helpers and the small parser that each screen cell carries.
use vstd::prelude::*;
use vstd::utf8::{is_scalar, not_overlong_encoding};
use crate::utf8::char_from_scalar;

verus! {

/// Number of bytes of a sequence whose first byte has the bit pattern of `first_byte`:
/// 0xxxxxxx, 110xxxxx, 1110xxxx or 11110xxx; zero for any other pattern.
pub open spec fn byte_count_of(first_byte: u8) -> u8 {
    if first_byte <= 0x7F {
        1
    } else if 0xC0 <= first_byte <= 0xDF {
        2
    } else if 0xE0 <= first_byte <= 0xEF {
        3
    } else if 0xF0 <= first_byte <= 0xF7 {
        4
    } else {
        0
    }
}

pub fn number_of_byte_needed(first_byte: u8) -> (r: u8)
    ensures
        r == byte_count_of(first_byte),
{
    proof {
        assert((first_byte >> 7u8 == 0) == (first_byte <= 0x7F) && (first_byte >> 5u8 == 0b110)
            == (0xC0 <= first_byte <= 0xDF) && (first_byte >> 4u8 == 0b1110) == (0xE0
            <= first_byte <= 0xEF) && (first_byte >> 3u8 == 0b11110) == (0xF0 <= first_byte
            <= 0xF7)) by (bit_vector);
    }
    if (first_byte >> 7u8) == 0 {
        1
    } else if (first_byte >> 5u8) == 0b110 {
        2
    } else if (first_byte >> 4u8) == 0b1110 {
        3
    } else if (first_byte >> 3u8) == 0b11110 {
        4
    } else {
        0
    }
}

/// Whether the byte has the pattern 10xxxxxx of a continuation byte.
pub fn is_valid_intermediary(intermediary_byte: u8) -> (r: bool)
    ensures
        r == (0x80 <= intermediary_byte <= 0xBF),
{
    proof {
        assert((intermediary_byte >> 6u8 == 0b10) == (0x80 <= intermediary_byte <= 0xBF))
            by (bit_vector);
    }
    (intermediary_byte >> 6u8) == 0b10
}

/// Why the cell parser rejected a byte.
#[derive(Copy, Clone, Debug, Eq, PartialEq, Structural)]
pub enum Utf8ParserError {
    /// The byte never occurs in UTF-8 (C0, C1, F5 to FF).
    InvalidByte,
    /// A sequence was pending and the byte does not continue it.
    InvalidContinuationByte,
    /// The bytes encode a value that is not a Unicode scalar value, or use more bytes
    /// than the value needs.
    InvalidCodePoint(u32),
    /// A continuation byte arrived with no sequence pending.
    UnexpectedContinuationByte,
}

/// The result of feeding one byte to the cell parser.
pub type Utf8ParseResult = Result<Option<char>, Utf8ParserError>;

/// Bytes that never occur in UTF-8.
pub open spec fn is_invalid_utf8_byte(byte: u8) -> bool {
    byte == 0xC0 || byte == 0xC1 || byte >= 0xF5
}

/// Mask of the data bits of a lead byte followed by `following` continuation bytes.
pub open spec fn lead_mask(following: u32) -> u8 {
    if following == 1 {
        0x1F
    } else if following == 2 {
        0x0F
    } else {
        0x07
    }
}

/// Number of continuation bytes that follow a lead byte from C2 to F4.
pub open spec fn following_bytes(lead: u8) -> u32 {
    if lead <= 0xDF {
        1
    } else if lead <= 0xEF {
        2
    } else {
        3
    }
}

/// The character for a finished value of a `width`-byte sequence, or the error for a
/// value that is not a Unicode scalar value or that was encoded in more bytes than it
/// needs.
pub open spec fn finished(value: u32, width: u32) -> Utf8ParseResult {
    if is_scalar(value) && not_overlong_encoding(value, width as int) {
        Ok(Some(value as char))
    } else {
        Err(Utf8ParserError::InvalidCodePoint(value))
    }
}

/// The cell parser's model: the value read so far, how many continuation bytes are
/// still expected, and the length of the sequence being read.
pub struct Utf8ParserView {
    pub value: u32,
    pub length: u32,
    pub width: u32,
}

/// The cell parser with nothing pending.
pub open spec fn idle_parser() -> Utf8ParserView {
    Utf8ParserView { value: 0, length: 0, width: 0 }
}

/// One step of the cell parser on its model.
pub open spec fn utf8_parser_step(p: Utf8ParserView, byte: u8) -> (Utf8ParserView, Utf8ParseResult) {
    if is_invalid_utf8_byte(byte) {
        (Utf8ParserView { length: 0, ..p }, Err(Utf8ParserError::InvalidByte))
    } else if p.length == 0 {
        if byte < 0x80 {
            (p, Ok(Some(byte as char)))
        } else if 0x80 <= byte <= 0xBF {
            (p, Err(Utf8ParserError::UnexpectedContinuationByte))
        } else {
            let n = following_bytes(byte);
            (
                Utf8ParserView { value: (byte & lead_mask(n)) as u32, length: n, width: (n + 1) as u32 },
                Ok(None),
            )
        }
    } else if !(0x80 <= byte <= 0xBF) {
        (Utf8ParserView { length: 0, ..p }, Err(Utf8ParserError::InvalidContinuationByte))
    } else {
        let v = (p.value << 6u32) | ((byte & 0x3F) as u32);
        if p.length == 1 {
            (Utf8ParserView { value: v, length: 0, ..p }, finished(v, p.width))
        } else {
            (Utf8ParserView { value: v, length: (p.length - 1) as u32, ..p }, Ok(None))
        }
    }
}

/// Bitmasks for lead bytes of 2, 3 and 4 byte sequences.
const LEAD_MASK: [u8; 3] = [0x1F, 0x0F, 0x07];

/// Bitmask for continuation bytes.
const CONT_MASK: u8 = 0x3F;

/// A small UTF-8 parser that reports each malformation.
#[derive(Copy, Clone, Debug)]
pub struct Utf8Parser {
    /// The value of the code point parsed so far.
    value: u32,
    /// How many continuation bytes are still expected.
    length: u32,
    /// The length of the sequence being read.
    width: u32,
}

impl View for Utf8Parser {
    type V = Utf8ParserView;

    closed spec fn view(&self) -> Utf8ParserView {
        Utf8ParserView { value: self.value, length: self.length, width: self.width }
    }
}

impl Utf8Parser {
    pub closed spec fn wf(&self) -> bool {
        &&& self.length <= 3
        &&& self.length > 0 ==> 2 <= self.width <= 4
    }

    pub fn new() -> (r: Utf8Parser)
        ensures
            r.wf(),
            r@ == idle_parser(),
    {
        Utf8Parser { value: 0, length: 0, width: 0 }
    }

    /// Whether a sequence is pending.
    pub fn is_pending(&self) -> (r: bool)
        ensures
            r == (self@.length != 0),
    {
        self.length != 0
    }

    /// Feeds one byte. `Ok(Some(c))` when a character is complete, `Ok(None)` when more
    /// bytes are needed.
    pub fn parse_byte(&mut self, byte: u8) -> (r: Utf8ParseResult)
        requires
            old(self).wf(),
        ensures
            final(self).wf(),
            (final(self)@, r) == utf8_parser_step(old(self)@, byte),
    {
        if !is_valid_utf8_byte(byte) {
            self.length = 0;
            return Err(Utf8ParserError::InvalidByte);
        }
        if self.length == 0 {
            if byte < 0x80 {
                return Ok(Some(byte as char));
            } else if is_utf8_continuation_byte(byte) {
                return Err(Utf8ParserError::UnexpectedContinuationByte);
            }
            self.width = utf8_length(byte);
            self.length = self.width - 1;
            self.value = (byte & LEAD_MASK[(self.length - 1) as usize]) as u32;
            Ok(None)
        } else {
            if !is_utf8_continuation_byte(byte) {
                self.length = 0;
                return Err(Utf8ParserError::InvalidContinuationByte);
            }
            self.value = (self.value << 6u32) | ((byte & CONT_MASK) as u32);
            self.length = self.length - 1;
            if self.length == 0 {
                let v = self.value;
                let overlong = (self.width == 2 && v < 0x80) || (self.width == 3 && v < 0x800)
                    || (self.width == 4 && (v < 0x10000 || v > 0x10FFFF));
                if overlong {
                    return Err(Utf8ParserError::InvalidCodePoint(v));
                }
                match char_from_scalar(v) {
                    Some(c) => Ok(Some(c)),
                    None => Err(Utf8ParserError::InvalidCodePoint(self.value)),
                }
            } else {
                Ok(None)
            }
        }
    }

    /// Feeds bytes in turn and collects the result of each.
    pub fn parse_bytes(&mut self, bytes: &[u8]) -> (r: Vec<Utf8ParseResult>)
        requires
            old(self).wf(),
        ensures
            final(self).wf(),
            r@.len() == bytes@.len(),
            (final(self)@, r@) == utf8_parser_run(old(self)@, bytes@),
    {
        let mut out: Vec<Utf8ParseResult> = Vec::new();
        let mut i: usize = 0;
        while i < bytes.len()
            invariant
                self.wf(),
                i <= bytes@.len(),
                out@.len() == i,
                (self@, out@) == utf8_parser_run(old(self)@, bytes@.subrange(0, i as int)),
            decreases bytes@.len() - i,
        {
            let ghost prefix = bytes@.subrange(0, i as int);
            let r = self.parse_byte(bytes[i]);
            out.push(r);
            i += 1;
            assert(bytes@.subrange(0, i as int).drop_last() =~= prefix);
        }
        assert(bytes@.subrange(0, i as int) =~= bytes@);
        out
    }
}

/// The cell parser after a byte string, and the result of each byte.
pub open spec fn utf8_parser_run(start: Utf8ParserView, bytes: Seq<u8>) -> (Utf8ParserView, Seq<Utf8ParseResult>)
    decreases bytes.len(),
{
    if bytes.len() == 0 {
        (start, seq![])
    } else {
        let (p, results) = utf8_parser_run(start, bytes.drop_last());
        let (q, r) = utf8_parser_step(p, bytes.last());
        (q, results.push(r))
    }
}

/// The first character that the cell parser completes on `data`, stopping at the first
/// error.
pub open spec fn first_char(start: Utf8ParserView, data: Seq<u8>) -> Option<char>
    decreases data.len(),
{
    if data.len() == 0 {
        None
    } else {
        let (q, r) = utf8_parser_step(start, data[0]);
        match r {
            Ok(Some(c)) => Some(c),
            Ok(None) => first_char(q, data.drop_first()),
            Err(_) => None,
        }
    }
}

/// The character that `data` begins with, or `None` when the cell parser meets an
/// error or the data ends first.
pub fn convert_to_char(data: Vec<u8>) -> (r: Option<char>)
    ensures
        r == first_char(idle_parser(), data@),
{
    let mut a = Utf8Parser::new();
    let mut i: usize = 0;
    assert(data@.subrange(0, data@.len() as int) =~= data@);
    while i < data.len()
        invariant
            a.wf(),
            i <= data@.len(),
            first_char(a@, data@.subrange(i as int, data@.len() as int)) == first_char(
                idle_parser(),
                data@,
            ),
        decreases data@.len() - i,
    {
        let ghost rest = data@.subrange(i as int, data@.len() as int);
        let r = a.parse_byte(data[i]);
        proof {
            assert(rest[0] == data@[i as int]);
            assert(rest.drop_first() =~= data@.subrange(i + 1, data@.len() as int));
        }
        match r {
            Ok(Some(c)) => {
                return Some(c);
            },
            Ok(None) => {},
            Err(_) => {
                return None;
            },
        }
        i += 1;
    }
    proof {
        assert(data@.subrange(i as int, data@.len() as int) =~= Seq::<u8>::empty());
    }
    None
}

fn is_valid_utf8_byte(byte: u8) -> (r: bool)
    ensures
        r == !is_invalid_utf8_byte(byte),
{
    !(byte == 0xC0 || byte == 0xC1 || byte >= 0xF5)
}

fn is_utf8_continuation_byte(byte: u8) -> (r: bool)
    ensures
        r == (0x80 <= byte <= 0xBF),
{
    proof {
        assert((byte >> 6u8 == 0b10) == (0x80 <= byte <= 0xBF)) by (bit_vector);
    }
    (byte >> 6u8) == 0b10
}

/// Length of the sequence that a valid lead byte starts.
fn utf8_length(byte: u8) -> (r: u32)
    requires
        !is_invalid_utf8_byte(byte),
        !(0x80 <= byte <= 0xBF),
    ensures
        byte < 0x80 ==> r == 1,
        byte >= 0x80 ==> r == following_bytes(byte) + 1,
{
    if byte < 0x80 {
        1
    } else if byte <= 0xDF {
        2
    } else if byte <= 0xEF {
        3
    } else {
        4
    }
}

} // verus!
