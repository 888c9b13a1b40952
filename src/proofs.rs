//! Properties of the recognizer and the screen over whole byte streams.
//!
//! They are stated over the models `parse_run` and `screen_feed`. These are exactly what
//! the executable code computes: `TerminalInputParser::parse_bytes` ensures that its
//! events and final state are `parse_run` of the parser's model (`parse_byte` is one
//! `parse_step`), `TerminalInputParser::new` starts in the ground state with nothing
//! pending, and `Screen::add_to_buffer` ensures `screen_feed`.
use vstd::prelude::*;
use vstd::utf8::*;
use crate::recognizer::{
    class_of, parse_run, parse_step, InputView, Parameter, ParserView, State, C0, C0S, PAR, SEP,
    REPLACEMENT,
};
use crate::control::ControlTypeView;
use crate::screen::{
    advance, apply_control, cursor_ok, erase_in_page, in_grid, reset_mode, set_mode, line_feed, retire_top, screen_feed, snapshot, view_wf,
    ScreenView,
};
use crate::utf8::{
    decode_step, is_complete_sequence, is_partial_sequence, is_sequence_prefix, second_byte_allowed, sequence_length,
};

verus! {

/// Running the recognizer over `a + b` is running it over `a`, then over `b`.
pub proof fn lemma_run_concat(p: ParserView, a: Seq<u8>, b: Seq<u8>)
    ensures
        ({
            let (q, ea) = parse_run(p, a);
            let (r, eb) = parse_run(q, b);
            parse_run(p, a + b) == (r, ea + eb)
        }),
    decreases b.len(),
{
    if b.len() == 0 {
        assert(a + b =~= a);
        let (q, ea) = parse_run(p, a);
        assert(ea + seq![] =~= ea);
    } else {
        lemma_run_concat(p, a, b.drop_last());
        assert((a + b).drop_last() =~= a + b.drop_last());
        assert((a + b).last() == b.last());
        let (q, ea) = parse_run(p, a);
        let (r, eb) = parse_run(q, b.drop_last());
        let (t, e) = parse_step(r, b.last());
        assert((ea + eb).push(e) =~= ea + eb.push(e));
    }
}

/// Running the recognizer over one byte is one step.
pub proof fn lemma_run_single(p: ParserView, b: u8)
    ensures
        ({
            let (q, e) = parse_step(p, b);
            parse_run(p, seq![b]) == (q, seq![e])
        }),
{
    reveal_with_fuel(parse_run, 2);
    assert(seq![b].drop_last() =~= Seq::<u8>::empty());
    assert(seq![b].last() == b);
    let (q, e) = parse_step(p, b);
    assert(Seq::<InputView>::empty().push(e) =~= seq![e]);
}

/// The same bytes fed to recognizers in the same state produce the same events and
/// leave them in the same state.
pub proof fn lemma_deterministic(p: ParserView, q: ParserView, bytes: Seq<u8>)
    requires
        p == q,
    ensures
        parse_run(p, bytes) == parse_run(q, bytes),
{
}

/// A state that absorbs input after a malformed function.
pub open spec fn is_error_state(s: State) -> bool {
    s == State::ControlFunctionError || s == State::ControlStringError || s
        == State::ControlSequenceError
}

/// A control function is emitted only by the byte that completes it, which leaves the
/// recognizer in the ground state: a C0 control or the byte after ESC, emitted alone
/// with nothing else collected, or the final byte of a sequence or string; never out of
/// an error state. A character from 0x80 up is emitted only when its sequence is
/// complete.
pub proof fn lemma_never_partial(p: ParserView, b: u8)
    ensures
        ({
            let (q, e) = parse_step(p, b);
            &&& e is Control ==> {
                &&& b < 0x80
                &&& !is_error_state(p.state)
                &&& q.state == State::Ground
                &&& ({
                    let k = e->Control_0;
                    ||| (k.start == b && !k.private && k.params.len() == 0 && k.bytes.len() == 0)
                    ||| k.end == b
                })
            }
            &&& !(e is SyncControl)
            &&& (b >= 0x80 && e is Char && e->Char_0 != REPLACEMENT) ==> {
                &&& p.state == State::Ground
                &&& is_complete_sequence(p.pending.push(b))
                &&& e->Char_0 == decode_first_scalar(p.pending.push(b)) as char
            }
            &&& (b >= 0x80 && e is SyncChar && e->SyncChar_1 != REPLACEMENT) ==> {
                &&& p.state == State::Ground
                &&& is_complete_sequence(seq![b])
                &&& e->SyncChar_1 == decode_first_scalar(seq![b]) as char
            }
            &&& (b >= 0x80 && p.state == State::Ground && is_partial_sequence(p.pending.push(b)))
                ==> e is Continue
        }),
{
    let (q, e) = parse_step(p, b);
    if b >= 0x80 && p.state == State::Ground {
        let s = p.pending.push(b);
        let (pending, d) = decode_step(p.pending, b);
        if d is Rewind {
            assert(Seq::<u8>::empty().push(b) =~= seq![b]);
        }
    }
}

proof fn lemma_encode_width_2(c: u32)
    requires
        has_width_2_encoding(c),
    ensures
        0xC2 <= leading_byte_width_2(c) <= 0xDF,
        0x80 <= last_continuation_byte(c) <= 0xBF,
{
    assert(0xC2 <= leading_byte_width_2(c) <= 0xDF && 0x80 <= last_continuation_byte(c) <= 0xBF)
        by (bit_vector)
        requires
            has_width_2_encoding(c),
    ;
}

proof fn lemma_encode_width_3(c: u32)
    requires
        has_width_3_encoding(c),
    ensures
        0xE0 <= leading_byte_width_3(c) <= 0xEF,
        second_byte_allowed(leading_byte_width_3(c), second_last_continuation_byte(c)),
        0x80 <= last_continuation_byte(c) <= 0xBF,
{
    let l = leading_byte_width_3(c);
    let m = second_last_continuation_byte(c);
    assert(0xE0 <= l <= 0xEF && 0x80 <= m <= 0xBF && (l == 0xE0 ==> 0xA0 <= m) && (l == 0xED
        ==> m <= 0x9F) && 0x80 <= last_continuation_byte(c) <= 0xBF) by (bit_vector)
        requires
            has_width_3_encoding(c),
            l == leading_byte_width_3(c),
            m == second_last_continuation_byte(c),
    ;
}

proof fn lemma_encode_width_4(c: u32)
    requires
        has_width_4_encoding(c),
    ensures
        0xF0 <= leading_byte_width_4(c) <= 0xF4,
        second_byte_allowed(leading_byte_width_4(c), third_last_continuation_byte(c)),
        0x80 <= second_last_continuation_byte(c) <= 0xBF,
        0x80 <= last_continuation_byte(c) <= 0xBF,
{
    let l = leading_byte_width_4(c);
    let m = third_last_continuation_byte(c);
    assert(0xF0 <= l <= 0xF4 && 0x80 <= m <= 0xBF && (l == 0xF0 ==> 0x90 <= m) && (l == 0xF4
        ==> m <= 0x8F) && 0x80 <= second_last_continuation_byte(c) <= 0xBF && 0x80
        <= last_continuation_byte(c) <= 0xBF) by (bit_vector)
        requires
            has_width_4_encoding(c),
            l == leading_byte_width_4(c),
            m == third_last_continuation_byte(c),
    ;
}

/// The canonical encoding of a scalar above 0x7F is one complete sequence, which
/// decodes to that scalar.
proof fn lemma_encoding_complete(c: char)
    requires
        c as u32 >= 0x80,
    ensures
        is_complete_sequence(encode_scalar(c as u32)),
        encode_scalar(c as u32)[0] >= 0x80,
        decode_first_scalar(encode_scalar(c as u32)) as char == c,
{
    let v = c as u32;
    char_is_scalar(c);
    encode_utf8_first_scalar(seq![c]);
    assert(seq![c].drop_first() =~= Seq::<char>::empty());
    assert(encode_utf8(seq![c]) =~= encode_scalar(v) + encode_utf8(Seq::<char>::empty()));
    assert(encode_utf8(seq![c]) =~= encode_scalar(v));
    char_u32_cast(c, v);
    if has_width_2_encoding(v) {
        lemma_encode_width_2(v);
    } else if has_width_3_encoding(v) {
        lemma_encode_width_3(v);
    } else {
        lemma_encode_width_4(v);
    }
}

/// Feeding the first `k` bytes of a complete sequence from 0x80 up to a ground-state
/// recognizer with nothing pending.
proof fn lemma_feed_sequence(p: ParserView, s: Seq<u8>, k: int)
    requires
        p.state == State::Ground,
        p.pending.len() == 0,
        is_complete_sequence(s),
        s[0] >= 0x80,
        1 <= k <= s.len(),
    ensures
        ({
            let (q, ev) = parse_run(p, s.take(k));
            &&& ev.len() == k
            &&& k < s.len() ==> q == ParserView { pending: s.take(k), ..p }
            &&& k == s.len() ==> q == ParserView { pending: seq![], ..p }
            &&& forall|i: int| 0 <= i < k - 1 ==> ev[i] == InputView::Continue
            &&& k < s.len() ==> ev[k - 1] == InputView::Continue
            &&& k == s.len() ==> ev[k - 1] == InputView::Char(decode_first_scalar(s) as char)
        }),
    decreases k,
{
    let t = s.take(k);
    if k == 1 {
        lemma_run_single(p, s[0]);
        assert(t =~= seq![s[0]]);
        assert(p.pending.push(s[0]) =~= seq![s[0]]);
    } else {
        lemma_feed_sequence(p, s, k - 1);
        assert(t.drop_last() =~= s.take(k - 1));
        assert(s.take(k - 1).push(s[k - 1]) =~= t);
        if k == s.len() {
            assert(t =~= s);
        }
    }
}

/// Every Unicode scalar value other than a C0 control and DEL, fed to a ground-state
/// recognizer in its canonical UTF-8 encoding, comes out as exactly that character.
pub proof fn lemma_utf8_round_trip(p: ParserView, c: char)
    requires
        p.state == State::Ground,
        p.pending.len() == 0,
        c as u32 >= 0x20,
        c as u32 != 0x7F,
    ensures
        ({
            let (q, ev) = parse_run(p, encode_scalar(c as u32));
            &&& ev.len() == encode_scalar(c as u32).len()
            &&& ev.last() == InputView::Char(c)
            &&& forall|i: int| 0 <= i < ev.len() - 1 ==> ev[i] == InputView::Continue
            &&& q == p
        }),
{
    let v = c as u32;
    if v < 0x80 {
        let b = leading_byte_width_1(v);
        assert(b as u32 == v && 0x20 <= b < 0x7F) by (bit_vector)
            requires
                b == leading_byte_width_1(v),
                0x20 <= v < 0x7F,
        ;
        assert(encode_scalar(v) =~= seq![b]);
        lemma_run_single(p, b);
        char_u32_cast(c, v);
        assert(b as char == c);
    } else {
        lemma_encoding_complete(c);
        let s = encode_scalar(v);
        lemma_feed_sequence(p, s, s.len() as int);
        assert(s.take(s.len() as int) =~= s);
        assert(p.pending =~= seq![]);
    }
}

/// A byte from 0x80 up that cannot start a sequence, followed by the encoding of a
/// scalar above 0x7F: one replacement character for the stray byte, then the scalar.
pub proof fn lemma_resynchronize(p: ParserView, x: u8, c: char)
    requires
        p.state == State::Ground,
        p.pending.len() == 0,
        x >= 0x80,
        sequence_length(x) == 0,
        c as u32 >= 0x80,
    ensures
        ({
            let (q, ev) = parse_run(p, seq![x] + encode_scalar(c as u32));
            &&& ev.len() == 1 + encode_scalar(c as u32).len()
            &&& ev[0] == InputView::Char(REPLACEMENT)
            &&& ev.last() == InputView::Char(c)
            &&& forall|i: int| 1 <= i < ev.len() - 1 ==> ev[i] == InputView::Continue
            &&& q == p
        }),
{
    let s = encode_scalar(c as u32);
    lemma_run_concat(p, seq![x], s);
    lemma_run_single(p, x);
    assert(p.pending.push(x) =~= seq![x]);
    lemma_utf8_round_trip(p, c);
}

/// Value of a string of decimal digits.
pub open spec fn decimal_value(digits: Seq<u8>) -> nat
    decreases digits.len(),
{
    if digits.len() == 0 {
        0
    } else {
        decimal_value(digits.drop_last()) * 10 + (digits.last() - 0x30) as nat
    }
}

/// All bytes are decimal digits.
pub open spec fn all_digits(digits: Seq<u8>) -> bool {
    forall|i: int| 0 <= i < digits.len() ==> 0x30 <= #[trigger] digits[i] <= 0x39
}

/// No event is a control function.
pub open spec fn no_control(ev: Seq<InputView>) -> bool {
    forall|i: int| 0 <= i < ev.len() ==> !(#[trigger] ev[i] is Control)
}

/// The recognizer after ESC [: inside a control sequence, ready for its first parameter.
proof fn lemma_csi_intro(p: ParserView)
    requires
        p.state == State::Ground,
    ensures
        ({
            let (q, ev) = parse_run(p, seq![0x1Bu8, 0x5Bu8]);
            &&& no_control(ev)
            &&& q.state == State::ControlSequence
            &&& q.pacc == Parameter::Default
        }),
{
    let intro = seq![0x1Bu8, 0x5Bu8];
    lemma_run_concat(p, seq![0x1Bu8], seq![0x5Bu8]);
    assert(seq![0x1Bu8] + seq![0x5Bu8] =~= intro);
    lemma_run_single(p, 0x1Bu8);
    let (q1, e1) = parse_step(p, 0x1Bu8);
    lemma_run_single(q1, 0x5Bu8);
    let (q, ev) = parse_run(p, intro);
    assert(ev =~= seq![InputView::Continue, InputView::Continue]);
}

/// The same bytes fed to equal screens with equal recognizers leave equal screens
/// and recognizers.
pub proof fn lemma_screen_deterministic(s: ScreenView, t: ScreenView, p: ParserView, q: ParserView, data: Seq<u8>)
    requires
        s == t,
        p == q,
    ensures
        screen_feed(s, p, data) == screen_feed(t, q, data),
{
}

/// After any cursor-motion control (and any other control function) the cursor lies
/// on the grid.
pub proof fn lemma_cursor_clamped(s: ScreenView, control: ControlTypeView)
    requires
        view_wf(s),
    ensures
        in_grid(apply_control(s, control).cursor.position, s.rows, s.cols),
        apply_control(s, control).rows == s.rows,
        apply_control(s, control).cols == s.cols,
{
    match control {
        ControlTypeView::SetMode(modes) => {
            assert(cursor_ok(s.alt_cursor, s.rows, s.cols));
        },
        ControlTypeView::ResetMode(modes) => {
            assert(cursor_ok(s.alt_cursor, s.rows, s.cols));
        },
        ControlTypeView::EraseInPage(mode) => {
            assert(erase_in_page(s, mode).cursor == s.cursor);
        },
        _ => {},
    }
}

/// A scroll while the alternate buffer is shown leaves the history as it was.
pub proof fn lemma_alternate_scroll_keeps_history(s: ScreenView)
    requires
        s.is_alternative,
    ensures
        retire_top(s).history == s.history,
        advance(s).history == s.history,
        line_feed(s).history == s.history,
{
}

/// A snapshot depends on the screen alone: two snapshots of one screen are equal.
pub proof fn lemma_snapshot_pure(s: ScreenView, t: ScreenView, start: int, end: int)
    requires
        s == t,
    ensures
        snapshot(s, start, end) == snapshot(t, start, end),
{
}

/// A sequence broken off by the encoding of a scalar above 0x7F: one replacement
/// character at the scalar's first byte, which then starts the scalar afresh.
pub proof fn lemma_resynchronize_after_broken_sequence(p: ParserView, c: char)
    requires
        p.state == State::Ground,
        is_partial_sequence(p.pending),
        c as u32 >= 0x80,
    ensures
        ({
            let (q, ev) = parse_run(p, encode_scalar(c as u32));
            &&& ev.len() == encode_scalar(c as u32).len()
            &&& ev[0] == InputView::Char(REPLACEMENT)
            &&& ev.last() == InputView::Char(c)
            &&& forall|i: int| 1 <= i < ev.len() - 1 ==> ev[i] == InputView::Continue
            &&& q == ParserView { pending: seq![], ..p }
        }),
{
    lemma_encoding_complete(c);
    let s = encode_scalar(c as u32);
    let p0 = ParserView { pending: seq![], ..p };
    let lead = s[0];
    let rest = s.skip(1);
    assert(s.len() >= 2);
    assert(s =~= seq![lead] + rest);
    lemma_run_concat(p, seq![lead], rest);
    lemma_run_concat(p0, seq![lead], rest);
    lemma_run_single(p, lead);
    lemma_run_single(p0, lead);
    assert(!is_sequence_prefix(p.pending.push(lead))) by {
        let t = p.pending.push(lead);
        assert(t[p.pending.len() as int] == lead);
        assert(t[0] == p.pending[0]);
    }
    assert(Seq::<u8>::empty().push(lead) =~= seq![lead]);
    assert(is_partial_sequence(seq![lead])) by {
        assert(s.take(1) =~= seq![lead]);
    }
    let (q1, e1) = parse_step(p, lead);
    let (q01, e01) = parse_step(p0, lead);
    assert(q1 == q01);
    assert(e1 == InputView::Char(REPLACEMENT));
    assert(e01 == InputView::Continue);
    let (r, er) = parse_run(q1, rest);
    lemma_feed_sequence(p0, s, s.len() as int);
    assert(s.take(s.len() as int) =~= s);
    let (q0, ev0) = parse_run(p0, s);
    assert(ev0 == seq![e01] + er);
    let (q, ev) = parse_run(p, s);
    assert(ev == seq![e1] + er);
    assert(ev.last() == ev0.last());
    assert forall|i: int| 1 <= i < ev.len() - 1 implies ev[i] == InputView::Continue by {
        assert(ev[i] == er[i - 1]);
        assert(ev0[i] == er[i - 1]);
    }
}

/// Bytes that make up parameters: digits and separators.
pub open spec fn all_parameter_bytes(bytes: Seq<u8>) -> bool {
    forall|i: int| 0 <= i < bytes.len() ==> 0x30 <= #[trigger] bytes[i] <= 0x3B
}

/// The recognizer inside a control sequence, ready for a new parameter, or inside a
/// dropped one.
pub open spec fn at_parameter_start(q: ParserView) -> bool {
    (q.state == State::ControlSequence && q.pacc == Parameter::Default) || q.state
        == State::ControlSequenceError
}

/// The recognizer after ESC [ and parameter bytes: still inside the sequence (or
/// inside a dropped one), with no control function emitted. After a separator it is
/// ready for a new parameter.
proof fn lemma_parameter_prefix(p: ParserView, pre: Seq<u8>)
    requires
        p.state == State::Ground,
        all_parameter_bytes(pre),
    ensures
        ({
            let (q, ev) = parse_run(p, seq![0x1Bu8, 0x5Bu8] + pre);
            &&& no_control(ev)
            &&& q.state == State::ControlSequence || q.state == State::ControlSequenceParameter
                || q.state == State::ControlSequenceError
            &&& q.state == State::ControlSequence ==> q.pacc == Parameter::Default
            &&& (pre.len() == 0 || pre.last() >= 0x3A) ==> at_parameter_start(q)
        }),
    decreases pre.len(),
{
    let intro = seq![0x1Bu8, 0x5Bu8];
    if pre.len() == 0 {
        lemma_csi_intro(p);
        assert(intro + pre =~= intro);
    } else {
        let rest = pre.drop_last();
        let b = pre.last();
        assert(all_parameter_bytes(rest)) by {
            assert forall|i: int| 0 <= i < rest.len() implies 0x30 <= #[trigger] rest[i] <= 0x3B by {
                assert(rest[i] == pre[i]);
            }
        }
        assert(0x30 <= b <= 0x3B) by {
            assert(b == pre[pre.len() - 1]);
        }
        lemma_parameter_prefix(p, rest);
        assert((intro + pre).drop_last() =~= intro + rest);
        assert((intro + pre).last() == b);
        let (q0, ev0) = parse_run(p, intro + rest);
        let (q1, ev1) = parse_run(p, intro + pre);
        assert(class_of(b) == PAR || class_of(b) == SEP);
        assert forall|i: int| 0 <= i < ev1.len() implies !(#[trigger] ev1[i] is Control) by {
            if i < ev0.len() {
                assert(ev1[i] == ev0[i]);
            }
        }
    }
}

/// From the start of a parameter, digits either build its value or, once it exceeds
/// 65535, leave the sequence dropped; no control function comes out.
proof fn lemma_digits_from(q: ParserView, digits: Seq<u8>)
    requires
        at_parameter_start(q),
        all_digits(digits),
    ensures
        ({
            let (r, ev) = parse_run(q, digits);
            &&& no_control(ev)
            &&& r.state == State::ControlSequence || r.state == State::ControlSequenceParameter
                || r.state == State::ControlSequenceError
            &&& q.state == State::ControlSequenceError ==> r.state == State::ControlSequenceError
            &&& q.state == State::ControlSequence && digits.len() > 0 && decimal_value(digits)
                <= 0xFFFF ==> r.state == State::ControlSequenceParameter && r.pacc
                == Parameter::Value(decimal_value(digits) as u16)
            &&& decimal_value(digits) > 0xFFFF ==> r.state == State::ControlSequenceError
        }),
    decreases digits.len(),
{
    reveal_with_fuel(parse_run, 1);
    if digits.len() == 0 {
        assert(parse_run(q, digits) == (q, Seq::<InputView>::empty()));
    } else {
        let rest = digits.drop_last();
        let d = digits.last();
        assert(all_digits(rest)) by {
            assert forall|i: int| 0 <= i < rest.len() implies 0x30 <= #[trigger] rest[i] <= 0x39 by {
                assert(rest[i] == digits[i]);
            }
        }
        assert(0x30 <= d <= 0x39) by {
            assert(d == digits[digits.len() - 1]);
        }
        lemma_digits_from(q, rest);
        let (r0, ev0) = parse_run(q, rest);
        assert(class_of(d) == PAR);
        if decimal_value(rest) > 0xFFFF {
            assert(decimal_value(digits) > 0xFFFF) by (nonlinear_arith)
                requires
                    decimal_value(digits) == decimal_value(rest) * 10 + (d - 0x30) as nat,
                    decimal_value(rest) > 0xFFFF,
            ;
        }
        let (r1, ev1) = parse_run(q, digits);
        assert forall|i: int| 0 <= i < ev1.len() implies !(#[trigger] ev1[i] is Control) by {
            if i < ev0.len() {
                assert(ev1[i] == ev0[i]);
            }
        }
    }
}

/// A parameter over 65535 anywhere in a control sequence drops it: after ESC [, any
/// parameters ended by a separator, the overflowing digits, any further parameter bytes
/// and a final byte, no control function has come out and the recognizer is back in
/// the ground state.
pub proof fn lemma_any_parameter_overflow(
    p: ParserView,
    pre: Seq<u8>,
    digits: Seq<u8>,
    post: Seq<u8>,
    f: u8,
)
    requires
        p.state == State::Ground,
        all_parameter_bytes(pre),
        pre.len() == 0 || pre.last() >= 0x3A,
        all_digits(digits),
        decimal_value(digits) > 0xFFFF,
        all_parameter_bytes(post),
        0x40 <= f <= 0x7E,
    ensures
        ({
            let (q, ev) = parse_run(p, seq![0x1Bu8, 0x5Bu8] + pre + digits + post + seq![f]);
            no_control(ev) && q.state == State::Ground
        }),
{
    let intro = seq![0x1Bu8, 0x5Bu8];
    lemma_parameter_prefix(p, pre);
    let (q1, ev1) = parse_run(p, intro + pre);
    lemma_digits_from(q1, digits);
    lemma_run_concat(p, intro + pre, digits);
    let (q2, ev2) = parse_run(q1, digits);
    assert(q2.state == State::ControlSequenceError);
    lemma_error_absorbs(q2, post);
    lemma_run_concat(p, intro + pre + digits, post);
    let (q3, ev3) = parse_run(q2, post);
    lemma_run_concat(p, intro + pre + digits + post, seq![f]);
    lemma_run_single(q3, f);
    let (q4, e4) = parse_step(q3, f);
    let (q, ev) = parse_run(p, intro + pre + digits + post + seq![f]);
    assert(ev == ev1 + ev2 + ev3 + seq![e4]);
    assert forall|i: int| 0 <= i < ev.len() implies !(#[trigger] ev[i] is Control) by {
        if i < ev1.len() {
            assert(ev[i] == ev1[i]);
        } else if i < ev1.len() + ev2.len() {
            assert(ev[i] == ev2[i - ev1.len()]);
        } else if i < ev1.len() + ev2.len() + ev3.len() {
            assert(ev[i] == ev3[i - ev1.len() - ev2.len()]);
        }
    }
}

/// A dropped control sequence absorbs parameter bytes.
proof fn lemma_error_absorbs(q: ParserView, bytes: Seq<u8>)
    requires
        q.state == State::ControlSequenceError,
        all_parameter_bytes(bytes),
    ensures
        ({
            let (r, ev) = parse_run(q, bytes);
            no_control(ev) && r.state == State::ControlSequenceError
        }),
    decreases bytes.len(),
{
    reveal_with_fuel(parse_run, 1);
    if bytes.len() > 0 {
        let rest = bytes.drop_last();
        let b = bytes.last();
        assert(all_parameter_bytes(rest)) by {
            assert forall|i: int| 0 <= i < rest.len() implies 0x30 <= #[trigger] rest[i] <= 0x3B by {
                assert(rest[i] == bytes[i]);
            }
        }
        assert(0x30 <= b <= 0x3B) by {
            assert(b == bytes[bytes.len() - 1]);
        }
        lemma_error_absorbs(q, rest);
        let (r0, ev0) = parse_run(q, rest);
        assert(class_of(b) == PAR || class_of(b) == SEP);
        let (r1, ev1) = parse_run(q, bytes);
        assert forall|i: int| 0 <= i < ev1.len() implies !(#[trigger] ev1[i] is Control) by {
            if i < ev0.len() {
                assert(ev1[i] == ev0[i]);
            }
        }
    }
}

} // verus!
