//! Keyboard input that the terminal sends to its program.
use vstd::prelude::*;

verus! {

/// An event from the window that the terminal acts on.
#[derive(Copy, Clone, Debug)]
pub enum TermikuWindowEvent {
    CharacterInput(char),
    KeyboardArrow(KeyboardArrow),
}

#[derive(Copy, Clone, Debug, PartialEq, Eq, Structural)]
pub enum KeyboardArrow {
    Up,
    Down,
    Right,
    Left,
}

/// The cursor key sequence CSI A, B, C or D that an arrow sends.
pub open spec fn arrow_sequence(arrow: KeyboardArrow) -> Seq<char> {
    let last = match arrow {
        KeyboardArrow::Up => 'A',
        KeyboardArrow::Down => 'B',
        KeyboardArrow::Right => 'C',
        KeyboardArrow::Left => 'D',
    };
    seq!['\x1B', '[', last]
}

impl KeyboardArrow {
    pub fn to_control_sequence(self) -> (r: &'static str)
        ensures
            r@ == arrow_sequence(self),
    {
        match self {
            KeyboardArrow::Up => {
                proof {
                    reveal_strlit("\x1B[A");
                }
                "\x1B[A"
            },
            KeyboardArrow::Down => {
                proof {
                    reveal_strlit("\x1B[B");
                }
                "\x1B[B"
            },
            KeyboardArrow::Right => {
                proof {
                    reveal_strlit("\x1B[C");
                }
                "\x1B[C"
            },
            KeyboardArrow::Left => {
                proof {
                    reveal_strlit("\x1B[D");
                }
                "\x1B[D"
            },
        }
    }
}

/// Whether the blinking cursor is shown `t` milliseconds into its cycle of a second.
pub fn new_cursor_state(t: u128) -> (r: bool)
    ensures
        r == (t % 1000 <= 500),
{
    (t % 1000) <= 500
}

} // verus!
