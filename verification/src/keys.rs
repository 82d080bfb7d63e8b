//! The key decoder: raw input bytes to logical key events.

use vstd::prelude::*;

verus! {

/// A decoded logical input action.
#[derive(Clone, Copy, Debug, PartialEq, Eq, Structural)]
pub enum KeyEvent {
    /// An ordinary byte, inserted verbatim.
    Char(u8),
    /// Ctrl-C.
    Interrupt,
    Enter,
    Backspace,
    Delete,
    ArrowUp,
    ArrowDown,
    ArrowLeft,
    ArrowRight,
    /// An escape sequence whose final byte selects no direction; ignored.
    Unrecognized,
}

/// Decoder state. Byte 27 opens an escape sequence of exactly two more
/// bytes: the first is ignored and the second selects the direction.
#[derive(Clone, Copy, Debug, PartialEq, Eq, Structural)]
pub enum DecodeState {
    Idle,
    /// Byte 27 was seen; the next byte is the ignored middle of the sequence.
    EscStart,
    /// The next byte is the final one of the sequence and selects the event.
    EscFinal,
}

/// The decoding table: one input byte takes the decoder from `state` to the
/// next state and yields at most one event. Mid-sequence bytes yield none.
pub open spec fn decode_spec(state: DecodeState, b: u8) -> (DecodeState, Option<KeyEvent>) {
    match state {
        DecodeState::Idle => if b == 3 {
            (DecodeState::Idle, Some(KeyEvent::Interrupt))
        } else if b == 13 {
            (DecodeState::Idle, Some(KeyEvent::Enter))
        } else if b == 127 {
            (DecodeState::Idle, Some(KeyEvent::Backspace))
        } else if b == 126 {
            (DecodeState::Idle, Some(KeyEvent::Delete))
        } else if b == 27 {
            (DecodeState::EscStart, None)
        } else {
            (DecodeState::Idle, Some(KeyEvent::Char(b)))
        },
        DecodeState::EscStart => (DecodeState::EscFinal, None),
        DecodeState::EscFinal => (
            DecodeState::Idle,
            Some(
                if b == 65 {
                    KeyEvent::ArrowUp
                } else if b == 66 {
                    KeyEvent::ArrowDown
                } else if b == 67 {
                    KeyEvent::ArrowRight
                } else if b == 68 {
                    KeyEvent::ArrowLeft
                } else {
                    KeyEvent::Unrecognized
                },
            ),
        ),
    }
}

/// Feeds one byte to the decoder.
pub fn decode_byte(state: DecodeState, b: u8) -> (r: (DecodeState, Option<KeyEvent>))
    ensures
        r == decode_spec(state, b),
{
    match state {
        DecodeState::Idle => {
            if b == 3 {
                (DecodeState::Idle, Some(KeyEvent::Interrupt))
            } else if b == 13 {
                (DecodeState::Idle, Some(KeyEvent::Enter))
            } else if b == 127 {
                (DecodeState::Idle, Some(KeyEvent::Backspace))
            } else if b == 126 {
                (DecodeState::Idle, Some(KeyEvent::Delete))
            } else if b == 27 {
                (DecodeState::EscStart, None)
            } else {
                (DecodeState::Idle, Some(KeyEvent::Char(b)))
            }
        },
        DecodeState::EscStart => (DecodeState::EscFinal, None),
        DecodeState::EscFinal => {
            let ev = if b == 65 {
                KeyEvent::ArrowUp
            } else if b == 66 {
                KeyEvent::ArrowDown
            } else if b == 67 {
                KeyEvent::ArrowRight
            } else if b == 68 {
                KeyEvent::ArrowLeft
            } else {
                KeyEvent::Unrecognized
            };
            (DecodeState::Idle, Some(ev))
        },
    }
}

} // verus!
