//! The keyboard of the input reader: which message a key stroke sends to
//! the client, and which to the sound engine.
//!
//! Keys are named by their Linux input event codes. The two rows of letters
//! from `A` play the sixteen semitones from middle C.

use vstd::prelude::*;
use vstd::string::StringExecFns;

verus! {

pub const KEY_1: u16 = 2;

pub const KEY_2: u16 = 3;

pub const KEY_MINUS: u16 = 12;

pub const KEY_EQUAL: u16 = 13;

pub const KEY_TAB: u16 = 15;

pub const KEY_Q: u16 = 16;

pub const KEY_W: u16 = 17;

pub const KEY_E: u16 = 18;

pub const KEY_R: u16 = 19;

pub const KEY_T: u16 = 20;

pub const KEY_Y: u16 = 21;

pub const KEY_U: u16 = 22;

pub const KEY_I: u16 = 23;

pub const KEY_O: u16 = 24;

pub const KEY_P: u16 = 25;

pub const KEY_LEFTBRACE: u16 = 26;

pub const KEY_RIGHTBRACE: u16 = 27;

pub const KEY_A: u16 = 30;

pub const KEY_S: u16 = 31;

pub const KEY_D: u16 = 32;

pub const KEY_F: u16 = 33;

pub const KEY_G: u16 = 34;

pub const KEY_H: u16 = 35;

pub const KEY_J: u16 = 36;

pub const KEY_K: u16 = 37;

pub const KEY_L: u16 = 38;

pub const KEY_V: u16 = 47;

pub const KEY_M: u16 = 50;

pub const KEY_SPACE: u16 = 57;

pub const KEY_KPMINUS: u16 = 74;

pub const KEY_KPPLUS: u16 = 78;

pub const KEY_UP: u16 = 103;

pub const KEY_LEFT: u16 = 105;

pub const KEY_RIGHT: u16 = 106;

pub const KEY_DOWN: u16 = 108;

/// What happened to a key.
#[derive(Clone, Copy, Debug, PartialEq, Eq, Structural)]
pub enum Stroke {
    Push,
    Release,
    Other,
}

/// The pitch that a key plays, if it is one of the sixteen note keys.
pub open spec fn pitch_of(code: u16) -> Option<u8> {
    if code == KEY_A {
        Some(60)
    } else if code == KEY_W {
        Some(61)
    } else if code == KEY_S {
        Some(62)
    } else if code == KEY_E {
        Some(63)
    } else if code == KEY_D {
        Some(64)
    } else if code == KEY_F {
        Some(65)
    } else if code == KEY_T {
        Some(66)
    } else if code == KEY_G {
        Some(67)
    } else if code == KEY_Y {
        Some(68)
    } else if code == KEY_H {
        Some(69)
    } else if code == KEY_U {
        Some(70)
    } else if code == KEY_J {
        Some(71)
    } else if code == KEY_K {
        Some(72)
    } else if code == KEY_O {
        Some(73)
    } else if code == KEY_L {
        Some(74)
    } else if code == KEY_P {
        Some(75)
    } else {
        None
    }
}

/// The pitch that a key plays.
pub fn pitch(code: u16) -> (p: Option<u8>)
    ensures
        p == pitch_of(code),
        p matches Some(k) ==> 60 <= k <= 75,
{
    if code == KEY_A {
        Some(60)
    } else if code == KEY_W {
        Some(61)
    } else if code == KEY_S {
        Some(62)
    } else if code == KEY_E {
        Some(63)
    } else if code == KEY_D {
        Some(64)
    } else if code == KEY_F {
        Some(65)
    } else if code == KEY_T {
        Some(66)
    } else if code == KEY_G {
        Some(67)
    } else if code == KEY_Y {
        Some(68)
    } else if code == KEY_H {
        Some(69)
    } else if code == KEY_U {
        Some(70)
    } else if code == KEY_J {
        Some(71)
    } else if code == KEY_K {
        Some(72)
    } else if code == KEY_O {
        Some(73)
    } else if code == KEY_L {
        Some(74)
    } else if code == KEY_P {
        Some(75)
    } else {
        None
    }
}

/// Whether a key is one of the buttons whose release deselects.
pub open spec fn is_button(code: u16) -> bool {
    code == KEY_M || code == KEY_R || code == KEY_V || code == KEY_I || code == KEY_SPACE
}

/// The message that a key stroke sends to the client, ready for the wire
/// with a space behind it, or nothing.
pub open spec fn client_text(stroke: Stroke, code: u16) -> Seq<char> {
    match stroke {
        Stroke::Push => if code == KEY_UP {
            "UP "@
        } else if code == KEY_DOWN {
            "DN "@
        } else if code == KEY_LEFT {
            "LT "@
        } else if code == KEY_RIGHT {
            "RT "@
        } else if code == KEY_Q {
            "EXIT "@
        } else if code == KEY_1 {
            "1 "@
        } else if code == KEY_2 {
            "2 "@
        } else if code == KEY_LEFTBRACE {
            "PLAY "@
        } else if code == KEY_RIGHTBRACE {
            "STOP "@
        } else if code == KEY_M {
            "M "@
        } else if code == KEY_R {
            "R "@
        } else if code == KEY_V {
            "V "@
        } else if code == KEY_I {
            "I "@
        } else if code == KEY_SPACE {
            "SPC "@
        } else if code == KEY_TAB {
            "ROUTE "@
        } else if code == KEY_KPPLUS {
            "OCTAVE:1 "@
        } else if code == KEY_KPMINUS {
            "OCTAVE:0 "@
        } else {
            match pitch_of(code) {
                Some(p) => note_text(true, p),
                None => Seq::empty(),
            }
        },
        Stroke::Release => if is_button(code) {
            "DESELECT "@
        } else {
            match pitch_of(code) {
                Some(p) => note_text(false, p),
                None => Seq::empty(),
            }
        },
        Stroke::Other => Seq::empty(),
    }
}

/// The message that a key stroke sends to the sound engine, ready for the
/// wire with a space behind it, or nothing.
pub open spec fn sound_text(stroke: Stroke, code: u16) -> Seq<char> {
    match stroke {
        Stroke::Push => if code == KEY_Q {
            "EXIT "@
        } else if code == KEY_EQUAL {
            "OCTAVE:1 "@
        } else if code == KEY_MINUS {
            "OCTAVE:0 "@
        } else {
            match pitch_of(code) {
                Some(p) => note_text(true, p),
                None => Seq::empty(),
            }
        },
        Stroke::Release => match pitch_of(code) {
            Some(p) => note_text(false, p),
            None => Seq::empty(),
        },
        Stroke::Other => Seq::empty(),
    }
}

/// A note of the keyboard on the wire, with a space behind it: a note-on
/// of velocity one, or a note-off.
pub open spec fn note_text(on: bool, p: u8) -> Seq<char> {
    if on {
        "NOTE_ON:"@ + crate::text::dec(p as nat) + ":1 "@
    } else {
        "NOTE_OFF:"@ + crate::text::dec(p as nat) + " "@
    }
}

fn note(on: bool, p: u8) -> (s: String)
    ensures
        s@ == note_text(on, p),
{
    if on {
        let mut s = String::from_str("NOTE_ON:");
        crate::text::write_number(&mut s, p as u64);
        s.append(":1 ");
        s
    } else {
        let mut s = String::from_str("NOTE_OFF:");
        crate::text::write_number(&mut s, p as u64);
        s.append(" ");
        s
    }
}

/// The message that a key stroke sends to the client.
pub fn client_message(stroke: Stroke, code: u16) -> (s: String)
    ensures
        s@ == client_text(stroke, code),
{
    match stroke {
        Stroke::Push => if code == KEY_UP {
            String::from_str("UP ")
        } else if code == KEY_DOWN {
            String::from_str("DN ")
        } else if code == KEY_LEFT {
            String::from_str("LT ")
        } else if code == KEY_RIGHT {
            String::from_str("RT ")
        } else if code == KEY_Q {
            String::from_str("EXIT ")
        } else if code == KEY_1 {
            String::from_str("1 ")
        } else if code == KEY_2 {
            String::from_str("2 ")
        } else if code == KEY_LEFTBRACE {
            String::from_str("PLAY ")
        } else if code == KEY_RIGHTBRACE {
            String::from_str("STOP ")
        } else if code == KEY_M {
            String::from_str("M ")
        } else if code == KEY_R {
            String::from_str("R ")
        } else if code == KEY_V {
            String::from_str("V ")
        } else if code == KEY_I {
            String::from_str("I ")
        } else if code == KEY_SPACE {
            String::from_str("SPC ")
        } else if code == KEY_TAB {
            String::from_str("ROUTE ")
        } else if code == KEY_KPPLUS {
            String::from_str("OCTAVE:1 ")
        } else if code == KEY_KPMINUS {
            String::from_str("OCTAVE:0 ")
        } else {
            match pitch(code) {
                Some(p) => note(true, p),
                None => String::new(),
            }
        },
        Stroke::Release => if code == KEY_M || code == KEY_R || code == KEY_V || code == KEY_I
            || code == KEY_SPACE {
            String::from_str("DESELECT ")
        } else {
            match pitch(code) {
                Some(p) => note(false, p),
                None => String::new(),
            }
        },
        Stroke::Other => String::new(),
    }
}

/// The message that a key stroke sends to the sound engine.
pub fn sound_message(stroke: Stroke, code: u16) -> (s: String)
    ensures
        s@ == sound_text(stroke, code),
{
    match stroke {
        Stroke::Push => if code == KEY_Q {
            String::from_str("EXIT ")
        } else if code == KEY_EQUAL {
            String::from_str("OCTAVE:1 ")
        } else if code == KEY_MINUS {
            String::from_str("OCTAVE:0 ")
        } else {
            match pitch(code) {
                Some(p) => note(true, p),
                None => String::new(),
            }
        },
        Stroke::Release => match pitch(code) {
            Some(p) => note(false, p),
            None => String::new(),
        },
        Stroke::Other => String::new(),
    }
}

} // verus!
