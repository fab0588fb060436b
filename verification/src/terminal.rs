//! What the window's input becomes on its way to the shell.

use crate::performer::char_code;
use vstd::prelude::*;

verus! {

/// Carriage return, sent for the return key.
pub const RETURN_BYTE: u8 = 13;

/// Horizontal tab, sent for the tab key.
pub const TAB_BYTE: u8 = 9;

/// The caret, sent for a control key.
pub const CONTROL_BYTE: u8 = 94;

/// The byte that erases, sent for a typed backspace.
pub const BACK_BYTE: u8 = 8;

/// One item of typed text.
#[derive(Clone, Copy, Debug, PartialEq, Eq, Structural)]
pub enum TextChar {
    /// A character.
    Char(char),
    /// A backspace.
    Back,
}

/// The keys that are sent as a byte of their own, as they were pressed in
/// one frame.
#[derive(Clone, Copy, Debug, PartialEq, Eq, Structural)]
pub struct Keys {
    pub enter: bool,
    pub tab: bool,
    pub control: bool,
}

/// The byte for one item of typed text: a character's code, and the erase
/// byte for a backspace.
pub open spec fn text_byte(item: TextChar) -> u8 {
    match item {
        TextChar::Char(c) => char_code(c),
        TextChar::Back => BACK_BYTE,
    }
}

/// The byte for the pressed keys: at most one, return before tab before
/// control.
pub open spec fn key_byte(keys: Keys) -> Option<u8> {
    if keys.enter {
        Some(RETURN_BYTE)
    } else if keys.tab {
        Some(TAB_BYTE)
    } else if keys.control {
        Some(CONTROL_BYTE)
    } else {
        None
    }
}

/// The bytes of one frame: the typed text in order, then the key byte.
pub open spec fn frame_bytes(text: Seq<TextChar>, keys: Keys) -> Seq<u8> {
    text.map_values(|item: TextChar| text_byte(item)) + match key_byte(keys) {
        Some(byte) => seq![byte],
        None => Seq::<u8>::empty(),
    }
}

/// Turns the input of one frame into the bytes to write to the shell.
pub fn update_pty(text: &Vec<TextChar>, keys: Keys) -> (bytes: Vec<u8>)
    ensures
        bytes@ == frame_bytes(text@, keys),
{
    let mut bytes: Vec<u8> = Vec::new();
    let mut i: usize = 0;
    while i < text.len()
        invariant
            i <= text.len(),
            bytes@ == text@.take(i as int).map_values(|item: TextChar| text_byte(item)),
        decreases text.len() - i,
    {
        let byte: u8 = match text[i] {
            TextChar::Char(c) => (c as u32 % 256) as u8,
            TextChar::Back => BACK_BYTE,
        };
        bytes.push(byte);
        i += 1;
        assert(bytes@ == text@.take(i as int).map_values(|item: TextChar| text_byte(item)));
    }
    assert(text@.take(text.len() as int) == text@);
    if keys.enter {
        bytes.push(RETURN_BYTE);
    } else if keys.tab {
        bytes.push(TAB_BYTE);
    } else if keys.control {
        bytes.push(CONTROL_BYTE);
    }
    bytes
}

} // verus!
