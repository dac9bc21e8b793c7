//! Decoded key symbols, as the terminal layer hands them in.
//!
//! Key-event decoding itself happens outside; the interaction core only
//! sees these plain values.

use vstd::prelude::*;

verus! {

/// A key press, already decoded. `Ctrl(c)` is the key `c` with the
/// control modifier held; every key the core does not react to maps
/// to `Other`.
#[derive(Clone, Copy, PartialEq, Eq, Structural, Debug)]
pub enum KeyInput {
    Char(char),
    Ctrl(char),
    Enter,
    Esc,
    Tab,
    BackTab,
    Up,
    Down,
    Left,
    Right,
    Backspace,
    Other,
}

/// Whether a key press stands for a newline: plain Enter, or the
/// carriage-return control chord.
pub open spec fn spec_is_newline(k: KeyInput) -> bool {
    k == KeyInput::Enter || k == KeyInput::Ctrl('m')
}

pub fn is_newline(k: KeyInput) -> (r: bool)
    ensures
        r == spec_is_newline(k),
{
    match k {
        KeyInput::Enter => true,
        KeyInput::Ctrl(c) => c == 'm',
        _ => false,
    }
}

} // verus!
