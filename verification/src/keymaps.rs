//! A binding from one host scancode to one of the sixteen machine keys.

use vstd::prelude::*;

verus! {

/// One entry of a key mapping: the host scancode, the machine key (0 to 15)
/// it drives, and an optional free-form note.
#[derive(Clone)]
pub struct Keymap {
    pub scancode: i32,
    pub key: u8,
    pub comments: Option<String>,
}

} // verus!
