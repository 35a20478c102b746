use crate::tty::{write_char, Tty};
use vstd::prelude::*;

verus! {

/// What a key press decodes to: a character, or a key without one.
#[derive(Clone, Copy, Debug, PartialEq, Eq, Structural)]
pub enum DecodedKey {
    RawKey(u8),
    Unicode(char),
}

/// Hands a decoded key press to the terminal: a character is queued, a key
/// without one is dropped, and so is a scancode that completed no key.
pub fn on_scancode(tty: &mut Tty, key: Option<DecodedKey>)
    ensures
        final(tty)@ == match key {
            Some(DecodedKey::Unicode(c)) => if old(tty)@.len() < 255 {
                old(tty)@.push(c)
            } else {
                old(tty)@
            },
            _ => old(tty)@,
        },
{
    match key {
        Some(DecodedKey::Unicode(c)) => {
            write_char(tty, c);
        },
        _ => {},
    }
}

} // verus!
