use vstd::prelude::*;

use crate::cpu::{EmuView, Emulator};

verus! {

/// Whether a host key event is a press or a release.
pub enum KeyState {
    /// The key was released.
    Up,
    /// The key was pressed.
    Down,
}

impl KeyState {
    /// Whether the event leaves the key pressed.
    pub open spec fn is_down(self) -> bool {
        match self {
            KeyState::Up => false,
            KeyState::Down => true,
        }
    }
}

/// The keypad slot that a host key symbol drives, if any: the fixed
/// 4x4 layout `1234` / `qwer` / `asdf` / `zxcv`.
pub open spec fn key_index(key: char) -> Option<int> {
    match key {
        '1' => Some(1int),
        '2' => Some(2int),
        '3' => Some(3int),
        '4' => Some(12int),
        'q' => Some(4int),
        'w' => Some(5int),
        'e' => Some(6int),
        'r' => Some(13int),
        'a' => Some(7int),
        's' => Some(8int),
        'd' => Some(9int),
        'f' => Some(14int),
        'z' => Some(10int),
        'x' => Some(0int),
        'c' => Some(11int),
        'v' => Some(15int),
        _ => None,
    }
}

/// Apply one host key event to the emulator's keypad: the symbol's slot
/// is set or cleared; unrecognized symbols are ignored.
pub fn process_key(emulator: &mut Emulator, key: char, state: KeyState)
    requires
        old(emulator).wf(),
    ensures
        final(emulator).wf(),
        match key_index(key) {
            Some(k) => final(emulator)@ == (EmuView {
                keys: old(emulator)@.keys.update(k, state.is_down()),
                ..old(emulator)@
            }),
            None => final(emulator)@ == old(emulator)@,
        },
{
    let key_value = match state {
        KeyState::Up => false,
        KeyState::Down => true,
    };
    match key {
        '1' => emulator.set_key(0x1, key_value),
        '2' => emulator.set_key(0x2, key_value),
        '3' => emulator.set_key(0x3, key_value),
        '4' => emulator.set_key(0xC, key_value),
        'q' => emulator.set_key(0x4, key_value),
        'w' => emulator.set_key(0x5, key_value),
        'e' => emulator.set_key(0x6, key_value),
        'r' => emulator.set_key(0xD, key_value),
        'a' => emulator.set_key(0x7, key_value),
        's' => emulator.set_key(0x8, key_value),
        'd' => emulator.set_key(0x9, key_value),
        'f' => emulator.set_key(0xE, key_value),
        'z' => emulator.set_key(0xA, key_value),
        'x' => emulator.set_key(0x0, key_value),
        'c' => emulator.set_key(0xB, key_value),
        'v' => emulator.set_key(0xF, key_value),
        _ => {},
    }
}

} // verus!
