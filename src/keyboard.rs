use vstd::prelude::*;
use crate::consts::NUM_KEYS;

verus! {

/// Snapshot of which of the 16 logical keys are held.
pub struct Keyboard {
    pub keys: Vec<bool>,
}

/// Whether key `key` is held in `keys`; keys past the keypad are never held.
pub open spec fn key_held(keys: Seq<bool>, key: int) -> bool {
    0 <= key < NUM_KEYS && keys[key]
}

/// The logical key that a keyboard character stands for, in the usual
/// layout of the left-hand side of a keyboard onto the hexadecimal keypad.
pub open spec fn keypad_index_of(c: char) -> Option<u8> {
    if c == '1' { Some(0x1u8) }
    else if c == '2' { Some(0x2u8) }
    else if c == '3' { Some(0x3u8) }
    else if c == '4' { Some(0xCu8) }
    else if c == 'Q' || c == 'q' { Some(0x4u8) }
    else if c == 'W' || c == 'w' { Some(0x5u8) }
    else if c == 'E' || c == 'e' { Some(0x6u8) }
    else if c == 'R' || c == 'r' { Some(0xDu8) }
    else if c == 'A' || c == 'a' { Some(0x7u8) }
    else if c == 'S' || c == 's' { Some(0x8u8) }
    else if c == 'D' || c == 'd' { Some(0x9u8) }
    else if c == 'F' || c == 'f' { Some(0xEu8) }
    else if c == 'Z' || c == 'z' { Some(0xAu8) }
    else if c == 'X' || c == 'x' { Some(0x0u8) }
    else if c == 'C' || c == 'c' { Some(0xBu8) }
    else if c == 'V' || c == 'v' { Some(0xFu8) }
    else { None }
}

/// The logical key for a keyboard character, if it has one.
pub fn keypad_index(c: char) -> (r: Option<u8>)
    ensures
        r == keypad_index_of(c),
        r matches Some(k) ==> k < NUM_KEYS,
{
    if c == '1' { Some(0x1) }
    else if c == '2' { Some(0x2) }
    else if c == '3' { Some(0x3) }
    else if c == '4' { Some(0xC) }
    else if c == 'Q' || c == 'q' { Some(0x4) }
    else if c == 'W' || c == 'w' { Some(0x5) }
    else if c == 'E' || c == 'e' { Some(0x6) }
    else if c == 'R' || c == 'r' { Some(0xD) }
    else if c == 'A' || c == 'a' { Some(0x7) }
    else if c == 'S' || c == 's' { Some(0x8) }
    else if c == 'D' || c == 'd' { Some(0x9) }
    else if c == 'F' || c == 'f' { Some(0xE) }
    else if c == 'Z' || c == 'z' { Some(0xA) }
    else if c == 'X' || c == 'x' { Some(0x0) }
    else if c == 'C' || c == 'c' { Some(0xB) }
    else if c == 'V' || c == 'v' { Some(0xF) }
    else { None }
}

impl Keyboard {
    /// One flag per key.
    pub open spec fn wf(&self) -> bool {
        self.keys@.len() == NUM_KEYS
    }

    /// A keypad with no key held.
    pub fn new() -> (k: Self)
        ensures
            k.wf(),
            forall|i: int| 0 <= i < NUM_KEYS ==> !k.keys@[i],
    {
        Keyboard { keys: vec![false; NUM_KEYS] }
    }

    /// Whether key `key` is held; a number past the keypad is never held.
    pub fn is_key_pressed(&self, key: u16) -> (r: bool)
        requires
            self.wf(),
        ensures
            r == key_held(self.keys@, key as int),
    {
        if (key as usize) < NUM_KEYS {
            self.keys[key as usize]
        } else {
            false
        }
    }

    /// Marks key `key` as held or released.
    pub fn set_key(&mut self, key: u8, pressed: bool)
        requires
            old(self).wf(),
            key < NUM_KEYS,
        ensures
            final(self).wf(),
            final(self).keys@ == old(self).keys@.update(key as int, pressed),
    {
        self.keys.set(key as usize, pressed);
    }

    /// Releases every key.
    pub fn release_all(&mut self)
        ensures
            final(self).wf(),
            forall|i: int| 0 <= i < NUM_KEYS ==> !final(self).keys@[i],
    {
        self.keys = vec![false; NUM_KEYS];
    }
}

} // verus!
