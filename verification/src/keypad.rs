//! The sixteen-key pad, and the computer keyboard that stands in for it.
//!
//! The pad is laid out as a four by four block, and so is the part of the
//! keyboard that plays it:
//!
//! ```text
//!   keyboard        pad
//!   1 2 3 4       1 2 3 C
//!   Q W E R       4 5 6 D
//!   A S D F       7 8 9 E
//!   Z X C V       A 0 B F
//! ```
//!
//! Keyboard keys are named by position, with the usage ids that the USB HID
//! keyboard page gives them, so the block stays in one place whatever letters
//! are printed on the keys.

use vstd::prelude::*;

verus! {

/// Usage id of the key marked `A` on a US keyboard.
pub const USAGE_A: i32 = 4;

/// Usage id of the key marked `C` on a US keyboard.
pub const USAGE_C: i32 = 6;

/// Usage id of the key marked `D` on a US keyboard.
pub const USAGE_D: i32 = 7;

/// Usage id of the key marked `E` on a US keyboard.
pub const USAGE_E: i32 = 8;

/// Usage id of the key marked `F` on a US keyboard.
pub const USAGE_F: i32 = 9;

/// Usage id of the key marked `Q` on a US keyboard.
pub const USAGE_Q: i32 = 20;

/// Usage id of the key marked `R` on a US keyboard.
pub const USAGE_R: i32 = 21;

/// Usage id of the key marked `S` on a US keyboard.
pub const USAGE_S: i32 = 22;

/// Usage id of the key marked `V` on a US keyboard.
pub const USAGE_V: i32 = 25;

/// Usage id of the key marked `W` on a US keyboard.
pub const USAGE_W: i32 = 26;

/// Usage id of the key marked `X` on a US keyboard.
pub const USAGE_X: i32 = 27;

/// Usage id of the key marked `Z` on a US keyboard.
pub const USAGE_Z: i32 = 29;

/// Usage id of the key marked `1` on a US keyboard.
pub const USAGE_1: i32 = 30;

/// Usage id of the key marked `2` on a US keyboard.
pub const USAGE_2: i32 = 31;

/// Usage id of the key marked `3` on a US keyboard.
pub const USAGE_3: i32 = 32;

/// Usage id of the key marked `4` on a US keyboard.
pub const USAGE_4: i32 = 33;

/// The pad key that the keyboard key with usage id `usage` plays, if it
/// plays one.
pub open spec fn pad_key(usage: i32) -> Option<u8> {
    if usage == USAGE_1 {
        Some(0x1u8)
    } else if usage == USAGE_2 {
        Some(0x2u8)
    } else if usage == USAGE_3 {
        Some(0x3u8)
    } else if usage == USAGE_4 {
        Some(0xCu8)
    } else if usage == USAGE_Q {
        Some(0x4u8)
    } else if usage == USAGE_W {
        Some(0x5u8)
    } else if usage == USAGE_E {
        Some(0x6u8)
    } else if usage == USAGE_R {
        Some(0xDu8)
    } else if usage == USAGE_A {
        Some(0x7u8)
    } else if usage == USAGE_S {
        Some(0x8u8)
    } else if usage == USAGE_D {
        Some(0x9u8)
    } else if usage == USAGE_F {
        Some(0xEu8)
    } else if usage == USAGE_Z {
        Some(0xAu8)
    } else if usage == USAGE_X {
        Some(0x0u8)
    } else if usage == USAGE_C {
        Some(0xBu8)
    } else if usage == USAGE_V {
        Some(0xFu8)
    } else {
        None
    }
}

/// Whether some keyboard key among `pressed` plays the pad key `key`.
pub open spec fn plays(pressed: Seq<i32>, key: int) -> bool {
    exists|i: int| 0 <= i < pressed.len() && #[trigger] pad_key(pressed[i]) == Some(key as u8)
}

/// The pad key that a keyboard key plays, if it plays one.
pub fn key_for_usage(usage: i32) -> (r: Option<u8>)
    ensures
        r == pad_key(usage),
        r matches Some(key) ==> key < 16,
{
    match usage {
        USAGE_1 => Some(0x1),
        USAGE_2 => Some(0x2),
        USAGE_3 => Some(0x3),
        USAGE_4 => Some(0xC),
        USAGE_Q => Some(0x4),
        USAGE_W => Some(0x5),
        USAGE_E => Some(0x6),
        USAGE_R => Some(0xD),
        USAGE_A => Some(0x7),
        USAGE_S => Some(0x8),
        USAGE_D => Some(0x9),
        USAGE_F => Some(0xE),
        USAGE_Z => Some(0xA),
        USAGE_X => Some(0x0),
        USAGE_C => Some(0xB),
        USAGE_V => Some(0xF),
        _ => None,
    }
}

/// The state of the pad while the keyboard keys `pressed` are held: a pad
/// key is down exactly if some held keyboard key plays it.
pub fn pad_state(pressed: &[i32]) -> (keys: [bool; 16])
    ensures
        forall|k: int| 0 <= k < 16 ==> keys@[k] == plays(pressed@, k),
{
    let mut keys: [bool; 16] = [false; 16];
    let mut i: usize = 0;
    while i < pressed.len()
        invariant
            i <= pressed.len(),
            forall|k: int| 0 <= k < 16 ==> keys@[k] == plays(pressed@.take(i as int), k),
        decreases pressed.len() - i,
    {
        let ghost seen = pressed@.take(i as int);
        let ghost seen_next = pressed@.take(i + 1);
        let ghost before = keys@;
        match key_for_usage(pressed[i]) {
            Some(key) => {
                keys[key as usize] = true;
            },
            None => {},
        }
        assert forall|k: int| 0 <= k < 16 implies keys@[k] == plays(seen_next, k) by {
            if plays(seen, k) {
                let j = choose|j: int|
                    0 <= j < seen.len() && #[trigger] pad_key(seen[j]) == Some(k as u8);
                assert(seen_next[j] == seen[j]);
            }
            if plays(seen_next, k) {
                let j = choose|j: int|
                    0 <= j < seen_next.len() && #[trigger] pad_key(seen_next[j]) == Some(k as u8);
                if j < i {
                    assert(seen[j] == seen_next[j]);
                }
            }
            if pad_key(pressed@[i as int]) == Some(k as u8) {
                assert(seen_next[i as int] == pressed@[i as int]);
            }
        }
        i = i + 1;
    }
    assert(pressed@.take(pressed.len() as int) =~= pressed@);
    keys
}

} // verus!
