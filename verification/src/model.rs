//! The machine as a mathematical value.
//!
//! Every contract of the executable machine is stated over [`State`]: a plain
//! record of sequences and integers that says what the machine holds, without
//! saying how it is laid out.

use vstd::prelude::*;
use crate::font::FONT;
use crate::memory::overwrite;

verus! {

/// Number of addressable bytes.
pub const MEMORY_SIZE: usize = 4096;

/// Address at which a program image is loaded and at which execution starts.
pub const PROGRAM_START: usize = 0x200;

/// Largest program image that fits between [`PROGRAM_START`] and the end of
/// memory.
pub const MAX_PROGRAM_SIZE: usize = 3584;

/// Number of general-purpose registers.
pub const REGISTER_COUNT: usize = 16;

/// Number of keys on the pad.
pub const KEY_COUNT: usize = 16;

/// Number of return addresses that the call stack can hold.
pub const STACK_DEPTH: usize = 16;

/// Number of pixel columns.
pub const SCREEN_WIDTH: usize = 64;

/// Number of pixel rows.
pub const SCREEN_HEIGHT: usize = 32;

/// Number of the register that receives carry, borrow and collision flags.
pub const FLAG_REGISTER: usize = 0xF;

/// Everything that the machine holds.
#[verifier::ext_equal]
pub struct State {
    /// The 4096 bytes of memory.
    pub memory: Seq<u8>,
    /// The registers `V0` to `VF`.
    pub registers: Seq<u8>,
    /// The address register `I`.
    pub index: u16,
    /// The delay timer.
    pub delay_timer: u8,
    /// The sound timer; the buzzer sounds while it is not zero.
    pub sound_timer: u8,
    /// The address of the next instruction.
    pub pc: u16,
    /// The number of return addresses on the call stack.
    pub sp: u8,
    /// The sixteen slots of the call stack; the first `sp` are in use.
    pub stack: Seq<u16>,
    /// The pixels, 32 rows of 64 columns; `true` is on.
    pub screen: Seq<Seq<bool>>,
    /// The keys `0` to `F`; `true` is down.
    pub keys: Seq<bool>,
}

/// A display with every pixel off.
pub open spec fn blank_screen() -> Seq<Seq<bool>> {
    Seq::new(SCREEN_HEIGHT as nat, |r: int| Seq::new(SCREEN_WIDTH as nat, |c: int| false))
}

/// `screen` has 32 rows of 64 pixels.
pub open spec fn screen_wf(screen: Seq<Seq<bool>>) -> bool {
    &&& screen.len() == SCREEN_HEIGHT
    &&& forall|r: int| 0 <= r < SCREEN_HEIGHT ==> (#[trigger] screen[r]).len() == SCREEN_WIDTH
}

impl State {
    /// The shape that every machine has: the sizes of its parts, and a stack
    /// pointer that never exceeds the depth of the stack.
    pub open spec fn wf(self) -> bool {
        &&& self.memory.len() == MEMORY_SIZE
        &&& self.registers.len() == REGISTER_COUNT
        &&& self.stack.len() == STACK_DEPTH
        &&& self.keys.len() == KEY_COUNT
        &&& screen_wf(self.screen)
        &&& self.sp <= STACK_DEPTH
    }

    /// The machine as it is first switched on: the font at the bottom of
    /// memory, everything else zero, off or up, and `pc` at
    /// [`PROGRAM_START`].
    pub open spec fn initial() -> State {
        State {
            memory: overwrite(Seq::new(MEMORY_SIZE as nat, |a: int| 0u8), 0, FONT@),
            registers: Seq::new(REGISTER_COUNT as nat, |i: int| 0u8),
            index: 0,
            delay_timer: 0,
            sound_timer: 0,
            pc: PROGRAM_START as u16,
            sp: 0,
            stack: Seq::new(STACK_DEPTH as nat, |i: int| 0u16),
            screen: blank_screen(),
            keys: Seq::new(KEY_COUNT as nat, |i: int| false),
        }
    }

    /// This state with the font copied to the bottom of memory.
    pub open spec fn load_font(self) -> State {
        State { memory: overwrite(self.memory, 0, FONT@), ..self }
    }

    /// The value of register `Vx`.
    pub open spec fn reg(self, x: u8) -> u8 {
        self.registers[x as int]
    }

    /// This state with every pixel off.
    pub open spec fn clear_screen(self) -> State {
        State { screen: blank_screen(), ..self }
    }

    /// This state with `bytes` copied into memory from [`PROGRAM_START`] on.
    pub open spec fn load(self, bytes: Seq<u8>) -> State {
        State { memory: overwrite(self.memory, PROGRAM_START as int, bytes), ..self }
    }

    /// This state after one tick of the timer clock: each timer that is not
    /// zero has gone down by one.
    pub open spec fn tick(self) -> State {
        State {
            delay_timer: if self.delay_timer > 0 {
                (self.delay_timer - 1) as u8
            } else {
                0
            },
            sound_timer: if self.sound_timer > 0 {
                (self.sound_timer - 1) as u8
            } else {
                0
            },
            ..self
        }
    }

    /// This state with the key pad replaced by `keys`.
    pub open spec fn with_keys(self, keys: Seq<bool>) -> State {
        State { keys, ..self }
    }
}

} // verus!
