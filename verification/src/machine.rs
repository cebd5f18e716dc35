//! The executable machine.

use vstd::prelude::*;

mod cpu;

use crate::display::screen_view;
use crate::error::Chip8Error;
use crate::font::{FONT, FONT_SIZE};
use crate::memory::copy_bytes;
use crate::model::{State, MAX_PROGRAM_SIZE, PROGRAM_START, STACK_DEPTH};

verus! {

/// A CHIP-8 machine: memory, registers, timers, call stack, display and key
/// pad.
///
/// The machine owns all of its parts. A host reads them through the
/// accessors, sets the key pad with [`Chip8::set_keys`], runs instructions
/// with [`Chip8::cycle`] and counts the timers down with
/// [`Chip8::update_timers`]. What each operation does is stated over the
/// view of the machine, a [`State`].
pub struct Chip8 {
    screen: [[bool; 64]; 32],
    keys: [bool; 16],
    memory: [u8; 4096],
    registers: [u8; 16],
    instruction_reg: u16,
    delay_timer: u8,
    sound_timer: u8,
    pc: u16,
    sp: u8,
    stack: [u16; 16],
}

impl View for Chip8 {
    type V = State;

    closed spec fn view(&self) -> State {
        State {
            memory: self.memory@,
            registers: self.registers@,
            index: self.instruction_reg,
            delay_timer: self.delay_timer,
            sound_timer: self.sound_timer,
            pc: self.pc,
            sp: self.sp,
            stack: self.stack@,
            screen: screen_view(self.screen),
            keys: self.keys@,
        }
    }
}

impl Chip8 {
    /// The call stack never holds more return addresses than it has slots.
    #[verifier::type_invariant]
    spec fn stack_pointer_in_range(self) -> bool {
        self.sp <= STACK_DEPTH
    }

    /// A machine as it is first switched on.
    pub fn new() -> (chip: Chip8)
        ensures
            chip@ == State::initial(),
            chip@.wf(),
    {
        let mut chip = Chip8 {
            screen: [[false; 64]; 32],
            keys: [false; 16],
            memory: [0; 4096],
            registers: [0; 16],
            instruction_reg: 0,
            delay_timer: 0,
            sound_timer: 0,
            pc: PROGRAM_START as u16,
            sp: 0,
            stack: [0; 16],
        };
        chip.clear_screen();
        chip.load_fontset();
        assert(chip@ =~~= State::initial());
        chip
    }

    /// Turns every pixel off.
    pub fn clear_screen(&mut self)
        ensures
            final(self)@ == old(self)@.clear_screen(),
            final(self)@.wf(),
    {
        proof {
            use_type_invariant(&*self);
        }
        self.screen = [[false; 64]; 32];
        assert(self@ =~~= old(self)@.clear_screen());
    }

    /// Copies the built-in font to the bottom of memory.
    fn load_fontset(&mut self)
        ensures
            final(self)@ == old(self)@.load_font(),
    {
        proof {
            use_type_invariant(&*self);
        }
        copy_bytes(&mut self.memory, 0, &FONT, 0, FONT_SIZE);
        assert(FONT@.subrange(0, FONT_SIZE as int) =~= FONT@);
    }

    /// Copies a program image into memory from [`PROGRAM_START`] on.
    ///
    /// An image of more than [`MAX_PROGRAM_SIZE`] bytes does not fit: it is
    /// refused with [`Chip8Error::ProgramTooLarge`] and nothing is copied.
    /// Loading does not clear what an earlier load has left beyond the end of
    /// the new image.
    pub fn load_rom(&mut self, buffer: Vec<u8>) -> (r: Result<(), Chip8Error>)
        ensures
            buffer.len() <= MAX_PROGRAM_SIZE ==> r is Ok && final(self)@ == old(self)@.load(
                buffer@,
            ),
            buffer.len() > MAX_PROGRAM_SIZE ==> r == Err::<(), Chip8Error>(
                Chip8Error::ProgramTooLarge,
            ) && final(self)@ == old(self)@,
            final(self)@.wf(),
    {
        proof {
            use_type_invariant(&*self);
        }
        if buffer.len() > MAX_PROGRAM_SIZE {
            return Err(Chip8Error::ProgramTooLarge);
        }
        copy_bytes(&mut self.memory, PROGRAM_START, buffer.as_slice(), 0, buffer.len());
        assert(buffer@.subrange(0, buffer.len() as int) =~= buffer@);
        Ok(())
    }

    /// Counts each timer that is not zero down by one.
    ///
    /// The host calls this at the timer rate, 60 times a second by
    /// convention; [`Chip8::cycle`] never touches the timers' clock.
    pub fn update_timers(&mut self)
        ensures
            final(self)@ == old(self)@.tick(),
            final(self)@.wf(),
    {
        proof {
            use_type_invariant(&*self);
        }
        if self.delay_timer != 0 {
            self.delay_timer = self.delay_timer - 1;
        }
        if self.sound_timer != 0 {
            self.sound_timer = self.sound_timer - 1;
        }
    }

    /// Replaces the state of the whole key pad; `keys[k]` says whether key
    /// `k` is down.
    pub fn set_keys(&mut self, keys: [bool; 16])
        ensures
            final(self)@ == old(self)@.with_keys(keys@),
            final(self)@.wf(),
    {
        proof {
            use_type_invariant(&*self);
        }
        self.keys = keys;
    }

    /// The display as it stands: 32 rows of 64 pixels, `true` for on.
    pub fn screen(&self) -> (pixels: &[[bool; 64]; 32])
        ensures
            screen_view(*pixels) == self@.screen,
            self@.wf(),
    {
        proof {
            use_type_invariant(self);
        }
        &self.screen
    }

    /// The key pad as it was last set: `true` for down.
    pub fn keys(&self) -> (keys: &[bool; 16])
        ensures
            keys@ == self@.keys,
    {
        &self.keys
    }

    /// The whole of memory.
    pub fn memory(&self) -> (memory: &[u8; 4096])
        ensures
            memory@ == self@.memory,
    {
        &self.memory
    }

    /// The registers `V0` to `VF`.
    pub fn registers(&self) -> (registers: &[u8; 16])
        ensures
            registers@ == self@.registers,
    {
        &self.registers
    }

    /// The slots of the call stack; the first [`Chip8::sp`] of them are in
    /// use.
    pub fn stack(&self) -> (stack: &[u16; 16])
        ensures
            stack@ == self@.stack,
    {
        &self.stack
    }

    /// The address register `I`.
    pub fn index(&self) -> (index: u16)
        ensures
            index == self@.index,
    {
        self.instruction_reg
    }

    /// The delay timer.
    pub fn delay_timer(&self) -> (ticks: u8)
        ensures
            ticks == self@.delay_timer,
    {
        self.delay_timer
    }

    /// The sound timer; the buzzer sounds while it is not zero.
    pub fn sound_timer(&self) -> (ticks: u8)
        ensures
            ticks == self@.sound_timer,
    {
        self.sound_timer
    }

    /// The address of the next instruction.
    pub fn pc(&self) -> (pc: u16)
        ensures
            pc == self@.pc,
    {
        self.pc
    }

    /// The number of return addresses on the call stack, at most 16.
    pub fn sp(&self) -> (sp: u8)
        ensures
            sp == self@.sp,
            sp <= 16,
    {
        proof {
            use_type_invariant(self);
        }
        self.sp
    }
}

} // verus!
