//! What one machine step does, as a function on [`State`].
//!
//! A step fetches the two bytes at `pc`, decodes them and executes the
//! instruction. A step that fails changes nothing, so the result is either
//! the whole next state or the fault alone.

use vstd::prelude::*;
use crate::display::{collides, draw, sprite_at};
use crate::error::Chip8Error;
use crate::font::glyph_address;
use crate::instruction::{decode_spec, Instruction};
use crate::memory::overwrite;
use crate::model::{State, FLAG_REGISTER, KEY_COUNT, MEMORY_SIZE, STACK_DEPTH};

verus! {

impl State {
    /// This state with register `Vx` set to `value`.
    pub open spec fn set_reg(self, x: u8, value: u8) -> State {
        State { registers: self.registers.update(x as int, value), ..self }
    }

    /// This state with `VF` set to 1 if `on`, else to 0.
    pub open spec fn set_flag(self, on: bool) -> State {
        self.set_reg(FLAG_REGISTER as u8, if on { 1u8 } else { 0u8 })
    }

    /// This state with `pc` moved to the following instruction.
    pub open spec fn advance(self) -> State {
        State { pc: (self.pc + 2) as u16, ..self }
    }

    /// This state with `pc` moved past the following instruction if `skip`,
    /// else to the following instruction.
    pub open spec fn skip_if(self, skip: bool) -> State {
        State { pc: (self.pc + if skip { 4int } else { 2int }) as u16, ..self }
    }

    /// Whether the two bytes of an instruction at `pc` lie within memory.
    pub open spec fn pc_in_bounds(self) -> bool {
        self.pc as int + 1 < MEMORY_SIZE
    }
}

/// The opcode that the bytes at `pc` and `pc + 1` form, high byte first.
pub open spec fn opcode_at(memory: Seq<u8>, pc: u16) -> u16 {
    (memory[pc as int] as int * 0x100 + memory[pc as int + 1] as int) as u16
}

/// The highest key below `bound` that is down, if any.
pub open spec fn highest_key_down(keys: Seq<bool>, bound: int) -> Option<u8>
    decreases bound,
{
    if bound <= 0 {
        None
    } else if keys[bound - 1] {
        Some((bound - 1) as u8)
    } else {
        highest_key_down(keys, bound - 1)
    }
}

/// The three decimal digits of `value`: hundreds, tens, ones.
pub open spec fn decimal_digits(value: u8) -> Seq<u8> {
    seq![value / 100, (value / 10) % 10, value % 10]
}

/// `memory` with the registers `V0..=Vx` stored from address `index` on.
pub open spec fn store_registers(memory: Seq<u8>, registers: Seq<u8>, index: u16, x: u8) -> Seq<
    u8,
> {
    overwrite(memory, index as int, registers.subrange(0, x + 1))
}

/// `registers` with `V0..=Vx` loaded from `memory` from address `index` on.
pub open spec fn load_registers(registers: Seq<u8>, memory: Seq<u8>, index: u16, x: u8) -> Seq<
    u8,
> {
    overwrite(registers, 0, memory.subrange(index as int, index + x + 1))
}

/// The state after `instr` was executed as the instruction at `pc`, or the
/// fault that it raises. `random` is the byte that a random draw yields; only
/// [`Instruction::Random`] reads it.
pub open spec fn execute(s: State, instr: Instruction, random: u8) -> Result<State, Chip8Error> {
    if !s.pc_in_bounds() {
        Err(Chip8Error::MemoryOutOfBounds)
    } else {
        match instr {
            Instruction::ClearScreen => Ok(s.clear_screen().advance()),
            Instruction::Return => if s.sp == 0 {
                Err(Chip8Error::StackUnderflow)
            } else {
                Ok(State { sp: (s.sp - 1) as u8, pc: s.stack[s.sp - 1], ..s })
            },
            Instruction::Jump { addr } => Ok(State { pc: addr, ..s }),
            Instruction::Call { addr } => if s.sp >= STACK_DEPTH {
                Err(Chip8Error::StackOverflow)
            } else {
                Ok(
                    State {
                        stack: s.stack.update(s.sp as int, (s.pc + 2) as u16),
                        sp: (s.sp + 1) as u8,
                        pc: addr,
                        ..s
                    },
                )
            },
            Instruction::SkipIfEqual { x, kk } => Ok(s.skip_if(s.reg(x) == kk)),
            Instruction::SkipIfNotEqual { x, kk } => Ok(s.skip_if(s.reg(x) != kk)),
            Instruction::SkipIfRegistersEqual { x, y } => Ok(s.skip_if(s.reg(x) == s.reg(y))),
            Instruction::LoadByte { x, kk } => Ok(s.set_reg(x, kk).advance()),
            Instruction::AddByte { x, kk } => Ok(
                s.set_reg(x, ((s.reg(x) + kk) % 0x100) as u8).advance(),
            ),
            Instruction::Move { x, y } => Ok(s.set_reg(x, s.reg(y)).advance()),
            Instruction::Or { x, y } => Ok(s.set_reg(x, s.reg(x) | s.reg(y)).advance()),
            Instruction::And { x, y } => Ok(s.set_reg(x, s.reg(x) & s.reg(y)).advance()),
            Instruction::Xor { x, y } => Ok(s.set_reg(x, s.reg(x) ^ s.reg(y)).advance()),
            Instruction::Add { x, y } => {
                let sum = s.reg(x) + s.reg(y);
                Ok(s.set_reg(x, (sum % 0x100) as u8).set_flag(sum > 0xFF).advance())
            },
            Instruction::Sub { x, y } => {
                let a = s.reg(x);
                let b = s.reg(y);
                Ok(s.set_reg(x, ((a - b) % 0x100) as u8).set_flag(a >= b).advance())
            },
            Instruction::ShiftRight { x, y } => {
                let t = s.set_flag(s.reg(x) % 2 == 1);
                Ok(t.set_reg(x, t.reg(x) / 2).advance())
            },
            Instruction::SubReversed { x, y } => {
                let a = s.reg(x);
                let b = s.reg(y);
                Ok(s.set_reg(x, ((b - a) % 0x100) as u8).set_flag(b >= a).advance())
            },
            Instruction::ShiftLeft { x, y } => {
                let t = s.set_flag(s.reg(x) >= 0x80);
                Ok(t.set_reg(x, ((t.reg(x) * 2) % 0x100) as u8).advance())
            },
            Instruction::SkipIfRegistersNotEqual { x, y } => Ok(s.skip_if(s.reg(x) != s.reg(y))),
            Instruction::LoadIndex { addr } => Ok(State { index: addr, ..s }.advance()),
            Instruction::JumpOffset { addr } => Ok(State { pc: (addr + s.reg(0)) as u16, ..s }),
            Instruction::Random { x, kk } => Ok(s.set_reg(x, random & kk).advance()),
            Instruction::Draw { x, y, n } => if n > 0 && s.index + n > MEMORY_SIZE {
                Err(Chip8Error::MemoryOutOfBounds)
            } else {
                let sprite = sprite_at(s.memory, s.index as int, n as int);
                let vx = s.reg(x);
                let vy = s.reg(y);
                Ok(
                    State { screen: draw(s.screen, sprite, vx, vy), ..s }.set_flag(
                        collides(s.screen, sprite, vx, vy),
                    ).advance(),
                )
            },
            Instruction::SkipIfKeyDown { x } => if s.reg(x) >= KEY_COUNT {
                Err(Chip8Error::InvalidKey { key: s.reg(x) })
            } else {
                Ok(s.skip_if(s.keys[s.reg(x) as int]))
            },
            Instruction::SkipIfKeyUp { x } => if s.reg(x) >= KEY_COUNT {
                Err(Chip8Error::InvalidKey { key: s.reg(x) })
            } else {
                Ok(s.skip_if(!s.keys[s.reg(x) as int]))
            },
            Instruction::ReadDelay { x } => Ok(s.set_reg(x, s.delay_timer).advance()),
            Instruction::WaitKey { x } => match highest_key_down(s.keys, KEY_COUNT as int) {
                None => Ok(s),
                Some(key) => Ok(s.set_reg(x, key).advance()),
            },
            Instruction::SetDelay { x } => Ok(State { delay_timer: s.reg(x), ..s }.advance()),
            Instruction::SetSound { x } => Ok(State { sound_timer: s.reg(x), ..s }.advance()),
            Instruction::AddIndex { x } => Ok(
                State { index: ((s.index + s.reg(x)) % 0x1_0000) as u16, ..s }.advance(),
            ),
            Instruction::LoadGlyph { x } => Ok(
                State { index: glyph_address(s.reg(x)), ..s }.advance(),
            ),
            Instruction::StoreDecimal { x } => if s.index + 2 >= MEMORY_SIZE {
                Err(Chip8Error::MemoryOutOfBounds)
            } else {
                Ok(
                    State {
                        memory: overwrite(s.memory, s.index as int, decimal_digits(s.reg(x))),
                        ..s
                    }.advance(),
                )
            },
            Instruction::StoreRegisters { x } => if s.index + x >= MEMORY_SIZE {
                Err(Chip8Error::MemoryOutOfBounds)
            } else {
                Ok(
                    State {
                        memory: store_registers(s.memory, s.registers, s.index, x),
                        ..s
                    }.advance(),
                )
            },
            Instruction::LoadRegisters { x } => if s.index + x >= MEMORY_SIZE {
                Err(Chip8Error::MemoryOutOfBounds)
            } else {
                Ok(
                    State {
                        registers: load_registers(s.registers, s.memory, s.index, x),
                        ..s
                    }.advance(),
                )
            },
        }
    }
}

/// The state after one fetch-decode-execute step, or the fault that the step
/// raises.
pub open spec fn step(s: State, random: u8) -> Result<State, Chip8Error> {
    if !s.pc_in_bounds() {
        Err(Chip8Error::MemoryOutOfBounds)
    } else {
        let opcode = opcode_at(s.memory, s.pc);
        match decode_spec(opcode) {
            None => Err(Chip8Error::UnknownOpcode { opcode, pc: s.pc }),
            Some(instr) => execute(s, instr, random),
        }
    }
}

/// Whether the instruction at `pc` is one that draws a random byte.
pub open spec fn draws_random(s: State) -> bool {
    s.pc_in_bounds() && decode_spec(opcode_at(s.memory, s.pc)) matches Some(
        Instruction::Random { .. },
    )
}

/// The state after one step for each byte of `randoms`, in order, or the
/// fault of the first step that fails.
pub open spec fn run(s: State, randoms: Seq<u8>) -> Result<State, Chip8Error>
    decreases randoms.len(),
{
    if randoms.len() == 0 {
        Ok(s)
    } else {
        match step(s, randoms[0]) {
            Ok(next) => run(next, randoms.skip(1)),
            Err(fault) => Err(fault),
        }
    }
}

/// Whether a machine that was in state `before` and has returned `result`,
/// and is now in state `after`, has done what `expected` says: on success it
/// is in the expected state, on failure it reports the expected fault and has
/// not changed.
pub open spec fn is_outcome(
    expected: Result<State, Chip8Error>,
    before: State,
    result: Result<(), Chip8Error>,
    after: State,
) -> bool {
    match expected {
        Ok(next) => result is Ok && after == next,
        Err(fault) => result == Err::<(), Chip8Error>(fault) && after == before,
    }
}

} // verus!
