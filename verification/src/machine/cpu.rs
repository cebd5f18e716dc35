//! Fetch, decode, execute.

use vstd::prelude::*;
use crate::display::draw_sprite;
use crate::error::Chip8Error;
use crate::font::GLYPH_SIZE;
use crate::instruction::{decode, Instruction};
use crate::machine::Chip8;
use crate::memory::copy_bytes;
use crate::model::{State, FLAG_REGISTER, KEY_COUNT, MEMORY_SIZE, STACK_DEPTH};
use crate::random::random_byte;
use crate::semantics;

verus! {

/// `a + b` modulo 256.
fn add_bytes(a: u8, b: u8) -> (r: u8)
    ensures
        r == ((a + b) % 0x100) as u8,
{
    a.wrapping_add(b)
}

/// `a - b` modulo 256.
fn sub_bytes(a: u8, b: u8) -> (r: u8)
    ensures
        r == ((a - b) % 0x100) as u8,
{
    a.wrapping_sub(b)
}

/// `a + b` modulo 65536.
fn add_address(a: u16, b: u8) -> (r: u16)
    ensures
        r == ((a + b) % 0x1_0000) as u16,
{
    a.wrapping_add(b as u16)
}

impl Chip8 {
    /// Reads the opcode at `pc`, high byte first.
    ///
    /// Fails with [`Chip8Error::MemoryOutOfBounds`] unless both bytes lie
    /// within memory.
    pub fn fetch(&self) -> (r: Result<u16, Chip8Error>)
        ensures
            self@.pc_in_bounds() ==> r == Ok::<u16, Chip8Error>(
                semantics::opcode_at(self@.memory, self@.pc),
            ),
            !self@.pc_in_bounds() ==> r == Err::<u16, Chip8Error>(Chip8Error::MemoryOutOfBounds),
            self@.wf(),
    {
        proof {
            use_type_invariant(self);
        }
        if self.pc as usize + 1 >= MEMORY_SIZE {
            return Err(Chip8Error::MemoryOutOfBounds);
        }
        let high: u16 = self.memory[self.pc as usize] as u16;
        let low: u16 = self.memory[self.pc as usize + 1] as u16;
        Ok(high * 0x100 + low)
    }

    /// The highest key that is down, if any.
    fn pressed_key(&self) -> (r: Option<u8>)
        ensures
            r == semantics::highest_key_down(self@.keys, KEY_COUNT as int),
    {
        let mut found: Option<u8> = None;
        let mut k: u8 = 0;
        while (k as usize) < KEY_COUNT
            invariant
                k <= KEY_COUNT,
                found == semantics::highest_key_down(self.keys@, k as int),
            decreases KEY_COUNT - k,
        {
            if self.keys[k as usize] {
                found = Some(k);
            }
            k = k + 1;
        }
        found
    }

    /// Moves `pc` past the following instruction if `skip`, else to the
    /// following instruction.
    fn skip_next_if(&mut self, skip: bool)
        requires
            old(self)@.pc_in_bounds(),
        ensures
            final(self)@ == old(self)@.skip_if(skip),
    {
        proof {
            use_type_invariant(&*self);
        }
        self.pc = if skip {
            self.pc + 4
        } else {
            self.pc + 2
        };
    }

    /// Sets `Vx` to `value` and moves on to the following instruction.
    fn write_register(&mut self, x: u8, value: u8)
        requires
            x < 16,
            old(self)@.pc_in_bounds(),
        ensures
            final(self)@ == old(self)@.set_reg(x, value).advance(),
    {
        proof {
            use_type_invariant(&*self);
        }
        self.registers[x as usize] = value;
        self.pc = self.pc + 2;
    }

    /// Sets `Vx` to `value`, then `VF` to the flag, and moves on to the
    /// following instruction.
    fn write_register_and_flag(&mut self, x: u8, value: u8, flag: bool)
        requires
            x < 16,
            old(self)@.pc_in_bounds(),
        ensures
            final(self)@ == old(self)@.set_reg(x, value).set_flag(flag).advance(),
    {
        proof {
            use_type_invariant(&*self);
        }
        self.registers[x as usize] = value;
        self.registers[FLAG_REGISTER] = if flag {
            1
        } else {
            0
        };
        self.pc = self.pc + 2;
    }

    /// Sets `VF` to the flag, then `Vx` to half of what it then holds if
    /// `right`, else to twice that modulo 256, and moves on to the following
    /// instruction.
    fn shift_register(&mut self, x: u8, flag: bool, right: bool)
        requires
            x < 16,
            old(self)@.pc_in_bounds(),
        ensures
            final(self)@ == ({
                let t = old(self)@.set_flag(flag);
                t.set_reg(
                    x,
                    if right {
                        t.reg(x) / 2
                    } else {
                        ((t.reg(x) * 2) % 0x100) as u8
                    },
                ).advance()
            }),
    {
        proof {
            use_type_invariant(&*self);
        }
        self.registers[FLAG_REGISTER] = if flag {
            1
        } else {
            0
        };
        let v: u8 = self.registers[x as usize];
        self.registers[x as usize] = if right {
            v / 2
        } else {
            add_bytes(v, v)
        };
        self.pc = self.pc + 2;
    }

    /// Sets `I` to `value` and moves on to the following instruction.
    fn write_index(&mut self, value: u16)
        requires
            old(self)@.pc_in_bounds(),
        ensures
            final(self)@ == (State { index: value, ..old(self)@ }).advance(),
    {
        proof {
            use_type_invariant(&*self);
        }
        self.instruction_reg = value;
        self.pc = self.pc + 2;
    }

    /// Returns from a subroutine.
    fn pop_return(&mut self) -> (r: Result<(), Chip8Error>)
        requires
            old(self)@.pc_in_bounds(),
        ensures
            semantics::is_outcome(
                semantics::execute(old(self)@, Instruction::Return, 0),
                old(self)@,
                r,
                final(self)@,
            ),
    {
        proof {
            use_type_invariant(&*self);
        }
        if self.sp == 0 {
            return Err(Chip8Error::StackUnderflow);
        }
        self.sp = self.sp - 1;
        self.pc = self.stack[self.sp as usize];
        Ok(())
    }

    /// Calls the subroutine at `addr`.
    fn push_call(&mut self, addr: u16) -> (r: Result<(), Chip8Error>)
        requires
            old(self)@.pc_in_bounds(),
        ensures
            semantics::is_outcome(
                semantics::execute(old(self)@, Instruction::Call { addr }, 0),
                old(self)@,
                r,
                final(self)@,
            ),
    {
        proof {
            use_type_invariant(&*self);
        }
        if self.sp as usize >= STACK_DEPTH {
            return Err(Chip8Error::StackOverflow);
        }
        self.stack[self.sp as usize] = self.pc + 2;
        self.sp = self.sp + 1;
        self.pc = addr;
        Ok(())
    }

    /// Skips the next instruction if key `Vx` is down, where `down` is set,
    /// or up, where it is not.
    fn skip_on_key(&mut self, x: u8, down: bool) -> (r: Result<(), Chip8Error>)
        requires
            x < 16,
            old(self)@.pc_in_bounds(),
        ensures
            semantics::is_outcome(
                semantics::execute(
                    old(self)@,
                    if down {
                        Instruction::SkipIfKeyDown { x }
                    } else {
                        Instruction::SkipIfKeyUp { x }
                    },
                    0,
                ),
                old(self)@,
                r,
                final(self)@,
            ),
    {
        proof {
            use_type_invariant(&*self);
        }
        let key: u8 = self.registers[x as usize];
        if key as usize >= KEY_COUNT {
            return Err(Chip8Error::InvalidKey { key });
        }
        let pressed = self.keys[key as usize];
        self.skip_next_if(pressed == down);
        Ok(())
    }

    /// Draws the `n`-byte sprite at `I` at column `Vx`, row `Vy`.
    fn draw(&mut self, x: u8, y: u8, n: u8) -> (r: Result<(), Chip8Error>)
        requires
            x < 16,
            y < 16,
            n < 16,
            old(self)@.pc_in_bounds(),
        ensures
            semantics::is_outcome(
                semantics::execute(old(self)@, Instruction::Draw { x, y, n }, 0),
                old(self)@,
                r,
                final(self)@,
            ),
    {
        proof {
            use_type_invariant(&*self);
        }
        let start: usize = self.instruction_reg as usize;
        if n > 0 && start + n as usize > MEMORY_SIZE {
            return Err(Chip8Error::MemoryOutOfBounds);
        }
        let vx: u8 = self.registers[x as usize];
        let vy: u8 = self.registers[y as usize];
        let hit = draw_sprite(&mut self.screen, &self.memory, start, n, vx, vy);
        self.registers[FLAG_REGISTER] = if hit {
            1
        } else {
            0
        };
        self.pc = self.pc + 2;
        Ok(())
    }

    /// Stores the number of the highest key that is down in `Vx` and moves
    /// on; with no key down, does nothing, so that the same instruction runs
    /// again.
    fn wait_key(&mut self, x: u8)
        requires
            x < 16,
            old(self)@.pc_in_bounds(),
        ensures
            semantics::execute(old(self)@, Instruction::WaitKey { x }, 0) == Ok::<
                State,
                Chip8Error,
            >(final(self)@),
    {
        match self.pressed_key() {
            None => {},
            Some(key) => {
                self.write_register(x, key);
            },
        }
    }

    /// Stores the decimal digits of `Vx` at `I`, `I + 1` and `I + 2`.
    fn store_decimal(&mut self, x: u8) -> (r: Result<(), Chip8Error>)
        requires
            x < 16,
            old(self)@.pc_in_bounds(),
        ensures
            semantics::is_outcome(
                semantics::execute(old(self)@, Instruction::StoreDecimal { x }, 0),
                old(self)@,
                r,
                final(self)@,
            ),
    {
        proof {
            use_type_invariant(&*self);
        }
        let base: usize = self.instruction_reg as usize;
        if base + 2 >= MEMORY_SIZE {
            return Err(Chip8Error::MemoryOutOfBounds);
        }
        let value: u8 = self.registers[x as usize];
        let digits: [u8; 3] = [value / 100, (value / 10) % 10, value % 10];
        copy_bytes(&mut self.memory, base, &digits, 0, 3);
        assert(digits@.subrange(0, 3) =~= semantics::decimal_digits(value));
        self.pc = self.pc + 2;
        Ok(())
    }

    /// Executes `instr` as the instruction at `pc`.
    ///
    /// `random` is the byte that [`Instruction::Random`] uses as its draw; no
    /// other instruction reads it. On success the machine is in the state
    /// that [`semantics::execute`] gives; on failure the fault is returned
    /// and the machine is unchanged.
    pub fn execute(&mut self, instr: Instruction, random: u8) -> (r: Result<(), Chip8Error>)
        requires
            instr.wf(),
        ensures
            semantics::is_outcome(
                semantics::execute(old(self)@, instr, random),
                old(self)@,
                r,
                final(self)@,
            ),
            final(self)@.wf(),
    {
        proof {
            use_type_invariant(&*self);
        }
        if self.pc as usize + 1 >= MEMORY_SIZE {
            return Err(Chip8Error::MemoryOutOfBounds);
        }
        match instr {
            Instruction::ClearScreen => {
                self.clear_screen();
                self.pc = self.pc + 2;
                Ok(())
            },
            Instruction::Return => self.pop_return(),
            Instruction::Jump { addr } => {
                self.pc = addr;
                Ok(())
            },
            Instruction::Call { addr } => self.push_call(addr),
            Instruction::SkipIfEqual { x, kk } => {
                self.skip_next_if(self.registers[x as usize] == kk);
                Ok(())
            },
            Instruction::SkipIfNotEqual { x, kk } => {
                self.skip_next_if(self.registers[x as usize] != kk);
                Ok(())
            },
            Instruction::SkipIfRegistersEqual { x, y } => {
                self.skip_next_if(self.registers[x as usize] == self.registers[y as usize]);
                Ok(())
            },
            Instruction::LoadByte { x, kk } => {
                self.write_register(x, kk);
                Ok(())
            },
            Instruction::AddByte { x, kk } => {
                self.write_register(x, add_bytes(self.registers[x as usize], kk));
                Ok(())
            },
            Instruction::Move { x, y } => {
                self.write_register(x, self.registers[y as usize]);
                Ok(())
            },
            Instruction::Or { x, y } => {
                self.write_register(x, self.registers[x as usize] | self.registers[y as usize]);
                Ok(())
            },
            Instruction::And { x, y } => {
                self.write_register(x, self.registers[x as usize] & self.registers[y as usize]);
                Ok(())
            },
            Instruction::Xor { x, y } => {
                self.write_register(x, self.registers[x as usize] ^ self.registers[y as usize]);
                Ok(())
            },
            Instruction::Add { x, y } => {
                let a: u8 = self.registers[x as usize];
                let b: u8 = self.registers[y as usize];
                self.write_register_and_flag(x, add_bytes(a, b), a as u16 + b as u16 > 0xFF);
                Ok(())
            },
            Instruction::Sub { x, y } => {
                let a: u8 = self.registers[x as usize];
                let b: u8 = self.registers[y as usize];
                self.write_register_and_flag(x, sub_bytes(a, b), a >= b);
                Ok(())
            },
            Instruction::ShiftRight { x, y } => {
                self.shift_register(x, self.registers[x as usize] % 2 == 1, true);
                Ok(())
            },
            Instruction::SubReversed { x, y } => {
                let a: u8 = self.registers[x as usize];
                let b: u8 = self.registers[y as usize];
                self.write_register_and_flag(x, sub_bytes(b, a), b >= a);
                Ok(())
            },
            Instruction::ShiftLeft { x, y } => {
                self.shift_register(x, self.registers[x as usize] >= 0x80, false);
                Ok(())
            },
            Instruction::SkipIfRegistersNotEqual { x, y } => {
                self.skip_next_if(self.registers[x as usize] != self.registers[y as usize]);
                Ok(())
            },
            Instruction::LoadIndex { addr } => {
                self.write_index(addr);
                Ok(())
            },
            Instruction::JumpOffset { addr } => {
                self.pc = addr + self.registers[0] as u16;
                Ok(())
            },
            Instruction::Random { x, kk } => {
                self.write_register(x, random & kk);
                Ok(())
            },
            Instruction::Draw { x, y, n } => self.draw(x, y, n),
            Instruction::SkipIfKeyDown { x } => self.skip_on_key(x, true),
            Instruction::SkipIfKeyUp { x } => self.skip_on_key(x, false),
            Instruction::ReadDelay { x } => {
                self.write_register(x, self.delay_timer);
                Ok(())
            },
            Instruction::WaitKey { x } => {
                self.wait_key(x);
                Ok(())
            },
            Instruction::SetDelay { x } => {
                self.delay_timer = self.registers[x as usize];
                self.pc = self.pc + 2;
                Ok(())
            },
            Instruction::SetSound { x } => {
                self.sound_timer = self.registers[x as usize];
                self.pc = self.pc + 2;
                Ok(())
            },
            Instruction::AddIndex { x } => {
                self.write_index(add_address(self.instruction_reg, self.registers[x as usize]));
                Ok(())
            },
            Instruction::LoadGlyph { x } => {
                self.write_index(self.registers[x as usize] as u16 * GLYPH_SIZE as u16);
                Ok(())
            },
            Instruction::StoreDecimal { x } => self.store_decimal(x),
            Instruction::StoreRegisters { x } => {
                if self.instruction_reg as usize + x as usize >= MEMORY_SIZE {
                    return Err(Chip8Error::MemoryOutOfBounds);
                }
                copy_bytes(
                    &mut self.memory,
                    self.instruction_reg as usize,
                    &self.registers,
                    0,
                    x as usize + 1,
                );
                self.pc = self.pc + 2;
                Ok(())
            },
            Instruction::LoadRegisters { x } => {
                if self.instruction_reg as usize + x as usize >= MEMORY_SIZE {
                    return Err(Chip8Error::MemoryOutOfBounds);
                }
                copy_bytes(
                    &mut self.registers,
                    0,
                    &self.memory,
                    self.instruction_reg as usize,
                    x as usize + 1,
                );
                self.pc = self.pc + 2;
                Ok(())
            },
        }
    }

    /// Runs one fetch-decode-execute step with `random` as the byte that a
    /// random instruction would draw.
    ///
    /// On success the machine is in the state that [`semantics::step`]
    /// gives; on failure the fault is returned and the machine is unchanged.
    pub fn step(&mut self, random: u8) -> (r: Result<(), Chip8Error>)
        ensures
            semantics::is_outcome(
                semantics::step(old(self)@, random),
                old(self)@,
                r,
                final(self)@,
            ),
            final(self)@.wf(),
    {
        let opcode = match self.fetch() {
            Ok(opcode) => opcode,
            Err(fault) => { return Err(fault); },
        };
        match decode(opcode) {
            Some(instr) => self.execute(instr, random),
            None => Err(Chip8Error::UnknownOpcode { opcode, pc: self.pc }),
        }
    }

    /// Runs one fetch-decode-execute step.
    ///
    /// Unless the instruction at `pc` is a random instruction, the step is
    /// [`semantics::step`], which then reads no random byte. For a random
    /// instruction one byte is drawn by chance, and the step is
    /// [`semantics::step`] for that byte. On failure the fault is returned
    /// and the machine is unchanged; whether the step fails never depends on
    /// chance.
    pub fn cycle(&mut self) -> (r: Result<(), Chip8Error>)
        ensures
            !semantics::draws_random(old(self)@) ==> semantics::is_outcome(
                semantics::step(old(self)@, 0),
                old(self)@,
                r,
                final(self)@,
            ),
            exists|random: u8|
                semantics::is_outcome(
                    #[trigger] semantics::step(old(self)@, random),
                    old(self)@,
                    r,
                    final(self)@,
                ),
            r is Err <==> semantics::step(old(self)@, 0) is Err,
            final(self)@.wf(),
    {
        let opcode = match self.fetch() {
            Ok(opcode) => opcode,
            Err(fault) => {
                assert(semantics::is_outcome(
                    semantics::step(self@, 0),
                    self@,
                    Err::<(), Chip8Error>(fault),
                    self@,
                ));
                return Err(fault);
            },
        };
        match decode(opcode) {
            Some(instr) => {
                let random: u8 = match instr {
                    Instruction::Random { .. } => random_byte(),
                    _ => 0,
                };
                let r = self.execute(instr, random);
                assert(semantics::is_outcome(
                    semantics::step(old(self)@, random),
                    old(self)@,
                    r,
                    self@,
                ));
                r
            },
            None => {
                let r = Err(Chip8Error::UnknownOpcode { opcode, pc: self.pc });
                assert(semantics::is_outcome(semantics::step(self@, 0), self@, r, self@));
                r
            },
        }
    }
}

} // verus!
