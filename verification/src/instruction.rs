//! The base CHIP-8 instruction set as a tagged value, and its decoder.
//!
//! An opcode is a 16-bit word. Written as four hexadecimal digits, its leading
//! digit selects the instruction family; `x` and `y` are the second and third
//! digits (register numbers), `n` is the last digit, `kk` the low byte and
//! `nnn` the low twelve bits.

use vstd::prelude::*;

verus! {

/// One decoded instruction.
///
/// Register operands are named `x` and `y` after their place in the opcode.
#[derive(Clone, Copy, Debug, PartialEq, Eq, Structural)]
pub enum Instruction {
    /// `00E0`: turn every pixel off.
    ClearScreen,
    /// `00EE`: return from a subroutine.
    Return,
    /// `1nnn`: jump to `addr`.
    Jump { addr: u16 },
    /// `2nnn`: call the subroutine at `addr`.
    Call { addr: u16 },
    /// `3xkk`: skip the next instruction if `Vx == kk`.
    SkipIfEqual { x: u8, kk: u8 },
    /// `4xkk`: skip the next instruction if `Vx != kk`.
    SkipIfNotEqual { x: u8, kk: u8 },
    /// `5xy0`: skip the next instruction if `Vx == Vy`.
    SkipIfRegistersEqual { x: u8, y: u8 },
    /// `6xkk`: `Vx = kk`.
    LoadByte { x: u8, kk: u8 },
    /// `7xkk`: `Vx = Vx + kk` modulo 256; no flag is touched.
    AddByte { x: u8, kk: u8 },
    /// `8xy0`: `Vx = Vy`.
    Move { x: u8, y: u8 },
    /// `8xy1`: `Vx = Vx | Vy`.
    Or { x: u8, y: u8 },
    /// `8xy2`: `Vx = Vx & Vy`.
    And { x: u8, y: u8 },
    /// `8xy3`: `Vx = Vx ^ Vy`.
    Xor { x: u8, y: u8 },
    /// `8xy4`: `Vx = Vx + Vy` modulo 256, then `VF` = carry.
    Add { x: u8, y: u8 },
    /// `8xy5`: `Vx = Vx - Vy` modulo 256, then `VF` = 1 if nothing was
    /// borrowed (`Vx >= Vy` beforehand), else 0.
    Sub { x: u8, y: u8 },
    /// `8xy6`: `VF` = lowest bit of `Vx`, then `Vx` is halved.
    ///
    /// The historical documents disagree on whether the value shifted is `Vx`
    /// or `Vy`. This machine shifts `Vx` in place; `y` is decoded and kept but
    /// never read.
    ShiftRight { x: u8, y: u8 },
    /// `8xy7`: `Vx = Vy - Vx` modulo 256, then `VF` = 1 if nothing was
    /// borrowed (`Vy >= Vx` beforehand), else 0.
    SubReversed { x: u8, y: u8 },
    /// `8xyE`: `VF` = highest bit of `Vx`, then `Vx` is doubled modulo 256.
    ///
    /// The same disagreement as for [`Instruction::ShiftRight`] applies; this
    /// machine shifts `Vx` in place and never reads `y`.
    ShiftLeft { x: u8, y: u8 },
    /// `9xy0`: skip the next instruction if `Vx != Vy`.
    SkipIfRegistersNotEqual { x: u8, y: u8 },
    /// `Annn`: `I = addr`.
    LoadIndex { addr: u16 },
    /// `Bnnn`: jump to `addr + V0`.
    JumpOffset { addr: u16 },
    /// `Cxkk`: `Vx` = a random byte masked with `kk`.
    Random { x: u8, kk: u8 },
    /// `Dxyn`: draw the `n`-byte sprite at `I` at column `Vx`, row `Vy`.
    Draw { x: u8, y: u8, n: u8 },
    /// `Ex9E`: skip the next instruction if key `Vx` is down.
    SkipIfKeyDown { x: u8 },
    /// `ExA1`: skip the next instruction if key `Vx` is up.
    SkipIfKeyUp { x: u8 },
    /// `Fx07`: `Vx` = delay timer.
    ReadDelay { x: u8 },
    /// `Fx0A`: wait for a key and store its number in `Vx`.
    WaitKey { x: u8 },
    /// `Fx15`: delay timer = `Vx`.
    SetDelay { x: u8 },
    /// `Fx18`: sound timer = `Vx`.
    SetSound { x: u8 },
    /// `Fx1E`: `I = I + Vx` modulo 65536; no flag is touched.
    AddIndex { x: u8 },
    /// `Fx29`: `I` = address of the glyph for the value `Vx`.
    LoadGlyph { x: u8 },
    /// `Fx33`: store the decimal digits of `Vx` at `I`, `I + 1`, `I + 2`.
    StoreDecimal { x: u8 },
    /// `Fx55`: store `V0..=Vx` in memory from `I` on.
    StoreRegisters { x: u8 },
    /// `Fx65`: load `V0..=Vx` from memory from `I` on.
    LoadRegisters { x: u8 },
}

/// The leading hexadecimal digit of an opcode.
pub open spec fn family(opcode: u16) -> int {
    opcode as int / 0x1000
}

/// The second hexadecimal digit of an opcode: the register number `x`.
pub open spec fn field_x(opcode: u16) -> u8 {
    ((opcode as int / 0x100) % 16) as u8
}

/// The third hexadecimal digit of an opcode: the register number `y`.
pub open spec fn field_y(opcode: u16) -> u8 {
    ((opcode as int / 0x10) % 16) as u8
}

/// The last hexadecimal digit of an opcode.
pub open spec fn field_n(opcode: u16) -> u8 {
    (opcode as int % 16) as u8
}

/// The low byte of an opcode.
pub open spec fn field_kk(opcode: u16) -> u8 {
    (opcode as int % 0x100) as u8
}

/// The low twelve bits of an opcode.
pub open spec fn field_nnn(opcode: u16) -> u16 {
    (opcode as int % 0x1000) as u16
}

/// The instruction that `opcode` stands for, or `None` where the base
/// instruction set has none.
pub open spec fn decode_spec(opcode: u16) -> Option<Instruction> {
    let x = field_x(opcode);
    let y = field_y(opcode);
    let n = field_n(opcode);
    let kk = field_kk(opcode);
    let addr = field_nnn(opcode);
    let fam = family(opcode);
    if fam == 0x0 {
        if opcode == 0x00E0 {
            Some(Instruction::ClearScreen)
        } else if opcode == 0x00EE {
            Some(Instruction::Return)
        } else {
            None
        }
    } else if fam == 0x1 {
        Some(Instruction::Jump { addr })
    } else if fam == 0x2 {
        Some(Instruction::Call { addr })
    } else if fam == 0x3 {
        Some(Instruction::SkipIfEqual { x, kk })
    } else if fam == 0x4 {
        Some(Instruction::SkipIfNotEqual { x, kk })
    } else if fam == 0x5 {
        if n == 0 {
            Some(Instruction::SkipIfRegistersEqual { x, y })
        } else {
            None
        }
    } else if fam == 0x6 {
        Some(Instruction::LoadByte { x, kk })
    } else if fam == 0x7 {
        Some(Instruction::AddByte { x, kk })
    } else if fam == 0x8 {
        if n == 0x0 {
            Some(Instruction::Move { x, y })
        } else if n == 0x1 {
            Some(Instruction::Or { x, y })
        } else if n == 0x2 {
            Some(Instruction::And { x, y })
        } else if n == 0x3 {
            Some(Instruction::Xor { x, y })
        } else if n == 0x4 {
            Some(Instruction::Add { x, y })
        } else if n == 0x5 {
            Some(Instruction::Sub { x, y })
        } else if n == 0x6 {
            Some(Instruction::ShiftRight { x, y })
        } else if n == 0x7 {
            Some(Instruction::SubReversed { x, y })
        } else if n == 0xE {
            Some(Instruction::ShiftLeft { x, y })
        } else {
            None
        }
    } else if fam == 0x9 {
        if n == 0 {
            Some(Instruction::SkipIfRegistersNotEqual { x, y })
        } else {
            None
        }
    } else if fam == 0xA {
        Some(Instruction::LoadIndex { addr })
    } else if fam == 0xB {
        Some(Instruction::JumpOffset { addr })
    } else if fam == 0xC {
        Some(Instruction::Random { x, kk })
    } else if fam == 0xD {
        Some(Instruction::Draw { x, y, n })
    } else if fam == 0xE {
        if kk == 0x9E {
            Some(Instruction::SkipIfKeyDown { x })
        } else if kk == 0xA1 {
            Some(Instruction::SkipIfKeyUp { x })
        } else {
            None
        }
    } else {
        if kk == 0x07 {
            Some(Instruction::ReadDelay { x })
        } else if kk == 0x0A {
            Some(Instruction::WaitKey { x })
        } else if kk == 0x15 {
            Some(Instruction::SetDelay { x })
        } else if kk == 0x18 {
            Some(Instruction::SetSound { x })
        } else if kk == 0x1E {
            Some(Instruction::AddIndex { x })
        } else if kk == 0x29 {
            Some(Instruction::LoadGlyph { x })
        } else if kk == 0x33 {
            Some(Instruction::StoreDecimal { x })
        } else if kk == 0x55 {
            Some(Instruction::StoreRegisters { x })
        } else if kk == 0x65 {
            Some(Instruction::LoadRegisters { x })
        } else {
            None
        }
    }
}

impl Instruction {
    /// Every register number and the sprite height are below 16, and every
    /// address is below 4096: what an opcode can express.
    pub open spec fn wf(self) -> bool {
        match self {
            Instruction::ClearScreen | Instruction::Return => true,
            Instruction::Jump { addr }
            | Instruction::Call { addr }
            | Instruction::LoadIndex { addr }
            | Instruction::JumpOffset { addr } => addr < 0x1000,
            Instruction::SkipIfEqual { x, .. }
            | Instruction::SkipIfNotEqual { x, .. }
            | Instruction::LoadByte { x, .. }
            | Instruction::AddByte { x, .. }
            | Instruction::Random { x, .. }
            | Instruction::SkipIfKeyDown { x }
            | Instruction::SkipIfKeyUp { x }
            | Instruction::ReadDelay { x }
            | Instruction::WaitKey { x }
            | Instruction::SetDelay { x }
            | Instruction::SetSound { x }
            | Instruction::AddIndex { x }
            | Instruction::LoadGlyph { x }
            | Instruction::StoreDecimal { x }
            | Instruction::StoreRegisters { x }
            | Instruction::LoadRegisters { x } => x < 16,
            Instruction::SkipIfRegistersEqual { x, y }
            | Instruction::Move { x, y }
            | Instruction::Or { x, y }
            | Instruction::And { x, y }
            | Instruction::Xor { x, y }
            | Instruction::Add { x, y }
            | Instruction::Sub { x, y }
            | Instruction::ShiftRight { x, y }
            | Instruction::SubReversed { x, y }
            | Instruction::ShiftLeft { x, y }
            | Instruction::SkipIfRegistersNotEqual { x, y } => x < 16 && y < 16,
            Instruction::Draw { x, y, n } => x < 16 && y < 16 && n < 16,
        }
    }
}

/// Decodes one opcode.
///
/// The result is `None` exactly for the words that the base instruction set
/// leaves unassigned, and a decoded instruction is always well formed.
pub fn decode(opcode: u16) -> (r: Option<Instruction>)
    ensures
        r == decode_spec(opcode),
        r matches Some(instr) ==> instr.wf(),
{
    let fam: u16 = opcode / 0x1000;
    let x: u8 = ((opcode / 0x100) % 16) as u8;
    let y: u8 = ((opcode / 0x10) % 16) as u8;
    let n: u8 = (opcode % 16) as u8;
    let kk: u8 = (opcode % 0x100) as u8;
    let addr: u16 = opcode % 0x1000;
    match fam {
        0x0 => match opcode {
            0x00E0 => Some(Instruction::ClearScreen),
            0x00EE => Some(Instruction::Return),
            _ => None,
        },
        0x1 => Some(Instruction::Jump { addr }),
        0x2 => Some(Instruction::Call { addr }),
        0x3 => Some(Instruction::SkipIfEqual { x, kk }),
        0x4 => Some(Instruction::SkipIfNotEqual { x, kk }),
        0x5 => match n {
            0x0 => Some(Instruction::SkipIfRegistersEqual { x, y }),
            _ => None,
        },
        0x6 => Some(Instruction::LoadByte { x, kk }),
        0x7 => Some(Instruction::AddByte { x, kk }),
        0x8 => match n {
            0x0 => Some(Instruction::Move { x, y }),
            0x1 => Some(Instruction::Or { x, y }),
            0x2 => Some(Instruction::And { x, y }),
            0x3 => Some(Instruction::Xor { x, y }),
            0x4 => Some(Instruction::Add { x, y }),
            0x5 => Some(Instruction::Sub { x, y }),
            0x6 => Some(Instruction::ShiftRight { x, y }),
            0x7 => Some(Instruction::SubReversed { x, y }),
            0xE => Some(Instruction::ShiftLeft { x, y }),
            _ => None,
        },
        0x9 => match n {
            0x0 => Some(Instruction::SkipIfRegistersNotEqual { x, y }),
            _ => None,
        },
        0xA => Some(Instruction::LoadIndex { addr }),
        0xB => Some(Instruction::JumpOffset { addr }),
        0xC => Some(Instruction::Random { x, kk }),
        0xD => Some(Instruction::Draw { x, y, n }),
        0xE => match kk {
            0x9E => Some(Instruction::SkipIfKeyDown { x }),
            0xA1 => Some(Instruction::SkipIfKeyUp { x }),
            _ => None,
        },
        _ => match kk {
            0x07 => Some(Instruction::ReadDelay { x }),
            0x0A => Some(Instruction::WaitKey { x }),
            0x15 => Some(Instruction::SetDelay { x }),
            0x18 => Some(Instruction::SetSound { x }),
            0x1E => Some(Instruction::AddIndex { x }),
            0x29 => Some(Instruction::LoadGlyph { x }),
            0x33 => Some(Instruction::StoreDecimal { x }),
            0x55 => Some(Instruction::StoreRegisters { x }),
            0x65 => Some(Instruction::LoadRegisters { x }),
            _ => None,
        },
    }
}

} // verus!
