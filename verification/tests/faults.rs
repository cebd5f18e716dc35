use rust8::{Chip8, Chip8Error, Instruction};

fn buffer_of(opcodes: &[u16]) -> Vec<u8> {
    let mut buffer: Vec<u8> = Vec::new();
    for opcode in opcodes.iter() {
        buffer.push((opcode >> 8) as u8);
        buffer.push((opcode & 0x00FF) as u8);
    }
    buffer
}

struct Snapshot {
    screen: [[bool; 64]; 32],
    keys: [bool; 16],
    memory: [u8; 4096],
    registers: [u8; 16],
    stack: [u16; 16],
    scalars: (u16, u8, u8, u16, u8),
}

fn snapshot(chip8: &Chip8) -> Snapshot {
    Snapshot {
        screen: *chip8.screen(),
        keys: *chip8.keys(),
        memory: *chip8.memory(),
        registers: *chip8.registers(),
        stack: *chip8.stack(),
        scalars: (
            chip8.index(),
            chip8.delay_timer(),
            chip8.sound_timer(),
            chip8.pc(),
            chip8.sp(),
        ),
    }
}

fn assert_unchanged(chip8: &Chip8, before: &Snapshot) {
    let now = snapshot(chip8);
    assert!(now.screen == before.screen);
    assert_eq!(now.keys, before.keys);
    assert!(now.memory == before.memory);
    assert_eq!(now.registers, before.registers);
    assert_eq!(now.stack, before.stack);
    assert_eq!(now.scalars, before.scalars);
}

fn fails_with(opcodes: &[u16], steps_before: usize, fault: Chip8Error) {
    let mut chip8 = Chip8::new();
    assert_eq!(chip8.load_rom(buffer_of(opcodes)), Ok(()));
    for _ in 0..steps_before {
        assert_eq!(chip8.cycle(), Ok(()));
    }
    let before = snapshot(&chip8);
    assert_eq!(chip8.cycle(), Err(fault));
    assert_unchanged(&chip8, &before);
    assert_eq!(chip8.step(0x77), Err(fault));
    assert_unchanged(&chip8, &before);
}

#[test]
fn unknown_opcode_reports_the_opcode_and_where_it_stands() {
    fails_with(&[0x0123], 0, Chip8Error::UnknownOpcode { opcode: 0x0123, pc: 0x200 });
    fails_with(&[0x6001, 0xFFFF], 1, Chip8Error::UnknownOpcode { opcode: 0xFFFF, pc: 0x202 });
}

#[test]
fn every_unassigned_pattern_is_unknown() {
    for opcode in [
        0x0000u16, 0x00E1, 0x00EF, 0x0100, 0x5AB1, 0x5ABF, 0x8AB8, 0x8AB9, 0x8ABA, 0x8ABB, 0x8ABC,
        0x8ABD, 0x8ABF, 0x9AB1, 0x9ABE, 0xE19F, 0xE1A0, 0xE100, 0xF100, 0xF108, 0xF10B, 0xF116,
        0xF11F, 0xF130, 0xF134, 0xF156, 0xF166, 0xF1FF,
    ] {
        fails_with(&[opcode], 0, Chip8Error::UnknownOpcode { opcode, pc: 0x200 });
    }
}

#[test]
fn return_with_empty_stack_underflows() {
    fails_with(&[0x00EE], 0, Chip8Error::StackUnderflow);
}

#[test]
fn seventeenth_call_overflows() {
    // Sixteen calls, each to the next address, then one more.
    let mut program: Vec<u16> = Vec::new();
    for i in 0..17u16 {
        program.push(0x2000 | (0x202 + 2 * i));
    }
    let mut chip8 = Chip8::new();
    assert_eq!(chip8.load_rom(buffer_of(&program)), Ok(()));
    for i in 0..16u16 {
        assert_eq!(chip8.cycle(), Ok(()));
        assert_eq!(chip8.sp() as u16, i + 1);
        assert_eq!(chip8.stack()[i as usize], 0x202 + 2 * i);
    }
    let before = snapshot(&chip8);
    assert_eq!(chip8.cycle(), Err(Chip8Error::StackOverflow));
    assert_unchanged(&chip8, &before);
    assert_eq!(chip8.sp(), 16);
    assert_eq!(chip8.pc(), 0x220);
}

#[test]
fn full_stack_unwinds_again() {
    let mut chip8 = Chip8::new();
    for _ in 0..16 {
        assert_eq!(chip8.execute(Instruction::Call { addr: 0x300 }, 0), Ok(()));
    }
    assert_eq!(chip8.execute(Instruction::Call { addr: 0x300 }, 0), Err(Chip8Error::StackOverflow));
    for _ in 0..16 {
        assert_eq!(chip8.execute(Instruction::Return, 0), Ok(()));
    }
    assert_eq!(chip8.sp(), 0);
    assert_eq!(chip8.execute(Instruction::Return, 0), Err(Chip8Error::StackUnderflow));
}

#[test]
fn fetch_at_the_last_byte_is_out_of_bounds() {
    fails_with(&[0x1FFF], 1, Chip8Error::MemoryOutOfBounds);
    let mut chip8 = Chip8::new();
    chip8.execute(Instruction::Jump { addr: 0xFFF }, 0).unwrap();
    assert_eq!(chip8.fetch(), Err(Chip8Error::MemoryOutOfBounds));
    assert_eq!(
        chip8.execute(Instruction::LoadByte { x: 0, kk: 1 }, 0),
        Err(Chip8Error::MemoryOutOfBounds)
    );
    assert_eq!(chip8.registers()[0], 0);
    assert_eq!(chip8.pc(), 0xFFF);
}

#[test]
fn fetch_at_the_last_instruction_slot_is_in_bounds() {
    let mut image = vec![0u8; 3584];
    image[0] = 0x1F;
    image[1] = 0xFE;
    image[0xFFE - 0x200] = 0x6A;
    image[0xFFF - 0x200] = 0x42;
    let mut chip8 = Chip8::new();
    assert_eq!(chip8.load_rom(image), Ok(()));
    assert_eq!(chip8.cycle(), Ok(()));
    assert_eq!(chip8.fetch(), Ok(0x6A42));
    assert_eq!(chip8.cycle(), Ok(()));
    assert_eq!(chip8.registers()[0xA], 0x42);
    assert_eq!(chip8.pc(), 0x1000);
    assert_eq!(chip8.cycle(), Err(Chip8Error::MemoryOutOfBounds));
    assert_eq!(chip8.pc(), 0x1000);
}

#[test]
fn jump_offset_past_memory_fails_at_the_next_fetch() {
    fails_with(&[0x60FF, 0xBFFF], 2, Chip8Error::MemoryOutOfBounds);
}

#[test]
fn sprite_read_past_memory_is_out_of_bounds() {
    // I = 0xFFF, two rows
    fails_with(&[0xAFFF, 0xD012], 1, Chip8Error::MemoryOutOfBounds);
    // I = 0xFF2, fifteen rows
    fails_with(&[0xAFF2, 0xD01F], 1, Chip8Error::MemoryOutOfBounds);
}

#[test]
fn sprite_read_up_to_the_last_byte_is_in_bounds() {
    let mut chip8 = Chip8::new();
    assert_eq!(chip8.load_rom(buffer_of(&[0xAFFF, 0xD011, 0xAFF1, 0xD01F])), Ok(()));
    for _ in 0..4 {
        assert_eq!(chip8.cycle(), Ok(()));
    }
    assert_eq!(chip8.pc(), 0x208);
}

#[test]
fn empty_sprite_reads_nothing() {
    let mut chip8 = Chip8::new();
    // I = 0xFFF + 0xFF + 0xFF, far past memory; a sprite of no rows
    assert_eq!(chip8.load_rom(buffer_of(&[0xAFFF, 0x61FF, 0xF11E, 0xF11E, 0x6F07, 0xD230])), Ok(()));
    for _ in 0..6 {
        assert_eq!(chip8.cycle(), Ok(()));
    }
    assert_eq!(chip8.index(), 0xFFF + 0xFF + 0xFF);
    assert_eq!(chip8.registers()[0xF], 0);
    assert!(chip8.screen().iter().all(|row| row.iter().all(|pixel| !*pixel)));
}

#[test]
fn decimal_store_past_memory_is_out_of_bounds() {
    fails_with(&[0x619C, 0xAFFE, 0xF133], 2, Chip8Error::MemoryOutOfBounds);
    fails_with(&[0x619C, 0xAFFF, 0xF133], 2, Chip8Error::MemoryOutOfBounds);
}

#[test]
fn decimal_store_in_the_last_three_bytes() {
    let mut chip8 = Chip8::new();
    assert_eq!(chip8.load_rom(buffer_of(&[0x619C, 0xAFFD, 0xF133])), Ok(()));
    for _ in 0..3 {
        assert_eq!(chip8.cycle(), Ok(()));
    }
    assert_eq!(&chip8.memory()[0xFFD..0x1000], &[1, 5, 6]);
}

#[test]
fn register_store_past_memory_is_out_of_bounds() {
    fails_with(&[0x6011, 0x6122, 0xAFFF, 0xF155], 3, Chip8Error::MemoryOutOfBounds);
    fails_with(&[0xAFF1, 0xFF55], 1, Chip8Error::MemoryOutOfBounds);
}

#[test]
fn register_store_in_the_last_bytes() {
    let mut chip8 = Chip8::new();
    assert_eq!(chip8.load_rom(buffer_of(&[0x6011, 0x6122, 0xAFFE, 0xF155, 0xAFFF, 0xF055])), Ok(()));
    for _ in 0..4 {
        assert_eq!(chip8.cycle(), Ok(()));
    }
    assert_eq!(&chip8.memory()[0xFFE..0x1000], &[0x11, 0x22]);
    for _ in 0..2 {
        assert_eq!(chip8.cycle(), Ok(()));
    }
    assert_eq!(&chip8.memory()[0xFFE..0x1000], &[0x11, 0x11]);
}

#[test]
fn register_load_past_memory_is_out_of_bounds() {
    fails_with(&[0xAFFF, 0xF165], 1, Chip8Error::MemoryOutOfBounds);
    fails_with(&[0xAFF1, 0xFF65], 1, Chip8Error::MemoryOutOfBounds);
}

#[test]
fn register_load_from_the_last_bytes() {
    let mut image = vec![0u8; 3584];
    image[0] = 0xAF;
    image[1] = 0xF0;
    image[2] = 0xFF;
    image[3] = 0x65;
    for i in 0..16usize {
        image[0xFF0 - 0x200 + i] = 0xA0 + i as u8;
    }
    let mut chip8 = Chip8::new();
    assert_eq!(chip8.load_rom(image), Ok(()));
    assert_eq!(chip8.cycle(), Ok(()));
    assert_eq!(chip8.cycle(), Ok(()));
    for i in 0..16usize {
        assert_eq!(chip8.registers()[i], 0xA0 + i as u8);
    }
}

#[test]
fn key_number_above_fifteen_is_invalid() {
    fails_with(&[0x6110, 0xE19E], 1, Chip8Error::InvalidKey { key: 16 });
    fails_with(&[0x61FF, 0xE1A1], 1, Chip8Error::InvalidKey { key: 255 });
}

#[test]
fn program_of_3585_bytes_is_too_large() {
    let mut chip8 = Chip8::new();
    let before = snapshot(&chip8);
    assert_eq!(chip8.load_rom(vec![0x11; 3585]), Err(Chip8Error::ProgramTooLarge));
    assert_unchanged(&chip8, &before);
    assert_eq!(chip8.load_rom(vec![0x11; 10000]), Err(Chip8Error::ProgramTooLarge));
    assert_unchanged(&chip8, &before);
}
