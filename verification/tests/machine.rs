use rust8::{Chip8, Chip8Error, Instruction};

// Helper function to convert opcode vector to u8 vector
fn opcodes_to_buffer(opcodes: &Vec<u16>) -> Vec<u8> {
    let mut buffer: Vec<u8> = Vec::new();
    for opcode in opcodes.iter() {
        buffer.push(((opcode & 0xFF00) >> 8) as u8);
        buffer.push((opcode & 0x00FF) as u8);
    }
    buffer
}

// Turns on the pixel in row 1, column 2, and no other, by drawing a sprite of
// one set pixel there, and puts pc back to 0x200.
fn light_row_1_column_2(chip8: &mut Chip8) {
    assert_eq!(chip8.load_rom(vec![0x80]), Ok(()));
    chip8.execute(Instruction::LoadByte { x: 0, kk: 2 }, 0).unwrap();
    chip8.execute(Instruction::LoadByte { x: 1, kk: 1 }, 0).unwrap();
    chip8.execute(Instruction::LoadIndex { addr: 0x200 }, 0).unwrap();
    chip8.execute(Instruction::Draw { x: 0, y: 1, n: 1 }, 0).unwrap();
    chip8.execute(Instruction::Jump { addr: 0x200 }, 0).unwrap();
}

#[test]
fn test_clear_screen_works() {
    let mut chip8 = Chip8::new();
    light_row_1_column_2(&mut chip8);
    assert!(chip8.screen()[1][2]);
    chip8.clear_screen();
    assert!(!chip8.screen()[1][2]);
}

#[test]
fn test_load_rom() {
    let mut chip8 = Chip8::new();
    let rom: Vec<u16> = vec![0x0001, 0x0203]; // Random ROM
    assert_eq!(chip8.load_rom(opcodes_to_buffer(&rom)), Ok(()));
    assert_eq!(chip8.memory()[0x200], 0x00);
    assert_eq!(chip8.memory()[0x201], 0x01);
    assert_eq!(chip8.memory()[0x202], 0x02);
    assert_eq!(chip8.memory()[0x203], 0x03);
}

#[test]
fn test_clear_screen_instruction() {
    let mut chip8 = Chip8::new();
    light_row_1_column_2(&mut chip8);
    let rom: Vec<u16> = vec![0x00E0]; // Clear screen instruction
    assert_eq!(chip8.load_rom(opcodes_to_buffer(&rom)), Ok(()));

    assert!(chip8.screen()[1][2]);
    assert_eq!(chip8.cycle(), Ok(()));
    assert_eq!(chip8.pc(), 0x202);
    assert!(!chip8.screen()[1][2]);
}

#[test]
fn test_push_and_pop_stack() {
    let mut chip8 = Chip8::new();
    let rom: Vec<u16> = vec![0x2666]; // Push pc to stack, jump to 0x666
    let mut image = opcodes_to_buffer(&rom);

    // A pop stack at the jump address
    image.resize(0x468, 0x00);
    image[0x666 - 0x200] = 0x00;
    image[0x667 - 0x200] = 0xEE;
    assert_eq!(chip8.load_rom(image), Ok(()));
    assert_eq!(chip8.memory()[0x666], 0x00);
    assert_eq!(chip8.memory()[0x667], 0xEE);

    assert_eq!(chip8.cycle(), Ok(()));
    assert_eq!(chip8.sp(), 1);
    assert_eq!(chip8.stack()[0], 0x202);
    assert_eq!(chip8.pc(), 0x666);
    assert_eq!(chip8.cycle(), Ok(()));
    assert_eq!(chip8.sp(), 0);
    assert_eq!(chip8.pc(), 0x202);
}

#[test]
fn test_jump() {
    let mut chip8 = Chip8::new();
    let rom: Vec<u16> = vec![0x1666]; // Jump to 0x666
    assert_eq!(chip8.load_rom(opcodes_to_buffer(&rom)), Ok(()));
    assert_eq!(chip8.cycle(), Ok(()));
    assert_eq!(chip8.pc(), 0x666);
}

#[test]
fn new_machine_is_switched_on_state() {
    let chip8 = Chip8::new();
    assert_eq!(chip8.pc(), 0x200);
    assert_eq!(chip8.sp(), 0);
    assert_eq!(chip8.index(), 0);
    assert_eq!(chip8.delay_timer(), 0);
    assert_eq!(chip8.sound_timer(), 0);
    assert_eq!(chip8.registers(), &[0u8; 16]);
    assert_eq!(chip8.stack(), &[0u16; 16]);
    assert_eq!(chip8.keys(), &[false; 16]);
    assert!(chip8.screen().iter().all(|row| row.iter().all(|pixel| !*pixel)));
    assert!(chip8.memory()[80..].iter().all(|byte| *byte == 0));
}

#[test]
fn new_machine_holds_the_font() {
    let chip8 = Chip8::new();
    let font: [u8; 80] = [
        0xF0, 0x90, 0x90, 0x90, 0xF0, // 0
        0x20, 0x60, 0x20, 0x20, 0x70, // 1
        0xF0, 0x10, 0xF0, 0x80, 0xF0, // 2
        0xF0, 0x10, 0xF0, 0x10, 0xF0, // 3
        0x90, 0x90, 0xF0, 0x10, 0x10, // 4
        0xF0, 0x80, 0xF0, 0x10, 0xF0, // 5
        0xF0, 0x80, 0xF0, 0x90, 0xF0, // 6
        0xF0, 0x10, 0x20, 0x40, 0x40, // 7
        0xF0, 0x90, 0xF0, 0x90, 0xF0, // 8
        0xF0, 0x90, 0xF0, 0x10, 0xF0, // 9
        0xF0, 0x90, 0xF0, 0x90, 0x90, // A
        0xE0, 0x90, 0xE0, 0x90, 0xE0, // B
        0xF0, 0x80, 0x80, 0x80, 0xF0, // C
        0xE0, 0x90, 0x90, 0x90, 0xE0, // D
        0xF0, 0x80, 0xF0, 0x80, 0xF0, // E
        0xF0, 0x80, 0xF0, 0x80, 0x80, // F
    ];
    assert_eq!(&chip8.memory()[0..80], &font[..]);
    assert_eq!(&rust8::font::FONT[..], &font[..]);
}

#[test]
fn clearing_twice_is_clearing_once() {
    let mut once = Chip8::new();
    light_row_1_column_2(&mut once);
    once.clear_screen();
    let mut twice = Chip8::new();
    light_row_1_column_2(&mut twice);
    twice.clear_screen();
    twice.clear_screen();
    assert_eq!(once.screen(), twice.screen());
    assert_eq!(twice.screen(), &[[false; 64]; 32]);
}

#[test]
fn clear_screen_touches_only_the_display() {
    let mut chip8 = Chip8::new();
    light_row_1_column_2(&mut chip8);
    let registers = *chip8.registers();
    let memory = *chip8.memory();
    chip8.clear_screen();
    assert_eq!(chip8.registers(), &registers);
    assert!(chip8.memory() == &memory);
    assert_eq!(chip8.pc(), 0x200);
    assert_eq!(chip8.index(), 0x200);
}

#[test]
fn loaded_program_reads_back() {
    let mut chip8 = Chip8::new();
    let program: Vec<u8> = (0..1000u32).map(|i| (i * 7 + 3) as u8).collect();
    assert_eq!(chip8.load_rom(program.clone()), Ok(()));
    assert_eq!(&chip8.memory()[0x200..0x200 + 1000], &program[..]);
    assert_eq!(chip8.memory()[0x200 + 1000], 0);
    assert_eq!(chip8.memory()[0x1FF], 0);
    assert_eq!(chip8.memory()[0], 0xF0);
}

#[test]
fn largest_program_fits() {
    let mut chip8 = Chip8::new();
    let program: Vec<u8> = vec![0xAB; 3584];
    assert_eq!(chip8.load_rom(program), Ok(()));
    assert_eq!(chip8.memory()[0x200], 0xAB);
    assert_eq!(chip8.memory()[0xFFF], 0xAB);
}

#[test]
fn too_large_program_is_refused_and_nothing_is_copied() {
    let mut chip8 = Chip8::new();
    let program: Vec<u8> = vec![0xAB; 3585];
    assert_eq!(chip8.load_rom(program), Err(Chip8Error::ProgramTooLarge));
    assert_eq!(chip8.memory()[0x200], 0);
    assert_eq!(chip8.memory()[0xFFF], 0);
}

#[test]
fn empty_program_changes_nothing() {
    let mut chip8 = Chip8::new();
    let before = *chip8.memory();
    assert_eq!(chip8.load_rom(Vec::new()), Ok(()));
    assert_eq!(chip8.memory(), &before);
}

#[test]
fn second_load_keeps_the_tail_of_the_first() {
    let mut chip8 = Chip8::new();
    assert_eq!(chip8.load_rom(vec![1, 2, 3, 4]), Ok(()));
    assert_eq!(chip8.load_rom(vec![9, 8]), Ok(()));
    assert_eq!(&chip8.memory()[0x200..0x204], &[9, 8, 3, 4]);
}

#[test]
fn timers_count_down_and_stop_at_zero() {
    let mut chip8 = Chip8::new();
    chip8.execute(Instruction::LoadByte { x: 3, kk: 2 }, 0).unwrap();
    chip8.execute(Instruction::SetDelay { x: 3 }, 0).unwrap();
    chip8.execute(Instruction::LoadByte { x: 4, kk: 1 }, 0).unwrap();
    chip8.execute(Instruction::SetSound { x: 4 }, 0).unwrap();
    assert_eq!((chip8.delay_timer(), chip8.sound_timer()), (2, 1));
    chip8.update_timers();
    assert_eq!((chip8.delay_timer(), chip8.sound_timer()), (1, 0));
    chip8.update_timers();
    assert_eq!((chip8.delay_timer(), chip8.sound_timer()), (0, 0));
    chip8.update_timers();
    assert_eq!((chip8.delay_timer(), chip8.sound_timer()), (0, 0));
}

#[test]
fn cycle_does_not_touch_the_timers() {
    let mut chip8 = Chip8::new();
    // V0 = 9; delay = V0; sound = V0; V1 = 1
    let rom: Vec<u16> = vec![0x6009, 0xF015, 0xF018, 0x6101];
    assert_eq!(chip8.load_rom(opcodes_to_buffer(&rom)), Ok(()));
    for _ in 0..4 {
        assert_eq!(chip8.cycle(), Ok(()));
    }
    assert_eq!((chip8.delay_timer(), chip8.sound_timer()), (9, 9));
}

#[test]
fn set_keys_replaces_the_whole_pad() {
    let mut chip8 = Chip8::new();
    let mut keys = [false; 16];
    keys[3] = true;
    keys[0xF] = true;
    chip8.set_keys(keys);
    assert_eq!(chip8.keys(), &keys);
    chip8.set_keys([false; 16]);
    assert_eq!(chip8.keys(), &[false; 16]);
}
