//! Laws of the machine: what holds of every state, proved from the
//! definitions that the contracts use.

use vstd::prelude::*;
use crate::display::{
    collides, draw, lemma_sprite_lands, sprite_at, sprite_bit, sprite_covers, SPRITE_WIDTH,
};
use crate::error::Chip8Error;
use crate::instruction::{decode_spec, Instruction};
use crate::model::{
    screen_wf, State, FLAG_REGISTER, KEY_COUNT, MAX_PROGRAM_SIZE, MEMORY_SIZE, PROGRAM_START,
    SCREEN_HEIGHT, SCREEN_WIDTH, STACK_DEPTH,
};
use crate::semantics::{decimal_digits, execute, highest_key_down, opcode_at, run, step};

verus! {

/// The machine as first switched on is well formed.
pub proof fn lemma_initial_wf()
    ensures
        State::initial().wf(),
{
}

/// Clearing the display turns every pixel off, and clearing it a second time
/// changes nothing.
pub proof fn lemma_clear_screen_idempotent(s: State)
    ensures
        forall|r: int, c: int|
            0 <= r < SCREEN_HEIGHT && 0 <= c < SCREEN_WIDTH ==> !(#[trigger] s.clear_screen().screen[r][c]),
        s.clear_screen().clear_screen() == s.clear_screen(),
{
}

/// A loaded program reads back from memory byte for byte, starting at the
/// load address, and loading touches no other byte.
pub proof fn lemma_load_round_trip(s: State, bytes: Seq<u8>)
    requires
        s.wf(),
        bytes.len() <= MAX_PROGRAM_SIZE,
    ensures
        s.load(bytes).memory.subrange(
            PROGRAM_START as int,
            PROGRAM_START as int + bytes.len(),
        ) == bytes,
        forall|a: int|
            0 <= a < PROGRAM_START || PROGRAM_START + bytes.len() <= a < MEMORY_SIZE
                ==> #[trigger] s.load(bytes).memory[a] == s.memory[a],
        s.load(bytes).wf(),
{
    assert(s.load(bytes).memory.subrange(
        PROGRAM_START as int,
        PROGRAM_START as int + bytes.len(),
    ) =~= bytes);
}

/// A timer tick never takes a timer below zero, and a timer at zero stays
/// there.
pub proof fn lemma_tick_clamps(s: State)
    ensures
        s.tick().delay_timer == if s.delay_timer == 0 {
            0
        } else {
            s.delay_timer - 1
        },
        s.tick().sound_timer == if s.sound_timer == 0 {
            0
        } else {
            s.sound_timer - 1
        },
        s.delay_timer == 0 && s.sound_timer == 0 ==> s.tick() == s,
{
}

/// The opcode `1nnn` sets `pc` to exactly `nnn` and changes nothing else.
pub proof fn lemma_jump(s: State, nnn: u16, random: u8)
    requires
        s.pc_in_bounds(),
        nnn < 0x1000,
        opcode_at(s.memory, s.pc) == 0x1000 + nnn,
    ensures
        step(s, random) == Ok::<State, Chip8Error>(State { pc: nnn, ..s }),
{
    assert(decode_spec((0x1000 + nnn) as u16) == Some(Instruction::Jump { addr: nnn }));
}

/// A call followed by a return: after `2nnn` has run with `00EE` standing at
/// `nnn`, the machine is at `nnn` with one more return address; after the
/// return it is at the instruction after the call, with the stack pointer it
/// had before the call and nothing changed but the stack slot used.
pub proof fn lemma_call_return(s: State, nnn: u16, first: u8, second: u8)
    requires
        s.wf(),
        s.pc_in_bounds(),
        s.sp < STACK_DEPTH,
        nnn < 0x1000,
        nnn + 1 < MEMORY_SIZE,
        opcode_at(s.memory, s.pc) == 0x2000 + nnn,
        opcode_at(s.memory, nnn) == 0x00EE,
    ensures
        ({
            &&& step(s, first) matches Ok(called)
            &&& called.pc == nnn
            &&& called.sp == s.sp + 1
            &&& step(called, second) matches Ok(returned)
            &&& returned.pc == s.pc + 2
            &&& returned.sp == s.sp
            &&& returned == (State {
                stack: s.stack.update(s.sp as int, (s.pc + 2) as u16),
                ..s.advance()
            })
        }),
{
    assert(decode_spec((0x2000 + nnn) as u16) == Some(Instruction::Call { addr: nnn }));
    assert(decode_spec(0x00EE) == Some(Instruction::Return));
}

/// Adding a byte to a register wraps round at 256 and touches no flag: `VF`
/// is as it was, unless it is itself the register added to.
pub proof fn lemma_add_byte_wraps(s: State, x: u8, kk: u8, random: u8)
    requires
        s.wf(),
        s.pc_in_bounds(),
        x < 16,
    ensures
        ({
            &&& execute(s, Instruction::AddByte { x, kk }, random) matches Ok(next)
            &&& next.reg(x) == (s.reg(x) + kk) % 0x100
            &&& forall|other: u8| other < 16 && other != x ==> next.reg(other) == s.reg(other)
        }),
{
}

/// Adding one register to another wraps round at 256 and leaves the carry in
/// `VF`: the flag and the sum together are the true sum.
pub proof fn lemma_add_carries(s: State, x: u8, y: u8, random: u8)
    requires
        s.wf(),
        s.pc_in_bounds(),
        x < FLAG_REGISTER,
        y < 16,
    ensures
        ({
            &&& execute(s, Instruction::Add { x, y }, random) matches Ok(next)
            &&& next.reg(FLAG_REGISTER as u8) <= 1
            &&& next.reg(FLAG_REGISTER as u8) * 0x100 + next.reg(x) == s.reg(x) + s.reg(y)
        }),
{
}

/// Subtracting one register from another wraps round at 256 and leaves in
/// `VF` whether nothing was borrowed: the flag and the difference together
/// are the true difference.
pub proof fn lemma_sub_borrows(s: State, x: u8, y: u8, random: u8)
    requires
        s.wf(),
        s.pc_in_bounds(),
        x < FLAG_REGISTER,
        y < 16,
    ensures
        ({
            &&& execute(s, Instruction::Sub { x, y }, random) matches Ok(next)
            &&& next.reg(FLAG_REGISTER as u8) == (if s.reg(x) >= s.reg(y) {
                1u8
            } else {
                0u8
            })
            &&& next.reg(x) - (1 - next.reg(FLAG_REGISTER as u8)) * 0x100 == s.reg(x) - s.reg(y)
        }),
{
}

/// The flag is written last: after an addition or a subtraction of
/// registers `VF` holds the carry or the no-borrow flag, even where `VF` is
/// itself the register that received the result.
pub proof fn lemma_flag_written_last(s: State, x: u8, y: u8, random: u8)
    requires
        s.wf(),
        s.pc_in_bounds(),
        x < 16,
        y < 16,
    ensures
        execute(s, Instruction::Add { x, y }, random) matches Ok(next) && next.reg(
            FLAG_REGISTER as u8,
        ) == (if s.reg(x) + s.reg(y) > 0xFF {
            1u8
        } else {
            0u8
        }),
        execute(s, Instruction::Sub { x, y }, random) matches Ok(next) && next.reg(
            FLAG_REGISTER as u8,
        ) == (if s.reg(x) >= s.reg(y) {
            1u8
        } else {
            0u8
        }),
        execute(s, Instruction::SubReversed { x, y }, random) matches Ok(next) && next.reg(
            FLAG_REGISTER as u8,
        ) == (if s.reg(y) >= s.reg(x) {
            1u8
        } else {
            0u8
        }),
{
}

/// The three decimal digits of a byte are digits, and they spell the byte.
pub proof fn lemma_decimal_digits(value: u8)
    ensures
        decimal_digits(value).len() == 3,
        forall|i: int| 0 <= i < 3 ==> #[trigger] decimal_digits(value)[i] < 10,
        decimal_digits(value)[0] * 100 + decimal_digits(value)[1] * 10 + decimal_digits(value)[2]
            == value,
{
}

/// What [`highest_key_down`] finds: `None` exactly when no key below `bound`
/// is down, else the one key that is down with no key above it down.
pub proof fn lemma_highest_key_down(keys: Seq<bool>, bound: int)
    requires
        0 <= bound <= 256,
    ensures
        highest_key_down(keys, bound) is None <==> forall|k: int| 0 <= k < bound ==> !keys[k],
        highest_key_down(keys, bound) matches Some(key) ==> {
            &&& key < bound
            &&& keys[key as int]
            &&& forall|k: int| key < k < bound ==> !keys[k]
        },
    decreases bound,
{
    if bound > 0 {
        lemma_highest_key_down(keys, bound - 1);
    }
}

/// Waiting for a key with no key down leaves the whole machine as it was, so
/// the same instruction runs again at the next step.
pub proof fn lemma_wait_key_stalls(s: State, x: u8, random: u8)
    requires
        s.wf(),
        s.pc_in_bounds(),
        x < 16,
        opcode_at(s.memory, s.pc) == 0xF00A + x * 0x100,
        forall|k: int| 0 <= k < KEY_COUNT ==> !s.keys[k],
    ensures
        step(s, random) == Ok::<State, Chip8Error>(s),
{
    assert(decode_spec((0xF00A + x * 0x100) as u16) == Some(Instruction::WaitKey { x }));
    lemma_highest_key_down(s.keys, KEY_COUNT as int);
}

/// Waiting for a key with key `key` down, and no key above it, stores `key`
/// in `Vx` and moves on to the following instruction.
pub proof fn lemma_wait_key_proceeds(s: State, x: u8, key: u8, random: u8)
    requires
        s.wf(),
        s.pc_in_bounds(),
        x < 16,
        opcode_at(s.memory, s.pc) == 0xF00A + x * 0x100,
        key < 16,
        s.keys[key as int],
        forall|k: int| key < k < KEY_COUNT ==> !s.keys[k],
    ensures
        step(s, random) == Ok::<State, Chip8Error>(s.set_reg(x, key).advance()),
        step(s, random)->Ok_0.pc == s.pc + 2,
        step(s, random)->Ok_0.reg(x) == key,
{
    assert(decode_spec((0xF00A + x * 0x100) as u16) == Some(Instruction::WaitKey { x }));
    lemma_highest_key_down(s.keys, KEY_COUNT as int);
}

/// Waiting for a key with no key down stalls for as many steps as are run:
/// `pc`, and everything else, stays as it was.
pub proof fn lemma_wait_key_stalls_repeatedly(s: State, x: u8, randoms: Seq<u8>)
    requires
        s.wf(),
        s.pc_in_bounds(),
        x < 16,
        opcode_at(s.memory, s.pc) == 0xF00A + x * 0x100,
        forall|k: int| 0 <= k < KEY_COUNT ==> !s.keys[k],
    ensures
        run(s, randoms) == Ok::<State, Chip8Error>(s),
    decreases randoms.len(),
{
    if randoms.len() > 0 {
        lemma_wait_key_stalls(s, x, randoms[0]);
        lemma_wait_key_stalls_repeatedly(s, x, randoms.skip(1));
    }
}

/// Executing an instruction that an opcode can express takes a well-formed
/// machine to a well-formed machine.
pub proof fn lemma_execute_preserves_wf(s: State, instr: Instruction, random: u8)
    requires
        s.wf(),
        instr.wf(),
    ensures
        execute(s, instr, random) matches Ok(next) ==> next.wf(),
{
}

/// A step takes a well-formed machine to a well-formed machine.
pub proof fn lemma_step_preserves_wf(s: State, random: u8)
    requires
        s.wf(),
    ensures
        step(s, random) matches Ok(next) ==> next.wf(),
{
    if s.pc_in_bounds() {
        match decode_spec(opcode_at(s.memory, s.pc)) {
            Some(instr) => {
                lemma_decode_wf(opcode_at(s.memory, s.pc));
                lemma_execute_preserves_wf(s, instr, random);
            },
            None => {},
        }
    }
}

/// Every instruction that decoding yields is one that an opcode can
/// express.
pub proof fn lemma_decode_wf(opcode: u16)
    ensures
        decode_spec(opcode) matches Some(instr) ==> instr.wf(),
{
}

/// Only the random instruction reads the random byte: for any other
/// instruction the step is the same whatever the byte, and whether a step
/// fails never depends on it.
pub proof fn lemma_random_byte_read_only_by_random(s: State, a: u8, b: u8)
    ensures
        step(s, a) is Err <==> step(s, b) is Err,
        step(s, a) is Err ==> step(s, a) == step(s, b),
        !(s.pc_in_bounds() && decode_spec(opcode_at(s.memory, s.pc)) is Some && decode_spec(
            opcode_at(s.memory, s.pc),
        )->Some_0 is Random) ==> step(s, a) == step(s, b),
{
}

/// Where a sprite pixel lands: the pixel in row `row`, column `col` of the
/// sprite flips the display pixel in row `(vy + row) % 32`, column
/// `(vx + col) % 64` if it is set, and leaves it alone if it is not.
pub proof fn lemma_draw_pixel(
    screen: Seq<Seq<bool>>,
    sprite: Seq<u8>,
    vx: u8,
    vy: u8,
    row: int,
    col: int,
)
    requires
        screen_wf(screen),
        0 <= row < sprite.len() <= SCREEN_HEIGHT,
        0 <= col < SPRITE_WIDTH,
    ensures
        ({
            let r = (vy + row) % (SCREEN_HEIGHT as int);
            let c = (vx + col) % (SCREEN_WIDTH as int);
            &&& sprite_covers(sprite, vx, vy, r, c) == sprite_bit(sprite[row], col)
            &&& draw(screen, sprite, vx, vy)[r][c] == (screen[r][c] != sprite_bit(sprite[row], col))
        }),
{
    let r = (vy + row) % (SCREEN_HEIGHT as int);
    let c = (vx + col) % (SCREEN_WIDTH as int);
    lemma_sprite_lands(vx, vy, row, col, r, c);
}

/// A display pixel that no sprite pixel lands on is left as it was.
pub proof fn lemma_draw_elsewhere(
    screen: Seq<Seq<bool>>,
    sprite: Seq<u8>,
    vx: u8,
    vy: u8,
    r: int,
    c: int,
)
    requires
        screen_wf(screen),
        0 <= r < SCREEN_HEIGHT,
        0 <= c < SCREEN_WIDTH,
        !sprite_covers(sprite, vx, vy, r, c),
    ensures
        draw(screen, sprite, vx, vy)[r][c] == screen[r][c],
        screen_wf(draw(screen, sprite, vx, vy)),
{
}

/// Drawing is its own inverse: the same sprite drawn twice at the same place
/// leaves the display as it was.
pub proof fn lemma_draw_twice_restores(screen: Seq<Seq<bool>>, sprite: Seq<u8>, vx: u8, vy: u8)
    requires
        screen_wf(screen),
    ensures
        draw(draw(screen, sprite, vx, vy), sprite, vx, vy) == screen,
{
    assert(draw(draw(screen, sprite, vx, vy), sprite, vx, vy) =~~= screen);
}

/// Drawing collides exactly when a set sprite pixel lands on a pixel that is
/// on.
pub proof fn lemma_collides_iff(screen: Seq<Seq<bool>>, sprite: Seq<u8>, vx: u8, vy: u8)
    requires
        screen_wf(screen),
        sprite.len() <= SCREEN_HEIGHT,
    ensures
        collides(screen, sprite, vx, vy) <==> exists|row: int, col: int|
            0 <= row < sprite.len() && 0 <= col < SPRITE_WIDTH && #[trigger] sprite_bit(
                sprite[row],
                col,
            ) && screen[(vy + row) % (SCREEN_HEIGHT as int)][(vx + col) % (SCREEN_WIDTH as int)],
{
    if collides(screen, sprite, vx, vy) {
        let (r, c) = choose|r: int, c: int|
            0 <= r < SCREEN_HEIGHT && 0 <= c < SCREEN_WIDTH && screen[r][c]
                && #[trigger] sprite_covers(sprite, vx, vy, r, c);
        let row = (r - vy) % (SCREEN_HEIGHT as int);
        let col = (c - vx) % (SCREEN_WIDTH as int);
        lemma_sprite_lands(vx, vy, row, col, r, c);
        assert(sprite_bit(sprite[row], col));
    }
    if exists|row: int, col: int|
        0 <= row < sprite.len() && 0 <= col < SPRITE_WIDTH && #[trigger] sprite_bit(
            sprite[row],
            col,
        ) && screen[(vy + row) % (SCREEN_HEIGHT as int)][(vx + col) % (SCREEN_WIDTH as int)] {
        let (row, col) = choose|row: int, col: int|
            0 <= row < sprite.len() && 0 <= col < SPRITE_WIDTH && #[trigger] sprite_bit(
                sprite[row],
                col,
            ) && screen[(vy + row) % (SCREEN_HEIGHT as int)][(vx + col) % (SCREEN_WIDTH as int)];
        lemma_draw_pixel(screen, sprite, vx, vy, row, col);
        let r = (vy + row) % (SCREEN_HEIGHT as int);
        let c = (vx + col) % (SCREEN_WIDTH as int);
        assert(sprite_covers(sprite, vx, vy, r, c));
    }
}

/// A sprite with at least one set pixel, drawn twice at the same place on an
/// area where every pixel it covers was off: the first drawing does not
/// collide, the second collides with the first, and the display ends as it
/// began.
pub proof fn lemma_draw_twice_collides(
    screen: Seq<Seq<bool>>,
    sprite: Seq<u8>,
    vx: u8,
    vy: u8,
    row: int,
    col: int,
)
    requires
        screen_wf(screen),
        sprite.len() <= SCREEN_HEIGHT,
        0 <= row < sprite.len(),
        0 <= col < SPRITE_WIDTH,
        sprite_bit(sprite[row], col),
        forall|r: int, c: int|
            0 <= r < SCREEN_HEIGHT && 0 <= c < SCREEN_WIDTH && #[trigger] sprite_covers(
                sprite,
                vx,
                vy,
                r,
                c,
            ) ==> !screen[r][c],
    ensures
        !collides(screen, sprite, vx, vy),
        collides(draw(screen, sprite, vx, vy), sprite, vx, vy),
        draw(draw(screen, sprite, vx, vy), sprite, vx, vy) == screen,
{
    lemma_draw_twice_restores(screen, sprite, vx, vy);
    lemma_draw_pixel(screen, sprite, vx, vy, row, col);
    let r = (vy + row) % (SCREEN_HEIGHT as int);
    let c = (vx + col) % (SCREEN_WIDTH as int);
    assert(sprite_covers(sprite, vx, vy, r, c));
    assert(draw(screen, sprite, vx, vy)[r][c]);
}

/// The draw instruction run twice in a row, with a sprite that has a set
/// pixel and that first lands where every pixel it covers is off: `VF` is 0
/// after the first drawing and 1 after the second, and the display ends as it
/// began. The coordinates must not come from `VF`, which the first drawing
/// overwrites.
pub proof fn lemma_draw_instruction_twice(
    s: State,
    x: u8,
    y: u8,
    n: u8,
    row: int,
    col: int,
    first: u8,
    second: u8,
)
    requires
        s.wf(),
        s.pc as int + 3 < MEMORY_SIZE,
        x < FLAG_REGISTER,
        y < FLAG_REGISTER,
        0 < n < 16,
        s.index + n <= MEMORY_SIZE,
        0 <= row < n,
        0 <= col < SPRITE_WIDTH,
        sprite_bit(s.memory[s.index + row], col),
        forall|r: int, c: int|
            0 <= r < SCREEN_HEIGHT && 0 <= c < SCREEN_WIDTH && #[trigger] sprite_covers(
                sprite_at(s.memory, s.index as int, n as int),
                s.reg(x),
                s.reg(y),
                r,
                c,
            ) ==> !s.screen[r][c],
    ensures
        ({
            &&& execute(s, Instruction::Draw { x, y, n }, first) matches Ok(once)
            &&& once.reg(FLAG_REGISTER as u8) == 0
            &&& once.pc == s.pc + 2
            &&& execute(once, Instruction::Draw { x, y, n }, second) matches Ok(twice)
            &&& twice.reg(FLAG_REGISTER as u8) == 1
            &&& twice.screen == s.screen
        }),
{
    let sprite = sprite_at(s.memory, s.index as int, n as int);
    lemma_draw_twice_collides(s.screen, sprite, s.reg(x), s.reg(y), row, col);
}

} // verus!
