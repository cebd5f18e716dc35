//! The display: 32 rows of 64 pixels, and sprite drawing.
//!
//! A sprite is a sequence of at most fifteen bytes, one per row, each byte
//! eight pixels wide with its most significant bit leftmost. Drawing combines
//! the sprite with the display by exclusive or, and coordinates wrap round at
//! the right and bottom edges.

use vstd::prelude::*;
use crate::model::{screen_wf, SCREEN_HEIGHT, SCREEN_WIDTH};

verus! {

/// Number of pixel columns that one sprite byte covers.
pub const SPRITE_WIDTH: usize = 8;

/// The display held in `pixels`, as a sequence of rows.
pub open spec fn screen_view(pixels: [[bool; 64]; 32]) -> Seq<Seq<bool>> {
    Seq::new(SCREEN_HEIGHT as nat, |r: int| pixels@[r]@)
}

/// Whether pixel `col` of the sprite row `byte` is set; column 0 is the most
/// significant bit.
pub open spec fn sprite_bit(byte: u8, col: int) -> bool {
    (byte >> ((7 - col) as u8)) & 1u8 == 1u8
}

/// The sprite row that lands on display row `r` when the sprite's first row is
/// drawn at row `vy`.
pub open spec fn sprite_row(vy: u8, r: int) -> int {
    (r - vy) % (SCREEN_HEIGHT as int)
}

/// The sprite column that lands on display column `c` when the sprite's first
/// column is drawn at column `vx`.
pub open spec fn sprite_col(vx: u8, c: int) -> int {
    (c - vx) % (SCREEN_WIDTH as int)
}

/// Whether `sprite`, drawn with its top left corner at column `vx`, row `vy`,
/// has a set pixel on display row `r`, column `c`.
pub open spec fn sprite_covers(sprite: Seq<u8>, vx: u8, vy: u8, r: int, c: int) -> bool {
    let row = sprite_row(vy, r);
    let col = sprite_col(vx, c);
    row < sprite.len() && col < SPRITE_WIDTH && sprite_bit(sprite[row], col)
}

/// The display after `sprite` was drawn on `screen` at column `vx`, row `vy`:
/// every pixel that the sprite covers is flipped, every other is kept.
pub open spec fn draw(screen: Seq<Seq<bool>>, sprite: Seq<u8>, vx: u8, vy: u8) -> Seq<Seq<bool>> {
    Seq::new(
        SCREEN_HEIGHT as nat,
        |r: int|
            Seq::new(
                SCREEN_WIDTH as nat,
                |c: int| screen[r][c] != sprite_covers(sprite, vx, vy, r, c),
            ),
    )
}

/// Whether drawing `sprite` on `screen` at column `vx`, row `vy` turns some
/// pixel off: a pixel that is on and that the sprite covers.
pub open spec fn collides(screen: Seq<Seq<bool>>, sprite: Seq<u8>, vx: u8, vy: u8) -> bool {
    exists|r: int, c: int|
        0 <= r < SCREEN_HEIGHT && 0 <= c < SCREEN_WIDTH && screen[r][c] && #[trigger] sprite_covers(
            sprite,
            vx,
            vy,
            r,
            c,
        )
}

/// Whether the sprite pixel at (`row`, `col`) comes before (`i`, `j`) in
/// reading order.
spec fn drawn_before(row: int, col: int, i: int, j: int) -> bool {
    row < i || (row == i && col < j)
}

/// [`sprite_covers`], restricted to the sprite pixels that come before
/// (`i`, `j`) in reading order.
spec fn covers_before(
    sprite: Seq<u8>,
    vx: u8,
    vy: u8,
    r: int,
    c: int,
    i: int,
    j: int,
) -> bool {
    sprite_covers(sprite, vx, vy, r, c) && drawn_before(sprite_row(vy, r), sprite_col(vx, c), i, j)
}

/// The sprite pixel (`row`, `col`) lands on display row `(vy + row) % 32`,
/// column `(vx + col) % 64`, and on no other pixel.
pub proof fn lemma_sprite_lands(vx: u8, vy: u8, row: int, col: int, r: int, c: int)
    requires
        0 <= row < SCREEN_HEIGHT,
        0 <= col < SCREEN_WIDTH,
        0 <= r < SCREEN_HEIGHT,
        0 <= c < SCREEN_WIDTH,
    ensures
        sprite_row(vy, r) == row <==> r == (vy + row) % (SCREEN_HEIGHT as int),
        sprite_col(vx, c) == col <==> c == (vx + col) % (SCREEN_WIDTH as int),
{
}

/// The `n` bytes of `memory` from `start` on, read as a sprite.
pub open spec fn sprite_at(memory: Seq<u8>, start: int, n: int) -> Seq<u8> {
    Seq::new(n as nat, |i: int| memory[start + i])
}

/// [`draw`], restricted to the sprite pixels that come before (`i`, `j`) in
/// reading order.
spec fn draw_before(
    screen: Seq<Seq<bool>>,
    sprite: Seq<u8>,
    vx: u8,
    vy: u8,
    i: int,
    j: int,
) -> Seq<Seq<bool>> {
    Seq::new(
        SCREEN_HEIGHT as nat,
        |r: int|
            Seq::new(
                SCREEN_WIDTH as nat,
                |c: int| screen[r][c] != covers_before(sprite, vx, vy, r, c, i, j),
            ),
    )
}

/// [`collides`], restricted to the sprite pixels that come before (`i`, `j`)
/// in reading order.
spec fn collides_before(
    screen: Seq<Seq<bool>>,
    sprite: Seq<u8>,
    vx: u8,
    vy: u8,
    i: int,
    j: int,
) -> bool {
    exists|r: int, c: int|
        0 <= r < SCREEN_HEIGHT && 0 <= c < SCREEN_WIDTH && screen[r][c] && #[trigger] covers_before(
            sprite,
            vx,
            vy,
            r,
            c,
            i,
            j,
        )
}

/// Once every row of the sprite has been walked, the restricted forms are the
/// full ones.
proof fn lemma_before_all(screen: Seq<Seq<bool>>, sprite: Seq<u8>, vx: u8, vy: u8)
    ensures
        draw_before(screen, sprite, vx, vy, sprite.len() as int, 0) == draw(screen, sprite, vx, vy),
        collides_before(screen, sprite, vx, vy, sprite.len() as int, 0) == collides(
            screen,
            sprite,
            vx,
            vy,
        ),
{
    let n = sprite.len() as int;
    assert forall|r: int, c: int|
        covers_before(sprite, vx, vy, r, c, n, 0) == sprite_covers(sprite, vx, vy, r, c) by {}
    assert(draw_before(screen, sprite, vx, vy, n, 0) =~~= draw(screen, sprite, vx, vy));
    if collides(screen, sprite, vx, vy) {
        let (r, c) = choose|r: int, c: int|
            0 <= r < SCREEN_HEIGHT && 0 <= c < SCREEN_WIDTH && screen[r][c]
                && #[trigger] sprite_covers(sprite, vx, vy, r, c);
        assert(covers_before(sprite, vx, vy, r, c, n, 0));
    }
    if collides_before(screen, sprite, vx, vy, n, 0) {
        let (r, c) = choose|r: int, c: int|
            0 <= r < SCREEN_HEIGHT && 0 <= c < SCREEN_WIDTH && screen[r][c]
                && #[trigger] covers_before(sprite, vx, vy, r, c, n, 0);
        assert(sprite_covers(sprite, vx, vy, r, c));
    }
}

/// Walking past the end of sprite row `i` is the same as standing at the
/// start of row `i + 1`.
proof fn lemma_before_next_row(screen: Seq<Seq<bool>>, sprite: Seq<u8>, vx: u8, vy: u8, i: int)
    ensures
        draw_before(screen, sprite, vx, vy, i, SPRITE_WIDTH as int) == draw_before(
            screen,
            sprite,
            vx,
            vy,
            i + 1,
            0,
        ),
        collides_before(screen, sprite, vx, vy, i, SPRITE_WIDTH as int) == collides_before(
            screen,
            sprite,
            vx,
            vy,
            i + 1,
            0,
        ),
{
    assert forall|r: int, c: int|
        covers_before(sprite, vx, vy, r, c, i, SPRITE_WIDTH as int) == covers_before(
            sprite,
            vx,
            vy,
            r,
            c,
            i + 1,
            0,
        ) by {}
    assert(draw_before(screen, sprite, vx, vy, i, SPRITE_WIDTH as int) =~~= draw_before(
        screen,
        sprite,
        vx,
        vy,
        i + 1,
        0,
    ));
    if collides_before(screen, sprite, vx, vy, i, SPRITE_WIDTH as int) {
        let (r, c) = choose|r: int, c: int|
            0 <= r < SCREEN_HEIGHT && 0 <= c < SCREEN_WIDTH && screen[r][c]
                && #[trigger] covers_before(sprite, vx, vy, r, c, i, SPRITE_WIDTH as int);
        assert(covers_before(sprite, vx, vy, r, c, i + 1, 0));
    }
    if collides_before(screen, sprite, vx, vy, i + 1, 0) {
        let (r, c) = choose|r: int, c: int|
            0 <= r < SCREEN_HEIGHT && 0 <= c < SCREEN_WIDTH && screen[r][c]
                && #[trigger] covers_before(sprite, vx, vy, r, c, i + 1, 0);
        assert(covers_before(sprite, vx, vy, r, c, i, SPRITE_WIDTH as int));
    }
}

/// Walking over the sprite pixel (`i`, `j`) flips the display pixel it lands
/// on if the sprite pixel is set, and touches no other; it collides if that
/// display pixel was on.
proof fn lemma_before_next_pixel(
    screen: Seq<Seq<bool>>,
    sprite: Seq<u8>,
    vx: u8,
    vy: u8,
    i: int,
    j: int,
)
    requires
        screen_wf(screen),
        0 <= i < sprite.len() <= SCREEN_HEIGHT,
        0 <= j < SPRITE_WIDTH,
    ensures
        ({
            let r = (vy + i) % (SCREEN_HEIGHT as int);
            let c = (vx + j) % (SCREEN_WIDTH as int);
            let set = sprite_bit(sprite[i], j);
            let now = draw_before(screen, sprite, vx, vy, i, j);
            &&& now[r][c] == screen[r][c]
            &&& draw_before(screen, sprite, vx, vy, i, j + 1) == now.update(
                r,
                now[r].update(c, now[r][c] != set),
            )
            &&& collides_before(screen, sprite, vx, vy, i, j + 1) == (collides_before(
                screen,
                sprite,
                vx,
                vy,
                i,
                j,
            ) || (set && screen[r][c]))
        }),
{
    let r = (vy + i) % (SCREEN_HEIGHT as int);
    let c = (vx + j) % (SCREEN_WIDTH as int);
    let set = sprite_bit(sprite[i], j);
    let now = draw_before(screen, sprite, vx, vy, i, j);
    let next = draw_before(screen, sprite, vx, vy, i, j + 1);
    assert forall|r2: int, c2: int| 0 <= r2 < SCREEN_HEIGHT && 0 <= c2 < SCREEN_WIDTH implies (
    covers_before(sprite, vx, vy, r2, c2, i, j + 1) == (covers_before(sprite, vx, vy, r2, c2, i, j)
        || (r2 == r && c2 == c && set))) by {
        lemma_sprite_lands(vx, vy, i, j, r2, c2);
    }
    lemma_sprite_lands(vx, vy, i, j, r, c);
    assert(!covers_before(sprite, vx, vy, r, c, i, j));
    assert(next =~~= now.update(r, now[r].update(c, now[r][c] != set)));
    if collides_before(screen, sprite, vx, vy, i, j + 1) {
        let (r2, c2) = choose|r2: int, c2: int|
            0 <= r2 < SCREEN_HEIGHT && 0 <= c2 < SCREEN_WIDTH && screen[r2][c2]
                && #[trigger] covers_before(sprite, vx, vy, r2, c2, i, j + 1);
        if !(r2 == r && c2 == c && set) {
            assert(covers_before(sprite, vx, vy, r2, c2, i, j));
        }
    }
    if collides_before(screen, sprite, vx, vy, i, j) {
        let (r2, c2) = choose|r2: int, c2: int|
            0 <= r2 < SCREEN_HEIGHT && 0 <= c2 < SCREEN_WIDTH && screen[r2][c2]
                && #[trigger] covers_before(sprite, vx, vy, r2, c2, i, j);
        assert(covers_before(sprite, vx, vy, r2, c2, i, j + 1));
    }
    if set && screen[r][c] {
        assert(covers_before(sprite, vx, vy, r, c, i, j + 1));
    }
}

/// Draws the `n`-byte sprite that starts at `memory[start]` on `screen`, with
/// its top left corner at column `vx`, row `vy`, and says whether a pixel was
/// turned off.
pub fn draw_sprite(
    screen: &mut [[bool; 64]; 32],
    memory: &[u8; 4096],
    start: usize,
    n: u8,
    vx: u8,
    vy: u8,
) -> (hit: bool)
    requires
        n < 16,
        n > 0 ==> start + n <= 4096,
    ensures
        screen_view(*final(screen)) == draw(
            screen_view(*old(screen)),
            sprite_at(memory@, start as int, n as int),
            vx,
            vy,
        ),
        hit == collides(
            screen_view(*old(screen)),
            sprite_at(memory@, start as int, n as int),
            vx,
            vy,
        ),
    no_unwind
{
    let ghost before = screen_view(*screen);
    let ghost sprite = sprite_at(memory@, start as int, n as int);
    let mut hit = false;
    let mut i: u8 = 0;
    assert(screen_view(*screen) =~~= draw_before(before, sprite, vx, vy, 0, 0));
    while i < n
        invariant
            i <= n < 16,
            n > 0 ==> start + n <= 4096,
            screen_wf(before),
            sprite == sprite_at(memory@, start as int, n as int),
            screen_view(*screen) == draw_before(before, sprite, vx, vy, i as int, 0),
            hit == collides_before(before, sprite, vx, vy, i as int, 0),
        decreases n - i,
    {
        let byte = memory[start + i as usize];
        let r: usize = (vy as usize + i as usize) % 32;
        let mut j: u8 = 0;
        while j < 8
            invariant
                i < n < 16,
                j <= 8,
                r == (vy + i) % 32,
                byte == sprite[i as int],
                screen_wf(before),
                sprite.len() == n,
                screen_view(*screen) == draw_before(before, sprite, vx, vy, i as int, j as int),
                hit == collides_before(before, sprite, vx, vy, i as int, j as int),
            decreases 8 - j,
        {
            let c: usize = (vx as usize + j as usize) % 64;
            let set = (byte >> (7 - j)) & 1 == 1;
            proof {
                lemma_before_next_pixel(before, sprite, vx, vy, i as int, j as int);
            }
            let ghost now = screen_view(*screen);
            let lit = screen[r][c];
            if set && lit {
                hit = true;
            }
            screen[r][c] = lit != set;
            assert(screen_view(*screen) =~~= now.update(
                r as int,
                now[r as int].update(c as int, now[r as int][c as int] != set),
            ));
            j = j + 1;
        }
        proof {
            lemma_before_next_row(before, sprite, vx, vy, i as int);
        }
        i = i + 1;
    }
    proof {
        lemma_before_all(before, sprite, vx, vy);
    }
    hit
}

} // verus!
