//! The built-in hexadecimal font.
//!
//! Sixteen glyphs, one for each hexadecimal digit in the order `0` to `F`,
//! five bytes each. Each byte is one row of the glyph, drawn like any other
//! sprite row.

use vstd::prelude::*;

verus! {

/// Number of bytes in one glyph.
pub const GLYPH_SIZE: usize = 5;

/// Number of bytes in the whole font.
pub const FONT_SIZE: usize = 80;

/// The glyphs for `0` to `F`, in that order.
pub const FONT: [u8; 80] = [
    0xF0, 0x90, 0x90, 0x90, 0xF0,
    0x20, 0x60, 0x20, 0x20, 0x70,
    0xF0, 0x10, 0xF0, 0x80, 0xF0,
    0xF0, 0x10, 0xF0, 0x10, 0xF0,
    0x90, 0x90, 0xF0, 0x10, 0x10,
    0xF0, 0x80, 0xF0, 0x10, 0xF0,
    0xF0, 0x80, 0xF0, 0x90, 0xF0,
    0xF0, 0x10, 0x20, 0x40, 0x40,
    0xF0, 0x90, 0xF0, 0x90, 0xF0,
    0xF0, 0x90, 0xF0, 0x10, 0xF0,
    0xF0, 0x90, 0xF0, 0x90, 0x90,
    0xE0, 0x90, 0xE0, 0x90, 0xE0,
    0xF0, 0x80, 0x80, 0x80, 0xF0,
    0xE0, 0x90, 0x90, 0x90, 0xE0,
    0xF0, 0x80, 0xF0, 0x80, 0xF0,
    0xF0, 0x80, 0xF0, 0x80, 0x80,
];

/// The address of the glyph for `value`, with the font loaded at address 0.
pub open spec fn glyph_address(value: u8) -> u16 {
    (value as int * GLYPH_SIZE as int) as u16
}

} // verus!
