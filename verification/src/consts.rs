//! Fixed parameters of the machine: display size, memory layout, and the
//! built-in font atlas.

use vstd::prelude::*;

verus! {

/// Framebuffer width in pixels.
pub const WIDTH: usize = 64;

/// Framebuffer height in pixels.
pub const HEIGHT: usize = 32;

/// Number of cells in the (flattened, row-major) framebuffer.
pub const FB_SIZE: usize = 2048;

/// Size of the address space in bytes.
pub const MEM_SIZE: usize = 4096;

/// Address at which a loaded program image begins.
pub const PROGRAM_START: usize = 512;

/// Largest program image that fits between `PROGRAM_START` and the end of
/// memory: 4096 - 512 bytes.
pub const MAX_ROM_SIZE: usize = 3584;

/// Number of bytes in the font atlas: 16 glyphs of 5 bytes each.
pub const FONT_SIZE: usize = 80;

/// Height of one font glyph in bytes (rows).
pub const GLYPH_HEIGHT: usize = 5;

/// Phase-accumulator units that make up one 60 Hz timer period. One unit is
/// therefore 1/3600 of a second; callers report elapsed time in these units.
pub const PHASE_PER_TICK: u32 = 60;

/// The font atlas: glyphs for the hex digits 0 through F, 5 bytes per glyph,
/// preloaded at address 0 when the machine is built.
pub open spec fn font_seq() -> Seq<u8> {
    seq![
        0xF0u8, 0x90, 0x90, 0x90, 0xF0, // 0
        0x20, 0x60, 0x20, 0x20, 0x70, // 1
        0xF0, 0x10, 0xF0, 0x80, 0xF0, // 2
        0xF0, 0x10, 0xF0, 0x10, 0xF0, // 3
        0x90, 0x90, 0xF0, 0x10, 0x10, // 4
        0xF0, 0x80, 0xF0, 0x10, 0xF0, // 5
        0xF0, 0x80, 0xF0, 0x90, 0xF0, // 6
        0xF0, 0x10, 0x20, 0x40, 0x40, // 7
        0xF0, 0x90, 0xF0, 0x90, 0xF0, // 8
        0xF0, 0x90, 0xF0, 0x10, 0xF0, // 9
        0xF0, 0x90, 0xF0, 0x90, 0x90, // A
        0xE0, 0x90, 0xE0, 0x90, 0xE0, // B
        0xF0, 0x80, 0x80, 0x80, 0xF0, // C
        0xE0, 0x90, 0x90, 0x90, 0xE0, // D
        0xF0, 0x80, 0xF0, 0x80, 0xF0, // E
        0xF0, 0x80, 0xF0, 0x80, 0x80, // F
    ]
}

/// Builds the font atlas as a byte vector, equal to [`font_seq`].
pub fn font_bytes() -> (r: Vec<u8>)
    ensures
        r@ == font_seq(),
{
    let mut f: Vec<u8> = Vec::new();
    f.push(0xF0); f.push(0x90); f.push(0x90); f.push(0x90); f.push(0xF0);
    f.push(0x20); f.push(0x60); f.push(0x20); f.push(0x20); f.push(0x70);
    f.push(0xF0); f.push(0x10); f.push(0xF0); f.push(0x80); f.push(0xF0);
    f.push(0xF0); f.push(0x10); f.push(0xF0); f.push(0x10); f.push(0xF0);
    f.push(0x90); f.push(0x90); f.push(0xF0); f.push(0x10); f.push(0x10);
    f.push(0xF0); f.push(0x80); f.push(0xF0); f.push(0x10); f.push(0xF0);
    f.push(0xF0); f.push(0x80); f.push(0xF0); f.push(0x90); f.push(0xF0);
    f.push(0xF0); f.push(0x10); f.push(0x20); f.push(0x40); f.push(0x40);
    f.push(0xF0); f.push(0x90); f.push(0xF0); f.push(0x90); f.push(0xF0);
    f.push(0xF0); f.push(0x90); f.push(0xF0); f.push(0x10); f.push(0xF0);
    f.push(0xF0); f.push(0x90); f.push(0xF0); f.push(0x90); f.push(0x90);
    f.push(0xE0); f.push(0x90); f.push(0xE0); f.push(0x90); f.push(0xE0);
    f.push(0xF0); f.push(0x80); f.push(0x80); f.push(0x80); f.push(0xF0);
    f.push(0xE0); f.push(0x90); f.push(0x90); f.push(0x90); f.push(0xE0);
    f.push(0xF0); f.push(0x80); f.push(0xF0); f.push(0x80); f.push(0xF0);
    f.push(0xF0); f.push(0x80); f.push(0xF0); f.push(0x80); f.push(0x80);
    proof {
        assert(f@ =~= font_seq());
    }
    f
}

} // verus!
