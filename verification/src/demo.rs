//! A tiny bundled demo program, so the emulator has something to show
//! without an external ROM file.

use vstd::prelude::*;

verus! {

/// The demo's bytes: it draws the glyph of digit 0, clears the screen, moves
/// one pixel down and right (wrapping at the edges), and jumps back to the
/// draw.
pub open spec fn demo_bytes() -> Seq<u8> {
    seq![
        0x60u8, 0x05, // V0 = 5   (x)
        0x61, 0x05, // V1 = 5   (y)
        0x64, 0x00, // V4 = 0   (font digit index)
        0xF4, 0x29, // I = font glyph for digit V4
        0xD0, 0x15, // draw 5-row sprite at (V0, V1)   <- loop target, 0x208
        0x00, 0xE0, // clear
        0x70, 0x01, // V0 += 1  (wraps at the display edge)
        0x71, 0x01, // V1 += 1
        0x12, 0x08, // jump back to the draw instruction
    ]
}

/// The bundled demo ROM.
pub fn demo_rom() -> (rom: Vec<u8>)
    ensures
        rom@ == demo_bytes(),
{
    let rom = vec![
        0x60, 0x05, 0x61, 0x05, 0x64, 0x00, 0xF4, 0x29, 0xD0, 0x15, 0x00, 0xE0, 0x70, 0x01, 0x71,
        0x01, 0x12, 0x08,
    ];
    assert(rom@ =~= demo_bytes());
    rom
}

} // verus!
