//! The sprite table: 64 constant rows of 32 packed pixels each. A row stacks
//! up to four 8-pixel glyph strips side by side; a glyph's column `x` at
//! horizontal offset `sx` lives in bit `31 - ((sx + x) % 32)` of its row, so
//! decoding walks the word by left rotation (see the renderer).
//!
//! Row layout: 0..24 the score digits, four per row group (digit `d` sits at
//! offset `8 * (d % 4)` in row group `(d / 4) * 8`); 24..32 the two enemy
//! frames (offsets 0 and 19); 32 the star field row; 33..43, 43..53 and
//! 53..63 the player's idle, down and up poses. The bullet reads the first
//! two columns of rows 53..55.

use vstd::prelude::*;

verus! {

pub const SPRITES: [u32; 64] = [
    0x3c183c3c, 0x66386666, 0x66180c0c, 0x6618181c,
    0x66183006, 0x66186066, 0x3c7e7e3c, 0x00000000,
    0x0c7e3c7e, 0x1c60600c, 0x2c7c7c18, 0x4c066618,
    0x7e066630, 0x0c666630, 0x0c3c3c30, 0x00000000,
    0x3c3c0000, 0x66660000, 0x3c660000, 0x663e0000,
    0x66060000, 0x660c0000, 0x3c380000, 0x00000000,
    0x20800410, 0x11001224, 0x3f8017f4, 0x6ec01ddc,
    0xffe017fc, 0xbfa007f0, 0xa0a00410, 0x1b000c18,
    0x80200802, 0xc0000000, 0xf0000000, 0xd8000000,
    0xcfc00000, 0xffc00000, 0xffe00000, 0xffc00000,
    0xcfc00000, 0xd8000000, 0xf0000000, 0xf0000000,
    0xd8000000, 0xcfc00000, 0xffc00000, 0xffe00000,
    0xffe00000, 0xffc00000, 0xcfc00000, 0xd8000000,
    0xc0000000, 0xc0000000, 0xd8000000, 0xcfc00000,
    0xffc00000, 0xffe00000, 0xffe00000, 0xffc00000,
    0xcfc00000, 0xd8000000, 0xf0000000, 0x00000000,
];

} // verus!
