//! Block characters that rasterize the pixel font so the typing text can be
//! shown larger than the terminal font. Sextants (2×3 pixels per cell,
//! Unicode 13) serve the compact sizes and half blocks (1×2) the larger.

use vstd::prelude::*;

verus! {

/// std `char::from_u32`: `n` as a character when it is a Unicode scalar
/// value. The contract restates std's definition of a scalar value.
#[verifier::external_body]
fn char_from_u32(n: u32) -> (r: Option<char>)
    ensures
        r is Some <==> (n < 0xD800 || (0xE000 <= n && n <= 0x10FFFF)),
        r matches Some(c) ==> c as int == n as int,
{
    char::from_u32(n)
}

/// The code point `sextant` draws a 6-bit pattern with, bits in reading
/// order (top-left = bit 0 … bottom-right = bit 5). U+1FB00.. skips the two
/// patterns that are half blocks.
pub open spec fn sextant_code(bits: u8) -> int {
    if bits == 0 {
        0x20
    } else if bits == 0x15 {
        0x258C
    } else if bits == 0x2A {
        0x2590
    } else if bits == 0x3F {
        0x2588
    } else {
        0x1FB00 + bits - 1 - (if bits > 0x15 {
            1int
        } else {
            0int
        }) - (if bits > 0x2A {
            1int
        } else {
            0int
        })
    }
}

/// Sextant character for a 6-bit pattern (`▌`, `▐` and `█` for the
/// patterns that have their own block characters, a space for none).
pub fn sextant(bits: u8) -> (c: char)
    ensures
        c as int == sextant_code(bits),
{
    if bits == 0 {
        ' '
    } else if bits == 0x15 {
        '\u{258C}'
    } else if bits == 0x2A {
        '\u{2590}'
    } else if bits == 0x3F {
        '\u{2588}'
    } else {
        let skip: u32 = (if bits > 0x15 {
            1u32
        } else {
            0u32
        }) + (if bits > 0x2A {
            1u32
        } else {
            0u32
        });
        match char_from_u32(0x1FB00 + bits as u32 - 1 - skip) {
            Some(c) => c,
            None => '?',
        }
    }
}

/// The half-block character for a top and a bottom pixel.
pub open spec fn half_block_code(top: bool, bottom: bool) -> int {
    if top && bottom {
        0x2588
    } else if top {
        0x2580
    } else if bottom {
        0x2584
    } else {
        0x20
    }
}

pub fn half_block(top: bool, bottom: bool) -> (c: char)
    ensures
        c as int == half_block_code(top, bottom),
{
    match (top, bottom) {
        (true, true) => '\u{2588}',
        (true, false) => '\u{2580}',
        (false, true) => '\u{2584}',
        (false, false) => ' ',
    }
}

} // verus!
