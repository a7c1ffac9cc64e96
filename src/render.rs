use vstd::prelude::*;

verus! {

/// Packs red, green and blue into a `0x00RRGGBB` pixel value.
pub fn from_u8_rgb(r: u8, g: u8, b: u8) -> (px: u32)
    ensures
        px == r as int * 0x10000 + g as int * 0x100 + b as int,
{
    let (r, g, b) = (r as u32, g as u32, b as u32);
    assert((r << 16) | (g << 8) | b == r * 0x10000 + g * 0x100 + b) by (bit_vector)
        requires
            r < 256,
            g < 256,
            b < 256,
    ;
    (r << 16) | (g << 8) | b
}

} // verus!
