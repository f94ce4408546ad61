use vstd::prelude::*;

verus! {

/// The packed `0x00BBGGRR` colour value of a red, green and blue triple.
pub open spec fn packed_color(r: u8, g: u8, b: u8) -> int {
    r + 256 * g + 65536 * b
}

/// Packs red, green and blue into the `0x00BBGGRR` layout used by GDI.
pub fn rgb(r: u8, g: u8, b: u8) -> (c: u32)
    ensures
        c == packed_color(r, g, b),
        c & 0xff == r,
        (c >> 8u32) & 0xff == g,
        c >> 16u32 == b,
{
    let c = (r as u32) | ((g as u32) << 8u32) | ((b as u32) << 16u32);
    assert(c == r + 256 * g + 65536 * b && c & 0xff == r && (c >> 8u32) & 0xff == g
        && c >> 16u32 == b) by (bit_vector)
        requires
            c == (r as u32) | ((g as u32) << 8u32) | ((b as u32) << 16u32),
    ;
    c
}

} // verus!
