//! Reduction of a 24-bit colour to the packed 16-bit form.

use vstd::prelude::*;

verus! {

/// The packed 16-bit colour of three 8-bit channels: the top five bits of
/// red in bits 11 to 15, the top six bits of green in bits 5 to 10 and the
/// top five bits of blue in bits 0 to 4. The low bits of each channel are
/// cut off, not rounded.
pub open spec fn packed(r: u8, g: u8, b: u8) -> u16 {
    (((r >> 3) as u16) << 11) | (((g >> 2) as u16) << 5) | ((b >> 3) as u16)
}

/// The red field of a packed colour, a value below 32.
pub open spec fn red_field(c: u16) -> u16 {
    c >> 11
}

/// The green field of a packed colour, a value below 64.
pub open spec fn green_field(c: u16) -> u16 {
    (c >> 5) & 0x3f
}

/// The blue field of a packed colour, a value below 32.
pub open spec fn blue_field(c: u16) -> u16 {
    c & 0x1f
}

/// Converts one pixel of three 8-bit channels to the packed 16-bit colour.
///
/// The result depends on the three arguments alone, and each field of it
/// holds the top bits of its channel.
pub fn convert(r: u8, g: u8, b: u8) -> (c: u16)
    ensures
        c == packed(r, g, b),
        red_field(c) == r >> 3,
        green_field(c) == g >> 2,
        blue_field(c) == b >> 3,
        c == (r as int / 8) * 2048 + (g as int / 4) * 32 + (b as int / 8),
{
    let c: u16 = (((r >> 3) as u16) << 11) | (((g >> 2) as u16) << 5) | ((b >> 3) as u16);
    proof {
        lemma_fields(r, g, b);
        lemma_packed_sum(r, g, b);
    }
    c
}

/// Each field of a packed colour holds the top bits of the channel it was
/// made from.
pub proof fn lemma_fields(r: u8, g: u8, b: u8)
    ensures
        red_field(packed(r, g, b)) == r >> 3,
        green_field(packed(r, g, b)) == g >> 2,
        blue_field(packed(r, g, b)) == b >> 3,
{
    assert(((((r >> 3) as u16) << 11) | (((g >> 2) as u16) << 5) | ((b >> 3) as u16)) >> 11 == r
        >> 3) by (bit_vector);
    assert((((((r >> 3) as u16) << 11) | (((g >> 2) as u16) << 5) | ((b >> 3) as u16)) >> 5) & 0x3f
        == g >> 2) by (bit_vector);
    assert(((((r >> 3) as u16) << 11) | (((g >> 2) as u16) << 5) | ((b >> 3) as u16)) & 0x1f == b
        >> 3) by (bit_vector);
}

/// The packed colour as a sum: each channel divided down to its width and
/// weighted by the place of its field.
pub proof fn lemma_packed_sum(r: u8, g: u8, b: u8)
    ensures
        packed(r, g, b) == (r as int / 8) * 2048 + (g as int / 4) * 32 + (b as int / 8),
{
    assert((((r >> 3) as u16) << 11) | (((g >> 2) as u16) << 5) | ((b >> 3) as u16) == (r as u16
        / 8) * 2048 + (g as u16 / 4) * 32 + (b as u16 / 8)) by (bit_vector);
}

/// White gives the largest packed colour and black gives zero.
pub proof fn lemma_extremes()
    ensures
        packed(255, 255, 255) == u16::MAX,
        packed(0, 0, 0) == 0,
{
    assert((((255u8 >> 3) as u16) << 11) | (((255u8 >> 2) as u16) << 5) | ((255u8 >> 3) as u16)
        == 0xffff) by (bit_vector);
    assert((((0u8 >> 3) as u16) << 11) | (((0u8 >> 2) as u16) << 5) | ((0u8 >> 3) as u16) == 0)
        by (bit_vector);
}

} // verus!
