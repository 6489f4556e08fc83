//! Display colors, stored as one `i32` holding four bytes: red in the lowest byte,
//! then green, blue and alpha.
use vstd::prelude::*;

verus! {

/// An RGBA color, unmultiplied.
#[derive(Clone, Copy, Debug, PartialEq, Eq, Structural)]
pub struct Rgba {
    pub r: u8,
    pub g: u8,
    pub b: u8,
    pub a: u8,
}

/// The bits of `c` read as an unsigned word (two's complement).
pub open spec fn word_of(c: i32) -> u32 {
    if c >= 0 {
        c as u32
    } else {
        (c + 0x1_0000_0000) as u32
    }
}

/// The signed integer with the bits of `w` (two's complement).
pub open spec fn int_of(w: u32) -> i32 {
    if w <= 0x7fff_ffff {
        w as i32
    } else {
        (w - 0x1_0000_0000) as i32
    }
}

/// The bits of `c` as an unsigned word.
fn to_word(c: i32) -> (w: u32)
    ensures
        w == word_of(c),
        int_of(w) == c,
{
    if c >= 0 {
        c as u32
    } else {
        (c as i64 + 0x1_0000_0000i64) as u32
    }
}

/// The stored form of a color, as an unsigned word.
pub open spec fn packed_word(c: Rgba) -> u32 {
    (c.r as u32) | ((c.g as u32) << 8u32) | ((c.b as u32) << 16u32) | ((c.a as u32) << 24u32)
}

/// Splits a stored color into its four bytes.
pub fn unpack_color(c: i32) -> (r: Rgba)
    ensures
        r.r == (word_of(c) & 0xff) as u8,
        r.g == ((word_of(c) >> 8u32) & 0xff) as u8,
        r.b == ((word_of(c) >> 16u32) & 0xff) as u8,
        r.a == ((word_of(c) >> 24u32) & 0xff) as u8,
        packed_word(r) == word_of(c),
        int_of(packed_word(r)) == c,
{
    let w = to_word(c);
    let r = Rgba {
        r: (w & 0xff) as u8,
        g: ((w >> 8u32) & 0xff) as u8,
        b: ((w >> 16u32) & 0xff) as u8,
        a: ((w >> 24u32) & 0xff) as u8,
    };
    assert(((w & 0xff) as u8) as u32 | ((((w >> 8u32) & 0xff) as u8) as u32) << 8u32 | ((((w
        >> 16u32) & 0xff) as u8) as u32) << 16u32 | ((((w >> 24u32) & 0xff) as u8) as u32)
        << 24u32 == w) by (bit_vector);
    r
}

/// Packs a color into its stored form.
pub fn repack_color(c: Rgba) -> (r: i32)
    ensures
        r == int_of(packed_word(c)),
        word_of(r) == packed_word(c),
{
    let w: u32 = (c.r as u32) | ((c.g as u32) << 8u32) | ((c.b as u32) << 16u32) | ((c.a as u32)
        << 24u32);
    if w <= 0x7fff_ffff {
        w as i32
    } else {
        (w as i64 - 0x1_0000_0000i64) as i32
    }
}

/// Packing a color and splitting it again gives the same color.
pub proof fn lemma_color_round_trip(c: Rgba)
    ensures
        ((packed_word(c) & 0xff) as u8) == c.r,
        (((packed_word(c) >> 8u32) & 0xff) as u8) == c.g,
        (((packed_word(c) >> 16u32) & 0xff) as u8) == c.b,
        (((packed_word(c) >> 24u32) & 0xff) as u8) == c.a,
{
    let (r, g, b, a) = (c.r, c.g, c.b, c.a);
    assert((((r as u32) | ((g as u32) << 8u32) | ((b as u32) << 16u32) | ((a as u32) << 24u32))
        & 0xff) as u8 == r) by (bit_vector);
    assert(((((r as u32) | ((g as u32) << 8u32) | ((b as u32) << 16u32) | ((a as u32) << 24u32))
        >> 8u32) & 0xff) as u8 == g) by (bit_vector);
    assert(((((r as u32) | ((g as u32) << 8u32) | ((b as u32) << 16u32) | ((a as u32) << 24u32))
        >> 16u32) & 0xff) as u8 == b) by (bit_vector);
    assert(((((r as u32) | ((g as u32) << 8u32) | ((b as u32) << 16u32) | ((a as u32) << 24u32))
        >> 24u32) & 0xff) as u8 == a) by (bit_vector);
}

} // verus!
