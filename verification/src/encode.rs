//! Big-endian byte encoding of 16-bit values: coordinates in window commands
//! and RGB565 pixels, both sent high byte first.

use vstd::prelude::*;

verus! {

pub open spec fn hi_byte(v: u16) -> u8 {
    (v >> 8) as u8
}

pub open spec fn lo_byte(v: u16) -> u8 {
    (v & 0xff) as u8
}

/// A 16-bit value in panel byte order: high byte, then low byte.
pub open spec fn u16_be(v: u16) -> Seq<u8> {
    seq![hi_byte(v), lo_byte(v)]
}

/// The byte stream of a pixel sequence: each RGB565 pixel as two bytes,
/// high byte first.
pub open spec fn pixels_bytes(pixels: Seq<u16>) -> Seq<u8>
    decreases pixels.len(),
{
    if pixels.len() == 0 {
        Seq::empty()
    } else {
        u16_be(pixels.first()) + pixels_bytes(pixels.drop_first())
    }
}

pub proof fn lemma_pixels_bytes_push(pixels: Seq<u16>, p: u16)
    ensures
        pixels_bytes(pixels.push(p)) == pixels_bytes(pixels) + u16_be(p),
    decreases pixels.len(),
{
    if pixels.len() == 0 {
        assert(pixels.push(p).first() == p);
        assert(pixels.push(p).drop_first() =~= Seq::<u16>::empty());
        assert(pixels_bytes(pixels.push(p).drop_first()) == Seq::<u8>::empty());
        assert(pixels_bytes(pixels) == Seq::<u8>::empty());
        assert(pixels_bytes(pixels.push(p)) =~= pixels_bytes(pixels) + u16_be(p));
    } else {
        assert(pixels.push(p).first() == pixels.first());
        assert(pixels.push(p).drop_first() =~= pixels.drop_first().push(p));
        lemma_pixels_bytes_push(pixels.drop_first(), p);
        assert(pixels_bytes(pixels.push(p)) =~= pixels_bytes(pixels) + u16_be(p));
    }
}

pub proof fn lemma_pixels_bytes_len(pixels: Seq<u16>)
    ensures
        pixels_bytes(pixels).len() == 2 * pixels.len(),
    decreases pixels.len(),
{
    if pixels.len() > 0 {
        lemma_pixels_bytes_len(pixels.drop_first());
    }
}

/// Splits a 16-bit value into its panel byte order.
pub fn u16_to_be(v: u16) -> (r: (u8, u8))
    ensures
        r.0 == hi_byte(v),
        r.1 == lo_byte(v),
        seq![r.0, r.1] == u16_be(v),
{
    ((v >> 8) as u8, (v & 0xff) as u8)
}

} // verus!
