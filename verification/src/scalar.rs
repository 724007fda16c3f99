use vstd::prelude::*;
use vstd::utf8::{char_is_scalar, encode_scalar};

verus! {

/// The UTF-8 encoding of one scalar value.
pub open spec fn encoding(c: char) -> Seq<u8> {
    encode_scalar(c as u32)
}

/// The number of bytes that the UTF-8 encoding of `c` takes.
pub fn len_utf8(c: char) -> (width: usize)
    ensures
        width == encoding(c).len(),
        1 <= width <= 4,
{
    let scalar = c as u32;
    proof {
        char_is_scalar(c);
    }
    if scalar <= 0x7F {
        1
    } else if scalar <= 0x7FF {
        2
    } else if scalar <= 0xFFFF {
        3
    } else {
        4
    }
}

/// Encodes `c` as UTF-8: the bytes of the encoding stand at the front of the
/// array, and their number beside it.
pub fn encode_utf8(c: char) -> (encoded: ([u8; 4], usize))
    ensures
        encoded.1 == encoding(c).len(),
        1 <= encoded.1 <= 4,
        encoded.0@.subrange(0, encoded.1 as int) == encoding(c),
{
    let scalar = c as u32;
    let width = len_utf8(c);
    proof {
        char_is_scalar(c);
    }
    let low: u32 = scalar & 0x3F;
    let mid: u32 = (scalar >> 6) & 0x3F;
    let high: u32 = (scalar >> 12) & 0x3F;
    assert(low <= 0x3F && mid <= 0x3F && high <= 0x3F) by (bit_vector)
        requires
            low == scalar & 0x3F,
            mid == (scalar >> 6) & 0x3F,
            high == (scalar >> 12) & 0x3F,
    ;
    let bytes: [u8; 4] = if width == 1 {
        let first: u32 = scalar & 0x7F;
        assert(first <= 0x7F) by (bit_vector)
            requires
                first == scalar & 0x7F,
        ;
        [first as u8, 0, 0, 0]
    } else if width == 2 {
        let first: u32 = (scalar >> 6) & 0x1F;
        assert(first <= 0x1F) by (bit_vector)
            requires
                first == (scalar >> 6) & 0x1F,
        ;
        [0xC0 | first as u8, 0x80 | low as u8, 0, 0]
    } else if width == 3 {
        let first: u32 = (scalar >> 12) & 0x0F;
        assert(first <= 0x0F) by (bit_vector)
            requires
                first == (scalar >> 12) & 0x0F,
        ;
        [0xE0 | first as u8, 0x80 | mid as u8, 0x80 | low as u8, 0]
    } else {
        let first: u32 = (scalar >> 18) & 0x7;
        assert(first <= 0x7) by (bit_vector)
            requires
                first == (scalar >> 18) & 0x7,
        ;
        [0xF0 | first as u8, 0x80 | high as u8, 0x80 | mid as u8, 0x80 | low as u8]
    };
    (bytes, width)
}

} // verus!
