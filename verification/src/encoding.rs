//! Facts about the UTF-8 encoding of text, as far as the writing of lines needs them.

use vstd::prelude::*;
use vstd::utf8::{encode_scalar, encode_utf8};

verus! {

/// A character below `0x80` has one byte with the same value.
proof fn one_byte(scalar: u32)
    by (bit_vector)
    requires
        scalar <= 0x7F,
    ensures
        (scalar & 0x7F) as u8 == scalar,
{
}

/// A byte with its highest bits set is no ASCII byte.
proof fn high_byte(low: u8)
    by (bit_vector)
    ensures
        0xC0u8 | low >= 0x80,
        0xE0u8 | low >= 0x80,
        0xF0u8 | low >= 0x80,
        0x80u8 | low >= 0x80,
{
}

/// The encoding of one character is the character itself where it is ASCII,
/// and holds no ASCII byte where it is not.
pub proof fn encoding_of_char(c: char)
    ensures
        1 <= encode_scalar(c as u32).len() <= 4,
        (c as u32) < 0x80 ==> encode_scalar(c as u32) == seq![c as u8],
        (c as u32) >= 0x80 ==> forall|i: int|
            0 <= i < encode_scalar(c as u32).len() ==> #[trigger] encode_scalar(c as u32)[i]
                >= 0x80,
{
    let scalar = c as u32;
    if scalar < 0x80 {
        one_byte(scalar);
        assert(encode_scalar(scalar) =~= seq![c as u8]);
    } else {
        high_byte(((scalar >> 6) & 0x1F) as u8);
        high_byte(((scalar >> 12) & 0x0F) as u8);
        high_byte(((scalar >> 18) & 0x7) as u8);
        high_byte((scalar & 0x3F) as u8);
        high_byte(((scalar >> 6) & 0x3F) as u8);
        high_byte(((scalar >> 12) & 0x3F) as u8);
    }
}

/// The encoding of two texts in a row is their encodings in a row.
pub proof fn encoding_of_concat(a: Seq<char>, b: Seq<char>)
    ensures
        encode_utf8(a + b) == encode_utf8(a) + encode_utf8(b),
    decreases a.len(),
{
    if a.len() == 0 {
        assert(a + b =~= b);
        assert(encode_utf8(a) + encode_utf8(b) =~= encode_utf8(b));
    } else {
        assert((a + b).drop_first() =~= a.drop_first() + b);
        encoding_of_concat(a.drop_first(), b);
        assert(encode_scalar(a[0] as u32) + (encode_utf8(a.drop_first()) + encode_utf8(b))
            =~= (encode_scalar(a[0] as u32) + encode_utf8(a.drop_first())) + encode_utf8(b));
    }
}

} // verus!
