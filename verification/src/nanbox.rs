//! The quiet-NaN packing of values that compiled code works with: a value is
//! one 64-bit word; a tagged value puts `0x7FF` in its top twelve bits, its
//! tag in the next four and its payload in the low 48; any other word is a
//! float. These functions compute what the code generator's instruction
//! sequences compute on such words.
use vstd::prelude::*;

verus! {

/// Where a value's bits sit in its in-memory slot.
pub const VALUE_BITS_OFFSET: i32 = 0;
/// Where a value's tag sits in its in-memory slot.
pub const VALUE_TAG_OFFSET: i32 = 8;
/// The size of a value's in-memory slot.
pub const VALUE_SIZE: i32 = 16;
/// Where the strong reference count sits relative to the data pointer that a
/// heap value carries.
pub const ARC_STRONG_COUNT_OFFSET: i64 = -16;

/// The low 48 bits: the payload of a tagged value.
pub const PAYLOAD_MASK: u64 = 0x0000_FFFF_FFFF_FFFF;
/// The top twelve bits.
pub const NAN_MASK: u64 = 0xFFF0_0000_0000_0000;
/// The top twelve bits of every tagged value.
pub const QNAN_MARK: u64 = 0x7FF0_0000_0000_0000;
/// The prefix of a packed integer (tag 1).
pub const INT_PREFIX: u64 = 0x7FF1_0000_0000_0000;
/// The prefix of a packed boolean (tag 2).
pub const BOOL_PREFIX: u64 = 0x7FF2_0000_0000_0000;

/// A word that carries a tag.
pub open spec fn is_tagged(val: u64) -> bool {
    val & NAN_MASK == QNAN_MARK
}

/// An integer that fits the 48-bit payload as a signed number.
pub open spec fn fits_payload(x: i64) -> bool {
    -0x8000_0000_0000 <= x < 0x8000_0000_0000
}

/// The word of a packed integer.
pub open spec fn int_word(raw: i64) -> u64 {
    INT_PREFIX | ((raw as u64) & PAYLOAD_MASK)
}

/// The word of a packed boolean bit.
pub open spec fn bool_word(bit: u64) -> u64 {
    BOOL_PREFIX | bit
}

/// The integer of a packed integer: its low 48 bits, sign-extended.
pub open spec fn int_of(val: u64) -> i64 {
    ((val << 16u64) as i64) >> 16i64
}

/// The tag of a word: the four bits above the payload of a tagged word, 0 for
/// a float.
pub open spec fn tag_of(val: u64) -> u64 {
    if is_tagged(val) {
        (val >> 48u64) & 0xF
    } else {
        0
    }
}

/// The bits of a word: the payload of a tagged word, the whole word of a float.
pub open spec fn bits_of_word(val: u64) -> u64 {
    if is_tagged(val) {
        val & PAYLOAD_MASK
    } else {
        val
    }
}

/// The word for bits and a tag; tag 0 (a float) is its bits as they are.
pub open spec fn packed(bits: u64, tag: u64) -> u64 {
    if tag != 0 {
        (tag << 48u64) | (bits & PAYLOAD_MASK) | QNAN_MARK
    } else {
        bits
    }
}

/// Packs an integer: the integer prefix and the low 48 bits of `raw`.
pub fn make_int_nanboxed(raw: i64) -> (v: u64)
    ensures
        v == int_word(raw),
{
    INT_PREFIX | ((raw as u64) & PAYLOAD_MASK)
}

/// Packs a boolean bit (0 or 1).
pub fn make_bool_nanboxed(bit: u64) -> (v: u64)
    ensures
        v == bool_word(bit),
{
    BOOL_PREFIX | bit
}

/// The integer in a packed integer.
pub fn unpack_int(val: u64) -> (x: i64)
    ensures
        x == int_of(val),
{
    ((val << 16u64) as i64) >> 16i64
}

/// The boolean bit of a packed boolean.
pub fn unpack_bool(val: u64) -> (b: u64)
    ensures
        b == val & 1,
{
    val & 1
}

/// The 48-bit pointer payload of a tagged pointer value.
pub fn unpack_ptr(val: u64) -> (p: u64)
    ensures
        p == val & PAYLOAD_MASK,
{
    val & PAYLOAD_MASK
}

/// The tag of a word.
pub fn get_tag(val: u64) -> (t: u64)
    ensures
        t == tag_of(val),
{
    if val & NAN_MASK == QNAN_MARK {
        (val >> 48u64) & 0xF
    } else {
        0
    }
}

/// The bits of a word.
pub fn get_bits(val: u64) -> (b: u64)
    ensures
        b == bits_of_word(val),
{
    if val & NAN_MASK == QNAN_MARK {
        val & PAYLOAD_MASK
    } else {
        val
    }
}

/// Packs bits and a tag into one word.
pub fn pack_value(bits: u64, tag: u64) -> (v: u64)
    ensures
        v == packed(bits, tag),
{
    if tag != 0 {
        (tag << 48u64) | (bits & PAYLOAD_MASK) | QNAN_MARK
    } else {
        bits
    }
}

/// The bits and the tag of a word.
pub fn unpack_value(val: u64) -> (r: (u64, u64))
    ensures
        r == (bits_of_word(val), tag_of(val)),
{
    let tag = get_tag(val);
    let bits = get_bits(val);
    (bits, tag)
}

/// A packed integer gives back the integer it was made from, when that
/// integer fits the payload, and carries tag 1.
pub proof fn law_int_round_trip(x: i64)
    requires
        fits_payload(x),
    ensures
        int_of(int_word(x)) == x,
        tag_of(int_word(x)) == 1,
        bits_of_word(int_word(x)) == (x as u64) & PAYLOAD_MASK,
{
    assert((((0x7FF1_0000_0000_0000u64 | ((x as u64) & 0x0000_FFFF_FFFF_FFFFu64)) << 16u64) as i64)
        >> 16i64 == x) by (bit_vector)
        requires
            -0x8000_0000_0000i64 <= x < 0x8000_0000_0000i64,
    ;
    assert((0x7FF1_0000_0000_0000u64 | ((x as u64) & 0x0000_FFFF_FFFF_FFFFu64)) & 0xFFF0_0000_0000_0000u64
        == 0x7FF0_0000_0000_0000u64) by (bit_vector);
    assert(((0x7FF1_0000_0000_0000u64 | ((x as u64) & 0x0000_FFFF_FFFF_FFFFu64)) >> 48u64) & 0xFu64
        == 1u64) by (bit_vector);
    assert((0x7FF1_0000_0000_0000u64 | ((x as u64) & 0x0000_FFFF_FFFF_FFFFu64)) & 0x0000_FFFF_FFFF_FFFFu64
        == (x as u64) & 0x0000_FFFF_FFFF_FFFFu64) by (bit_vector);
}

/// A packed boolean gives back its bit and carries tag 2.
pub proof fn law_bool_round_trip(bit: u64)
    requires
        bit <= 1,
    ensures
        bool_word(bit) & 1 == bit,
        tag_of(bool_word(bit)) == 2,
        bits_of_word(bool_word(bit)) == bit,
{
    assert((0x7FF2_0000_0000_0000u64 | bit) & 1u64 == bit) by (bit_vector)
        requires
            bit <= 1u64,
    ;
    assert((0x7FF2_0000_0000_0000u64 | bit) & 0xFFF0_0000_0000_0000u64 == 0x7FF0_0000_0000_0000u64)
        by (bit_vector)
        requires
            bit <= 1u64,
    ;
    assert(((0x7FF2_0000_0000_0000u64 | bit) >> 48u64) & 0xFu64 == 2u64) by (bit_vector)
        requires
            bit <= 1u64,
    ;
    assert((0x7FF2_0000_0000_0000u64 | bit) & 0x0000_FFFF_FFFF_FFFFu64 == bit) by (bit_vector)
        requires
            bit <= 1u64,
    ;
}

/// Unpacking a packed word gives back its tag and its bits: for a tag from 1
/// to 15 the bits' low 48 bits; for tag 0, a float that is not in the tagged
/// range, the whole word.
pub proof fn law_pack_round_trip(bits: u64, tag: u64)
    requires
        tag <= 15,
        tag == 0 ==> !is_tagged(bits),
    ensures
        tag_of(packed(bits, tag)) == tag,
        bits_of_word(packed(bits, tag)) == (if tag == 0 {
            bits
        } else {
            bits & PAYLOAD_MASK
        }),
{
    if tag != 0 {
        assert(((tag << 48u64) | (bits & 0x0000_FFFF_FFFF_FFFFu64) | 0x7FF0_0000_0000_0000u64)
            & 0xFFF0_0000_0000_0000u64 == 0x7FF0_0000_0000_0000u64) by (bit_vector)
            requires
                1u64 <= tag <= 15u64,
        ;
        assert(((((tag << 48u64) | (bits & 0x0000_FFFF_FFFF_FFFFu64) | 0x7FF0_0000_0000_0000u64)
            >> 48u64) & 0xFu64) == tag) by (bit_vector)
            requires
                1u64 <= tag <= 15u64,
        ;
        assert(((tag << 48u64) | (bits & 0x0000_FFFF_FFFF_FFFFu64) | 0x7FF0_0000_0000_0000u64)
            & 0x0000_FFFF_FFFF_FFFFu64 == bits & 0x0000_FFFF_FFFF_FFFFu64) by (bit_vector)
            requires
                1u64 <= tag <= 15u64,
        ;
    }
}

} // verus!
