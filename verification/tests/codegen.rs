use xcx::cond::{decode_floatcc, decode_intcc, FloatCond, IntCond};
use xcx::nanbox::{
    get_bits, get_tag, make_bool_nanboxed, make_int_nanboxed, pack_value, unpack_bool, unpack_int,
    unpack_ptr, unpack_value, VALUE_SIZE, VALUE_TAG_OFFSET,
};

#[test]
fn integers_pack_and_unpack() {
    assert_eq!(make_int_nanboxed(5), 0x7FF1_0000_0000_0005);
    assert_eq!(make_int_nanboxed(-1), 0x7FF1_FFFF_FFFF_FFFF);
    for x in [0i64, 1, -1, 42, -42, (1 << 47) - 1, -(1 << 47)] {
        let w = make_int_nanboxed(x);
        assert_eq!(unpack_int(w), x);
        assert_eq!(get_tag(w), 1);
    }
    // Beyond 48 bits only the low bits survive.
    assert_eq!(unpack_int(make_int_nanboxed(1 << 47)), -(1 << 47));
}

#[test]
fn booleans_pack_and_unpack() {
    assert_eq!(make_bool_nanboxed(1), 0x7FF2_0000_0000_0001);
    assert_eq!(unpack_bool(make_bool_nanboxed(1)), 1);
    assert_eq!(unpack_bool(make_bool_nanboxed(0)), 0);
    assert_eq!(get_tag(make_bool_nanboxed(0)), 2);
}

#[test]
fn words_pack_and_unpack_with_their_tags() {
    let w = pack_value(0xDEAD_0000_1234_5678, 9);
    assert_eq!(w, 0x7FF9_0000_1234_5678);
    assert_eq!(unpack_value(w), (0x0000_1234_5678, 9));
    assert_eq!(unpack_ptr(w), 0x0000_1234_5678);
    let f = 1.5f64.to_bits();
    assert_eq!(pack_value(f, 0), f);
    assert_eq!(unpack_value(f), (f, 0));
    assert_eq!(get_bits(f), f);
    assert_eq!(VALUE_SIZE, 16);
    assert_eq!(VALUE_TAG_OFFSET, 8);
}

#[test]
fn condition_bytes_select_comparisons() {
    assert_eq!(decode_intcc(0), IntCond::Equal);
    assert_eq!(decode_intcc(1), IntCond::NotEqual);
    assert_eq!(decode_intcc(2), IntCond::SignedGreaterThan);
    assert_eq!(decode_intcc(3), IntCond::SignedLessThan);
    assert_eq!(decode_intcc(4), IntCond::SignedGreaterThanOrEqual);
    assert_eq!(decode_intcc(5), IntCond::SignedLessThanOrEqual);
    assert_eq!(decode_intcc(200), IntCond::Equal);
    assert_eq!(decode_floatcc(2), FloatCond::GreaterThan);
    assert_eq!(decode_floatcc(5), FloatCond::LessThanOrEqual);
    assert_eq!(decode_floatcc(6), FloatCond::Equal);
}
