//! The comparison that a comparison instruction's condition byte selects,
//! for integers and for floats.
use vstd::prelude::*;

verus! {

/// An integer comparison (signed).
#[derive(Clone, Copy, Debug, PartialEq, Eq, Structural)]
pub enum IntCond {
    Equal,
    NotEqual,
    SignedGreaterThan,
    SignedLessThan,
    SignedGreaterThanOrEqual,
    SignedLessThanOrEqual,
}

/// A float comparison (ordered).
#[derive(Clone, Copy, Debug, PartialEq, Eq, Structural)]
pub enum FloatCond {
    Equal,
    NotEqual,
    GreaterThan,
    LessThan,
    GreaterThanOrEqual,
    LessThanOrEqual,
}

/// The integer comparison of condition byte `cc`: 0 to 5 select equal, not
/// equal, greater, less, greater or equal, less or equal; any other byte
/// selects equal.
pub open spec fn int_cond_of(cc: u8) -> IntCond {
    if cc == 1 {
        IntCond::NotEqual
    } else if cc == 2 {
        IntCond::SignedGreaterThan
    } else if cc == 3 {
        IntCond::SignedLessThan
    } else if cc == 4 {
        IntCond::SignedGreaterThanOrEqual
    } else if cc == 5 {
        IntCond::SignedLessThanOrEqual
    } else {
        IntCond::Equal
    }
}

/// The float comparison of condition byte `cc`, in the same order.
pub open spec fn float_cond_of(cc: u8) -> FloatCond {
    if cc == 1 {
        FloatCond::NotEqual
    } else if cc == 2 {
        FloatCond::GreaterThan
    } else if cc == 3 {
        FloatCond::LessThan
    } else if cc == 4 {
        FloatCond::GreaterThanOrEqual
    } else if cc == 5 {
        FloatCond::LessThanOrEqual
    } else {
        FloatCond::Equal
    }
}

/// The integer comparison that condition byte `cc` selects.
pub fn decode_intcc(cc: u8) -> (c: IntCond)
    ensures
        c == int_cond_of(cc),
{
    match cc {
        0 => IntCond::Equal,
        1 => IntCond::NotEqual,
        2 => IntCond::SignedGreaterThan,
        3 => IntCond::SignedLessThan,
        4 => IntCond::SignedGreaterThanOrEqual,
        5 => IntCond::SignedLessThanOrEqual,
        _ => IntCond::Equal,
    }
}

/// The float comparison that condition byte `cc` selects.
pub fn decode_floatcc(cc: u8) -> (c: FloatCond)
    ensures
        c == float_cond_of(cc),
{
    match cc {
        0 => FloatCond::Equal,
        1 => FloatCond::NotEqual,
        2 => FloatCond::GreaterThan,
        3 => FloatCond::LessThan,
        4 => FloatCond::GreaterThanOrEqual,
        5 => FloatCond::LessThanOrEqual,
        _ => FloatCond::Equal,
    }
}

} // verus!
