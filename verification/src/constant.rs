//! The leaf values of the type lattice.
//!
//! A number is held as the 64 bits of its IEEE 754 double: one sign bit, eleven
//! exponent bits and fifty-two fraction bits.

use vstd::prelude::*;
use crate::ids::{TypeId, EMPTY_STRING, FALSE, INFINITY, NAN, NEG_INFINITY, ONE, TRUE, ZERO};

verus! {

/// The bits of positive zero.
pub const NUMBER_ZERO: u64 = 0;

/// The bits of negative zero.
pub const NUMBER_NEG_ZERO: u64 = 0x8000_0000_0000_0000;

/// The bits of `1`.
pub const NUMBER_ONE: u64 = 0x3FF0_0000_0000_0000;

/// The bits of `-1`.
pub const NUMBER_NEG_ONE: u64 = 0xBFF0_0000_0000_0000;

/// The bits of the quiet not-a-number that arithmetic produces.
pub const NUMBER_NAN: u64 = 0x7FF8_0000_0000_0000;

/// The bits of positive infinity.
pub const NUMBER_INFINITY: u64 = 0x7FF0_0000_0000_0000;

/// The bits of negative infinity.
pub const NUMBER_NEG_INFINITY: u64 = 0xFFF0_0000_0000_0000;

/// The bits of the smallest positive number.
pub const NUMBER_MIN_VALUE: u64 = 0x0000_0000_0000_0001;

/// The bits of the largest finite number.
pub const NUMBER_MAX_VALUE: u64 = 0x7FEF_FFFF_FFFF_FFFF;

/// The bits of the gap between `1` and the next number.
pub const NUMBER_EPSILON: u64 = 0x3CB0_0000_0000_0000;

/// The exponent field of a number: bits 52 to 62.
pub open spec fn exponent_field(bits: u64) -> int {
    (bits as int / 0x10_0000_0000_0000) % 0x800
}

/// The fraction field of a number: bits 0 to 51.
pub open spec fn fraction_field(bits: u64) -> int {
    bits as int % 0x10_0000_0000_0000
}

/// Whether the bits are those of a not-a-number: every exponent bit set and a
/// fraction that is not zero. There are many such bit patterns.
pub open spec fn is_nan(bits: u64) -> bool {
    exponent_field(bits) == 0x7FF && fraction_field(bits) != 0
}

/// Whether the bits are those of a zero, of either sign.
pub open spec fn is_zero(bits: u64) -> bool {
    bits == NUMBER_ZERO || bits == NUMBER_NEG_ZERO
}

pub fn number_is_nan(bits: u64) -> (nan: bool)
    ensures
        nan == is_nan(bits),
{
    let magnitude: u64 = bits & 0x7FFF_FFFF_FFFF_FFFF;
    assert((magnitude > 0x7FF0_0000_0000_0000) == ((bits / 0x10_0000_0000_0000) % 0x800 == 0x7FF
        && bits % 0x10_0000_0000_0000 != 0)) by (bit_vector)
        requires
            magnitude == bits & 0x7FFF_FFFF_FFFF_FFFF,
    ;
    magnitude > 0x7FF0_0000_0000_0000
}

pub fn number_is_zero(bits: u64) -> (zero: bool)
    ensures
        zero == is_zero(bits),
{
    bits == NUMBER_ZERO || bits == NUMBER_NEG_ZERO
}

/// A value that a singleton type stands for.
#[derive(Clone, Debug)]
pub enum Constant {
    /// The bits of the number.
    Number(u64),
    String(String),
    Boolean(bool),
    Symbol { key: String },
    Undefined,
}

/// A constant, with its text as characters.
pub enum ConstantView {
    Number(u64),
    String(Seq<char>),
    Boolean(bool),
    Symbol { key: Seq<char> },
    Undefined,
}

impl View for Constant {
    type V = ConstantView;

    open spec fn view(&self) -> ConstantView {
        match self {
            Constant::Number(bits) => ConstantView::Number(*bits),
            Constant::String(text) => ConstantView::String(text@),
            Constant::Boolean(value) => ConstantView::Boolean(*value),
            Constant::Symbol { key } => ConstantView::Symbol { key: key@ },
            Constant::Undefined => ConstantView::Undefined,
        }
    }
}

impl ConstantView {
    /// The identifier reserved for this constant, if it has one. A constant
    /// with a reserved identifier is never registered anew.
    pub open spec fn reserved_id(self) -> Option<TypeId> {
        match self {
            ConstantView::String(text) => if text.len() == 0 {
                Some(EMPTY_STRING)
            } else {
                None
            },
            ConstantView::Number(bits) => if is_zero(bits) {
                Some(ZERO)
            } else if bits == NUMBER_ONE {
                Some(ONE)
            } else if bits == NUMBER_NEG_INFINITY {
                Some(NEG_INFINITY)
            } else if bits == NUMBER_INFINITY {
                Some(INFINITY)
            } else if is_nan(bits) {
                Some(NAN)
            } else {
                None
            },
            ConstantView::Boolean(true) => Some(TRUE),
            ConstantView::Boolean(false) => Some(FALSE),
            _ => None,
        }
    }
}

impl Constant {
    /// The identifier reserved for this constant, if it has one.
    pub open spec fn reserved_id(self) -> Option<TypeId> {
        self@.reserved_id()
    }

    pub fn get_reserved_id(&self) -> (id: Option<TypeId>)
        ensures
            id == self.reserved_id(),
    {
        match self {
            Constant::String(s) => if s.as_str().is_empty() {
                Some(EMPTY_STRING)
            } else {
                None
            },
            Constant::Number(bits) => if number_is_zero(*bits) {
                Some(ZERO)
            } else if *bits == NUMBER_ONE {
                Some(ONE)
            } else if *bits == NUMBER_NEG_INFINITY {
                Some(NEG_INFINITY)
            } else if *bits == NUMBER_INFINITY {
                Some(INFINITY)
            } else if number_is_nan(*bits) {
                Some(NAN)
            } else {
                None
            },
            Constant::Boolean(true) => Some(TRUE),
            Constant::Boolean(false) => Some(FALSE),
            _ => None,
        }
    }
}

} // verus!
