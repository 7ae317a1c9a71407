//! Floating-point settings, carried by their IEEE 754 bits.
use vstd::prelude::*;

verus! {

/// A single-precision number.
#[derive(Debug, Clone, Copy, PartialEq, Eq, Structural)]
pub struct Single {
    /// Its bits.
    pub bits: u32,
}

/// A double-precision number.
#[derive(Debug, Clone, Copy, PartialEq, Eq, Structural)]
pub struct Double {
    /// Its bits.
    pub bits: u64,
}

/// The bits without the sign.
pub open spec fn magnitude(x: Single) -> int {
    x.bits as int % 0x8000_0000
}

/// Whether two single-precision numbers are equal as numbers: the zeros of both
/// signs are, and what is not a number is equal to nothing.
pub open spec fn single_equal(a: Single, b: Single) -> bool {
    &&& magnitude(a) <= 0x7f80_0000
    &&& magnitude(b) <= 0x7f80_0000
    &&& a.bits == b.bits || (magnitude(a) == 0 && magnitude(b) == 0)
}

/// Whether two single-precision numbers are equal as numbers.
pub fn singles_equal(a: Single, b: Single) -> (r: bool)
    ensures
        r == single_equal(a, b),
{
    let x: u32 = a.bits % 0x8000_0000;
    let y: u32 = b.bits % 0x8000_0000;
    x <= 0x7f80_0000 && y <= 0x7f80_0000 && (a.bits == b.bits || (x == 0 && y == 0))
}

/// Whether a double-precision number is none.
pub open spec fn is_nan(x: Double) -> bool {
    x.bits as int % 0x8000_0000_0000_0000 > 0x7ff0_0000_0000_0000
}

/// Where a double-precision number stands among the others: the magnitude of
/// the bits, with the sign.
pub open spec fn rank(x: Double) -> int {
    let m = x.bits as int % 0x8000_0000_0000_0000;
    if x.bits >= 0x8000_0000_0000_0000 {
        -m
    } else {
        m
    }
}

/// The lesser of two double-precision numbers: the other where one is not a
/// number, the first where they are equal.
pub open spec fn lesser(a: Double, b: Double) -> Double {
    if is_nan(a) {
        b
    } else if is_nan(b) || rank(a) <= rank(b) {
        a
    } else {
        b
    }
}

/// The lesser of two double-precision numbers.
pub fn double_min(a: Double, b: Double) -> (r: Double)
    ensures
        r == lesser(a, b),
{
    let x: u64 = a.bits % 0x8000_0000_0000_0000;
    let y: u64 = b.bits % 0x8000_0000_0000_0000;
    let a_negative = a.bits >= 0x8000_0000_0000_0000;
    let b_negative = b.bits >= 0x8000_0000_0000_0000;
    if x > 0x7ff0_0000_0000_0000 {
        b
    } else if y > 0x7ff0_0000_0000_0000 {
        a
    } else {
        let first = if a_negative && b_negative {
            x >= y
        } else if a_negative {
            true
        } else if b_negative {
            x == 0 && y == 0
        } else {
            x <= y
        };
        if first {
            a
        } else {
            b
        }
    }
}

} // verus!
