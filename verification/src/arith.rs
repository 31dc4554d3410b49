//! Integer arithmetic that saturates at the limits of `i32`.
//!
//! Every attribute of an actor is an `i32`.  Sums and differences of
//! attributes are taken in the integers and then clipped back into the range
//! of `i32`, so that no operation of the simulation can overflow.

use vstd::prelude::*;

verus! {

/// The integer `v` clipped into the range of `i32`.
pub open spec fn clip(v: int) -> int {
    if v > i32::MAX {
        i32::MAX as int
    } else if v < i32::MIN {
        i32::MIN as int
    } else {
        v
    }
}

/// The larger of two integers.
pub open spec fn larger(a: int, b: int) -> int {
    if a >= b {
        a
    } else {
        b
    }
}

/// The smaller of two integers.
pub open spec fn smaller(a: int, b: int) -> int {
    if a <= b {
        a
    } else {
        b
    }
}

/// `a + b`, saturating at the limits of `i32`.
pub fn plus(a: i32, b: i32) -> (r: i32)
    ensures
        r == clip(a + b),
{
    if b > 0 && a > i32::MAX - b {
        i32::MAX
    } else if b < 0 && a < i32::MIN - b {
        i32::MIN
    } else {
        a + b
    }
}

/// `a - b`, saturating at the limits of `i32`.
pub fn minus(a: i32, b: i32) -> (r: i32)
    ensures
        r == clip(a - b),
{
    if b < 0 && a > i32::MAX + b {
        i32::MAX
    } else if b > 0 && a < i32::MIN + b {
        i32::MIN
    } else {
        a - b
    }
}

/// `2 * a`, saturating at the limits of `i32`.
pub fn twice(a: i32) -> (r: i32)
    ensures
        r == clip(2 * a),
{
    plus(a, a)
}

/// Half of `a`, rounded towards zero.
pub open spec fn half(a: int) -> int {
    if a >= 0 {
        a / 2
    } else {
        -((-a) / 2)
    }
}

/// Half of `a`, rounded towards zero.
pub fn halve(a: i32) -> (r: i32)
    ensures
        r == half(a as int),
{
    a / 2
}

/// The larger of `a` and `b`.
pub fn at_least(a: i32, b: i32) -> (r: i32)
    ensures
        r == larger(a as int, b as int),
{
    if a >= b {
        a
    } else {
        b
    }
}

/// The smaller of `a` and `b`.
pub fn at_most(a: i32, b: i32) -> (r: i32)
    ensures
        r == smaller(a as int, b as int),
{
    if a <= b {
        a
    } else {
        b
    }
}

} // verus!
