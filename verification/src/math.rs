//! Scalar helpers (sign, absolute value, minimum, maximum), an integer
//! rectangle, and the fixed-point plane point used by the curve and waveform
//! code.

use vstd::prelude::*;

verus! {

/// An axis-aligned integer rectangle given by its corner coordinates.
#[derive(Clone, Copy, PartialEq, Eq, Structural, Debug)]
pub struct Rect2i {
    pub min_x: i32,
    pub min_y: i32,
    pub max_x: i32,
    pub max_y: i32,
}

/// A point of the plane in 16.16 fixed-point coordinates: the integer `x`
/// stands for the real number `x / 65536`.
#[derive(Clone, Copy, PartialEq, Eq, Structural, Debug)]
pub struct Point2 {
    pub x: i64,
    pub y: i64,
}

/// The mathematical absolute value, for specifications.
pub open spec fn iabs(a: int) -> int {
    if a < 0 {
        -a
    } else {
        a
    }
}

/// Truncating division (rounding toward zero) for a positive divisor, the
/// semantics of Rust's `/` on signed integers.
pub open spec fn tdiv(a: int, b: int) -> int {
    if a >= 0 {
        a / b
    } else {
        -((-a) / b)
    }
}

pub fn sign_i32(a: i32) -> (r: i32)
    ensures
        r == if a < 0 { -1int } else { 1int },
{
    if a < 0 {
        -1
    } else {
        1
    }
}

pub fn abs_i32(a: i32) -> (r: i32)
    requires
        a != i32::MIN,
    ensures
        r == iabs(a as int),
{
    if a < 0 {
        -a
    } else {
        a
    }
}

pub fn max_u32(a: u32, b: u32) -> (r: u32)
    ensures
        r == if b <= a { a } else { b },
        r >= a && r >= b,
{
    if b <= a {
        a
    } else {
        b
    }
}

pub fn min_u32(a: u32, b: u32) -> (r: u32)
    ensures
        r == if b >= a { a } else { b },
        r <= a && r <= b,
{
    if b >= a {
        a
    } else {
        b
    }
}

pub fn max_i32(a: i32, b: i32) -> (r: i32)
    ensures
        r == if b <= a { a } else { b },
        r >= a && r >= b,
{
    if b <= a {
        a
    } else {
        b
    }
}

pub fn min_i32(a: i32, b: i32) -> (r: i32)
    ensures
        r == if b >= a { a } else { b },
        r <= a && r <= b,
{
    if b >= a {
        a
    } else {
        b
    }
}

} // verus!
