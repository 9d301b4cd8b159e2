//! Bit and byte utilities: bit scanning, replacing one byte of a word,
//! row-major indexing, and unit conversions between bytes and larger units.

use vstd::prelude::*;

verus! {

/// The outcome of a bit scan: whether a set bit was found, and its position.
#[derive(Clone, Copy, PartialEq, Eq, Structural, Debug)]
pub struct BitScanResult {
    pub found: bool,
    pub index: u32,
}

/// Finds the least significant set bit of `value`. When `value` is zero no
/// bit is set and the returned index is zero.
pub fn find_leastsignificant_setbit(value: u32) -> (r: BitScanResult)
    ensures
        r.found <==> value != 0,
        !r.found ==> r.index == 0,
        r.found ==> r.index < 32 && value & (1u32 << r.index) != 0,
        r.found ==> forall|t: u32| t < r.index ==> value & (1u32 << t) == 0,
{
    let mut t: u32 = 0;
    proof {
        assert(value == (value >> 0u32) << 0u32) by (bit_vector);
    }
    while t < 32
        invariant
            t <= 32,
            value == (value >> t) << t,
            forall|s: u32| s < t ==> value & (1u32 << s) == 0,
        decreases 32 - t,
    {
        if value & (1u32 << t) != 0 {
            proof {
                assert(value & (1u32 << t) != 0 ==> value != 0) by (bit_vector);
            }
            return BitScanResult { found: true, index: t };
        }
        proof {
            assert(value == (value >> t) << t && value & (1u32 << t) == 0 && t < 32 ==> value
                == (value >> (t + 1)) << ((t + 1))) by (bit_vector);
        }
        t = t + 1;
    }
    proof {
        assert(value == (value >> 32u32) << 32u32 ==> value == 0) by (bit_vector);
    }
    BitScanResult { found: false, index: 0 }
}

/// Replaces byte number `bits` (0 = least significant) of `value` with
/// `new_value`.
pub fn change_bytes(value: u32, bits: u32, new_value: u32) -> (r: u32)
    requires
        bits < 4,
        new_value < 256,
    ensures
        r == (value & !(0xFFu32 << (8 * bits))) | (new_value << (8 * bits)),
{
    let shift: u32 = 8 * bits;
    let mask: u32 = 0xFFu32 << shift;
    (value & !mask) | (new_value << shift)
}

/// The row-major index of pixel `(x, y)` in a buffer of row length `width`.
pub fn get_index(x: i32, y: i32, width: i32) -> (r: usize)
    requires
        0 <= x < width,
        0 <= y,
        y * width + x <= usize::MAX,
    ensures
        r == y * width + x,
{
    proof {
        assert(0 <= y * width <= 0x4000_0000_0000_0000int) by (nonlinear_arith)
            requires
                0 <= y < 0x8000_0000int,
                0 < width < 0x8000_0000int,
        ;
    }
    (y as i64 * width as i64 + x as i64) as usize
}

pub fn kilobytes(bytes: u64) -> (r: u64)
    requires
        bytes * 1024 <= u64::MAX,
    ensures
        r == bytes * 1024,
{
    bytes * 1024
}

pub fn megabytes(bytes: u64) -> (r: u64)
    requires
        bytes * 1024 * 1024 <= u64::MAX,
    ensures
        r == bytes * 1024 * 1024,
{
    proof {
        assert(bytes * 1024 <= bytes * 1024 * 1024) by (nonlinear_arith);
    }
    kilobytes(bytes) * 1024
}

pub fn gigabytes(bytes: u64) -> (r: u64)
    requires
        bytes * 1024 * 1024 * 1024 <= u64::MAX,
    ensures
        r == bytes * 1024 * 1024 * 1024,
{
    proof {
        assert(bytes * 1024 * 1024 <= bytes * 1024 * 1024 * 1024) by (nonlinear_arith);
    }
    megabytes(bytes) * 1024
}

pub fn terabytes(bytes: u64) -> (r: u64)
    requires
        bytes * 1024 * 1024 * 1024 * 1024 <= u64::MAX,
    ensures
        r == bytes * 1024 * 1024 * 1024 * 1024,
{
    proof {
        assert(bytes * 1024 * 1024 * 1024 <= bytes * 1024 * 1024 * 1024 * 1024)
            by (nonlinear_arith);
    }
    gigabytes(bytes) * 1024
}

pub fn to_kilobytes(bytes: u64) -> (r: u64)
    ensures
        r == bytes / 1024,
{
    bytes / 1024
}

pub fn to_megabytes(bytes: u64) -> (r: u64)
    ensures
        r == bytes / 1024 / 1024,
{
    to_kilobytes(bytes) / 1024
}

pub fn to_gigabytes(bytes: u64) -> (r: u64)
    ensures
        r == bytes / 1024 / 1024 / 1024,
{
    to_megabytes(bytes) / 1024
}

pub fn to_terabytes(bytes: u64) -> (r: u64)
    ensures
        r == bytes / 1024 / 1024 / 1024 / 1024,
{
    to_gigabytes(bytes) / 1024
}

} // verus!
