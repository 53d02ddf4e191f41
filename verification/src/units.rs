//! Fixed-point world units.
//!
//! Coordinates, sizes and velocities are `i32` values counted in thousandths
//! of a pixel (per second, for velocities). Sums and differences are formed
//! in `i64`, where they are exact, and a value that is stored back is
//! saturated to the `i32` range.

use vstd::prelude::*;

verus! {

/// World units per pixel.
pub const UNIT: i32 = 1000;

/// `v` limited to the range of `i32`.
pub open spec fn clamp_i32(v: int) -> int {
    if v < i32::MIN as int {
        i32::MIN as int
    } else if v > i32::MAX as int {
        i32::MAX as int
    } else {
        v
    }
}

/// The quotient of `v` by `d`, rounded toward zero.
pub open spec fn div_toward_zero(v: int, d: int) -> int
    recommends
        d > 0,
{
    if v >= 0 {
        v / d
    } else {
        -((-v) / d)
    }
}

/// The change per tick of a quantity that changes by `rate` per second, at
/// `fps` ticks per second.
pub open spec fn per_tick_spec(rate: int, fps: int) -> int
    recommends
        fps > 0,
{
    div_toward_zero(rate, fps)
}

/// Saturates a 64-bit value to `i32`.
pub fn saturate(v: i64) -> (r: i32)
    ensures
        r as int == clamp_i32(v as int),
{
    if v < i32::MIN as i64 {
        i32::MIN
    } else if v > i32::MAX as i64 {
        i32::MAX
    } else {
        v as i32
    }
}

/// The exact product of two 32-bit values.
pub fn mul_i32(a: i32, b: i32) -> (r: i64)
    ensures
        r as int == a as int * b as int,
{
    assert(-0x4000_0000_0000_0000 <= a as int * b as int <= 0x4000_0000_0000_0000) by (nonlinear_arith)
        requires
            -0x8000_0000 <= a as int <= 0x8000_0000,
            -0x8000_0000 <= b as int <= 0x8000_0000,
    ;
    (a as i64) * (b as i64)
}

/// Division that rounds toward zero.
pub fn div_i64(v: i64, d: u32) -> (r: i64)
    requires
        d > 0,
    ensures
        r as int == div_toward_zero(v as int, d as int),
{
    v / (d as i64)
}

/// The change per tick of a quantity that changes by `rate` per second.
pub fn per_tick(rate: i32, fps: u32) -> (r: i32)
    requires
        fps > 0,
    ensures
        r as int == per_tick_spec(rate as int, fps as int),
{
    let q: i64 = div_i64(rate as i64, fps);
    q as i32
}

} // verus!
