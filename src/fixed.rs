//! Fixed-point scalars.
use vstd::prelude::*;

verus! {

/// Number of fixed-point steps in one unit: positions, scales, zoom factors,
/// smoothing weights and angles (in radians) are stored in millionths.
pub const UNIT: i64 = 1_000_000;

/// One full turn, `2 * pi` radians, in millionths of a radian.
pub const FULL_TURN: i64 = 6_283_185;

/// A point or direction: `x` and `y` in world space, `z` as depth (or, for
/// the camera, as zoom), all in fixed point.
#[derive(Clone, Copy, Debug, PartialEq, Eq, Structural)]
pub struct Vec3 {
    pub x: i64,
    pub y: i64,
    pub z: i64,
}

impl Vec3 {
    pub fn new(x: i64, y: i64, z: i64) -> (r: Vec3)
        ensures
            r == (Vec3 { x, y, z }),
    {
        Vec3 { x, y, z }
    }
}

/// The product of two fixed-point values, rounded toward zero.
pub open spec fn fixed_product(a: int, b: int) -> int {
    if a * b >= 0 {
        (a * b) / (UNIT as int)
    } else {
        -((-(a * b)) / (UNIT as int))
    }
}

/// `fixed_product` on values whose product fits in an `i128`.
pub fn mul_fixed(a: i128, b: i128) -> (r: i128)
    requires
        -0x7fff_ffff_ffff_ffff_ffff_ffff_ffff_ffff <= a * b <= 0x7fff_ffff_ffff_ffff_ffff_ffff_ffff_ffff,
    ensures
        r == fixed_product(a as int, b as int),
{
    let p: i128 = a * b;
    if p >= 0 {
        let q: u128 = (p as u128) / (UNIT as u128);
        q as i128
    } else {
        let q: u128 = ((-p) as u128) / (UNIT as u128);
        -(q as i128)
    }
}

} // verus!
