//! Pose changes driven by input: moving and turning an entity.
use crate::fixed::{fixed_product, mul_fixed, Vec3, FULL_TURN};
use crate::graphics_object::{normalize_angle, EntityModel, Generic2DGraphicsObject};
use vstd::prelude::*;

verus! {

/// The coordinate `p` moved for `dt` microseconds at velocity `v` (fixed
/// point, units per second).
pub open spec fn moved(p: int, v: int, dt: int) -> int {
    p + fixed_product(v, dt)
}

/// A value that fits in an `i64`.
pub open spec fn fits_i64(v: int) -> bool {
    i64::MIN <= v <= i64::MAX
}

/// Moves `object` along `direction` (units per second) for `delta_time`
/// microseconds.
pub fn move_object(object: &mut Generic2DGraphicsObject, direction: Vec3, delta_time: u64)
    requires
        fits_i64(moved(old(object)@.position.x as int, direction.x as int, delta_time as int)),
        fits_i64(moved(old(object)@.position.y as int, direction.y as int, delta_time as int)),
        fits_i64(moved(old(object)@.position.z as int, direction.z as int, delta_time as int)),
    ensures
        final(object)@ == (EntityModel {
            position: Vec3 {
                x: moved(old(object)@.position.x as int, direction.x as int, delta_time as int) as i64,
                y: moved(old(object)@.position.y as int, direction.y as int, delta_time as int) as i64,
                z: moved(old(object)@.position.z as int, direction.z as int, delta_time as int) as i64,
            },
            ..old(object)@
        }),
{
    let pos = object.get_position();
    let x = step(pos.x, direction.x, delta_time);
    let y = step(pos.y, direction.y, delta_time);
    let z = step(pos.z, direction.z, delta_time);
    object.set_position(Vec3 { x, y, z });
}

/// Whether moving the coordinate `p` at `v` for `dt` microseconds stays
/// within `i64`, as `move_object` requires of each axis.
pub fn move_fits(p: i64, v: i64, dt: u64) -> (r: bool)
    ensures
        r == fits_i64(moved(p as int, v as int, dt as int)),
{
    proof {
        assert(-0x7fff_ffff_ffff_ffff_ffff_ffff_ffff_ffff <= v * dt <= 0x7fff_ffff_ffff_ffff_ffff_ffff_ffff_ffff)
            by (nonlinear_arith)
            requires -0x8000_0000_0000_0000 <= v <= 0x7fff_ffff_ffff_ffff, 0 <= dt <= 0xffff_ffff_ffff_ffff;
    }
    let d = mul_fixed(v as i128, dt as i128);
    let total: i128 = p as i128 + d;
    i64::MIN as i128 <= total && total <= i64::MAX as i128
}

fn step(p: i64, v: i64, dt: u64) -> (r: i64)
    requires
        fits_i64(moved(p as int, v as int, dt as int)),
    ensures
        r == moved(p as int, v as int, dt as int),
{
    proof {
        assert(-0x7fff_ffff_ffff_ffff_ffff_ffff_ffff_ffff <= v * dt <= 0x7fff_ffff_ffff_ffff_ffff_ffff_ffff_ffff)
            by (nonlinear_arith)
            requires -0x8000_0000_0000_0000 <= v <= 0x7fff_ffff_ffff_ffff, 0 <= dt <= 0xffff_ffff_ffff_ffff;
    }
    let d = mul_fixed(v as i128, dt as i128);
    (p as i128 + d) as i64
}

/// Turns `object` by `angle` millionths of a radian.
pub fn rotate_object(object: &mut Generic2DGraphicsObject, angle: i64)
    ensures
        final(object)@ == (EntityModel {
            rotation: normalize_angle(old(object)@.rotation + angle) as i64,
            ..old(object)@
        }),
{
    let current = object.get_rotation();
    let turn = match angle.checked_rem_euclid(FULL_TURN) {
        Some(t) => t,
        None => 0,
    };
    proof {
        let m = FULL_TURN as int;
        vstd::arithmetic::div_mod::lemma_small_mod(current as nat, m as nat);
        vstd::arithmetic::div_mod::lemma_add_mod_noop(current as int, angle as int, m);
    }
    object.set_rotation(current + turn);
}

} // verus!
