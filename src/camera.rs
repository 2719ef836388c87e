//! The camera: follows a named entity with exponential smoothing and keeps
//! its zoom in the third component of its position.
use crate::fixed::{fixed_product, mul_fixed, Vec3, UNIT};
use crate::master_graphics_list::MasterGraphicsList;
use vstd::prelude::*;

verus! {

/// The smallest zoom, 0.1.
pub const MIN_ZOOM: i64 = 100_000;

/// The largest zoom, 5.0.
pub const MAX_ZOOM: i64 = 5_000_000;

/// `zoom` clamped to `[MIN_ZOOM, MAX_ZOOM]`.
pub open spec fn clamp_zoom(zoom: int) -> int {
    if zoom < MIN_ZOOM {
        MIN_ZOOM as int
    } else if zoom > MAX_ZOOM {
        MAX_ZOOM as int
    } else {
        zoom
    }
}

/// One smoothing step from `from` toward `to` with weight `factor`.
pub open spec fn smooth_step(from: int, to: int, factor: int) -> int {
    from + fixed_product(to - from, factor)
}

/// What a camera holds, as mathematical values.
pub ghost struct CameraModel {
    pub position: Vec3,
    pub tracking_target: Option<Seq<char>>,
    pub smoothing_factor: i64,
}

/// A smoothing weight in `(0, 1]`, in fixed point.
pub open spec fn smoothing_ok(factor: i64) -> bool {
    0 < factor <= UNIT
}

/// A camera that follows an entity of the registry by name; `position.z`
/// is the zoom factor.
pub struct Camera {
    position: Vec3,
    tracking_target: Option<String>,
    smoothing_factor: i64,
}

impl View for Camera {
    type V = CameraModel;

    closed spec fn view(&self) -> CameraModel {
        CameraModel {
            position: self.position,
            tracking_target: match self.tracking_target {
                Some(t) => Some(t@),
                None => None,
            },
            smoothing_factor: self.smoothing_factor,
        }
    }
}

impl Camera {
    #[verifier::type_invariant]
    spec fn inv(&self) -> bool {
        smoothing_ok(self.smoothing_factor)
    }

    /// A camera at the origin with zoom 1, tracking nothing.
    pub fn new(smoothing_factor: i64) -> (r: Self)
        requires
            smoothing_ok(smoothing_factor),
        ensures
            r@ == (CameraModel { position: Vec3 { x: 0, y: 0, z: UNIT }, tracking_target: None, smoothing_factor }),
    {
        Camera { position: Vec3 { x: 0, y: 0, z: UNIT }, tracking_target: None, smoothing_factor }
    }

    /// Moves `x` and `y` one smoothing step toward the tracked entity. Without
    /// a target, or when the registry holds no entity of that name, the
    /// camera stays where it is.
    pub fn update_position(&mut self, graphics_list: &MasterGraphicsList)
        requires
            graphics_list.wf(),
        ensures
            (match old(self)@.tracking_target {
                Some(t) => if graphics_list@.contains_key(t) {
                    let target = graphics_list@[t].position;
                    final(self)@ == (CameraModel {
                        position: Vec3 {
                            x: smooth_step(
                                old(self)@.position.x as int,
                                target.x as int,
                                old(self)@.smoothing_factor as int,
                            ) as i64,
                            y: smooth_step(
                                old(self)@.position.y as int,
                                target.y as int,
                                old(self)@.smoothing_factor as int,
                            ) as i64,
                            z: old(self)@.position.z,
                        },
                        ..old(self)@
                    })
                } else {
                    final(self)@ == old(self)@
                },
                None => final(self)@ == old(self)@,
            }),
    {
        proof {
            use_type_invariant(&*self);
        }
        if let Some(name) = &self.tracking_target {
            if let Some(target) = graphics_list.get_object(name.as_str()) {
                let target_position = target.get_position();
                let x = smooth(self.position.x, target_position.x, self.smoothing_factor);
                let y = smooth(self.position.y, target_position.y, self.smoothing_factor);
                self.position = Vec3 { x, y, z: self.position.z };
            }
        }
    }

    /// Puts the camera at `(0, 0, 0)`.
    pub fn reset_position(&mut self)
        ensures
            final(self)@ == (CameraModel { position: Vec3 { x: 0, y: 0, z: 0 }, ..old(self)@ }),
    {
        proof {
            use_type_invariant(&*self);
        }
        self.position = Vec3 { x: 0, y: 0, z: 0 };
    }

    pub fn set_tracking_target(&mut self, tracking_target: Option<String>)
        ensures
            final(self)@ == (CameraModel {
                tracking_target: match tracking_target {
                    Some(t) => Some(t@),
                    None => None,
                },
                ..old(self)@
            }),
    {
        proof {
            use_type_invariant(&*self);
        }
        self.tracking_target = tracking_target;
    }

    pub fn set_smoothing_factor(&mut self, smoothing_factor: i64)
        requires
            smoothing_ok(smoothing_factor),
        ensures
            final(self)@ == (CameraModel { smoothing_factor, ..old(self)@ }),
    {
        self.smoothing_factor = smoothing_factor;
    }

    pub fn get_position(&self) -> (r: Vec3)
        ensures
            r == self@.position,
    {
        self.position
    }

    /// Sets the zoom, clamped to `[MIN_ZOOM, MAX_ZOOM]`.
    pub fn set_zoom(&mut self, zoom: i64)
        ensures
            final(self)@ == (CameraModel {
                position: Vec3 { z: clamp_zoom(zoom as int) as i64, ..old(self)@.position },
                ..old(self)@
            }),
    {
        proof {
            use_type_invariant(&*self);
        }
        let z = if zoom < MIN_ZOOM {
            MIN_ZOOM
        } else if zoom > MAX_ZOOM {
            MAX_ZOOM
        } else {
            zoom
        };
        self.position = Vec3 { z, ..self.position };
    }

    pub fn get_zoom(&self) -> (r: i64)
        ensures
            r == self@.position.z,
    {
        self.position.z
    }
}

/// One smoothing step of a coordinate.
fn smooth(from: i64, to: i64, factor: i64) -> (r: i64)
    requires
        smoothing_ok(factor),
    ensures
        r == smooth_step(from as int, to as int, factor as int),
{
    let diff: i128 = to as i128 - from as i128;
    proof {
        lemma_smoothing_never_overshoots(from as int, to as int, factor as int);
        assert(-0x7fff_ffff_ffff_ffff_ffff_ffff_ffff_ffff <= diff * factor <= 0x7fff_ffff_ffff_ffff_ffff_ffff_ffff_ffff)
            by (nonlinear_arith)
            requires
                -0x1_0000_0000_0000_0000 <= diff <= 0x1_0000_0000_0000_0000,
                0 < factor <= UNIT,
        ;
    }
    let step = mul_fixed(diff, factor as i128);
    (from as i128 + step) as i64
}

/// A smoothing step with a weight in `(0, 1]` lands between the start and
/// the target: the camera never overshoots, and its distance to the target
/// never grows.
pub proof fn lemma_smoothing_never_overshoots(from: int, to: int, factor: int)
    requires
        0 < factor <= UNIT,
    ensures
        from <= to ==> from <= smooth_step(from, to, factor) <= to,
        to <= from ==> to <= smooth_step(from, to, factor) <= from,
{
    let d = to - from;
    let u = UNIT as int;
    if d >= 0 {
        assert(0 <= d * factor <= d * u) by (nonlinear_arith)
            requires d >= 0, 0 < factor <= u;
        vstd::arithmetic::div_mod::lemma_div_is_ordered(d * factor, d * u, u);
        vstd::arithmetic::div_mod::lemma_div_multiples_vanish(d, u);
        vstd::arithmetic::div_mod::lemma_div_pos_is_pos(d * factor, u);
    } else {
        let e = -d;
        assert(0 < e * factor <= e * u) by (nonlinear_arith)
            requires e > 0, 0 < factor <= u;
        assert(d * factor == -(e * factor)) by (nonlinear_arith)
            requires e == -d;
        vstd::arithmetic::div_mod::lemma_div_is_ordered(e * factor, e * u, u);
        vstd::arithmetic::div_mod::lemma_div_multiples_vanish(e, u);
        vstd::arithmetic::div_mod::lemma_div_pos_is_pos(e * factor, u);
    }
}

} // verus!
