//! Core of a small real-time 2D renderer: the animation engine, drawable
//! entities with their pose and atlas state, the name-keyed entity registry,
//! the tracking camera, the keyboard state machine and the scene store.
//!
//! Scalars are fixed-point integers: a value `v` stands for `v / UNIT`
//! (positions, scales, zoom, smoothing weights, and angles in radians).
//! Times are counted in microseconds, which is the same fixed-point form of
//! seconds.
use vstd::prelude::*;

pub mod fixed;
pub mod keyed;
pub mod animation;
pub mod graphics_object;
pub mod master_graphics_list;
pub mod camera;
pub mod key_states;
pub mod scene_manager;
pub mod movement;
pub mod api_entry_point;
pub mod audio;

verus! {

} // verus!
