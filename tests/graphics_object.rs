use render2d::animation::{AnimationConfig, AnimationMode, AtlasConfig};
use render2d::fixed::{Vec3, FULL_TURN, UNIT};
use render2d::graphics_object::{Generic2DGraphicsObject, GpuHandles, MeshError};
use render2d::movement::{move_fits, move_object, rotate_object};

fn quad() -> (Vec<i64>, Vec<i64>) {
    let v = vec![-UNIT, -UNIT, UNIT, -UNIT, UNIT, UNIT, -UNIT, UNIT];
    let t = vec![0, 0, UNIT, 0, UNIT, UNIT, 0, UNIT];
    (v, t)
}

fn entity(name: &str, atlas: Option<AtlasConfig>, anim: Option<AnimationConfig>) -> Generic2DGraphicsObject {
    let (v, t) = quad();
    Generic2DGraphicsObject::new(name.to_string(), v, t, 7, Vec3::new(0, 0, 0), 0, UNIT, Some(3), atlas, anim)
        .unwrap()
}

fn strip_atlas(frame: usize) -> AtlasConfig {
    AtlasConfig { current_frame: frame, atlas_columns: 4, atlas_rows: 1, columns_wide: 4, rows_tall: 1 }
}

#[test]
fn new_rejects_mismatched_mesh() {
    let r = Generic2DGraphicsObject::new(
        "bad".to_string(), vec![0, 0, 1, 1], vec![0, 0], 1, Vec3::new(0, 0, 0), 0, UNIT, None, None, None,
    );
    assert_eq!(r.err(), Some(MeshError::InvalidMeshData));
    let r = Generic2DGraphicsObject::new(
        "odd".to_string(), vec![0, 0, 1], vec![0, 0, 1], 1, Vec3::new(0, 0, 0), 0, UNIT, None, None, None,
    );
    assert_eq!(r.err(), Some(MeshError::InvalidMeshData));
}

#[test]
fn new_keeps_fields_and_normalizes_rotation() {
    let (v, t) = quad();
    let e = Generic2DGraphicsObject::new(
        "hero".to_string(), v.clone(), t.clone(), 9, Vec3::new(1, 2, 3), FULL_TURN + 5, 2 * UNIT, None, None, None,
    )
    .unwrap();
    assert_eq!(e.get_name(), "hero");
    assert_eq!(e.get_vertex_data(), &v);
    assert_eq!(e.get_texture_coords(), &t);
    assert_eq!(e.get_shader_program(), 9);
    assert_eq!(e.get_position(), Vec3::new(1, 2, 3));
    assert_eq!(e.get_rotation(), 5);
    assert_eq!(e.get_scale(), 2 * UNIT);
    assert_eq!(e.get_elapsed_time(), 0);
    assert_eq!(e.get_gpu_handles(), None);
}

#[test]
fn set_rotation_is_true_modulo() {
    let mut e = entity("r", None, None);
    e.set_rotation(-1);
    assert_eq!(e.get_rotation(), FULL_TURN - 1);
    e.set_rotation(3 * FULL_TURN + 10);
    assert_eq!(e.get_rotation(), 10);
    e.set_rotation(-FULL_TURN);
    assert_eq!(e.get_rotation(), 0);
}

#[test]
fn set_rotation_twice_is_unchanged() {
    let mut e = entity("r", None, None);
    for x in [-7 * FULL_TURN - 3, -1, 0, 12_345, FULL_TURN, i64::MAX, i64::MIN] {
        e.set_rotation(x);
        let once = e.get_rotation();
        e.set_rotation(e.get_rotation());
        assert_eq!(e.get_rotation(), once);
    }
}

#[test]
fn update_animation_advances_by_whole_frames() {
    let anim = AnimationConfig { looping: true, mode: AnimationMode::Forward, frame_range: 0..4, frame_duration: 100_000 };
    let mut e = entity("anim", Some(strip_atlas(0)), Some(anim));
    e.update_animation(250_000);
    assert_eq!(e.get_atlas_config().unwrap().current_frame, 2);
    assert_eq!(e.get_elapsed_time(), 50_000);
    assert_eq!(e.get_texture_coords(), &vec![750_000, 0, 750_000, UNIT, 500_000, UNIT, 500_000, 0]);
}

#[test]
fn update_animation_accumulates_short_ticks() {
    let anim = AnimationConfig { looping: true, mode: AnimationMode::Forward, frame_range: 0..4, frame_duration: 100_000 };
    let mut e = entity("anim", Some(strip_atlas(3)), Some(anim));
    e.update_animation(60_000);
    assert_eq!(e.get_atlas_config().unwrap().current_frame, 3);
    assert_eq!(e.get_elapsed_time(), 60_000);
    e.update_animation(60_000);
    assert_eq!(e.get_atlas_config().unwrap().current_frame, 0);
    assert_eq!(e.get_elapsed_time(), 20_000);
}

#[test]
fn zero_duration_freezes_frame() {
    let anim = AnimationConfig { looping: true, mode: AnimationMode::Forward, frame_range: 0..4, frame_duration: 0 };
    let mut e = entity("still", Some(strip_atlas(1)), Some(anim));
    e.update_animation(1_000_000);
    assert_eq!(e.get_atlas_config().unwrap().current_frame, 1);
    assert_eq!(e.get_elapsed_time(), 0);
    assert_eq!(e.get_texture_coords(), &vec![500_000, 0, 500_000, UNIT, 250_000, UNIT, 250_000, 0]);
}

#[test]
fn no_animation_config_is_a_no_op_on_the_frame() {
    let mut e = entity("plain", None, None);
    let before = e.get_texture_coords().clone();
    e.update_animation(1_000_000);
    assert_eq!(e.get_texture_coords(), &before);
    assert_eq!(e.get_elapsed_time(), 0);
}

#[test]
fn random_mode_uses_injected_pick() {
    let anim = AnimationConfig { looping: true, mode: AnimationMode::Random, frame_range: 0..4, frame_duration: 100_000 };
    let mut e = entity("rand", Some(strip_atlas(0)), Some(anim.clone()));
    e.update_animation_with(100_000, 3);
    assert_eq!(e.get_atlas_config().unwrap().current_frame, 3);
    let mut e = entity("rand", Some(strip_atlas(0)), Some(anim));
    e.update_animation(100_000);
    assert!(e.get_atlas_config().unwrap().current_frame < 4);
}

#[test]
fn backward_mode_through_update() {
    let anim = AnimationConfig { looping: false, mode: AnimationMode::Backward, frame_range: 0..4, frame_duration: 100_000 };
    let mut e = entity("back", Some(strip_atlas(3)), Some(anim));
    e.update_animation(200_000);
    assert_eq!(e.get_atlas_config().unwrap().current_frame, 1);
}

#[test]
fn texture_coords_for_second_row() {
    let atlas = AtlasConfig { current_frame: 5, atlas_columns: 4, atlas_rows: 2, columns_wide: 4, rows_tall: 2 };
    let mut e = entity("grid", Some(atlas), None);
    e.update_texture_coords();
    assert_eq!(e.get_texture_coords(), &vec![500_000, 500_000, 500_000, UNIT, 250_000, UNIT, 250_000, 500_000]);
}

#[test]
fn texture_coords_past_last_row_keep_counting() {
    let atlas = AtlasConfig { current_frame: 9, atlas_columns: 4, atlas_rows: 2, columns_wide: 4, rows_tall: 2 };
    let mut e = entity("grid", Some(atlas), None);
    e.update_texture_coords();
    assert_eq!(e.get_texture_coords(), &vec![500_000, UNIT, 500_000, 1_500_000, 250_000, 1_500_000, 250_000, UNIT]);
}

#[test]
fn texture_coords_without_cells_are_kept() {
    let atlas = AtlasConfig { current_frame: 1, atlas_columns: 0, atlas_rows: 2, columns_wide: 0, rows_tall: 2 };
    let mut e = entity("grid", Some(atlas), None);
    let before = e.get_texture_coords().clone();
    e.update_texture_coords();
    assert_eq!(e.get_texture_coords(), &before);
}

#[test]
fn texture_coords_cap_huge_rows() {
    let atlas = AtlasConfig { current_frame: usize::MAX, atlas_columns: 1, atlas_rows: 1, columns_wide: 1, rows_tall: 1 };
    let mut e = entity("grid", Some(atlas), None);
    e.update_texture_coords();
    assert_eq!(e.get_texture_coords(), &vec![UNIT, i64::MAX, UNIT, i64::MAX, 0, i64::MAX, 0, i64::MAX]);
}

#[test]
fn dimensions_of_scaled_quad() {
    let mut e = entity("box", None, None);
    assert_eq!(e.dimensions(), (2 * UNIT as i128, 2 * UNIT as i128));
    e.set_scale(UNIT / 2);
    assert_eq!(e.dimensions(), (UNIT as i128, UNIT as i128));
    let empty = Generic2DGraphicsObject::new(
        "empty".to_string(), vec![], vec![], 1, Vec3::new(0, 0, 0), 0, UNIT, None, None, None,
    )
    .unwrap();
    assert_eq!(empty.dimensions(), (0, 0));
}

#[test]
fn radius_is_largest_vertex_distance() {
    let e = Generic2DGraphicsObject::new(
        "tri".to_string(),
        vec![3 * UNIT, 4 * UNIT, 0, UNIT, -6 * UNIT, 8 * UNIT],
        vec![0; 6],
        1,
        Vec3::new(0, 0, 0),
        0,
        2 * UNIT,
        None,
        None,
        None,
    )
    .unwrap();
    assert_eq!(e.get_radius(), 20 * UNIT as i128);
    let mut flipped = e.clone();
    flipped.set_scale(-UNIT);
    assert_eq!(flipped.get_radius(), 0);
}

#[test]
fn setters_replace_one_field() {
    let mut e = entity("s", None, None);
    e.set_position(Vec3::new(4, 5, 6));
    e.set_scale(3);
    e.set_gpu_handles(Some(GpuHandles { vao: 1, position_vbo: 2, tex_vbo: 3 }));
    e.set_atlas_config(Some(strip_atlas(2)));
    assert_eq!(e.get_position(), Vec3::new(4, 5, 6));
    assert_eq!(e.get_scale(), 3);
    assert_eq!(e.get_gpu_handles(), Some(GpuHandles { vao: 1, position_vbo: 2, tex_vbo: 3 }));
    assert_eq!(e.get_atlas_config(), Some(strip_atlas(2)));
    assert_eq!(e.get_texture_id(), Some(3));
    assert!(e.get_animation_config().is_none());
}

#[test]
fn move_object_scales_by_time() {
    let mut e = entity("m", None, None);
    move_object(&mut e, Vec3::new(2 * UNIT, -UNIT, 0), 500_000);
    assert_eq!(e.get_position(), Vec3::new(UNIT, -UNIT / 2, 0));
}

#[test]
fn move_fits_detects_overflow() {
    assert!(move_fits(0, UNIT, 1_000_000));
    assert!(!move_fits(i64::MAX, UNIT, 1_000_000));
    assert!(move_fits(i64::MAX, UNIT, 0));
    assert!(!move_fits(i64::MIN, -UNIT, 2));
    assert!(move_fits(i64::MIN, -1, 2));
}

#[test]
fn rotate_object_wraps_both_ways() {
    let mut e = entity("t", None, None);
    rotate_object(&mut e, -1);
    assert_eq!(e.get_rotation(), FULL_TURN - 1);
    rotate_object(&mut e, 2);
    assert_eq!(e.get_rotation(), 1);
    rotate_object(&mut e, i64::MAX);
    assert_eq!(e.get_rotation(), ((1i128 + i64::MAX as i128).rem_euclid(FULL_TURN as i128)) as i64);
}
