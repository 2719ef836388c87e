use render2d::animation::{AnimationConfig, AnimationMode, AtlasConfig};
use render2d::fixed::{Vec3, UNIT};
use render2d::graphics_object::Generic2DGraphicsObject;
use render2d::master_graphics_list::MasterGraphicsList;

fn entity(name: &str, x: i64) -> Generic2DGraphicsObject {
    Generic2DGraphicsObject::new(
        name.to_string(), vec![0, 0, UNIT, 0], vec![0, 0, UNIT, 0], 1, Vec3::new(x, 2 * x, 0), 1000, UNIT, None, None,
        None,
    )
    .unwrap()
}

#[test]
fn add_then_get_returns_same_pose() {
    let mut list = MasterGraphicsList::new();
    assert!(list.add_object(entity("a", 5)).is_none());
    let got = list.get_object("a").unwrap();
    assert_eq!(got.get_position(), Vec3::new(5, 10, 0));
    assert_eq!(got.get_rotation(), 1000);
    assert_eq!(got.get_scale(), UNIT);
    assert!(list.get_object("b").is_none());
}

#[test]
fn remove_then_get_is_none() {
    let mut list = MasterGraphicsList::new();
    list.add_object(entity("a", 5));
    list.add_object(entity("b", 6));
    let removed = list.remove_object("a").unwrap();
    assert_eq!(removed.get_position(), Vec3::new(5, 10, 0));
    assert!(list.get_object("a").is_none());
    assert!(list.get_object("b").is_some());
    assert!(list.remove_object("a").is_none());
}

#[test]
fn duplicate_name_replaces_and_returns_old() {
    let mut list = MasterGraphicsList::new();
    list.add_object(entity("a", 1));
    let old = list.add_object(entity("a", 9)).unwrap();
    assert_eq!(old.get_position(), Vec3::new(1, 2, 0));
    assert_eq!(list.get_object("a").unwrap().get_position(), Vec3::new(9, 18, 0));
    assert_eq!(list.get_objects().len(), 1);
}

#[test]
fn remove_all_hands_back_everything() {
    let mut list = MasterGraphicsList::new();
    list.add_object(entity("a", 1));
    list.add_object(entity("b", 2));
    let all = list.remove_all();
    assert_eq!(all.len(), 2);
    assert!(list.get_objects().is_empty());
    assert!(list.get_object("a").is_none());
}

#[test]
fn update_all_advances_each_entity() {
    let mut list = MasterGraphicsList::new();
    let atlas = AtlasConfig { current_frame: 0, atlas_columns: 4, atlas_rows: 1, columns_wide: 4, rows_tall: 1 };
    let anim = AnimationConfig { looping: true, mode: AnimationMode::Forward, frame_range: 0..4, frame_duration: 100_000 };
    let mut e = entity("walker", 0);
    e.set_atlas_config(Some(atlas));
    e.set_animation_config(Some(anim));
    list.add_object(e);
    list.add_object(entity("rock", 3));
    list.update_all(300_000);
    assert_eq!(list.get_object("walker").unwrap().get_atlas_config().unwrap().current_frame, 3);
    assert_eq!(list.get_object("rock").unwrap().get_position(), Vec3::new(3, 6, 0));
}
