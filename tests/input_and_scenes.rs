use render2d::api_entry_point::ApiEntryPoint;
use render2d::audio::{first_idle_sink, sink_count, AudioType};
use render2d::fixed::{Vec3, UNIT};
use render2d::graphics_object::Generic2DGraphicsObject;
use render2d::key_states::{KeyAction, KeyStates};
use render2d::scene_manager::{Scene, SceneManager};

const KEY_W: i32 = 87;

#[test]
fn key_press_hold_release() {
    let mut keys = KeyStates::new();
    assert!(!keys.is_key_pressed(KEY_W));
    keys.handle_key_event(KEY_W, KeyAction::Press);
    assert!(keys.is_key_pressed(KEY_W));
    assert!(keys.is_key_pressed_raw(KEY_W));
    keys.update_pressed_to_held();
    assert!(!keys.is_key_pressed(KEY_W));
    assert!(keys.is_key_pressed_raw(KEY_W));
    keys.handle_key_event(KEY_W, KeyAction::Repeat);
    assert!(keys.is_key_pressed_raw(KEY_W));
    keys.handle_key_event(KEY_W, KeyAction::Release);
    assert!(!keys.is_key_pressed_raw(KEY_W));
    keys.handle_key_event(-1, KeyAction::Press);
    assert!(!keys.is_key_pressed(-1));
}

fn scene_with(name: &str) -> Scene {
    let mut s = Scene::new();
    let e = Generic2DGraphicsObject::new(name.to_string(), vec![], vec![], 1, Vec3::new(0, 0, 0), 0, UNIT, None, None, None)
        .unwrap();
    s.add_object(e);
    s
}

#[test]
fn scenes_add_get_remove_list() {
    let mut m = SceneManager::new();
    assert!(m.list_scenes().is_empty());
    m.add_scene("level1".to_string(), scene_with("a"));
    m.add_scene("level2".to_string(), scene_with("b"));
    m.add_scene("level1".to_string(), scene_with("c"));
    assert_eq!(m.get_scene("level1").unwrap().get_objects()[0].get_name(), "c");
    let mut names = m.list_scenes();
    names.sort();
    assert_eq!(names, vec!["level1".to_string(), "level2".to_string()]);
    let removed = m.remove_scene("level2").unwrap();
    assert_eq!(removed.get_objects()[0].get_name(), "b");
    assert!(m.get_scene("level2").is_none());
    assert!(m.remove_scene("level2").is_none());
}

#[test]
fn entry_point_runs_first_loop_once() {
    let mut api = ApiEntryPoint::new();
    assert!(api.is_first_loop());
    api.finish_first_loop();
    assert!(!api.is_first_loop());
}

#[test]
fn sinks_are_picked_in_order() {
    assert_eq!(first_idle_sink(&vec![false, true, true]), Some(1));
    assert_eq!(first_idle_sink(&vec![false, false]), None);
    assert_eq!(first_idle_sink(&vec![]), None);
    assert_eq!(sink_count(AudioType::Music), 2);
    assert_eq!(sink_count(AudioType::Sound), 16);
    assert_eq!(sink_count(AudioType::UI), 4);
}
