use render2d::camera::Camera;
use render2d::fixed::{Vec3, UNIT};
use render2d::graphics_object::Generic2DGraphicsObject;
use render2d::master_graphics_list::MasterGraphicsList;

fn target_list(x: i64, y: i64) -> MasterGraphicsList {
    let mut list = MasterGraphicsList::new();
    let e = Generic2DGraphicsObject::new(
        "player".to_string(), vec![], vec![], 1, Vec3::new(x, y, 0), 0, UNIT, None, None, None,
    )
    .unwrap();
    list.add_object(e);
    list
}

#[test]
fn no_target_keeps_position() {
    let list = target_list(5 * UNIT, 5 * UNIT);
    let mut cam = Camera::new(UNIT / 2);
    let before = cam.get_position();
    cam.update_position(&list);
    assert_eq!(cam.get_position(), before);
    assert_eq!(before, Vec3::new(0, 0, UNIT));
}

#[test]
fn tracking_converges_by_halves() {
    let list = target_list(5 * UNIT, 5 * UNIT);
    let mut cam = Camera::new(UNIT / 2);
    cam.reset_position();
    cam.set_zoom(UNIT);
    cam.set_tracking_target(Some("player".to_string()));
    cam.update_position(&list);
    assert_eq!(cam.get_position(), Vec3::new(2_500_000, 2_500_000, UNIT));
    cam.update_position(&list);
    assert_eq!(cam.get_position(), Vec3::new(3_750_000, 3_750_000, UNIT));
}

#[test]
fn tracking_never_overshoots() {
    let list = target_list(-3 * UNIT, 7 * UNIT);
    let mut cam = Camera::new(UNIT);
    cam.set_tracking_target(Some("player".to_string()));
    cam.update_position(&list);
    assert_eq!(cam.get_position(), Vec3::new(-3 * UNIT, 7 * UNIT, UNIT));
    let mut slow = Camera::new(300_000);
    slow.set_tracking_target(Some("player".to_string()));
    for _ in 0..50 {
        slow.update_position(&list);
        let p = slow.get_position();
        assert!(p.x >= -3 * UNIT && p.x <= 0);
        assert!(p.y >= 0 && p.y <= 7 * UNIT);
    }
}

#[test]
fn missing_target_freezes_position() {
    let list = target_list(UNIT, UNIT);
    let mut cam = Camera::new(UNIT / 2);
    cam.set_tracking_target(Some("ghost".to_string()));
    cam.update_position(&list);
    assert_eq!(cam.get_position(), Vec3::new(0, 0, UNIT));
}

#[test]
fn zoom_is_clamped() {
    let mut cam = Camera::new(UNIT / 10);
    cam.set_zoom(10 * UNIT);
    assert_eq!(cam.get_zoom(), 5 * UNIT);
    cam.set_zoom(-UNIT);
    assert_eq!(cam.get_zoom(), UNIT / 10);
    cam.set_zoom(2 * UNIT);
    assert_eq!(cam.get_zoom(), 2 * UNIT);
}

#[test]
fn reset_zeroes_position_and_zoom() {
    let mut cam = Camera::new(UNIT / 10);
    cam.set_zoom(3 * UNIT);
    cam.reset_position();
    assert_eq!(cam.get_position(), Vec3::new(0, 0, 0));
    cam.set_smoothing_factor(UNIT);
    assert_eq!(cam.get_zoom(), 0);
}
