//! Tests of the camera: the dirty flag, pan and zoom bookkeeping, and the
//! fixed-point view box derivation.

use toroidal_life::camera::Camera;
use toroidal_life::units::ViewBox;

#[test]
fn fresh_camera_reports_one_update() {
    let mut camera = Camera::new(100, 80);
    assert!(camera.update());
    assert!(!camera.update());
}

#[test]
fn pan_dirties_exactly_one_update() {
    let mut camera = Camera::new(100, 80);
    camera.update();
    camera.translate(1000, -2000);
    assert!(camera.update());
    assert!(!camera.update());
}

#[test]
fn every_mutation_dirties_the_camera() {
    let mut camera = Camera::new(100, 80);
    camera.update();
    camera.zoom_in();
    assert!(camera.update());
    camera.resize(200, 160);
    assert!(camera.update());
    camera.set_position(5000, 6000);
    assert!(camera.update());
    camera.rebuild_view();
    assert!(camera.update());
    assert!(!camera.update());
}

#[test]
fn translate_moves_the_position() {
    let mut camera = Camera::new(100, 80);
    camera.translate(1500, -2500);
    assert_eq!(camera.position_x, 1500);
    assert_eq!(camera.position_y, -2500);
}

#[test]
fn pan_steps_follow_the_view_convention() {
    let mut camera = Camera::new(100, 80);
    camera.up();
    assert_eq!((camera.position_x, camera.position_y), (0, -5000));
    camera.down();
    assert_eq!((camera.position_x, camera.position_y), (0, 0));
    camera.left();
    assert_eq!((camera.position_x, camera.position_y), (5000, 0));
    camera.right();
    assert_eq!((camera.position_x, camera.position_y), (0, 0));
}

#[test]
fn zoom_multiplies_the_scale() {
    let mut camera = Camera::new(100, 80);
    assert_eq!(camera.scale, 1000);
    camera.zoom_in();
    assert_eq!(camera.scale, 1100);
    camera.zoom_in();
    assert_eq!(camera.scale, 1210);
    camera.zoom_out();
    assert_eq!(camera.scale, 1089);
}

#[test]
fn zoom_scale_is_clamped() {
    let mut camera = Camera::new(100, 80);
    camera.scale(0);
    assert_eq!(camera.scale, 1);
    camera.scale(i64::MAX);
    assert_eq!(camera.scale, 1_000_000_000);
    camera.scale(-5000);
    assert_eq!(camera.scale, 1);
}

#[test]
fn view_box_of_a_centred_unit_camera() {
    let camera = Camera::new(100, 80);
    let vb = camera.view_box();
    assert_eq!(vb, ViewBox::new(-50000, -40000, 50000, 40000));
}

#[test]
fn view_box_follows_the_position() {
    let mut camera = Camera::new(100, 80);
    camera.set_position(512000, 512000);
    let vb = camera.view_box();
    assert_eq!(vb, ViewBox::new(462000, 472000, 562000, 552000));
}

#[test]
fn view_box_shrinks_when_zooming_in() {
    let mut camera = Camera::new(100, 80);
    camera.zoom_in();
    let vb = camera.view_box();
    assert_eq!(vb.max_x, 45454);
    assert_eq!(vb.min_x, -45455);
    assert_eq!(vb.max_y, 36363);
    assert_eq!(vb.min_y, -36364);
}

#[test]
fn view_box_follows_the_viewport_size() {
    let mut camera = Camera::new(100, 80);
    camera.resize(20, 10);
    let vb = camera.view_box();
    assert_eq!(vb, ViewBox::new(-10000, -5000, 10000, 5000));
}

#[test]
fn clip_space_corners_map_to_box_corners() {
    let camera = Camera::new(100, 80);
    assert_eq!(camera.from_clip_space_to_local(-1000, -1000), (-50000, -40000));
    assert_eq!(camera.from_clip_space_to_local(1000, 1000), (50000, 40000));
    assert_eq!(camera.from_clip_space_to_local(0, 0), (0, 0));
    assert_eq!(camera.from_clip_space_to_local(500, 0), (25000, 0));
}

#[test]
fn position_is_clamped_to_the_representable_band() {
    let mut camera = Camera::new(100, 80);
    camera.translate(i64::MAX, i64::MIN);
    assert_eq!(camera.position_x, 1_000_000_000_000);
    assert_eq!(camera.position_y, -1_000_000_000_000);
}
