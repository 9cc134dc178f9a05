use mandelbrot::camera::{Camera, BASE_DEPTH};
use mandelbrot::input::Input;

fn idle() -> Input {
    Input::new()
}

#[test]
fn new_camera_starts_with_counter_at_zero() {
    let cam = Camera::new(1280, 720, BASE_DEPTH);
    assert_eq!(cam.screen_width, 1280);
    assert_eq!(cam.screen_height, 720);
    assert_eq!(cam.max_depth, 40);
    assert_eq!(cam.depth_inc, 0);
}

#[test]
fn input_starts_idle() {
    let input = Input::new();
    assert!(!input.up && !input.down && !input.left && !input.right);
    assert!(!input.zoom_in && !input.zoom_out && !input.exit);
    let by_default = Input::default();
    assert!(!by_default.up && !by_default.down && !by_default.left && !by_default.right);
    assert!(!by_default.zoom_in && !by_default.zoom_out && !by_default.exit);
}

#[test]
fn zoom_in_raises_counter_and_depth_every_other_step() {
    let mut cam = Camera::new(100, 100, BASE_DEPTH);
    let mut input = idle();
    input.zoom_in = true;
    let outcome = cam.update_depth(&input);
    assert!(outcome.zoom_in_applied);
    assert!(!outcome.zoom_out_applied);
    assert_eq!(cam.depth_inc, 1);
    assert_eq!(cam.max_depth, 40);
    cam.update_depth(&input);
    assert_eq!(cam.depth_inc, 2);
    assert_eq!(cam.max_depth, 41);
    cam.update_depth(&input);
    assert_eq!(cam.depth_inc, 3);
    assert_eq!(cam.max_depth, 41);
    cam.update_depth(&input);
    assert_eq!(cam.depth_inc, 4);
    assert_eq!(cam.max_depth, 42);
}

#[test]
fn zoom_out_from_initial_state_is_a_no_op() {
    // With the counter at zero a zoom-out must change nothing: the counter,
    // the depth and the permitted zoom actions all stay put.
    let mut cam = Camera::new(100, 100, BASE_DEPTH);
    let mut input = idle();
    input.zoom_out = true;
    let outcome = cam.update_depth(&input);
    assert!(!outcome.zoom_in_applied);
    assert!(!outcome.zoom_out_applied);
    assert_eq!(cam.depth_inc, 0);
    assert_eq!(cam.max_depth, 40);
}

#[test]
fn zoom_out_lowers_a_positive_counter() {
    let mut cam = Camera::new(100, 100, BASE_DEPTH);
    let mut input = idle();
    input.zoom_in = true;
    cam.update_depth(&input);
    cam.update_depth(&input);
    input.zoom_in = false;
    input.zoom_out = true;
    let outcome = cam.update_depth(&input);
    assert!(outcome.zoom_out_applied);
    assert_eq!(cam.depth_inc, 1);
    assert_eq!(cam.max_depth, 40);
}

#[test]
fn simultaneous_zoom_keys_cancel_on_the_counter() {
    // Zoom-in is handled first, so the zoom-out is permitted even from a
    // counter at zero, and both multiplicative changes are applied.
    let mut cam = Camera::new(100, 100, BASE_DEPTH);
    let mut input = idle();
    input.zoom_in = true;
    input.zoom_out = true;
    let outcome = cam.update_depth(&input);
    assert!(outcome.zoom_in_applied);
    assert!(outcome.zoom_out_applied);
    assert_eq!(cam.depth_inc, 0);
    assert_eq!(cam.max_depth, 40);
}

#[test]
fn pan_keys_do_not_touch_the_depth_state() {
    let mut cam = Camera::new(100, 100, BASE_DEPTH);
    let mut input = idle();
    input.up = true;
    input.left = true;
    let outcome = cam.update_depth(&input);
    assert!(!outcome.zoom_in_applied);
    assert!(!outcome.zoom_out_applied);
    assert_eq!(cam.depth_inc, 0);
    assert_eq!(cam.max_depth, 40);
}
