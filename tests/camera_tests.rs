use aim_trainer::camera::{manage_cursor, set_cursor_state, update_camera, CursorState, FpsCamera, PITCH_LIMIT};

#[test]
fn camera_turns_only_while_captured() {
    let mut c = FpsCamera::default();
    assert!(!update_camera(&mut c, false, &vec![(10, 10)]));
    assert_eq!(c, FpsCamera::default());
    assert!(!update_camera(&mut c, true, &vec![(5, -3), (-5, 3)]));
    assert!(update_camera(&mut c, true, &vec![(10, 0), (5, 4)]));
    // 0.1 sensitivity: 200 micro-radians per pixel.
    assert_eq!(c.yaw, -3000);
    assert_eq!(c.pitch, -800);
}

#[test]
fn pitch_is_clamped() {
    let mut c = FpsCamera::default();
    assert!(update_camera(&mut c, true, &vec![(0, -100_000)]));
    assert_eq!(c.pitch, PITCH_LIMIT);
    assert!(update_camera(&mut c, true, &vec![(0, 100_000), (0, 100_000)]));
    assert_eq!(c.pitch, -PITCH_LIMIT);
}

#[test]
fn cursor_capture_and_release() {
    let captured = CursorState { grab_locked: true, visible: false, input_enabled: true };
    assert_eq!(set_cursor_state(true), captured);
    assert_eq!(manage_cursor(true, true), Some(captured));
    assert_eq!(manage_cursor(false, true), Some(CursorState { grab_locked: false, visible: true, input_enabled: false }));
    assert_eq!(manage_cursor(false, false), None);
}
