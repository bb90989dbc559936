use life_scene::camera::{Camera, CameraMove};
use life_scene::timing::TickTimer;

#[test]
fn camera_starts_above_and_behind_origin() {
    let cam = Camera::new();
    assert_eq!((cam.pos_x, cam.pos_y, cam.pos_z), (0, 4, -5));
    assert_eq!((cam.target_x, cam.target_y, cam.target_z), (0, 0, 0));
    assert_eq!((cam.rot_x, cam.rot_y), (0, 0));
}

#[test]
fn each_move_steps_one_field() {
    let moves = [
        CameraMove::Forward,
        CameraMove::Backward,
        CameraMove::Left,
        CameraMove::Right,
        CameraMove::TiltUp,
        CameraMove::TiltDown,
        CameraMove::TurnLeft,
        CameraMove::TurnRight,
    ];
    let expected = [
        (0, 4, -4, 0, 0),
        (0, 4, -6, 0, 0),
        (1, 4, -5, 0, 0),
        (-1, 4, -5, 0, 0),
        (0, 4, -5, 0, 1),
        (0, 4, -5, 0, -1),
        (0, 4, -5, 1, 0),
        (0, 4, -5, -1, 0),
    ];
    for (m, want) in moves.iter().zip(expected.iter()) {
        let mut cam = Camera::new();
        cam.apply_move(*m);
        assert_eq!(
            (cam.pos_x, cam.pos_y, cam.pos_z, cam.rot_x, cam.rot_y),
            *want
        );
        assert_eq!((cam.target_x, cam.target_y, cam.target_z), (0, 0, 0));
    }
}

#[test]
fn moves_compose() {
    let mut cam = Camera::new();
    cam.apply_move(CameraMove::Forward);
    cam.apply_move(CameraMove::Forward);
    cam.apply_move(CameraMove::TurnLeft);
    cam.apply_move(CameraMove::TiltDown);
    assert_eq!((cam.pos_x, cam.pos_y, cam.pos_z), (0, 4, -3));
    assert_eq!((cam.rot_x, cam.rot_y), (1, -1));
}

#[test]
fn timer_fires_only_after_interval() {
    let mut t = TickTimer::new(1000);
    assert!(!t.step(500));
    assert_eq!(t.accumulated, 500);
    assert!(!t.step(600));
    assert_eq!(t.accumulated, 1100);
    assert!(t.step(1));
    assert_eq!(t.accumulated, 1);
    assert!(!t.step(0));
}

#[test]
fn timer_fires_at_most_once_per_frame() {
    let mut t = TickTimer::new(10);
    assert!(!t.step(100));
    assert!(t.step(0));
    assert_eq!(t.accumulated, 0);
    assert!(!t.step(5));
    assert!(!t.step(4));
    assert_eq!(t.accumulated, 9);
    assert!(!t.step(1));
    assert!(t.step(0));
}
