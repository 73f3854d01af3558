use pathtrace::camera::{pixel_ndc, plan_camera_update, CameraPlan, MoveKeys};

fn no_keys() -> MoveKeys {
    MoveKeys { forward: false, backward: false, left: false, right: false, down: false, up: false }
}

#[test]
fn ndc_of_corner_pixels() {
    // 4 x 2 viewport: top-left pixel is sampled at column 1, row 1.
    assert_eq!(pixel_ndc(0, 4, 2), (2 - 4, 2 - 2));
    // bottom-right pixel reaches the far corner (1, -1).
    assert_eq!(pixel_ndc(7, 4, 2), (4, -2));
    assert_eq!(pixel_ndc(3, 4, 2), (4, 0));
    assert_eq!(pixel_ndc(4, 4, 2), (-2, -2));
}

#[test]
fn ndc_center_pixel_is_on_axis() {
    // 4 x 4: the pixel at column 1, row 1 is sampled at the centre.
    assert_eq!(pixel_ndc(5, 4, 4), (0, 0));
    // 640 x 480
    let index = (480 / 2 - 1) * 640 + (640 / 2 - 1);
    assert_eq!(pixel_ndc(index, 640, 480), (0, 0));
}

#[test]
fn ndc_depends_on_index_and_size_only() {
    let first: Vec<(i64, i64)> = (0..12).map(|i| pixel_ndc(i, 4, 3)).collect();
    let _other: Vec<(i64, i64)> = (0..6).map(|i| pixel_ndc(i, 3, 2)).collect();
    let again: Vec<(i64, i64)> = (0..12).map(|i| pixel_ndc(i, 4, 3)).collect();
    assert_eq!(first, again);
}

#[test]
fn plan_needs_look_button() {
    let keys = MoveKeys { forward: true, ..no_keys() };
    assert_eq!(plan_camera_update(false, keys, true), None);
}

#[test]
fn plan_steps_and_priorities() {
    let keys = MoveKeys {
        forward: true,
        backward: true,
        left: true,
        right: false,
        down: true,
        up: true,
    };
    let plan = plan_camera_update(true, keys, false).unwrap();
    assert_eq!(plan, CameraPlan { forward: 1, right: -1, up: 1, rotate: false });
    assert!(plan.moves());

    let keys = MoveKeys { backward: true, right: true, down: true, ..no_keys() };
    let plan = plan_camera_update(true, keys, false).unwrap();
    assert_eq!(plan, CameraPlan { forward: -1, right: 1, up: -1, rotate: false });
}

#[test]
fn plan_idle_does_not_move() {
    let plan = plan_camera_update(true, no_keys(), false).unwrap();
    assert_eq!(plan, CameraPlan { forward: 0, right: 0, up: 0, rotate: false });
    assert!(!plan.moves());
    let plan = plan_camera_update(true, no_keys(), true).unwrap();
    assert!(plan.rotate);
    assert!(plan.moves());
}
