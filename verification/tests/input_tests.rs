use game_engine::input::{InputState, KeyCode};

fn idle() -> InputState {
    InputState::default()
}

#[test]
fn arrows_and_letters_drive_the_same_direction() {
    let pairs = [
        (KeyCode::KeyW, KeyCode::ArrowUp),
        (KeyCode::KeyA, KeyCode::ArrowLeft),
        (KeyCode::KeyS, KeyCode::ArrowDown),
        (KeyCode::KeyD, KeyCode::ArrowRight),
    ];
    for (a, b) in pairs {
        let mut s1 = idle();
        let mut s2 = idle();
        s1.handle_key(a, true);
        s2.handle_key(b, true);
        assert_eq!(s1, s2);
    }
}

#[test]
fn each_key_sets_its_own_field() {
    let mut s = idle();
    s.handle_key(KeyCode::KeyW, true);
    assert_eq!(s, InputState { up: true, down: false, left: false, right: false });
    s.handle_key(KeyCode::ArrowDown, true);
    assert_eq!(s, InputState { up: true, down: true, left: false, right: false });
    s.handle_key(KeyCode::KeyA, true);
    assert_eq!(s, InputState { up: true, down: true, left: true, right: false });
    s.handle_key(KeyCode::ArrowRight, true);
    assert_eq!(s, InputState { up: true, down: true, left: true, right: true });
}

#[test]
fn press_then_release_restores_state() {
    let before = InputState { up: false, down: true, left: false, right: false };
    let mut s = before;
    s.handle_key(KeyCode::KeyD, true);
    assert!(s.right);
    s.handle_key(KeyCode::KeyD, false);
    assert_eq!(s, before);
}

#[test]
fn other_keys_change_nothing() {
    let before = InputState { up: true, down: false, left: true, right: false };
    let mut s = before;
    s.handle_key(KeyCode::Other, true);
    s.handle_key(KeyCode::Other, false);
    assert_eq!(s, before);
}

#[test]
fn opposite_directions_cancel() {
    let s = InputState { up: false, down: false, left: true, right: true };
    assert_eq!(s.horizontal_direction(), 0);
    let l = InputState { up: false, down: false, left: true, right: false };
    assert_eq!(l.horizontal_direction(), -1);
    let r = InputState { up: false, down: false, left: false, right: true };
    assert_eq!(r.horizontal_direction(), 1);
    assert_eq!(idle().horizontal_direction(), 0);
}

#[test]
fn jump_needs_ground_and_leaves_it() {
    let s = InputState { up: true, down: false, left: false, right: true };
    let p = s.plan_update(true);
    assert!(p.jump);
    assert!(!p.grounded);
    assert_eq!(p.direction, 1);
    assert!(!p.apply_friction);

    let q = s.plan_update(false);
    assert!(!q.jump);
    assert!(!q.grounded);
}

#[test]
fn no_direction_means_friction() {
    let s = InputState { up: false, down: true, left: false, right: false };
    let p = s.plan_update(true);
    assert_eq!(p.direction, 0);
    assert!(p.apply_friction);
    assert!(!p.jump);
    assert!(p.grounded);
}
