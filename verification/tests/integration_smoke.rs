use game_engine::input::InputState;

#[test]
fn integration_scaffold_compiles() {
    assert_eq!(2 + 2, 4);
}

#[test]
fn library_types_are_reachable() {
    let s = InputState::default();
    assert!(!s.up && !s.down && !s.left && !s.right);
}
