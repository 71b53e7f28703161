use game_engine::map::{parse_map, GridCell};

fn lines(text: &[&str]) -> Vec<String> {
    text.iter().map(|l| l.to_string()).collect()
}

#[test]
fn walls_spawn_and_empty_cells() {
    let m = parse_map(&lines(&["0#0", "P0#", "##0"]));
    assert_eq!(
        m.walls,
        vec![
            GridCell { x: 1, y: 0 },
            GridCell { x: 2, y: 1 },
            GridCell { x: 0, y: 2 },
            GridCell { x: 1, y: 2 },
        ]
    );
    assert_eq!(m.spawn, Some(GridCell { x: 0, y: 1 }));
    assert!(m.unknown.is_empty());
}

#[test]
fn last_spawn_wins() {
    let m = parse_map(&lines(&["P00", "00P", "0P0"]));
    assert_eq!(m.spawn, Some(GridCell { x: 1, y: 2 }));
    let n = parse_map(&lines(&["PP"]));
    assert_eq!(n.spawn, Some(GridCell { x: 1, y: 0 }));
}

#[test]
fn unknown_characters_are_reported_and_still_take_a_column() {
    let m = parse_map(&lines(&["x#", "é0#"]));
    assert_eq!(m.unknown, vec!['x', 'é']);
    assert_eq!(m.walls, vec![GridCell { x: 1, y: 0 }, GridCell { x: 2, y: 1 }]);
    assert_eq!(m.spawn, None);
}

#[test]
fn empty_map_and_empty_lines() {
    let m = parse_map(&Vec::new());
    assert!(m.walls.is_empty());
    assert_eq!(m.spawn, None);
    assert!(m.unknown.is_empty());
    let n = parse_map(&lines(&["", "#", ""]));
    assert_eq!(n.walls, vec![GridCell { x: 0, y: 1 }]);
}
