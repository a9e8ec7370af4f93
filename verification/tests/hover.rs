use hex_world::{
    create_map, hover_on_tile, CellRef, Direction, HexLayout, HoverState, MarkChange, Stagger,
    TileIndex, TileMap, TileMark, WorldPoint,
};

fn map() -> TileMap {
    create_map(HexLayout::new(5, 5, 50, 58, Stagger::OddRows).unwrap())
}

fn at(row: usize, col: usize) -> TileIndex {
    TileIndex { row, col }
}

fn change(row: usize, col: usize, mark: TileMark) -> MarkChange {
    MarkChange { index: at(row, col), cell: CellRef { id: col * 5 + row }, mark }
}

/// Carries the requests out on a picture of the grid.
fn carry_out(picture: &mut Vec<TileMark>, changes: &[MarkChange]) {
    for c in changes {
        picture[c.cell.id] = c.mark;
    }
}

/// The picture that the state calls for.
fn picture_of(state: &HoverState) -> Vec<TileMark> {
    let mut picture = vec![TileMark::Default; 25];
    for tile in state.highlighted() {
        picture[tile.col * 5 + tile.row] = TileMark::Highlighted;
    }
    if let Some(tile) = state.hovered() {
        picture[tile.col * 5 + tile.row] = TileMark::Hovered;
    }
    if let Some(tile) = state.directional() {
        picture[tile.col * 5 + tile.row] = TileMark::Directional;
    }
    picture
}

#[test]
fn new_state_is_idle() {
    let state = HoverState::new();
    assert_eq!(state.hovered(), None);
    assert!(state.highlighted().is_empty());
    assert_eq!(state.directional(), None);
}

#[test]
fn moving_onto_a_tile_marks_it_and_its_neighbors() {
    let map = map();
    let mut state = HoverState::new();
    let changes = hover_on_tile(&mut state, &vec![WorldPoint { x: 0, y: 0 }], &map);
    assert_eq!(
        changes,
        vec![
            change(0, 1, TileMark::Highlighted),
            change(1, 0, TileMark::Highlighted),
            change(0, 0, TileMark::Hovered),
        ]
    );
    assert_eq!(state.hovered(), Some(at(0, 0)));
    assert_eq!(state.highlighted(), &vec![at(0, 1), at(1, 0)]);
    assert_eq!(state.directional(), None);
}

#[test]
fn same_tile_twice_changes_nothing_the_second_time() {
    let map = map();
    let mut state = HoverState::new();
    let first = hover_on_tile(&mut state, &vec![WorldPoint { x: 100, y: 116 }], &map);
    assert_eq!(first.len(), 7);
    let hovered = state.hovered();
    let highlighted = state.highlighted().clone();
    let second = hover_on_tile(&mut state, &vec![WorldPoint { x: 100, y: 116 }], &map);
    assert_eq!(second, vec![]);
    assert_eq!(state.hovered(), hovered);
    assert_eq!(state.highlighted(), &highlighted);
    // Another point of the same tile is the same resolved index.
    let third = hover_on_tile(&mut state, &vec![WorldPoint { x: 110, y: 120 }], &map);
    assert_eq!(third, vec![]);
    assert_eq!(state.retarget(Some(at(2, 2)), &map), vec![]);
}

#[test]
fn off_grid_twice_changes_nothing() {
    let map = map();
    let mut state = HoverState::new();
    assert_eq!(hover_on_tile(&mut state, &vec![WorldPoint { x: -1000, y: 0 }], &map), vec![]);
    assert_eq!(state.retarget(None, &map), vec![]);
    assert_eq!(state.hovered(), None);
}

#[test]
fn moving_off_the_grid_clears_all_marks() {
    let map = map();
    let mut state = HoverState::new();
    hover_on_tile(&mut state, &vec![WorldPoint { x: 0, y: 0 }], &map);
    let changes = hover_on_tile(&mut state, &vec![WorldPoint { x: -1000, y: -1000 }], &map);
    assert_eq!(
        changes,
        vec![
            change(0, 0, TileMark::Default),
            change(0, 1, TileMark::Default),
            change(1, 0, TileMark::Default),
        ]
    );
    assert_eq!(state.hovered(), None);
    assert!(state.highlighted().is_empty());
}

#[test]
fn moving_to_another_tile_clears_then_marks() {
    let map = map();
    let mut state = HoverState::new();
    hover_on_tile(&mut state, &vec![WorldPoint { x: 0, y: 0 }], &map);
    let changes = hover_on_tile(&mut state, &vec![WorldPoint { x: 50, y: 0 }], &map);
    assert_eq!(
        changes,
        vec![
            change(0, 0, TileMark::Default),
            change(0, 1, TileMark::Default),
            change(1, 0, TileMark::Default),
            change(0, 2, TileMark::Highlighted),
            change(1, 1, TileMark::Highlighted),
            change(1, 0, TileMark::Highlighted),
            change(0, 0, TileMark::Highlighted),
            change(0, 1, TileMark::Hovered),
        ]
    );
    assert_eq!(state.hovered(), Some(at(0, 1)));
}

#[test]
fn only_the_last_move_of_a_batch_counts() {
    let map = map();
    let mut state = HoverState::new();
    let moves = vec![
        WorldPoint { x: 0, y: 0 },
        WorldPoint { x: -1000, y: -1000 },
        WorldPoint { x: 100, y: 0 },
    ];
    let changes = hover_on_tile(&mut state, &moves, &map);
    assert_eq!(state.hovered(), Some(at(0, 2)));
    assert_eq!(changes.len(), 5);
    assert_eq!(changes[4], change(0, 2, TileMark::Hovered));

    let mut other = HoverState::new();
    let alone = hover_on_tile(&mut other, &vec![WorldPoint { x: 100, y: 0 }], &map);
    assert_eq!(changes, alone);
}

#[test]
fn empty_batch_changes_nothing() {
    let map = map();
    let mut state = HoverState::new();
    hover_on_tile(&mut state, &vec![WorldPoint { x: 0, y: 0 }], &map);
    assert_eq!(hover_on_tile(&mut state, &vec![], &map), vec![]);
    assert_eq!(state.hovered(), Some(at(0, 0)));
}

#[test]
fn resolved_index_off_the_grid_counts_as_no_tile() {
    let map = map();
    let mut state = HoverState::new();
    assert_eq!(state.retarget(Some(at(5, 5)), &map), vec![]);
    assert_eq!(state.hovered(), None);
    state.retarget(Some(at(1, 1)), &map);
    let changes = state.retarget(Some(at(9, 0)), &map);
    assert_eq!(changes.len(), 7);
    assert!(changes.iter().all(|c| c.mark == TileMark::Default));
    assert_eq!(state.hovered(), None);
}

#[test]
fn direction_key_marks_one_neighbor() {
    let map = map();
    let mut state = HoverState::new();
    state.retarget(Some(at(2, 2)), &map);
    let first = state.mark_direction(Direction::East, &map);
    assert_eq!(first, vec![change(2, 3, TileMark::Directional)]);
    assert_eq!(state.directional(), Some(at(2, 3)));
    let again = state.mark_direction(Direction::East, &map);
    assert_eq!(again, vec![]);
    let second = state.mark_direction(Direction::NorthEast, &map);
    assert_eq!(
        second,
        vec![change(2, 3, TileMark::Highlighted), change(3, 2, TileMark::Directional)]
    );
    assert_eq!(state.directional(), Some(at(3, 2)));
    assert_eq!(state.hovered(), Some(at(2, 2)));
    assert_eq!(state.highlighted().len(), 6);
}

#[test]
fn direction_key_without_a_neighbor_or_a_hovered_tile_does_nothing() {
    let map = map();
    let mut state = HoverState::new();
    assert_eq!(state.mark_direction(Direction::East, &map), vec![]);
    state.retarget(Some(at(4, 4)), &map);
    assert_eq!(state.mark_direction(Direction::East, &map), vec![]);
    assert_eq!(state.mark_direction(Direction::NorthWest, &map), vec![]);
    assert_eq!(state.directional(), None);
    assert_eq!(
        state.mark_direction(Direction::West, &map),
        vec![change(4, 3, TileMark::Directional)]
    );
}

#[test]
fn pointer_move_forgets_the_directional_mark() {
    let map = map();
    let mut state = HoverState::new();
    state.retarget(Some(at(2, 2)), &map);
    state.mark_direction(Direction::West, &map);
    let changes = state.retarget(Some(at(2, 3)), &map);
    assert_eq!(state.directional(), None);
    assert!(changes.contains(&change(2, 1, TileMark::Default)));
    assert!(!changes.iter().any(|c| c.mark == TileMark::Directional));
}

#[test]
fn picture_follows_the_state_through_a_walk() {
    let map = map();
    let mut state = HoverState::new();
    let mut picture = vec![TileMark::Default; 25];
    let walk: Vec<Option<TileIndex>> = vec![
        Some(at(0, 0)),
        Some(at(0, 1)),
        Some(at(1, 1)),
        None,
        Some(at(4, 4)),
        Some(at(2, 2)),
        Some(at(2, 2)),
        Some(at(3, 2)),
        Some(at(7, 7)),
        Some(at(1, 3)),
    ];
    for (step, target) in walk.into_iter().enumerate() {
        let changes = state.retarget(target, &map);
        carry_out(&mut picture, &changes);
        assert_eq!(picture, picture_of(&state));
        let d = Direction::from_number((step % 6) as u8).unwrap();
        let changes = state.mark_direction(d, &map);
        carry_out(&mut picture, &changes);
        assert_eq!(picture, picture_of(&state));
    }
}
