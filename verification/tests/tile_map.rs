use hex_world::{
    create_map, pick, tile_index_from_xy_coord, CellRef, HexLayout, Stagger, Tile, TileIndex,
    WorldPoint,
};

fn grid() -> HexLayout {
    HexLayout::new(5, 5, 50, 58, Stagger::OddRows).unwrap()
}

#[test]
fn registry_lists_every_tile_once_column_by_column() {
    let layout = HexLayout::new(3, 4, 50, 58, Stagger::OddRows).unwrap();
    let map = create_map(layout);
    let tiles = map.tiles();
    assert_eq!(tiles.len(), 12);
    let mut k = 0;
    for col in 0..4 {
        for row in 0..3 {
            assert_eq!(tiles[k].index, TileIndex { row, col });
            assert_eq!(tiles[k].cell, CellRef { id: k });
            k += 1;
        }
    }
}

#[test]
fn second_tile_of_the_registry_is_in_row_one() {
    let map = create_map(grid());
    assert_eq!(map.tiles()[0].index, TileIndex { row: 0, col: 0 });
    assert_eq!(map.tiles()[1].index, TileIndex { row: 1, col: 0 });
    assert_eq!(map.tiles()[5].index, TileIndex { row: 0, col: 1 });
}

#[test]
fn registry_of_a_grid_that_is_not_square() {
    let layout = HexLayout::new(2, 3, 10, 10, Stagger::OddRows).unwrap();
    let map = create_map(layout);
    let indices: Vec<(usize, usize)> =
        map.tiles().iter().map(|tile| (tile.index.row, tile.index.col)).collect();
    assert_eq!(indices, vec![(0, 0), (1, 0), (0, 1), (1, 1), (0, 2), (1, 2)]);
}

#[test]
fn registry_records_the_center_of_each_tile() {
    let map = create_map(grid());
    assert_eq!(
        map.tiles()[11],
        Tile {
            index: TileIndex { row: 1, col: 2 },
            cell: CellRef { id: 11 },
            center: WorldPoint { x: 125, y: 58 },
        }
    );
    assert_eq!(map.tiles()[0].center, WorldPoint { x: 0, y: 0 });
    assert_eq!(map.tiles()[24].center, WorldPoint { x: 200, y: 232 });
}

#[test]
fn registry_is_the_same_for_the_same_layout() {
    let first = create_map(grid());
    let second = create_map(grid());
    assert_eq!(first.tiles(), second.tiles());
    assert_eq!(first.layout().rows(), 5);
    assert_eq!(first.layout().cols(), 5);
}

#[test]
fn get_answers_none_off_the_grid() {
    let map = create_map(grid());
    assert_eq!(map.get(TileIndex { row: 1, col: 2 }), Some(CellRef { id: 11 }));
    assert_eq!(map.get(TileIndex { row: 2, col: 1 }), Some(CellRef { id: 7 }));
    assert_eq!(map.get(TileIndex { row: 4, col: 4 }), Some(CellRef { id: 24 }));
    assert_eq!(map.get(TileIndex { row: 5, col: 0 }), None);
    assert_eq!(map.get(TileIndex { row: 0, col: 5 }), None);
    assert_eq!(map.get(TileIndex { row: usize::MAX, col: usize::MAX }), None);
}

#[test]
fn pick_gives_the_tile_and_its_handle() {
    let map = create_map(grid());
    assert_eq!(
        pick(WorldPoint { x: 0, y: 0 }, &map),
        Some((TileIndex { row: 0, col: 0 }, CellRef { id: 0 }))
    );
    assert_eq!(
        pick(WorldPoint { x: 130, y: 60 }, &map),
        Some((TileIndex { row: 1, col: 2 }, CellRef { id: 11 }))
    );
    assert_eq!(pick(WorldPoint { x: -1000, y: -1000 }, &map), None);
    assert_eq!(pick(WorldPoint { x: 0, y: 300 }, &map), None);
}

#[test]
fn pick_agrees_with_the_coordinate_math() {
    let map = create_map(grid());
    for x in (-60..300).step_by(7) {
        for y in (-60..300).step_by(11) {
            let point = WorldPoint { x, y };
            let found = tile_index_from_xy_coord(point, &map);
            assert_eq!(pick(point, &map).map(|(index, _)| index), found);
        }
    }
}

#[test]
fn single_tile_registry() {
    let layout = HexLayout::new(1, 1, 50, 58, Stagger::OddRows).unwrap();
    let map = create_map(layout);
    assert_eq!(map.tiles().len(), 1);
    assert_eq!(map.get(TileIndex { row: 0, col: 0 }), Some(CellRef { id: 0 }));
}
