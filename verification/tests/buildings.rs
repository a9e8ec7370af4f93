use hex_world::{
    add_wood_cutter_on_click, create_map, neighbors, AlreadyOccupied, Building, BuildingKind,
    BuildingRef, Buildings, ClickOutcome, HexLayout, HoverState, ItemType, NotFound, Producer,
    SelectedAction, Site, Stagger, TileIndex, TileMap,
};

fn map() -> TileMap {
    create_map(HexLayout::new(5, 5, 50, 58, Stagger::OddRows).unwrap())
}

fn at(row: usize, col: usize) -> TileIndex {
    TileIndex { row, col }
}

fn outcome(
    built: Option<Result<BuildingRef, AlreadyOccupied>>,
    demolished: Option<Result<TileIndex, NotFound>>,
) -> ClickOutcome {
    ClickOutcome { built, demolished }
}

fn wood_cutter() -> Building {
    Building {
        kind: BuildingKind::WoodCutter,
        producer: Producer {
            turns_remaining: 1,
            number_produced: 1,
            production_turns: 1,
            produces_item_type: ItemType::Wood,
        },
    }
}

#[test]
fn new_table_is_empty() {
    let table = Buildings::new();
    assert_eq!(table.len(), 0);
    assert_eq!(table.get(at(0, 0)), None);
}

#[test]
fn new_wood_cutter_makes_one_wood_every_turn() {
    assert_eq!(Building::new(BuildingKind::WoodCutter), wood_cutter());
}

#[test]
fn place_puts_a_new_building_on_a_free_tile() {
    let mut table = Buildings::new();
    let placed = table.place(at(2, 2), BuildingKind::WoodCutter);
    assert_eq!(placed, Ok(BuildingRef { index: at(2, 2) }));
    assert_eq!(table.len(), 1);
    assert_eq!(table.get(at(2, 2)), Some(wood_cutter()));
    assert_eq!(table.get(at(2, 3)), None);
    assert_eq!(table.sites(), &vec![Site { index: at(2, 2), building: wood_cutter() }]);
}

#[test]
fn place_then_remove_restores_the_table() {
    let mut table = Buildings::new();
    table.place(at(0, 0), BuildingKind::WoodCutter).unwrap();
    table.place(at(3, 1), BuildingKind::WoodCutter).unwrap();
    let before = table.sites().clone();
    assert_eq!(table.place(at(2, 2), BuildingKind::WoodCutter), Ok(BuildingRef { index: at(2, 2) }));
    assert_eq!(table.remove(at(2, 2)), Ok(()));
    assert_eq!(table.sites(), &before);
    assert_eq!(table.get(at(2, 2)), None);
    assert_eq!(table.remove(at(2, 2)), Err(NotFound));
    assert_eq!(table.sites(), &before);
}

#[test]
fn place_on_an_occupied_tile_fails_and_leaves_the_building() {
    let mut table = Buildings::new();
    let old = Building {
        kind: BuildingKind::WoodCutter,
        producer: Producer {
            turns_remaining: 2,
            number_produced: 5,
            production_turns: 3,
            produces_item_type: ItemType::Stone,
        },
    };
    assert_eq!(table.place_building(at(1, 1), old), Ok(BuildingRef { index: at(1, 1) }));
    assert_eq!(table.place(at(1, 1), BuildingKind::WoodCutter), Err(AlreadyOccupied));
    assert_eq!(table.place_building(at(1, 1), wood_cutter()), Err(AlreadyOccupied));
    assert_eq!(table.len(), 1);
    assert_eq!(table.get(at(1, 1)), Some(old));
}

#[test]
fn remove_on_a_free_tile_fails() {
    let mut table = Buildings::new();
    assert_eq!(table.remove(at(0, 0)), Err(NotFound));
    table.place(at(0, 1), BuildingKind::WoodCutter).unwrap();
    assert_eq!(table.remove(at(0, 0)), Err(NotFound));
    assert_eq!(table.len(), 1);
}

#[test]
fn remove_keeps_the_order_of_the_others() {
    let mut table = Buildings::new();
    for col in 0..4 {
        table.place(at(0, col), BuildingKind::WoodCutter).unwrap();
    }
    assert_eq!(table.remove(at(0, 1)), Ok(()));
    let left: Vec<TileIndex> = table.sites().iter().map(|site| site.index).collect();
    assert_eq!(left, vec![at(0, 0), at(0, 2), at(0, 3)]);
    assert_eq!(table.place(at(0, 1), BuildingKind::WoodCutter), Ok(BuildingRef { index: at(0, 1) }));
    let now: Vec<TileIndex> = table.sites().iter().map(|site| site.index).collect();
    assert_eq!(now, vec![at(0, 0), at(0, 2), at(0, 3), at(0, 1)]);
}

#[test]
fn build_in_the_middle_then_ask_for_its_neighbors() {
    let map = map();
    let mut table = Buildings::new();
    table.place(at(2, 2), BuildingKind::WoodCutter).unwrap();
    let around = neighbors(at(2, 2), &map.layout());
    assert!(!around.contains(&at(2, 2)));
    assert_eq!(around.len(), 6);
    for tile in &around {
        assert!(tile.row < 5 && tile.col < 5);
        assert_eq!(table.get(*tile), None);
    }
}

#[test]
fn default_action_is_to_build() {
    assert_eq!(SelectedAction::default(), SelectedAction::BuildWoodCutter);
    assert_ne!(SelectedAction::default(), SelectedAction::DemolishBuilding);
}

#[test]
fn left_click_builds_on_the_hovered_tile() {
    let map = map();
    let mut hover = HoverState::new();
    hover.retarget(Some(at(2, 2)), &map);
    let mut table = Buildings::new();
    assert_eq!(
        add_wood_cutter_on_click(&mut table, &hover, true, false),
        outcome(Some(Ok(BuildingRef { index: at(2, 2) })), None)
    );
    assert_eq!(table.get(at(2, 2)), Some(wood_cutter()));
    // There is a building now: a second left click is turned down.
    let before = table.sites().clone();
    assert_eq!(
        add_wood_cutter_on_click(&mut table, &hover, true, false),
        outcome(Some(Err(AlreadyOccupied)), None)
    );
    assert_eq!(table.sites(), &before);
}

#[test]
fn left_click_on_a_building_leaves_its_producer_alone() {
    let map = map();
    let mut hover = HoverState::new();
    hover.retarget(Some(at(1, 3)), &map);
    let mut table = Buildings::new();
    let old = Building {
        kind: BuildingKind::WoodCutter,
        producer: Producer {
            turns_remaining: 2,
            number_produced: 5,
            production_turns: 3,
            produces_item_type: ItemType::Stone,
        },
    };
    table.place_building(at(1, 3), old).unwrap();
    table.place(at(0, 0), BuildingKind::WoodCutter).unwrap();
    let before = table.sites().clone();
    assert_eq!(
        add_wood_cutter_on_click(&mut table, &hover, true, false),
        outcome(Some(Err(AlreadyOccupied)), None)
    );
    assert_eq!(table.sites(), &before);
    assert_eq!(table.get(at(1, 3)), Some(old));
}

#[test]
fn right_click_demolishes_the_building_on_the_hovered_tile() {
    let map = map();
    let mut hover = HoverState::new();
    hover.retarget(Some(at(2, 2)), &map);
    let mut table = Buildings::new();
    assert_eq!(
        add_wood_cutter_on_click(&mut table, &hover, false, true),
        outcome(None, Some(Err(NotFound)))
    );
    assert_eq!(table.len(), 0);
    table.place(at(2, 2), BuildingKind::WoodCutter).unwrap();
    table.place(at(2, 3), BuildingKind::WoodCutter).unwrap();
    assert_eq!(
        add_wood_cutter_on_click(&mut table, &hover, false, true),
        outcome(None, Some(Ok(at(2, 2))))
    );
    assert_eq!(table.get(at(2, 2)), None);
    assert_eq!(table.get(at(2, 3)), Some(wood_cutter()));
    // The building is gone: a second right click is turned down.
    let before = table.sites().clone();
    assert_eq!(
        add_wood_cutter_on_click(&mut table, &hover, false, true),
        outcome(None, Some(Err(NotFound)))
    );
    assert_eq!(table.sites(), &before);
}

#[test]
fn both_buttons_act_on_the_tile_as_it_was() {
    let map = map();
    let mut hover = HoverState::new();
    hover.retarget(Some(at(1, 1)), &map);
    let mut table = Buildings::new();
    assert_eq!(
        add_wood_cutter_on_click(&mut table, &hover, true, true),
        outcome(Some(Ok(BuildingRef { index: at(1, 1) })), Some(Err(NotFound)))
    );
    assert_eq!(table.len(), 1);
    assert_eq!(
        add_wood_cutter_on_click(&mut table, &hover, true, true),
        outcome(Some(Err(AlreadyOccupied)), Some(Ok(at(1, 1))))
    );
    assert_eq!(table.len(), 0);
}

#[test]
fn clicks_without_a_hovered_tile_or_a_button_do_nothing() {
    let map = map();
    let mut hover = HoverState::new();
    let mut table = Buildings::new();
    assert_eq!(add_wood_cutter_on_click(&mut table, &hover, true, true), outcome(None, None));
    hover.retarget(Some(at(0, 0)), &map);
    assert_eq!(add_wood_cutter_on_click(&mut table, &hover, false, false), outcome(None, None));
    assert_eq!(table.len(), 0);
}
