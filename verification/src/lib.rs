//! A bounded grid of hexagonal tiles that can be hovered, built upon and that
//! drives a turn-based economy.
//!
//! World coordinates are whole numbers of world units; how fine a unit is, is
//! up to the caller. The grid is laid out in rows: the tiles of one row sit
//! side by side, and every second row is shifted to the right by half a tile
//! width so that the hexagons interlock.
//!
//! Nothing here draws, reads input or keeps global state. The caller owns a
//! [`TileMap`], a [`HoverState`], a table of [`Buildings`], the
//! [`PlayerResources`] and a [`TurnCounter`], feeds them pointer moves, clicks
//! and turns, and carries out the visual changes that are handed back.

pub mod building;
pub mod hex;
pub mod hover;
pub mod layout;
pub mod neighbors;
pub mod production;
pub mod resources;
pub mod tile_map;

pub use building::{
    add_wood_cutter_on_click, AlreadyOccupied, Building, BuildingKind, BuildingRef, Buildings,
    ClickOutcome, NotFound, SelectedAction, Site,
};
pub use hex::{tile_center, world_to_hex};
pub use hover::{hover_on_tile, HoverState, MarkChange, TileMark};
pub use layout::{HexLayout, Stagger, TileIndex, WorldPoint, MAX_TILES};
pub use neighbors::{neighbor_in_direction, neighbor_on_grid, neighbors, Direction};
pub use production::{
    produce_items_for_a_turn, produce_items_on_key, turn_can_pass, InvalidProducerState, Producer,
    TurnCounter,
};
pub use resources::{ItemType, PlayerResources};
pub use tile_map::{create_map, pick, tile_index_from_xy_coord, CellRef, Tile, TileMap};
