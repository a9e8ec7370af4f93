//! The tile registry: one record per tile of the grid, made once when the
//! world is created and never changed afterwards.

use vstd::prelude::*;
use itertools::Itertools;
use crate::hex::{tile_center, world_to_hex};
use crate::layout::{HexLayout, TileIndex, WorldPoint};

verus! {

/// Handle of a tile's scene representation. The registry hands the handles
/// out; everything else looks them up by tile index.
#[derive(Clone, Copy, Debug, PartialEq, Eq, Structural, Hash)]
pub struct CellRef {
    pub id: usize,
}

/// What the registry knows of one tile.
#[derive(Clone, Copy, Debug, PartialEq, Eq, Structural)]
pub struct Tile {
    pub index: TileIndex,
    pub cell: CellRef,
    pub center: WorldPoint,
}

impl HexLayout {
    /// Position of a tile in column-major order: column 0 from row 0 upwards,
    /// then column 1, and so on.
    pub open spec fn position(&self, index: TileIndex) -> int {
        index.col * self.rows() + index.row
    }

    /// The tile at position `k` of the column-major order.
    pub open spec fn index_at(&self, k: int) -> TileIndex {
        TileIndex { row: (k % self.rows() as int) as usize, col: (k / self.rows() as int) as usize }
    }

    /// The handle of tile `index`: its position in column-major order.
    pub open spec fn cell(&self, index: TileIndex) -> CellRef {
        CellRef { id: self.position(index) as usize }
    }

    /// The registry's record of the tile at position `k`.
    pub open spec fn tile_at(&self, k: int) -> Tile {
        Tile {
            index: self.index_at(k),
            cell: CellRef { id: k as usize },
            center: self.center(self.index_at(k)),
        }
    }
}

/// The grid's geometry together with the records of its tiles.
#[derive(Debug)]
pub struct TileMap {
    layout: HexLayout,
    tiles: Vec<Tile>,
}

/// What a tile map holds.
pub struct TileMapView {
    /// The grid's geometry.
    pub layout: HexLayout,
    /// The records of the tiles, in column-major order.
    pub tiles: Seq<Tile>,
}

impl View for TileMap {
    type V = TileMapView;

    closed spec fn view(&self) -> TileMapView {
        TileMapView { layout: self.layout, tiles: self.tiles@ }
    }
}

impl TileMap {
    pub open spec fn spec_layout(&self) -> HexLayout {
        self@.layout
    }

    /// There is one record for each tile of the grid and no other, in
    /// column-major order.
    pub open spec fn wf(&self) -> bool {
        &&& self.layout().wf()
        &&& self@.tiles.len() == self.layout().rows() * self.layout().cols()
        &&& forall|k: int|
            0 <= k < self@.tiles.len() ==> #[trigger] self@.tiles[k] == self.layout().tile_at(k)
    }

    /// The handle registered for `index`, if `index` is a tile of the grid.
    pub open spec fn cell_of(&self, index: TileIndex) -> Option<CellRef> {
        if self.layout().contains(index) {
            Some(self.layout().cell(index))
        } else {
            None
        }
    }

    /// The grid's geometry.
    #[verifier::when_used_as_spec(spec_layout)]
    pub fn layout(&self) -> (layout: HexLayout)
        ensures
            layout == self.layout(),
    {
        self.layout
    }

    /// The records of all tiles, in column-major order.
    pub fn tiles(&self) -> (tiles: &Vec<Tile>)
        ensures
            tiles@ == self@.tiles,
    {
        &self.tiles
    }

    /// The handle registered for `index`, or `None` for an index off the
    /// grid.
    pub fn get(&self, index: TileIndex) -> (cell: Option<CellRef>)
        requires
            self.wf(),
        ensures
            cell == self.cell_of(index),
    {
        if !self.layout.has_tile(index) {
            return None;
        }
        proof {
            lemma_position(self.layout, index);
        }
        let k: usize = index.col * self.layout.rows() + index.row;
        if k < self.tiles.len() {
            Some(self.tiles[k].cell)
        } else {
            None
        }
    }
}

/// The position of a tile of the grid is below the number of tiles, and the
/// tile at that position is the tile itself.
pub proof fn lemma_position(layout: HexLayout, index: TileIndex)
    requires
        layout.wf(),
        layout.contains(index),
    ensures
        0 <= index.col * layout.rows() <= layout.position(index) < layout.rows() * layout.cols(),
        layout.index_at(layout.position(index)) == index,
{
    let r = index.row as int;
    let c = index.col as int;
    let cols = layout.cols() as int;
    let rows = layout.rows() as int;
    assert(0 <= c * rows && c * rows + rows <= rows * cols) by (nonlinear_arith)
        requires
            0 <= c,
            c + 1 <= cols,
            rows >= 1,
    ;
    vstd::arithmetic::div_mod::lemma_fundamental_div_mod_converse(c * rows + r, rows, c, r);
}

/// The tile at a position below the number of tiles is a tile of the grid,
/// and its position is that position.
pub proof fn lemma_index_at(layout: HexLayout, k: int)
    requires
        layout.wf(),
        0 <= k < layout.rows() * layout.cols(),
    ensures
        layout.contains(layout.index_at(k)),
        layout.position(layout.index_at(k)) == k,
{
    let cols = layout.cols() as int;
    let rows = layout.rows() as int;
    vstd::arithmetic::div_mod::lemma_fundamental_div_mod(k, rows);
    vstd::arithmetic::div_mod::lemma_mod_bound(k, rows);
    vstd::arithmetic::div_mod::lemma_div_pos_is_pos(k, rows);
    let q = k / rows;
    assert(q < cols) by (nonlinear_arith)
        requires
            k == rows * q + k % rows,
            0 <= k % rows,
            k < rows * cols,
            rows >= 1,
    ;
    vstd::arithmetic::mul::lemma_mul_is_commutative(rows, q);
}

/// The pairs `(a, b)` with `a` below `outer` and `b` below `inner`, every
/// `b` for the first `a`, then every `b` for the next.
///
/// Calls `Itertools::cartesian_product` on the ranges `0..outer` and
/// `0..inner` and collects what it yields. The contract claims the order that
/// the adaptor documents: the first range is walked once, and for each of its
/// items the second range is walked from its start. This is taken on trust;
/// nothing here proves it.
#[verifier::external_body]
fn index_pairs(outer: usize, inner: usize) -> (pairs: Vec<(usize, usize)>)
    requires
        outer * inner <= crate::layout::MAX_TILES,
    ensures
        pairs@.len() == outer * inner,
        forall|k: int|
            0 <= k < pairs@.len() ==> #[trigger] pairs@[k] == ((k / inner as int) as usize, (k
                % inner as int) as usize),
{
    (0..outer).cartesian_product(0..inner).collect()
}

/// Makes the registry for a grid: one record per tile, column by column and
/// within a column from row 0 upwards, each with the tile's index, a handle
/// that is the tile's position in that order, and the tile's centre. The same
/// layout always gives the same registry.
pub fn create_map(layout: HexLayout) -> (map: TileMap)
    requires
        layout.wf(),
    ensures
        map.wf(),
        map.layout() == layout,
{
    assert(layout.cols() * layout.rows() == layout.rows() * layout.cols()) by (nonlinear_arith);
    let pairs = index_pairs(layout.cols(), layout.rows());
    let mut tiles: Vec<Tile> = Vec::new();
    let mut k: usize = 0;
    while k < pairs.len()
        invariant
            layout.wf(),
            k <= pairs@.len(),
            pairs@.len() == layout.rows() * layout.cols(),
            forall|j: int|
                0 <= j < pairs@.len() ==> #[trigger] pairs@[j] == ((j / layout.rows() as int) as usize, (
                    j % layout.rows() as int) as usize),
            tiles@.len() == k,
            forall|j: int| 0 <= j < k ==> #[trigger] tiles@[j] == layout.tile_at(j),
        decreases pairs@.len() - k,
    {
        let (col, row) = pairs[k];
        let index = TileIndex { row, col };
        proof {
            lemma_index_at(layout, k as int);
        }
        let center = tile_center(index, &layout);
        tiles.push(Tile { index, cell: CellRef { id: k }, center });
        k = k + 1;
    }
    TileMap { layout, tiles }
}

/// The tile under a world point, or `None` where the point is off the edge
/// of the map.
pub fn tile_index_from_xy_coord(point: WorldPoint, map: &TileMap) -> (found: Option<TileIndex>)
    requires
        map.wf(),
    ensures
        found == map.layout().world_to_hex(point),
{
    world_to_hex(point, &map.layout)
}

/// What `pick` finds under `point`: the tile there together with its handle.
pub open spec fn picked(map: TileMap, point: WorldPoint) -> Option<(TileIndex, CellRef)> {
    match map.layout().world_to_hex(point) {
        Some(index) => match map.cell_of(index) {
            Some(cell) => Some((index, cell)),
            None => None,
        },
        None => None,
    }
}

/// The tile under a world point together with its handle, or `None` where
/// the point is off the grid or the registry has no record of the tile.
pub fn pick(point: WorldPoint, map: &TileMap) -> (found: Option<(TileIndex, CellRef)>)
    requires
        map.wf(),
    ensures
        found == picked(*map, point),
{
    match tile_index_from_xy_coord(point, map) {
        Some(index) => match map.get(index) {
            Some(cell) => Some((index, cell)),
            None => None,
        },
        None => None,
    }
}

/// Every point that is under a tile is picked: the registry has a record of
/// every tile of the grid.
pub proof fn lemma_pick_total(map: TileMap, point: WorldPoint)
    requires
        map.wf(),
    ensures
        picked(map, point).is_some() <==> map.layout().world_to_hex(point).is_some(),
        picked(map, point) matches Some((index, cell)) ==> map.layout().contains(index)
            && map@.tiles[cell.id as int].index == index,
{
    if let Some(index) = map.layout().world_to_hex(point) {
        lemma_position(map.layout(), index);
    }
}

/// The registry has exactly one record for each tile of the grid: the record
/// at the tile's position, and no record at another position names the tile.
pub proof fn lemma_one_record_per_tile(map: TileMap, index: TileIndex, k: int)
    requires
        map.wf(),
        0 <= k < map@.tiles.len(),
    ensures
        map.layout().contains(map@.tiles[k].index),
        map@.tiles[k].cell.id == k,
        map@.tiles[k].index == index <==> k == map.layout().position(index) && map.layout().contains(
            index,
        ),
{
    lemma_index_at(map.layout(), k);
    if map.layout().contains(index) {
        lemma_position(map.layout(), index);
    }
}

/// The registry lists the tiles column by column, and within a column from
/// row 0 upwards: the record of tile `(row, col)` is the one at place
/// `col * rows + row`, and it holds the tile's index, that place as the
/// tile's handle, and the tile's centre.
pub proof fn lemma_tiles_column_by_column(map: TileMap, index: TileIndex)
    requires
        map.wf(),
        map.layout().contains(index),
    ensures
        0 <= index.col * map.layout().rows() + index.row < map@.tiles.len(),
        map@.tiles[index.col * map.layout().rows() + index.row] == (Tile {
            index,
            cell: CellRef { id: (index.col * map.layout().rows() + index.row) as usize },
            center: map.layout().center(index),
        }),
{
    lemma_position(map.layout(), index);
}

} // verus!
