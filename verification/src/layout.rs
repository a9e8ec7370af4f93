//! Static geometry of the grid: how many tiles there are, how large they are,
//! and which rows are shifted.

use vstd::prelude::*;

verus! {

/// The largest number of tiles a grid may have. Within this limit the
/// position of every tile fits in an index and the centre of every tile in a
/// world coordinate, whatever the size of a tile.
pub const MAX_TILES: usize = 0x100_0000;

/// Identity of one tile: its row and its column.
#[derive(Clone, Copy, Debug, PartialEq, Eq, Structural, Hash)]
pub struct TileIndex {
    pub row: usize,
    pub col: usize,
}

/// A point of the world, in whole world units.
#[derive(Clone, Copy, Debug, PartialEq, Eq, Structural, Hash)]
pub struct WorldPoint {
    pub x: i64,
    pub y: i64,
}

/// Which rows are shifted to the right by half a tile width.
#[derive(Clone, Copy, Debug, PartialEq, Eq, Structural, Hash)]
pub enum Stagger {
    /// Rows 1, 3, 5, ... are shifted.
    OddRows,
    /// Rows 0, 2, 4, ... are shifted.
    EvenRows,
}

/// Immutable grid geometry.
///
/// The hexagons stand on a point and are laid out in rows. Row `r` is centred
/// on the horizontal line `y = r * cell_height`, and within a row the centres
/// are `cell_width` apart. The centre of tile `(0, 0)` of an unshifted row 0
/// is the world origin; a shifted row starts half a tile width further to the
/// right.
#[derive(Clone, Copy, Debug)]
pub struct HexLayout {
    rows: usize,
    cols: usize,
    cell_width: u32,
    cell_height: u32,
    stagger: Stagger,
}

impl HexLayout {
    pub closed spec fn spec_rows(&self) -> usize {
        self.rows
    }

    pub closed spec fn spec_cols(&self) -> usize {
        self.cols
    }

    pub closed spec fn spec_cell_width(&self) -> u32 {
        self.cell_width
    }

    pub closed spec fn spec_cell_height(&self) -> u32 {
        self.cell_height
    }

    pub closed spec fn spec_stagger(&self) -> Stagger {
        self.stagger
    }

    /// Every dimension is strictly positive and the grid has at most
    /// `MAX_TILES` tiles.
    pub open spec fn wf(&self) -> bool {
        &&& self.rows() >= 1
        &&& self.cols() >= 1
        &&& self.rows() * self.cols() <= MAX_TILES
        &&& self.cell_width() >= 1
        &&& self.cell_height() >= 1
    }

    /// The index names a tile of this grid.
    pub open spec fn contains(&self, index: TileIndex) -> bool {
        index.row < self.rows() && index.col < self.cols()
    }

    /// Row `row` is one of the rows that are shifted to the right.
    pub open spec fn shifted(&self, row: int) -> bool {
        match self.stagger() {
            Stagger::OddRows => row % 2 == 1,
            Stagger::EvenRows => row % 2 == 0,
        }
    }

    /// A layout of `rows` by `cols` tiles, or `None` where a dimension is zero
    /// or the grid would have more than `MAX_TILES` tiles.
    pub fn new(rows: usize, cols: usize, cell_width: u32, cell_height: u32, stagger: Stagger) -> (layout: Option<HexLayout>)
        ensures
            layout.is_some() <==> (rows >= 1 && cols >= 1 && rows * cols <= MAX_TILES
                && cell_width >= 1 && cell_height >= 1),
            layout matches Some(l) ==> {
                &&& l.wf()
                &&& l.rows() == rows
                &&& l.cols() == cols
                &&& l.cell_width() == cell_width
                &&& l.cell_height() == cell_height
                &&& l.stagger() == stagger
            },
    {
        if rows == 0 || cols == 0 || cell_width == 0 || cell_height == 0 {
            return None;
        }
        if rows > MAX_TILES || cols > MAX_TILES {
            assert(rows * cols > MAX_TILES) by (nonlinear_arith)
                requires
                    rows >= 1,
                    cols >= 1,
                    rows > MAX_TILES || cols > MAX_TILES,
            ;
            return None;
        }
        assert(rows * cols <= MAX_TILES * MAX_TILES) by (nonlinear_arith)
            requires
                rows <= MAX_TILES,
                cols <= MAX_TILES,
        ;
        let tiles: u64 = rows as u64 * cols as u64;
        if tiles > MAX_TILES as u64 {
            return None;
        }
        Some(HexLayout { rows, cols, cell_width, cell_height, stagger })
    }

    /// Number of rows.
    #[verifier::when_used_as_spec(spec_rows)]
    pub fn rows(&self) -> (n: usize)
        ensures
            n == self.rows(),
    {
        self.rows
    }

    /// Number of columns.
    #[verifier::when_used_as_spec(spec_cols)]
    pub fn cols(&self) -> (n: usize)
        ensures
            n == self.cols(),
    {
        self.cols
    }

    /// Distance between the centres of two tiles that are side by side.
    #[verifier::when_used_as_spec(spec_cell_width)]
    pub fn cell_width(&self) -> (w: u32)
        ensures
            w == self.cell_width(),
    {
        self.cell_width
    }

    /// Distance between the centre lines of two rows.
    #[verifier::when_used_as_spec(spec_cell_height)]
    pub fn cell_height(&self) -> (h: u32)
        ensures
            h == self.cell_height(),
    {
        self.cell_height
    }

    /// Which rows are shifted.
    #[verifier::when_used_as_spec(spec_stagger)]
    pub fn stagger(&self) -> (s: Stagger)
        ensures
            s == self.stagger(),
    {
        self.stagger
    }

    /// Whether `index` names a tile of this grid.
    pub fn has_tile(&self, index: TileIndex) -> (b: bool)
        ensures
            b == self.contains(index),
    {
        index.row < self.rows && index.col < self.cols
    }

    /// Whether row `row` is shifted to the right.
    pub fn is_shifted(&self, row: usize) -> (b: bool)
        ensures
            b == self.shifted(row as int),
    {
        match self.stagger {
            Stagger::OddRows => row % 2 == 1,
            Stagger::EvenRows => row % 2 == 0,
        }
    }
}

} // verus!
