//! Neighbour relations between tiles.
//!
//! In index space the step to a neighbour in the row above or below depends
//! on whether the tile's own row is shifted, so the six steps are looked up
//! per row rather than added as fixed offsets.

use vstd::prelude::*;
use crate::layout::{HexLayout, TileIndex};

verus! {

/// The six directions in which a tile has a neighbour, counter-clockwise from
/// east. North is the direction of growing rows.
#[derive(Clone, Copy, Debug, PartialEq, Eq, Structural, Hash)]
pub enum Direction {
    East,
    NorthEast,
    NorthWest,
    West,
    SouthWest,
    SouthEast,
}

impl Direction {
    /// The number of the direction: 0 for east, then counter-clockwise up to
    /// 5 for south-east.
    pub open spec fn spec_number(self) -> u8 {
        match self {
            Direction::East => 0,
            Direction::NorthEast => 1,
            Direction::NorthWest => 2,
            Direction::West => 3,
            Direction::SouthWest => 4,
            Direction::SouthEast => 5,
        }
    }

    /// The number of the direction, 0 to 5.
    #[verifier::when_used_as_spec(spec_number)]
    pub fn number(self) -> (n: u8)
        ensures
            n == self.number(),
    {
        match self {
            Direction::East => 0,
            Direction::NorthEast => 1,
            Direction::NorthWest => 2,
            Direction::West => 3,
            Direction::SouthWest => 4,
            Direction::SouthEast => 5,
        }
    }

    /// The direction with number `n`, for `n` from 0 to 5.
    pub fn from_number(n: u8) -> (d: Option<Direction>)
        ensures
            d.is_some() <==> n < 6,
            d matches Some(dir) ==> dir.number() == n,
    {
        match n {
            0 => Some(Direction::East),
            1 => Some(Direction::NorthEast),
            2 => Some(Direction::NorthWest),
            3 => Some(Direction::West),
            4 => Some(Direction::SouthWest),
            5 => Some(Direction::SouthEast),
            _ => None,
        }
    }

    /// By how many rows a step in this direction moves.
    pub open spec fn row_step(self) -> int {
        match self {
            Direction::East | Direction::West => 0,
            Direction::NorthEast | Direction::NorthWest => 1,
            Direction::SouthWest | Direction::SouthEast => -1,
        }
    }

    /// By how many half tile widths a step in this direction moves to the
    /// right.
    pub open spec fn half_step(self) -> int {
        match self {
            Direction::East => 2,
            Direction::NorthEast | Direction::SouthEast => 1,
            Direction::NorthWest | Direction::SouthWest => -1,
            Direction::West => -2,
        }
    }
}

/// The sequence that holds the value of `o`, or nothing.
pub open spec fn seq_of(o: Option<TileIndex>) -> Seq<TileIndex> {
    match o {
        Some(i) => seq![i],
        None => Seq::empty(),
    }
}

impl HexLayout {
    /// Row and column of the place one step from `index` in direction `d`,
    /// whether or not a tile is there.
    pub open spec fn step(&self, index: TileIndex, d: Direction) -> (int, int) {
        let r = index.row as int;
        let c = index.col as int;
        let s: int = if self.shifted(r) {
            1
        } else {
            0
        };
        match d {
            Direction::East => (r, c + 1),
            Direction::NorthEast => (r + 1, c + s),
            Direction::NorthWest => (r + 1, c + s - 1),
            Direction::West => (r, c - 1),
            Direction::SouthWest => (r - 1, c + s - 1),
            Direction::SouthEast => (r - 1, c + s),
        }
    }

    /// The index one step from `index` in direction `d`, where row and column
    /// are numbers that an index can hold. The index may lie off the grid.
    pub open spec fn step_index(&self, index: TileIndex, d: Direction) -> Option<TileIndex> {
        let (r, c) = self.step(index, d);
        if 0 <= r <= usize::MAX && 0 <= c <= usize::MAX {
            Some(TileIndex { row: r as usize, col: c as usize })
        } else {
            None
        }
    }

    /// The tile of the grid one step from `index` in direction `d`, if there
    /// is one.
    pub open spec fn neighbor(&self, index: TileIndex, d: Direction) -> Option<TileIndex> {
        let (r, c) = self.step(index, d);
        if 0 <= r < self.rows() && 0 <= c < self.cols() {
            Some(TileIndex { row: r as usize, col: c as usize })
        } else {
            None
        }
    }

    /// The tiles of the grid next to `index`, counter-clockwise from east.
    pub open spec fn neighbors(&self, index: TileIndex) -> Seq<TileIndex> {
        seq_of(self.neighbor(index, Direction::East)) + seq_of(
            self.neighbor(index, Direction::NorthEast),
        ) + seq_of(self.neighbor(index, Direction::NorthWest)) + seq_of(
            self.neighbor(index, Direction::West),
        ) + seq_of(self.neighbor(index, Direction::SouthWest)) + seq_of(
            self.neighbor(index, Direction::SouthEast),
        )
    }

    /// Horizontal position of a tile's centre, in half tile widths.
    pub open spec fn half_column(&self, index: TileIndex) -> int {
        2 * index.col + if self.shifted(index.row as int) {
            1int
        } else {
            0int
        }
    }

    /// Two tiles touch: they are side by side in one row, two half widths
    /// apart, or in rows next to each other, one half width apart.
    pub open spec fn adjacent(&self, a: TileIndex, b: TileIndex) -> bool {
        let dr = b.row - a.row;
        let dh = self.half_column(b) - self.half_column(a);
        ||| dr == 0 && (dh == 2 || dh == -2)
        ||| (dr == 1 || dr == -1) && (dh == 1 || dh == -1)
    }

    /// The tile is surrounded by tiles of the grid on all sides.
    pub open spec fn interior(&self, index: TileIndex) -> bool {
        &&& 1 <= index.row
        &&& index.row + 1 < self.rows()
        &&& 1 <= index.col
        &&& index.col + 1 < self.cols()
    }
}

/// The index one step from `index` in direction `direction`.
///
/// The result is not held against the grid: it may name a place off the grid,
/// and the caller decides with `has_tile`. `None` only where the row or the
/// column would be negative or too large for an index.
pub fn neighbor_in_direction(index: TileIndex, direction: Direction, layout: &HexLayout) -> (next:
    Option<TileIndex>)
    ensures
        next == layout.step_index(index, direction),
{
    let shifted = layout.is_shifted(index.row);
    // Column of the upper and lower neighbour on the right, on the left.
    let right: Option<usize> = if shifted {
        index.col.checked_add(1)
    } else {
        Some(index.col)
    };
    let left: Option<usize> = if shifted {
        Some(index.col)
    } else {
        index.col.checked_sub(1)
    };
    let (row, col): (Option<usize>, Option<usize>) = match direction {
        Direction::East => (Some(index.row), index.col.checked_add(1)),
        Direction::NorthEast => (index.row.checked_add(1), right),
        Direction::NorthWest => (index.row.checked_add(1), left),
        Direction::West => (Some(index.row), index.col.checked_sub(1)),
        Direction::SouthWest => (index.row.checked_sub(1), left),
        Direction::SouthEast => (index.row.checked_sub(1), right),
    };
    match (row, col) {
        (Some(r), Some(c)) => Some(TileIndex { row: r, col: c }),
        _ => None,
    }
}

/// The tile of the grid one step from `index` in direction `direction`, if
/// there is one.
pub fn neighbor_on_grid(index: TileIndex, direction: Direction, layout: &HexLayout) -> (next:
    Option<TileIndex>)
    ensures
        next == layout.neighbor(index, direction),
{
    match neighbor_in_direction(index, direction, layout) {
        Some(n) => if layout.has_tile(n) {
            Some(n)
        } else {
            None
        },
        None => None,
    }
}

/// The tiles of the grid next to `index`, counter-clockwise from east: six
/// for a tile in the interior, fewer at the edges.
pub fn neighbors(index: TileIndex, layout: &HexLayout) -> (found: Vec<TileIndex>)
    ensures
        found@ == layout.neighbors(index),
{
    let mut found: Vec<TileIndex> = Vec::new();
    let mut n: u8 = 0;
    while n < 6
        invariant
            n <= 6,
            found@ == neighbors_before(*layout, index, n as int),
        decreases 6 - n,
    {
        match Direction::from_number(n) {
            Some(d) => {
                match neighbor_on_grid(index, d, layout) {
                    Some(next) => {
                        found.push(next);
                    },
                    None => {},
                }
                assert(found@ == neighbors_before(*layout, index, n as int) + seq_of(
                    layout.neighbor(index, d),
                ));
            },
            None => {},
        }
        n = n + 1;
    }
    proof {
        lemma_neighbors_before_all(*layout, index);
    }
    found
}

/// The direction with number `n`; east for a number that is none.
spec fn direction_of(n: int) -> Direction {
    if n == 1 {
        Direction::NorthEast
    } else if n == 2 {
        Direction::NorthWest
    } else if n == 3 {
        Direction::West
    } else if n == 4 {
        Direction::SouthWest
    } else if n == 5 {
        Direction::SouthEast
    } else {
        Direction::East
    }
}

/// The neighbours of `index` in the directions with a number below `n`.
spec fn neighbors_before(layout: HexLayout, index: TileIndex, n: int) -> Seq<TileIndex>
    decreases n,
{
    if n <= 0 {
        Seq::empty()
    } else {
        neighbors_before(layout, index, n - 1) + seq_of(layout.neighbor(index, direction_of(n - 1)))
    }
}

/// Taken over all six directions, `neighbors_before` is `neighbors`.
proof fn lemma_neighbors_before_all(layout: HexLayout, index: TileIndex)
    ensures
        neighbors_before(layout, index, 6) == layout.neighbors(index),
{
    reveal_with_fuel(neighbors_before, 7);
    assert(neighbors_before(layout, index, 0) + seq_of(layout.neighbor(index, Direction::East))
        =~= seq_of(layout.neighbor(index, Direction::East)));
}

/// An index is among the neighbours of `index` exactly when it is the
/// neighbour in one of the six directions.
pub proof fn lemma_neighbors_membership(layout: HexLayout, index: TileIndex, other: TileIndex)
    ensures
        layout.neighbors(index).contains(other) <==> exists|d: Direction|
            layout.neighbor(index, d) == Some(other),
{
    let e = seq_of(layout.neighbor(index, Direction::East));
    let ne = seq_of(layout.neighbor(index, Direction::NorthEast));
    let nw = seq_of(layout.neighbor(index, Direction::NorthWest));
    let w = seq_of(layout.neighbor(index, Direction::West));
    let sw = seq_of(layout.neighbor(index, Direction::SouthWest));
    let se = seq_of(layout.neighbor(index, Direction::SouthEast));
    let all = layout.neighbors(index);
    assert(all == e + ne + nw + w + sw + se);
    if exists|d: Direction| layout.neighbor(index, d) == Some(other) {
        let d = choose|d: Direction| layout.neighbor(index, d) == Some(other);
        let k: int = match d {
            Direction::East => 0,
            Direction::NorthEast => e.len() as int,
            Direction::NorthWest => (e.len() + ne.len()) as int,
            Direction::West => (e.len() + ne.len() + nw.len()) as int,
            Direction::SouthWest => (e.len() + ne.len() + nw.len() + w.len()) as int,
            Direction::SouthEast => (e.len() + ne.len() + nw.len() + w.len() + sw.len()) as int,
        };
        assert(all[k] == other);
    }
}

/// A step in direction `d` moves by that direction's number of rows and of
/// half tile widths, whatever the row it starts from.
pub proof fn lemma_step_geometry(layout: HexLayout, index: TileIndex, d: Direction)
    ensures
        ({
            let (r, c) = layout.step(index, d);
            let s: int = if layout.shifted(r) {
                1
            } else {
                0
            };
            &&& r == index.row + d.row_step()
            &&& 2 * c + s == layout.half_column(index) + d.half_step()
        }),
{
}

/// The neighbours of a tile are exactly the tiles of the grid that touch it.
pub proof fn lemma_neighbors_are_adjacent(layout: HexLayout, index: TileIndex, other: TileIndex)
    ensures
        layout.neighbors(index).contains(other) <==> layout.contains(other) && layout.adjacent(
            index,
            other,
        ),
{
    lemma_neighbors_membership(layout, index, other);
}

/// Touching is mutual: a tile is a neighbour of each of its neighbours.
pub proof fn lemma_neighbors_symmetric(layout: HexLayout, a: TileIndex, b: TileIndex)
    requires
        layout.contains(a),
        layout.neighbors(a).contains(b),
    ensures
        layout.contains(b),
        layout.neighbors(b).contains(a),
{
    lemma_neighbors_are_adjacent(layout, a, b);
    lemma_neighbors_are_adjacent(layout, b, a);
}

/// Every neighbour is a tile of the grid other than the tile itself, and no
/// tile occurs twice among them.
pub proof fn lemma_neighbors_valid_distinct(layout: HexLayout, index: TileIndex)
    ensures
        layout.neighbors(index).len() <= 6,
        layout.neighbors(index).no_duplicates(),
        forall|k: int|
            0 <= k < layout.neighbors(index).len() ==> {
                &&& layout.contains(#[trigger] layout.neighbors(index)[k])
                &&& layout.neighbors(index)[k] != index
            },
{
}

/// A tile has six neighbours exactly when it lies in the interior of the
/// grid; a tile on an edge or in a corner has fewer.
pub proof fn lemma_neighbors_count(layout: HexLayout, index: TileIndex)
    ensures
        layout.neighbors(index).len() == 6 <==> layout.interior(index),
        !layout.interior(index) ==> layout.neighbors(index).len() < 6,
{
}

} // verus!
