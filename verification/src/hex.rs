//! Coordinate math: from a world point to the tile under it, and from a tile
//! to its centre.

use vstd::prelude::*;
use crate::layout::{HexLayout, TileIndex, WorldPoint};

verus! {

impl HexLayout {
    /// Twice the distance by which row `row` is shifted to the right.
    pub open spec fn shift2(&self, row: int) -> int {
        if self.shifted(row) {
            self.cell_width() as int
        } else {
            0
        }
    }

    /// The centre of tile `index`. In a shifted row of odd-width tiles the
    /// half width is rounded down to a whole world unit.
    pub open spec fn center(&self, index: TileIndex) -> WorldPoint {
        WorldPoint {
            x: (index.col * self.cell_width() + self.shift2(index.row as int) / 2) as i64,
            y: (index.row * self.cell_height()) as i64,
        }
    }

    /// The point lies in the pick region of tile `index`: at most half a tile
    /// height below or above the tile's centre line and at most half a tile
    /// width left or right of its centre, the lower and left edges included,
    /// the upper and right edges left out.
    pub open spec fn covers(&self, index: TileIndex, p: WorldPoint) -> bool {
        let w = self.cell_width() as int;
        let h = self.cell_height() as int;
        let cy2 = 2 * index.row * h;
        let cx2 = 2 * index.col * w + self.shift2(index.row as int);
        &&& cy2 - h <= 2 * p.y < cy2 + h
        &&& cx2 - w <= 2 * p.x < cx2 + w
    }

    /// The tile under a world point, if any.
    ///
    /// The row is found first, from the vertical spacing; the column is then
    /// found from the horizontal spacing, corrected by that row's shift. Both
    /// are rounded down, and a point that falls below row 0, left of column 0
    /// or past the last row or column is under no tile.
    pub open spec fn world_to_hex(&self, p: WorldPoint) -> Option<TileIndex> {
        let w = self.cell_width() as int;
        let h = self.cell_height() as int;
        let ny = 2 * p.y + h;
        let row = ny / (2 * h);
        let nx = 2 * p.x + w - self.shift2(row);
        let col = nx / (2 * w);
        if ny < 0 || row >= self.rows() || nx < 0 || col >= self.cols() {
            None
        } else {
            Some(TileIndex { row: row as usize, col: col as usize })
        }
    }

    /// The point lies in the grid's envelope, the upright rectangle around
    /// the pick regions of all tiles: from half a tile height below the
    /// centre line of row 0 to half a tile height above that of the last row,
    /// and from half a tile width left of column 0 of an unshifted row to
    /// half a tile width right of the last column of a shifted row.
    pub open spec fn in_envelope(&self, p: WorldPoint) -> bool {
        let w = self.cell_width() as int;
        let h = self.cell_height() as int;
        &&& -h <= 2 * p.y < 2 * self.rows() * h - h
        &&& -w <= 2 * p.x < 2 * self.cols() * w
    }
}

/// In a well-formed layout neither side of the grid exceeds `MAX_TILES`.
pub proof fn lemma_sides_bounded(layout: HexLayout)
    requires
        layout.wf(),
    ensures
        layout.rows() <= crate::layout::MAX_TILES,
        layout.cols() <= crate::layout::MAX_TILES,
{
    let r = layout.rows() as int;
    let c = layout.cols() as int;
    assert(r <= r * c && c <= r * c) by (nonlinear_arith)
        requires
            r >= 1,
            c >= 1,
    ;
}

/// The centre of a tile of the grid, computed without rounding, fits in the
/// coordinate type.
pub proof fn lemma_center_fits(layout: HexLayout, index: TileIndex)
    requires
        layout.wf(),
        layout.contains(index),
    ensures
        0 <= index.col * layout.cell_width() + layout.shift2(index.row as int) / 2 <= i64::MAX,
        0 <= index.row * layout.cell_height() <= i64::MAX,
        layout.center(index).x == index.col * layout.cell_width() + layout.shift2(
            index.row as int,
        ) / 2,
        layout.center(index).y == index.row * layout.cell_height(),
{
    lemma_sides_bounded(layout);
    let w = layout.cell_width() as int;
    let h = layout.cell_height() as int;
    let r = index.row as int;
    let c = index.col as int;
    assert(0 <= c * w <= 0x100_0000 * 0x1_0000_0000) by (nonlinear_arith)
        requires
            0 <= c <= 0x100_0000,
            0 <= w <= 0x1_0000_0000,
    ;
    assert(0 <= r * h <= 0x100_0000 * 0x1_0000_0000) by (nonlinear_arith)
        requires
            0 <= r <= 0x100_0000,
            0 <= h <= 0x1_0000_0000,
    ;
}

/// The centre of tile `index`.
pub fn tile_center(index: TileIndex, layout: &HexLayout) -> (p: WorldPoint)
    requires
        layout.wf(),
        layout.contains(index),
    ensures
        p == layout.center(index),
{
    proof {
        lemma_sides_bounded(*layout);
        lemma_center_fits(*layout, index);
    }
    let w: i64 = layout.cell_width() as i64;
    let h: i64 = layout.cell_height() as i64;
    let shift: i64 = if layout.is_shifted(index.row) {
        w / 2
    } else {
        0
    };
    WorldPoint { x: index.col as i64 * w + shift, y: index.row as i64 * h }
}

/// The tile under a world point, or `None` where the point is off the grid.
pub fn world_to_hex(point: WorldPoint, layout: &HexLayout) -> (found: Option<TileIndex>)
    requires
        layout.wf(),
    ensures
        found == layout.world_to_hex(point),
{
    let w: i128 = layout.cell_width() as i128;
    let h: i128 = layout.cell_height() as i128;
    let ny: i128 = 2 * (point.y as i128) + h;
    if ny < 0 {
        return None;
    }
    let row: i128 = ny / (2 * h);
    if row >= layout.rows() as i128 {
        return None;
    }
    let row_index: usize = row as usize;
    let shift2: i128 = if layout.is_shifted(row_index) {
        w
    } else {
        0
    };
    let nx: i128 = 2 * (point.x as i128) + w - shift2;
    if nx < 0 {
        return None;
    }
    let col: i128 = nx / (2 * w);
    if col >= layout.cols() as i128 {
        return None;
    }
    Some(TileIndex { row: row_index, col: col as usize })
}

/// For `d > 0` and `q * d <= n < (q + 1) * d`, the quotient `n / d` is `q`.
proof fn lemma_quotient_between(n: int, d: int, q: int)
    requires
        d > 0,
        q * d <= n < q * d + d,
    ensures
        n / d == q,
{
    vstd::arithmetic::div_mod::lemma_fundamental_div_mod_converse(n, d, q, n - q * d);
}

/// For `d > 0` the quotient `q = n / d` satisfies `q * d <= n < (q + 1) * d`.
proof fn lemma_quotient_bounds(n: int, d: int)
    requires
        d > 0,
    ensures
        (n / d) * d <= n < (n / d) * d + d,
{
    vstd::arithmetic::div_mod::lemma_fundamental_div_mod(n, d);
    vstd::arithmetic::mul::lemma_mul_is_commutative(d, n / d);
}

/// Picking the centre of a tile gives that tile back.
pub proof fn lemma_center_round_trip(layout: HexLayout, index: TileIndex)
    requires
        layout.wf(),
        layout.contains(index),
    ensures
        layout.world_to_hex(layout.center(index)) == Some(index),
{
    lemma_center_fits(layout, index);
    let w = layout.cell_width() as int;
    let h = layout.cell_height() as int;
    let r = index.row as int;
    let c = index.col as int;
    let p = layout.center(index);
    let ny = 2 * p.y + h;
    assert(r * (2 * h) == 2 * (r * h)) by (nonlinear_arith);
    lemma_quotient_between(ny, 2 * h, r);
    let nx = 2 * p.x + w - layout.shift2(r);
    assert(c * (2 * w) == 2 * (c * w)) by (nonlinear_arith);
    lemma_quotient_between(nx, 2 * w, c);
}

/// A point is under tile `index` exactly when `index` is a tile of the grid
/// whose pick region holds the point.
pub proof fn lemma_world_to_hex_covers(layout: HexLayout, p: WorldPoint, index: TileIndex)
    requires
        layout.wf(),
    ensures
        layout.world_to_hex(p) == Some(index) <==> layout.contains(index) && layout.covers(
            index,
            p,
        ),
{
    let w = layout.cell_width() as int;
    let h = layout.cell_height() as int;
    let r = index.row as int;
    let c = index.col as int;
    let ny = 2 * p.y + h;
    assert(r * (2 * h) == 2 * r * h) by (nonlinear_arith);
    assert(c * (2 * w) == 2 * c * w) by (nonlinear_arith);
    lemma_quotient_bounds(ny, 2 * h);
    if layout.contains(index) && layout.covers(index, p) {
        lemma_quotient_between(ny, 2 * h, r);
        let nx = 2 * p.x + w - layout.shift2(r);
        lemma_quotient_between(nx, 2 * w, c);
    }
    if layout.world_to_hex(p) == Some(index) {
        let nx = 2 * p.x + w - layout.shift2(r);
        lemma_quotient_bounds(nx, 2 * w);
    }
}

/// No two tiles share a point: pick regions do not overlap.
pub proof fn lemma_covers_unique(layout: HexLayout, p: WorldPoint, a: TileIndex, b: TileIndex)
    requires
        layout.wf(),
        layout.contains(a),
        layout.contains(b),
        layout.covers(a, p),
        layout.covers(b, p),
    ensures
        a == b,
{
    lemma_world_to_hex_covers(layout, p, a);
    lemma_world_to_hex_covers(layout, p, b);
}

/// A point outside the grid's envelope is under no tile.
pub proof fn lemma_outside_envelope(layout: HexLayout, p: WorldPoint)
    requires
        layout.wf(),
        !layout.in_envelope(p),
    ensures
        layout.world_to_hex(p) is None,
{
    let w = layout.cell_width() as int;
    let h = layout.cell_height() as int;
    let rows = layout.rows() as int;
    let cols = layout.cols() as int;
    let ny = 2 * p.y + h;
    let row = ny / (2 * h);
    let nx = 2 * p.x + w - layout.shift2(row);
    let col = nx / (2 * w);
    if ny >= 0 && row < rows && nx >= 0 && col < cols {
        lemma_quotient_bounds(ny, 2 * h);
        lemma_quotient_bounds(nx, 2 * w);
        assert(row * (2 * h) + 2 * h <= rows * (2 * h)) by (nonlinear_arith)
            requires
                row + 1 <= rows,
                h > 0,
        ;
        assert(rows * (2 * h) == 2 * rows * h) by (nonlinear_arith);
        assert(col * (2 * w) + 2 * w <= cols * (2 * w)) by (nonlinear_arith)
            requires
                col + 1 <= cols,
                w > 0,
        ;
        assert(cols * (2 * w) == 2 * cols * w) by (nonlinear_arith);
    }
}


/// The centre of a tile lies its row's number of tile heights above the
/// origin and its number of half tile widths to the right of it, the half
/// width of an odd-width tile rounded down.
pub proof fn lemma_center_in_half_columns(layout: HexLayout, index: TileIndex)
    requires
        layout.wf(),
        layout.contains(index),
    ensures
        layout.center(index).y == index.row * layout.cell_height(),
        layout.center(index).x == (layout.half_column(index) * layout.cell_width()) / 2,
{
    lemma_center_fits(layout, index);
    let w = layout.cell_width() as int;
    let c = index.col as int;
    assert((2 * c) * w == 2 * (c * w)) by (nonlinear_arith);
    assert((2 * c + 1) * w == 2 * (c * w) + w) by (nonlinear_arith);
}

} // verus!
