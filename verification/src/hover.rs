//! Which tile the pointer is over, which tiles are lit up around it, and the
//! changes of visual marks that follow from each pointer move.
//!
//! The state is worked out anew from the tile under the pointer whenever that
//! tile changes; nothing is patched from one move to the next.

use vstd::prelude::*;
use crate::layout::{HexLayout, TileIndex, WorldPoint};
use crate::neighbors::{
    lemma_neighbors_membership, lemma_neighbors_valid_distinct, neighbor_on_grid, neighbors,
    seq_of, Direction,
};
use crate::tile_map::{pick, CellRef, TileMap};

verus! {

/// The visual mark of a tile.
#[derive(Clone, Copy, Debug, PartialEq, Eq, Structural, Hash)]
pub enum TileMark {
    /// Nothing special about the tile.
    Default,
    /// The pointer is over the tile.
    Hovered,
    /// The tile is next to the tile under the pointer.
    Highlighted,
    /// The tile was picked out by a direction key.
    Directional,
}

/// A request to show tile `index`, whose handle is `cell`, with mark `mark`.
#[derive(Clone, Copy, Debug, PartialEq, Eq, Structural)]
pub struct MarkChange {
    pub index: TileIndex,
    pub cell: CellRef,
    pub mark: TileMark,
}

/// What a hover state holds.
pub struct HoverView {
    /// The tile under the pointer.
    pub hovered: Option<TileIndex>,
    /// The tiles lit up as its neighbours.
    pub highlighted: Seq<TileIndex>,
    /// The neighbour picked out by a direction key.
    pub directional: Option<TileIndex>,
}

impl HoverView {
    /// The pointer is over no tile.
    pub open spec fn idle() -> HoverView {
        HoverView { hovered: None, highlighted: Seq::empty(), directional: None }
    }

    /// The pointer has come to be over tile `index`.
    pub open spec fn hovering(layout: HexLayout, index: TileIndex) -> HoverView {
        HoverView {
            hovered: Some(index),
            highlighted: layout.neighbors(index),
            directional: None,
        }
    }

    /// The state fits the grid: the hovered tile is a tile of the grid, the
    /// highlighted tiles are its neighbours, and the tile picked out by a
    /// direction key is one of them. With no tile hovered nothing is lit up.
    pub open spec fn wf(self, layout: HexLayout) -> bool {
        match self.hovered {
            Some(tile) => {
                &&& layout.contains(tile)
                &&& self.highlighted == layout.neighbors(tile)
                &&& self.directional matches Some(picked) ==> self.highlighted.contains(picked)
            },
            None => self.highlighted.len() == 0 && self.directional is None,
        }
    }

    /// The mark that tile `index` has in this state.
    pub open spec fn mark_of(self, index: TileIndex) -> TileMark {
        if self.directional == Some(index) {
            TileMark::Directional
        } else if self.hovered == Some(index) {
            TileMark::Hovered
        } else if self.highlighted.contains(index) {
            TileMark::Highlighted
        } else {
            TileMark::Default
        }
    }
}

/// Requests to show each of `tiles` with mark `mark`, in the order of
/// `tiles`.
pub open spec fn marks(layout: HexLayout, tiles: Seq<TileIndex>, mark: TileMark) -> Seq<
    MarkChange,
> {
    Seq::new(
        tiles.len(),
        |k: int| MarkChange { index: tiles[k], cell: layout.cell(tiles[k]), mark },
    )
}

/// Requests that take the marks of a state away: the hovered tile first,
/// then the highlighted ones.
pub open spec fn clearing(layout: HexLayout, view: HoverView) -> Seq<MarkChange> {
    marks(layout, seq_of(view.hovered) + view.highlighted, TileMark::Default)
}

/// Requests that show the marks of a state in which no direction key has
/// picked a tile: the highlighted tiles first, then the hovered one.
pub open spec fn showing(layout: HexLayout, view: HoverView) -> Seq<MarkChange> {
    marks(layout, view.highlighted, TileMark::Highlighted) + marks(
        layout,
        seq_of(view.hovered),
        TileMark::Hovered,
    )
}

/// The tile that a resolved index stands for: the index itself if it is a
/// tile of the grid, no tile otherwise.
pub open spec fn target_on(layout: HexLayout, resolved: Option<TileIndex>) -> Option<TileIndex> {
    match resolved {
        Some(index) => if layout.contains(index) {
            Some(index)
        } else {
            None
        },
        None => None,
    }
}

/// The state after the pointer has moved to `resolved`, and the requests
/// that the move gives rise to.
///
/// Where the pointer stays over the same tile, or stays off the grid,
/// nothing changes. Otherwise all marks of the old state are taken away, the
/// new tile is shown as hovered and its neighbours as highlighted, and a
/// tile picked out by a direction key is forgotten.
pub open spec fn retargeted(layout: HexLayout, view: HoverView, resolved: Option<TileIndex>) -> (
    HoverView,
    Seq<MarkChange>,
) {
    let target = target_on(layout, resolved);
    if target == view.hovered {
        (view, Seq::empty())
    } else {
        let next = match target {
            Some(index) => HoverView::hovering(layout, index),
            None => HoverView::idle(),
        };
        (next, clearing(layout, view) + showing(layout, next))
    }
}

/// The state after a batch of pointer moves, and the requests that the batch
/// gives rise to. Only the last move of a batch counts; an empty batch
/// changes nothing.
pub open spec fn hovered_after(layout: HexLayout, view: HoverView, moves: Seq<WorldPoint>) -> (
    HoverView,
    Seq<MarkChange>,
) {
    if moves.len() == 0 {
        (view, Seq::empty())
    } else {
        retargeted(layout, view, layout.world_to_hex(moves.last()))
    }
}

/// The state after a direction key, and the requests that the key gives
/// rise to.
///
/// While a tile is hovered, its neighbour in direction `d`, if the grid has
/// one, is shown with the directional mark, and the neighbour that had that
/// mark before is shown as highlighted again. Otherwise nothing changes.
pub open spec fn direction_marked(layout: HexLayout, view: HoverView, d: Direction) -> (
    HoverView,
    Seq<MarkChange>,
) {
    match view.hovered {
        Some(tile) => match layout.neighbor(tile, d) {
            Some(picked) => if view.directional == Some(picked) {
                (view, Seq::empty())
            } else {
                (
                    HoverView {
                        hovered: view.hovered,
                        highlighted: view.highlighted,
                        directional: Some(picked),
                    },
                    marks(layout, seq_of(view.directional), TileMark::Highlighted) + marks(
                        layout,
                        seq![picked],
                        TileMark::Directional,
                    ),
                )
            },
            None => (view, Seq::empty()),
        },
        None => (view, Seq::empty()),
    }
}

/// The hover and highlight tracker.
#[derive(Debug)]
pub struct HoverState {
    hovered: Option<TileIndex>,
    highlighted: Vec<TileIndex>,
    directional: Option<TileIndex>,
}

impl View for HoverState {
    type V = HoverView;

    closed spec fn view(&self) -> HoverView {
        HoverView {
            hovered: self.hovered,
            highlighted: self.highlighted@,
            directional: self.directional,
        }
    }
}

/// Adds to `changes` a request to show tile `index` with mark `mark`.
fn push_mark(changes: &mut Vec<MarkChange>, index: TileIndex, mark: TileMark, map: &TileMap)
    requires
        map.wf(),
        map.layout().contains(index),
    ensures
        final(changes)@ == old(changes)@ + marks(map.layout(), seq![index], mark),
{
    match map.get(index) {
        Some(cell) => {
            changes.push(MarkChange { index, cell, mark });
        },
        None => {},
    }
}

/// Adds to `changes` a request to show each of `tiles` with mark `mark`.
fn push_marks(changes: &mut Vec<MarkChange>, tiles: &Vec<TileIndex>, mark: TileMark, map: &TileMap)
    requires
        map.wf(),
        forall|k: int| 0 <= k < tiles@.len() ==> map.layout().contains(#[trigger] tiles@[k]),
    ensures
        final(changes)@ == old(changes)@ + marks(map.layout(), tiles@, mark),
{
    let mut k: usize = 0;
    while k < tiles.len()
        invariant
            map.wf(),
            k <= tiles@.len(),
            forall|j: int| 0 <= j < tiles@.len() ==> map.layout().contains(#[trigger] tiles@[j]),
            changes@ == old(changes)@ + marks(map.layout(), tiles@.take(k as int), mark),
        decreases tiles@.len() - k,
    {
        push_mark(changes, tiles[k], mark, map);
        assert(changes@ == old(changes)@ + marks(map.layout(), tiles@.take(k + 1), mark));
        k = k + 1;
    }
}

impl HoverState {
    /// A tracker for a pointer that is over no tile.
    pub fn new() -> (state: HoverState)
        ensures
            state@ == HoverView::idle(),
    {
        HoverState { hovered: None, highlighted: Vec::new(), directional: None }
    }

    /// The tile under the pointer.
    pub fn hovered(&self) -> (tile: Option<TileIndex>)
        ensures
            tile == self@.hovered,
    {
        self.hovered
    }

    /// The tiles lit up as neighbours of the hovered tile.
    pub fn highlighted(&self) -> (tiles: &Vec<TileIndex>)
        ensures
            tiles@ == self@.highlighted,
    {
        &self.highlighted
    }

    /// The neighbour picked out by a direction key.
    pub fn directional(&self) -> (tile: Option<TileIndex>)
        ensures
            tile == self@.directional,
    {
        self.directional
    }

    /// Takes note that the pointer is now over `resolved`, a tile or none,
    /// and hands back the requests for the visual marks that change.
    pub fn retarget(&mut self, resolved: Option<TileIndex>, map: &TileMap) -> (changes: Vec<
        MarkChange,
    >)
        requires
            map.wf(),
            old(self)@.wf(map.layout()),
        ensures
            final(self)@.wf(map.layout()),
            (final(self)@, changes@) == retargeted(map.layout(), old(self)@, resolved),
    {
        let layout = map.layout();
        let target: Option<TileIndex> = match resolved {
            Some(index) => if layout.has_tile(index) {
                Some(index)
            } else {
                None
            },
            None => None,
        };
        let unchanged = match (target, self.hovered) {
            (Some(a), Some(b)) => a == b,
            (None, None) => true,
            _ => false,
        };
        let mut changes: Vec<MarkChange> = Vec::new();
        if unchanged {
            return changes;
        }
        match self.hovered {
            Some(tile) => {
                push_mark(&mut changes, tile, TileMark::Default, map);
            },
            None => {},
        }
        push_marks(&mut changes, &self.highlighted, TileMark::Default, map);
        assert(changes@ == clearing(layout, old(self)@)) by {
            assert(marks(layout, seq_of(old(self)@.hovered), TileMark::Default) + marks(
                layout,
                old(self)@.highlighted,
                TileMark::Default,
            ) == clearing(layout, old(self)@));
        }
        match target {
            Some(index) => {
                let around = neighbors(index, &layout);
                proof {
                    lemma_neighbors_valid_distinct(layout, index);
                }
                push_marks(&mut changes, &around, TileMark::Highlighted, map);
                push_mark(&mut changes, index, TileMark::Hovered, map);
                self.hovered = Some(index);
                self.highlighted = around;
            },
            None => {
                self.hovered = None;
                self.highlighted = Vec::new();
            },
        }
        self.directional = None;
        assert(marks(layout, Seq::<TileIndex>::empty(), TileMark::Highlighted) == Seq::<
            MarkChange,
        >::empty());
        changes
    }

    /// Picks out the neighbour of the hovered tile in direction `direction`
    /// and hands back the requests for the visual marks that change.
    pub fn mark_direction(&mut self, direction: Direction, map: &TileMap) -> (changes: Vec<
        MarkChange,
    >)
        requires
            map.wf(),
            old(self)@.wf(map.layout()),
        ensures
            final(self)@.wf(map.layout()),
            (final(self)@, changes@) == direction_marked(map.layout(), old(self)@, direction),
    {
        let layout = map.layout();
        let mut changes: Vec<MarkChange> = Vec::new();
        let tile = match self.hovered {
            Some(tile) => tile,
            None => {
                return changes;
            },
        };
        let picked = match neighbor_on_grid(tile, direction, &layout) {
            Some(picked) => picked,
            None => {
                return changes;
            },
        };
        proof {
            lemma_neighbors_membership(layout, tile, picked);
        }
        match self.directional {
            Some(before) => {
                if before == picked {
                    return changes;
                }
                push_mark(&mut changes, before, TileMark::Highlighted, map);
            },
            None => {},
        }
        push_mark(&mut changes, picked, TileMark::Directional, map);
        self.directional = Some(picked);
        changes
    }
}

/// When the cursor has moved, works out which tile it is over now and hands
/// back the requests for the visual marks that change.
///
/// `cursor_moves` holds the world points of the pointer moves since the last
/// call, oldest first. If there are several, only the last one counts.
pub fn hover_on_tile(
    state: &mut HoverState,
    cursor_moves: &Vec<WorldPoint>,
    tile_map: &TileMap,
) -> (changes: Vec<MarkChange>)
    requires
        tile_map.wf(),
        old(state)@.wf(tile_map.layout()),
    ensures
        final(state)@.wf(tile_map.layout()),
        (final(state)@, changes@) == hovered_after(
            tile_map.layout(),
            old(state)@,
            cursor_moves@,
        ),
{
    if cursor_moves.len() == 0 {
        return Vec::new();
    }
    let last = cursor_moves[cursor_moves.len() - 1];
    let resolved = match pick(last, tile_map) {
        Some((index, _)) => Some(index),
        None => None,
    };
    state.retarget(resolved, tile_map)
}

/// The mark that tile `index` shows once the requests `changes` have been
/// carried out in order, if it showed `initial` before.
pub open spec fn shown_after(changes: Seq<MarkChange>, index: TileIndex, initial: TileMark) -> TileMark
    decreases changes.len(),
{
    if changes.len() == 0 {
        initial
    } else if changes.last().index == index {
        changes.last().mark
    } else {
        shown_after(changes.drop_last(), index, initial)
    }
}

/// Carrying out `first + second` is carrying out `first` and then `second`.
proof fn lemma_shown_after_concat(
    first: Seq<MarkChange>,
    second: Seq<MarkChange>,
    index: TileIndex,
    initial: TileMark,
)
    ensures
        shown_after(first + second, index, initial) == shown_after(
            second,
            index,
            shown_after(first, index, initial),
        ),
    decreases second.len(),
{
    if second.len() > 0 {
        assert((first + second).drop_last() == first + second.drop_last());
        lemma_shown_after_concat(first, second.drop_last(), index, initial);
    }
}

/// Requests to show each of `tiles` with one mark give that mark to the
/// tiles among them and leave every other tile as it was.
proof fn lemma_shown_after_marks(
    layout: HexLayout,
    tiles: Seq<TileIndex>,
    mark: TileMark,
    index: TileIndex,
    initial: TileMark,
)
    ensures
        shown_after(marks(layout, tiles, mark), index, initial) == if tiles.contains(index) {
            mark
        } else {
            initial
        },
    decreases tiles.len(),
{
    let changes = marks(layout, tiles, mark);
    if tiles.len() > 0 {
        assert(changes.drop_last() == marks(layout, tiles.drop_last(), mark));
        lemma_shown_after_marks(layout, tiles.drop_last(), mark, index, initial);
        if tiles.last() != index && tiles.contains(index) {
            let k = choose|k: int| 0 <= k < tiles.len() && tiles[k] == index;
            assert(tiles.drop_last()[k] == index);
        }
    }
}

/// Feeding the same resolved index twice in a row changes nothing the second
/// time: the state stays as the first move left it and no request is made.
pub proof fn lemma_retarget_idempotent(
    layout: HexLayout,
    view: HoverView,
    resolved: Option<TileIndex>,
)
    ensures
        retargeted(layout, retargeted(layout, view, resolved).0, resolved) == (
            retargeted(layout, view, resolved).0,
            Seq::<MarkChange>::empty(),
        ),
{
}

/// The same holds of a batch of pointer moves that is fed twice in a row.
pub proof fn lemma_hover_idempotent(layout: HexLayout, view: HoverView, moves: Seq<WorldPoint>)
    ensures
        hovered_after(layout, hovered_after(layout, view, moves).0, moves) == (
            hovered_after(layout, view, moves).0,
            Seq::<MarkChange>::empty(),
        ),
{
}

/// A pointer move keeps the state fitting the grid, and once its requests
/// are carried out every tile shows the mark that it has in the new state.
pub proof fn lemma_retarget_shows_state(
    layout: HexLayout,
    view: HoverView,
    resolved: Option<TileIndex>,
    index: TileIndex,
)
    requires
        layout.wf(),
        view.wf(layout),
    ensures
        ({
            let (next, changes) = retargeted(layout, view, resolved);
            &&& next.wf(layout)
            &&& next == view || next.directional is None
            &&& shown_after(changes, index, view.mark_of(index)) == next.mark_of(index)
        }),
{
    let (next, changes) = retargeted(layout, view, resolved);
    let target = target_on(layout, resolved);
    if target != view.hovered {
        let lit = seq_of(view.hovered) + view.highlighted;
        let off = clearing(layout, view);
        let glow = marks(layout, next.highlighted, TileMark::Highlighted);
        let spot = marks(layout, seq_of(next.hovered), TileMark::Hovered);
        let start = view.mark_of(index);
        lemma_shown_after_concat(off, glow + spot, index, start);
        lemma_shown_after_marks(layout, lit, TileMark::Default, index, start);
        let dark = shown_after(off, index, start);
        assert(dark == TileMark::Default) by {
            if view.hovered == Some(index) {
                assert(lit[0] == index);
            } else if view.highlighted.contains(index) {
                let k = choose|k: int| 0 <= k < view.highlighted.len() && view.highlighted[k]
                    == index;
                assert(lit[seq_of(view.hovered).len() + k] == index);
            }
        }
        lemma_shown_after_concat(glow, spot, index, dark);
        lemma_shown_after_marks(layout, next.highlighted, TileMark::Highlighted, index, dark);
        lemma_shown_after_marks(
            layout,
            seq_of(next.hovered),
            TileMark::Hovered,
            index,
            shown_after(glow, index, dark),
        );
    }
}

/// A direction key keeps the state fitting the grid, and once its requests
/// are carried out every tile shows the mark that it has in the new state.
pub proof fn lemma_direction_shows_state(
    layout: HexLayout,
    view: HoverView,
    d: Direction,
    index: TileIndex,
)
    requires
        layout.wf(),
        view.wf(layout),
    ensures
        ({
            let (next, changes) = direction_marked(layout, view, d);
            &&& next.wf(layout)
            &&& next.hovered == view.hovered
            &&& next.highlighted == view.highlighted
            &&& shown_after(changes, index, view.mark_of(index)) == next.mark_of(index)
        }),
{
    if let Some(tile) = view.hovered {
        if let Some(picked) = layout.neighbor(tile, d) {
            lemma_neighbors_membership(layout, tile, picked);
            if view.directional != Some(picked) {
                let back = marks(layout, seq_of(view.directional), TileMark::Highlighted);
                let pick = marks(layout, seq![picked], TileMark::Directional);
                let start = view.mark_of(index);
                lemma_shown_after_concat(back, pick, index, start);
                lemma_shown_after_marks(
                    layout,
                    seq_of(view.directional),
                    TileMark::Highlighted,
                    index,
                    start,
                );
                lemma_shown_after_marks(
                    layout,
                    seq![picked],
                    TileMark::Directional,
                    index,
                    shown_after(back, index, start),
                );
            }
        }
    }
}

/// Every request that a pointer move or a direction key gives rise to names
/// a tile of the grid, together with the handle that the registry has for
/// that tile.
pub proof fn lemma_changes_on_grid(
    layout: HexLayout,
    view: HoverView,
    resolved: Option<TileIndex>,
    d: Direction,
    k: int,
)
    requires
        layout.wf(),
        view.wf(layout),
    ensures
        0 <= k < retargeted(layout, view, resolved).1.len() ==> {
            let change = retargeted(layout, view, resolved).1[k];
            layout.contains(change.index) && change.cell == layout.cell(change.index)
        },
        0 <= k < direction_marked(layout, view, d).1.len() ==> {
            let change = direction_marked(layout, view, d).1[k];
            layout.contains(change.index) && change.cell == layout.cell(change.index)
        },
{
    if let Some(tile) = view.hovered {
        lemma_neighbors_valid_distinct(layout, tile);
        if let Some(picked) = layout.neighbor(tile, d) {
            lemma_neighbors_membership(layout, tile, picked);
        }
    }
    if let Some(tile) = target_on(layout, resolved) {
        lemma_neighbors_valid_distinct(layout, tile);
    }
}

} // verus!
