//! Buildings and the table that says which tile holds which building.
//!
//! A tile holds at most one building. The table is keyed by tile index and
//! keeps its entries in the order in which the buildings were placed.

use vstd::prelude::*;
use crate::hover::HoverState;
use crate::layout::TileIndex;
use crate::production::Producer;
use crate::resources::{ItemType, PlayerResources};

verus! {

/// The kinds of building.
#[derive(Clone, Copy, Debug, PartialEq, Eq, Structural, Hash)]
pub enum BuildingKind {
    WoodCutter,
}

/// A building: its kind and the producer that works in it.
#[derive(Clone, Copy, Debug, PartialEq, Eq, Structural)]
pub struct Building {
    pub kind: BuildingKind,
    pub producer: Producer,
}

/// A building together with the tile it stands on.
#[derive(Clone, Copy, Debug, PartialEq, Eq, Structural)]
pub struct Site {
    pub index: TileIndex,
    pub building: Building,
}

/// A reference to a placed building: the tile it stands on. It owns nothing;
/// the building is looked up in the table whenever it is needed.
#[derive(Clone, Copy, Debug, PartialEq, Eq, Structural)]
pub struct BuildingRef {
    pub index: TileIndex,
}

/// The tile already holds a building.
#[derive(Clone, Copy, Debug, PartialEq, Eq, Structural)]
pub struct AlreadyOccupied;

/// The tile holds no building.
#[derive(Clone, Copy, Debug, PartialEq, Eq, Structural)]
pub struct NotFound;

/// What the player's clicks do.
#[derive(Clone, Copy, Debug, PartialEq, Eq, Structural)]
pub enum SelectedAction {
    DemolishBuilding,
    BuildWoodCutter,
}

impl Default for SelectedAction {
    fn default() -> (action: SelectedAction)
        ensures
            action == SelectedAction::BuildWoodCutter,
    {
        SelectedAction::BuildWoodCutter
    }
}

impl Building {
    /// A building of kind `kind` as it is when placed: its producer stands at
    /// the start of its cycle. A wood cutter makes one unit of wood every
    /// turn.
    pub open spec fn fresh(kind: BuildingKind) -> Building {
        match kind {
            BuildingKind::WoodCutter => Building {
                kind,
                producer: Producer {
                    turns_remaining: 1,
                    number_produced: 1,
                    production_turns: 1,
                    produces_item_type: ItemType::Wood,
                },
            },
        }
    }

    /// A new building of kind `kind`.
    pub fn new(kind: BuildingKind) -> (building: Building)
        ensures
            building == Building::fresh(kind),
    {
        match kind {
            BuildingKind::WoodCutter => Building {
                kind,
                producer: Producer::new(1, 1, ItemType::Wood),
            },
        }
    }

    /// The building one turn later.
    pub open spec fn after_turn(self) -> Building {
        Building { kind: self.kind, producer: self.producer.after_turn() }
    }
}

/// Some entry of `sites` stands on tile `index`.
pub open spec fn occupied(sites: Seq<Site>, index: TileIndex) -> bool {
    exists|k: int| 0 <= k < sites.len() && (#[trigger] sites[k]).index == index
}

/// No two entries of `sites` stand on the same tile.
pub open spec fn one_per_tile(sites: Seq<Site>) -> bool {
    forall|j: int, k: int|
        0 <= j < k < sites.len() ==> (#[trigger] sites[j]).index != (#[trigger] sites[k]).index
}

/// The place in `sites` of an entry that stands on tile `index`.
pub open spec fn place_of(sites: Seq<Site>, index: TileIndex) -> int {
    choose|k: int| 0 <= k < sites.len() && (#[trigger] sites[k]).index == index
}

/// The building on tile `index`, if there is one.
pub open spec fn building_on(sites: Seq<Site>, index: TileIndex) -> Option<Building> {
    if occupied(sites, index) {
        Some(sites[place_of(sites, index)].building)
    } else {
        None
    }
}

/// What placing `building` on tile `index` makes of the table, and what it
/// answers. On a free tile the building is added after the others; on an
/// occupied tile nothing changes.
pub open spec fn placed_building(sites: Seq<Site>, index: TileIndex, building: Building) -> (
    Seq<Site>,
    Result<BuildingRef, AlreadyOccupied>,
) {
    if occupied(sites, index) {
        (sites, Err(AlreadyOccupied))
    } else {
        (sites.push(Site { index, building }), Ok(BuildingRef { index }))
    }
}

/// What placing a new building of kind `kind` on tile `index` makes of the
/// table, and what it answers.
pub open spec fn placed(sites: Seq<Site>, index: TileIndex, kind: BuildingKind) -> (
    Seq<Site>,
    Result<BuildingRef, AlreadyOccupied>,
) {
    placed_building(sites, index, Building::fresh(kind))
}

/// What removing the building on tile `index` makes of the table, and what
/// it answers. The other buildings keep their order; on a free tile nothing
/// changes.
pub open spec fn removed(sites: Seq<Site>, index: TileIndex) -> (Seq<Site>, Result<(), NotFound>) {
    if occupied(sites, index) {
        (sites.remove(place_of(sites, index)), Ok(()))
    } else {
        (sites, Err(NotFound))
    }
}

/// How many items of kind `item` the producers of all buildings hand over in
/// the coming turn.
pub open spec fn total_yield(sites: Seq<Site>, item: ItemType) -> nat
    decreases sites.len(),
{
    if sites.len() == 0 {
        0
    } else {
        total_yield(sites.drop_last(), item) + sites.last().building.producer.yield_of(item)
    }
}

/// The tiles whose producer has no turns remaining, in the order of the
/// table.
pub open spec fn stalled(sites: Seq<Site>) -> Seq<TileIndex>
    decreases sites.len(),
{
    if sites.len() == 0 {
        Seq::empty()
    } else if sites.last().building.producer.turns_remaining == 0 {
        stalled(sites.drop_last()).push(sites.last().index)
    } else {
        stalled(sites.drop_last())
    }
}

/// The table one turn later: every building where it was, one turn older.
pub open spec fn after_turn(sites: Seq<Site>) -> Seq<Site> {
    Seq::new(
        sites.len(),
        |k: int| Site { index: sites[k].index, building: sites[k].building.after_turn() },
    )
}

/// The player's resources can take what all producers hand over in the
/// coming turn.
pub open spec fn yield_fits(resources: PlayerResources, sites: Seq<Site>) -> bool {
    forall|item: ItemType| resources.count(item) + total_yield(sites, item) <= u32::MAX
}

/// The first `k + 1` entries yield what the first `k` yield and what entry
/// `k` yields, and no more than all entries together.
proof fn lemma_total_yield_step(sites: Seq<Site>, k: int, item: ItemType)
    requires
        0 <= k < sites.len(),
    ensures
        total_yield(sites.take(k + 1), item) == total_yield(sites.take(k), item)
            + sites[k].building.producer.yield_of(item),
        total_yield(sites.take(k + 1), item) <= total_yield(sites, item),
    decreases sites.len() - k,
{
    assert(sites.take(k + 1).drop_last() == sites.take(k));
    if k + 1 < sites.len() {
        lemma_total_yield_step(sites, k + 1, item);
    }
}

/// What all producers hand over does not depend on the order of the table:
/// it is what entry `k` hands over and what the others hand over without it.
pub proof fn lemma_total_yield_without(sites: Seq<Site>, k: int, item: ItemType)
    requires
        0 <= k < sites.len(),
    ensures
        total_yield(sites, item) == total_yield(sites.remove(k), item)
            + sites[k].building.producer.yield_of(item),
    decreases sites.len(),
{
    if k < sites.len() - 1 {
        lemma_total_yield_without(sites.drop_last(), k, item);
        assert(sites.remove(k).drop_last() == sites.drop_last().remove(k));
    }
}

/// Entry `k` adds its tile to the stalled tiles of the first `k` entries if
/// its producer has no turns remaining.
proof fn lemma_stalled_step(sites: Seq<Site>, k: int)
    requires
        0 <= k < sites.len(),
    ensures
        stalled(sites.take(k + 1)) == if sites[k].building.producer.turns_remaining == 0 {
            stalled(sites.take(k)).push(sites[k].index)
        } else {
            stalled(sites.take(k))
        },
{
    assert(sites.take(k + 1).drop_last() == sites.take(k));
}

/// What a click did, button by button.
#[derive(Clone, Copy, Debug, PartialEq, Eq)]
pub struct ClickOutcome {
    /// What the left button did: `None` where it was not pressed or no tile
    /// was hovered, else the wood cutter built or the reason why none was.
    pub built: Option<Result<BuildingRef, AlreadyOccupied>>,
    /// What the right button did: `None` where it was not pressed or no tile
    /// was hovered, else the tile cleared or the reason why none was.
    pub demolished: Option<Result<TileIndex, NotFound>>,
}

/// What the left button answers on tile `tile`.
pub open spec fn build_answer(sites: Seq<Site>, tile: TileIndex) -> Result<
    BuildingRef,
    AlreadyOccupied,
> {
    placed(sites, tile, BuildingKind::WoodCutter).1
}

/// What the right button answers on tile `tile`.
pub open spec fn demolish_answer(sites: Seq<Site>, tile: TileIndex) -> Result<TileIndex, NotFound> {
    if occupied(sites, tile) {
        Ok(tile)
    } else {
        Err(NotFound)
    }
}

/// What the mouse buttons make of the table, and what each of them did.
///
/// Both buttons act on the hovered tile as it is before the click. The left
/// button builds a wood cutter if the tile is free and is turned down with
/// `AlreadyOccupied` if it is not. The right button demolishes the building
/// on the tile and is turned down with `NotFound` if there is none. A click
/// that is turned down leaves the table as it was. With no tile hovered or
/// no button pressed nothing happens.
pub open spec fn clicked(sites: Seq<Site>, hovered: Option<TileIndex>, left: bool, right: bool) -> (
    Seq<Site>,
    ClickOutcome,
) {
    match hovered {
        Some(tile) => (
            if left && !occupied(sites, tile) {
                placed(sites, tile, BuildingKind::WoodCutter).0
            } else if right && occupied(sites, tile) {
                removed(sites, tile).0
            } else {
                sites
            },
            ClickOutcome {
                built: if left {
                    Some(build_answer(sites, tile))
                } else {
                    None
                },
                demolished: if right {
                    Some(demolish_answer(sites, tile))
                } else {
                    None
                },
            },
        ),
        None => (sites, ClickOutcome { built: None, demolished: None }),
    }
}

/// The table of buildings.
#[derive(Debug)]
pub struct Buildings {
    sites: Vec<Site>,
}

impl View for Buildings {
    type V = Seq<Site>;

    /// The buildings with their tiles, in the order in which they were
    /// placed.
    closed spec fn view(&self) -> Seq<Site> {
        self.sites@
    }
}

impl Buildings {
    /// No tile holds more than one building.
    pub open spec fn wf(&self) -> bool {
        one_per_tile(self@)
    }

    /// A table without buildings.
    pub fn new() -> (table: Buildings)
        ensures
            table@ == Seq::<Site>::empty(),
            table.wf(),
    {
        Buildings { sites: Vec::new() }
    }

    /// The number of buildings.
    pub fn len(&self) -> (n: usize)
        ensures
            n == self@.len(),
    {
        self.sites.len()
    }

    /// The buildings with their tiles, in the order in which they were
    /// placed.
    pub fn sites(&self) -> (sites: &Vec<Site>)
        ensures
            sites@ == self@,
    {
        &self.sites
    }

    /// Where in the table the building on tile `index` is.
    fn find(&self, index: TileIndex) -> (found: Option<usize>)
        ensures
            found.is_some() <==> occupied(self@, index),
            found matches Some(k) ==> k < self@.len() && self@[k as int].index == index,
    {
        let mut k: usize = 0;
        while k < self.sites.len()
            invariant
                k <= self.sites@.len(),
                forall|j: int| 0 <= j < k ==> (#[trigger] self.sites@[j]).index != index,
            decreases self.sites@.len() - k,
        {
            if self.sites[k].index == index {
                return Some(k);
            }
            k = k + 1;
        }
        None
    }

    /// The building on tile `index`, if there is one.
    pub fn get(&self, index: TileIndex) -> (building: Option<Building>)
        requires
            self.wf(),
        ensures
            building == building_on(self@, index),
    {
        match self.find(index) {
            Some(k) => Some(self.sites[k].building),
            None => None,
        }
    }

    /// Places a new building of kind `kind` on tile `index`.
    ///
    /// Fails with `AlreadyOccupied`, and changes nothing, where the tile
    /// holds a building already.
    pub fn place(&mut self, index: TileIndex, kind: BuildingKind) -> (outcome: Result<
        BuildingRef,
        AlreadyOccupied,
    >)
        requires
            old(self).wf(),
        ensures
            final(self).wf(),
            (final(self)@, outcome) == placed(old(self)@, index, kind),
    {
        self.place_building(index, Building::new(kind))
    }

    /// Places `building` on tile `index`: a building that is not new, such
    /// as one whose producer is part of the way through its cycle.
    ///
    /// Fails with `AlreadyOccupied`, and changes nothing, where the tile
    /// holds a building already.
    pub fn place_building(&mut self, index: TileIndex, building: Building) -> (outcome: Result<
        BuildingRef,
        AlreadyOccupied,
    >)
        requires
            old(self).wf(),
        ensures
            final(self).wf(),
            (final(self)@, outcome) == placed_building(old(self)@, index, building),
    {
        match self.find(index) {
            Some(_) => Err(AlreadyOccupied),
            None => {
                self.sites.push(Site { index, building });
                Ok(BuildingRef { index })
            },
        }
    }

    /// Removes the building on tile `index`, and its producer with it.
    ///
    /// Fails with `NotFound`, and changes nothing, where the tile holds no
    /// building.
    pub fn remove(&mut self, index: TileIndex) -> (outcome: Result<(), NotFound>)
        requires
            old(self).wf(),
        ensures
            final(self).wf(),
            (final(self)@, outcome) == removed(old(self)@, index),
    {
        match self.find(index) {
            Some(k) => {
                self.sites.remove(k);
                Ok(())
            },
            None => Err(NotFound),
        }
    }

    /// Whether the player's resources can take what all producers hand over
    /// in the coming turn.
    pub fn yield_fits(&self, resources: &PlayerResources) -> (fits: bool)
        ensures
            fits == yield_fits(*resources, self@),
    {
        let mut wood: u128 = resources.wood as u128;
        let mut stone: u128 = resources.stone as u128;
        let mut k: usize = 0;
        while k < self.sites.len()
            invariant
                k <= self.sites@.len(),
                wood == resources.wood + total_yield(self.sites@.take(k as int), ItemType::Wood),
                stone == resources.stone + total_yield(
                    self.sites@.take(k as int),
                    ItemType::Stone,
                ),
                wood <= (k + 1) * u32::MAX,
                stone <= (k + 1) * u32::MAX,
            decreases self.sites@.len() - k,
        {
            let producer = self.sites[k].building.producer;
            proof {
                lemma_total_yield_step(self.sites@, k as int, ItemType::Wood);
                lemma_total_yield_step(self.sites@, k as int, ItemType::Stone);
            }
            if producer.turns_remaining == 1 {
                match producer.produces_item_type {
                    ItemType::Wood => {
                        wood = wood + producer.number_produced as u128;
                    },
                    ItemType::Stone => {
                        stone = stone + producer.number_produced as u128;
                    },
                }
            }
            k = k + 1;
        }
        proof {
            assert(self.sites@.take(k as int) == self.sites@);
            assert forall|item: ItemType|
                resources.count(item) + total_yield(self@, item) == (match item {
                    ItemType::Wood => wood as int,
                    ItemType::Stone => stone as int,
                }) by {
                match item {
                    ItemType::Wood => {},
                    ItemType::Stone => {},
                }
            }
            if wood > u32::MAX {
                assert(resources.count(ItemType::Wood) + total_yield(self@, ItemType::Wood)
                    > u32::MAX);
            } else if stone > u32::MAX {
                assert(resources.count(ItemType::Stone) + total_yield(self@, ItemType::Stone)
                    > u32::MAX);
            }
        }
        wood <= u32::MAX as u128 && stone <= u32::MAX as u128
    }

    /// Lets one turn pass for every building: each producer in the last turn
    /// of its cycle adds its batch to the player's resources and starts its
    /// cycle again, each other producer counts one turn down.
    ///
    /// A producer with no turns remaining is skipped, and the other producers
    /// still have their turn. The tiles of the skipped producers are handed
    /// back, in the order of the table.
    pub fn produce_all(&mut self, resources: &mut PlayerResources) -> (skipped: Vec<TileIndex>)
        requires
            old(self).wf(),
            yield_fits(*old(resources), old(self)@),
        ensures
            final(self).wf(),
            final(self)@ == after_turn(old(self)@),
            forall|item: ItemType|
                final(resources).count(item) == old(resources).count(item) + total_yield(
                    old(self)@,
                    item,
                ),
            skipped@ == stalled(old(self)@),
    {
        let ghost before = self.sites@;
        let ghost stock = *resources;
        let mut skipped: Vec<TileIndex> = Vec::new();
        let mut k: usize = 0;
        while k < self.sites.len()
            invariant
                k <= before.len(),
                self.sites@.len() == before.len(),
                yield_fits(stock, before),
                forall|j: int|
                    0 <= j < k ==> #[trigger] self.sites@[j] == (Site {
                        index: before[j].index,
                        building: before[j].building.after_turn(),
                    }),
                forall|j: int| k <= j < before.len() ==> #[trigger] self.sites@[j] == before[j],
                forall|item: ItemType|
                    resources.count(item) == stock.count(item) + total_yield(
                        before.take(k as int),
                        item,
                    ),
                skipped@ == stalled(before.take(k as int)),
            decreases before.len() - k,
        {
            let site = self.sites[k];
            let mut producer = site.building.producer;
            proof {
                assert forall|item: ItemType|
                    total_yield(before.take(k + 1), item) == total_yield(
                        before.take(k as int),
                        item,
                    ) + before[k as int].building.producer.yield_of(item) && total_yield(
                        before.take(k + 1),
                        item,
                    ) <= total_yield(before, item) by {
                    lemma_total_yield_step(before, k as int, item);
                }
                lemma_stalled_step(before, k as int);
            }
            let ghost held = *resources;
            match producer.produce(resources) {
                Ok(()) => {},
                Err(_) => {
                    skipped.push(site.index);
                },
            }
            assert forall|item: ItemType|
                resources.count(item) == held.count(item) + site.building.producer.yield_of(
                    item,
                ) by {
                match item {
                    ItemType::Wood => {},
                    ItemType::Stone => {},
                }
            }
            self.sites.set(
                k,
                Site { index: site.index, building: Building { kind: site.building.kind, producer } },
            );
            k = k + 1;
        }
        proof {
            assert(before.take(k as int) == before);
        }
        skipped
    }
}

/// Builds a wood cutter on the hovered tile when the left mouse button was
/// pressed, and demolishes the one there when the right button was pressed.
///
/// Only builds if there isn't already anything built on the tile: a left
/// click on a tile with a building is answered with `AlreadyOccupied`, a
/// right click on a tile without one with `NotFound`, and both leave the
/// table as it was.
pub fn add_wood_cutter_on_click(
    buildings: &mut Buildings,
    hover: &HoverState,
    left_pressed: bool,
    right_pressed: bool,
) -> (outcome: ClickOutcome)
    requires
        old(buildings).wf(),
    ensures
        final(buildings).wf(),
        (final(buildings)@, outcome) == clicked(
            old(buildings)@,
            hover@.hovered,
            left_pressed,
            right_pressed,
        ),
{
    let tile = match hover.hovered() {
        Some(tile) => tile,
        None => {
            return ClickOutcome { built: None, demolished: None };
        },
    };
    let free = buildings.get(tile).is_none();
    let built = if !left_pressed {
        None
    } else if free {
        Some(buildings.place(tile, BuildingKind::WoodCutter))
    } else {
        Some(Err(AlreadyOccupied))
    };
    let demolished = if !right_pressed {
        None
    } else if free {
        Some(Err(NotFound))
    } else {
        // Right mouse will destroy the building
        match buildings.remove(tile) {
            Ok(()) => Some(Ok(tile)),
            Err(gone) => Some(Err(gone)),
        }
    };
    ClickOutcome { built, demolished }
}

/// Placing a building on a free tile and then removing it leaves the table
/// as it was before: no building on the tile, and every other building
/// where it was. Removing once more fails with `NotFound`.
pub proof fn lemma_place_then_remove(sites: Seq<Site>, index: TileIndex, kind: BuildingKind)
    requires
        !occupied(sites, index),
    ensures
        placed(sites, index, kind).1 == Ok::<BuildingRef, AlreadyOccupied>(BuildingRef { index }),
        building_on(placed(sites, index, kind).0, index) == Some(Building::fresh(kind)),
        removed(placed(sites, index, kind).0, index) == (sites, Ok::<(), NotFound>(())),
        removed(removed(placed(sites, index, kind).0, index).0, index) == (
            sites,
            Err::<(), NotFound>(NotFound),
        ),
{
    let site = Site { index, building: Building::fresh(kind) };
    let after = sites.push(site);
    assert(after[sites.len() as int].index == index);
}

/// Placing a building on a tile that holds one fails with `AlreadyOccupied`
/// and leaves the table, and so the building on that tile, as it was.
pub proof fn lemma_place_on_occupied(sites: Seq<Site>, index: TileIndex, kind: BuildingKind)
    requires
        occupied(sites, index),
    ensures
        placed(sites, index, kind) == (sites, Err::<BuildingRef, AlreadyOccupied>(AlreadyOccupied)),
        building_on(placed(sites, index, kind).0, index) == building_on(sites, index),
{
}

/// A click that is turned down says why and changes nothing: a left click
/// on a hovered tile that holds a building answers `AlreadyOccupied`, a right
/// click on a hovered tile that holds none answers `NotFound`, and in both
/// cases the table, and so the building on every tile, stays as it was.
pub proof fn lemma_click_turned_down(sites: Seq<Site>, tile: TileIndex)
    ensures
        occupied(sites, tile) ==> clicked(sites, Some(tile), true, false) == (
            sites,
            ClickOutcome {
                built: Some(Err::<BuildingRef, AlreadyOccupied>(AlreadyOccupied)),
                demolished: None,
            },
        ),
        !occupied(sites, tile) ==> clicked(sites, Some(tile), false, true) == (
            sites,
            ClickOutcome { built: None, demolished: Some(Err::<TileIndex, NotFound>(NotFound)) },
        ),
        forall|left: bool, right: bool|
            #![trigger clicked(sites, Some(tile), left, right)]
            {
                let (after, outcome) = clicked(sites, Some(tile), left, right);
                &&& outcome.built == Some(Err::<BuildingRef, AlreadyOccupied>(AlreadyOccupied))
                    <==> left && occupied(sites, tile)
                &&& outcome.demolished == Some(Err::<TileIndex, NotFound>(NotFound)) <==> right
                    && !occupied(sites, tile)
                &&& !(outcome.built matches Some(Ok(_))) && !(outcome.demolished matches Some(
                    Ok(_),
                )) ==> after == sites
            },
{
}

/// Placing and removing keep the rule that no tile holds two buildings,
/// and neither touches the building on any other tile.
pub proof fn lemma_other_tiles_untouched(
    sites: Seq<Site>,
    index: TileIndex,
    kind: BuildingKind,
    other: TileIndex,
)
    requires
        one_per_tile(sites),
        other != index,
    ensures
        one_per_tile(placed(sites, index, kind).0),
        one_per_tile(removed(sites, index).0),
        building_on(placed(sites, index, kind).0, other) == building_on(sites, other),
        building_on(removed(sites, index).0, other) == building_on(sites, other),
        !occupied(removed(sites, index).0, index),
{
    let after = placed(sites, index, kind).0;
    if occupied(sites, other) {
        let j = place_of(sites, other);
        assert(after[j].index == other);
    }
    if occupied(sites, index) {
        let k = place_of(sites, index);
        let rest = sites.remove(k);
        assert forall|j: int| 0 <= j < rest.len() implies #[trigger] rest[j] == sites[if j < k {
            j
        } else {
            j + 1
        }] by {}
        if occupied(sites, other) {
            let j = place_of(sites, other);
            let j2 = if j < k {
                j
            } else {
                j - 1
            };
            assert(rest[j2].index == other);
            let j3 = place_of(rest, other);
            assert(rest[j3] == sites[if j3 < k {
                j3
            } else {
                j3 + 1
            }]);
        } else if occupied(rest, other) {
            let j = place_of(rest, other);
            assert(rest[j] == sites[if j < k {
                j
            } else {
                j + 1
            }]);
        }
        if occupied(rest, index) {
            let j = place_of(rest, index);
            assert(rest[j] == sites[if j < k {
                j
            } else {
                j + 1
            }]);
        }
    }
}

} // verus!
