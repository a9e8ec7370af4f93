//! Producers turn elapsed turns into items, one batch per production cycle.

use vstd::prelude::*;
use crate::building::{after_turn, stalled, total_yield, yield_fits, Buildings};
use crate::layout::TileIndex;
use crate::resources::{ItemType, PlayerResources};

verus! {

/// A producer was found with no turns remaining. A producer counts down to 1
/// and starts its cycle again from there, so this state is reached only through
/// a defect elsewhere.
#[derive(Clone, Copy, Debug, PartialEq, Eq, Structural)]
pub struct InvalidProducerState;

/// Production parameters common to anything that produces items.
#[derive(Clone, Copy, Debug, PartialEq, Eq, Structural)]
pub struct Producer {
    /// Current number of turns until we next produce.
    pub turns_remaining: u32,
    /// This is how many units are produced in each batch.
    pub number_produced: u32,
    /// This is how many turns it takes to produce a batch.
    pub production_turns: u32,
    /// The type of item produced.
    pub produces_item_type: ItemType,
}

impl Producer {
    /// The counters are all at least 1.
    pub open spec fn wf(self) -> bool {
        &&& self.turns_remaining >= 1
        &&& self.number_produced >= 1
        &&& self.production_turns >= 1
    }

    /// How many items of kind `item` the producer hands over in the coming
    /// turn: its batch if this is the last turn of its cycle and `item` is
    /// what it makes, nothing otherwise.
    pub open spec fn yield_of(self, item: ItemType) -> nat {
        if self.turns_remaining == 1 && self.produces_item_type == item {
            self.number_produced as nat
        } else {
            0
        }
    }

    /// The producer one turn later. In the last turn of a cycle the count
    /// starts again from the cycle's length; before that it goes down by one.
    /// A producer with no turns remaining is left as it is.
    pub open spec fn after_turn(self) -> Producer {
        if self.turns_remaining == 0 {
            self
        } else if self.turns_remaining == 1 {
            Producer { turns_remaining: self.production_turns, ..self }
        } else {
            Producer { turns_remaining: (self.turns_remaining - 1) as u32, ..self }
        }
    }

    /// A producer at the start of its cycle.
    pub fn new(production_turns: u32, number_produced: u32, produces_item_type: ItemType) -> (p:
        Producer)
        ensures
            p == (Producer {
                turns_remaining: production_turns,
                number_produced,
                production_turns,
                produces_item_type,
            }),
    {
        Producer {
            turns_remaining: production_turns,
            number_produced,
            production_turns,
            produces_item_type,
        }
    }

    /// Try to produce items: lets one turn pass, and in the last turn of the
    /// cycle adds a batch to the player's resources.
    ///
    /// A producer with no turns remaining is rejected: it and the resources
    /// stay as they are.
    pub fn produce(&mut self, player_resources: &mut PlayerResources) -> (outcome: Result<
        (),
        InvalidProducerState,
    >)
        requires
            old(player_resources).count(old(self).produces_item_type) + old(self).yield_of(
                old(self).produces_item_type,
            ) <= u32::MAX,
        ensures
            outcome is Err <==> old(self).turns_remaining == 0,
            *final(self) == old(self).after_turn(),
            *final(player_resources) == old(player_resources).with_added(
                old(self).produces_item_type,
                old(self).yield_of(old(self).produces_item_type),
            ),
    {
        if self.turns_remaining == 0 {
            return Err(InvalidProducerState);
        }
        if self.turns_remaining == 1 {
            // Add a batch of resources to the player's inventory
            player_resources.add_item(&self.produces_item_type, self.number_produced);
            // Reset the turn counter
            self.turns_remaining = self.production_turns;
        } else {
            self.turns_remaining -= 1;
        }
        Ok(())
    }
}

/// How many turns have passed. For diagnostics only.
#[derive(Clone, Copy, Debug, PartialEq, Eq, Structural)]
pub struct TurnCounter {
    turn: u32,
}

impl View for TurnCounter {
    type V = nat;

    /// The number of turns that have passed.
    closed spec fn view(&self) -> nat {
        self.turn as nat
    }
}

impl TurnCounter {
    /// A counter at turn 0.
    pub fn new() -> (counter: TurnCounter)
        ensures
            counter@ == 0,
    {
        TurnCounter { turn: 0 }
    }

    /// The number of turns that have passed.
    pub fn turn(&self) -> (turn: u32)
        ensures
            turn == self@,
    {
        self.turn
    }

    /// Counts one more turn.
    pub fn advance(&mut self)
        requires
            old(self)@ < u32::MAX,
        ensures
            final(self)@ == old(self)@ + 1,
    {
        self.turn += 1;
    }
}

impl Default for TurnCounter {
    fn default() -> (counter: TurnCounter)
        ensures
            counter@ == 0,
    {
        TurnCounter { turn: 0 }
    }
}

/// Whether a turn can pass: the player's resources can take what all
/// producers hand over, and the turn counter can count one more turn.
pub fn turn_can_pass(
    resources: &PlayerResources,
    buildings: &Buildings,
    turn_counter: &TurnCounter,
) -> (ok: bool)
    ensures
        ok == (yield_fits(*resources, buildings@) && turn_counter@ < u32::MAX),
{
    buildings.yield_fits(resources) && turn_counter.turn() < u32::MAX
}

/// For all producers, make stuff! Lets one turn pass: every producer has its
/// turn, what is produced goes to the player's resources, and the turn
/// counter counts one turn.
///
/// A producer with no turns remaining is skipped and stays as it is; the
/// turn still passes for all others. The tiles of the skipped producers are
/// handed back, in the order of the table.
pub fn produce_items_for_a_turn(
    resources: &mut PlayerResources,
    buildings: &mut Buildings,
    turn_counter: &mut TurnCounter,
) -> (skipped: Vec<TileIndex>)
    requires
        old(buildings).wf(),
        yield_fits(*old(resources), old(buildings)@),
        old(turn_counter)@ < u32::MAX,
    ensures
        final(buildings).wf(),
        final(buildings)@ == after_turn(old(buildings)@),
        forall|item: ItemType|
            final(resources).count(item) == old(resources).count(item) + total_yield(
                old(buildings)@,
                item,
            ),
        final(turn_counter)@ == old(turn_counter)@ + 1,
        skipped@ == stalled(old(buildings)@),
{
    let skipped = buildings.produce_all(resources);
    turn_counter.advance();
    skipped
}

/// Lets one turn pass when the turn key was pressed, as
/// `produce_items_for_a_turn` does, and hands back the tiles of the skipped
/// producers. When the key was not pressed nothing changes: resources,
/// buildings and turn counter stay as they were, and `None` is handed back.
pub fn produce_items_on_key(
    resources: &mut PlayerResources,
    buildings: &mut Buildings,
    turn_counter: &mut TurnCounter,
    key_pressed: bool,
) -> (skipped: Option<Vec<TileIndex>>)
    requires
        old(buildings).wf(),
        key_pressed ==> yield_fits(*old(resources), old(buildings)@),
        key_pressed ==> old(turn_counter)@ < u32::MAX,
    ensures
        final(buildings).wf(),
        skipped.is_some() <==> key_pressed,
        !key_pressed ==> {
            &&& *final(resources) == *old(resources)
            &&& final(buildings)@ == old(buildings)@
            &&& final(turn_counter)@ == old(turn_counter)@
        },
        key_pressed ==> {
            &&& final(buildings)@ == after_turn(old(buildings)@)
            &&& forall|item: ItemType|
                final(resources).count(item) == old(resources).count(item) + total_yield(
                    old(buildings)@,
                    item,
                )
            &&& final(turn_counter)@ == old(turn_counter)@ + 1
            &&& skipped matches Some(tiles) && tiles@ == stalled(old(buildings)@)
        },
{
    if key_pressed {
        Some(produce_items_for_a_turn(resources, buildings, turn_counter))
    } else {
        None
    }
}

/// The producer `turns` turns later.
pub open spec fn after_turns(p: Producer, turns: nat) -> Producer
    decreases turns,
{
    if turns == 0 {
        p
    } else {
        after_turns(p.after_turn(), (turns - 1) as nat)
    }
}

/// How many items the producer hands over in the coming `turns` turns.
pub open spec fn produced_in(p: Producer, turns: nat) -> nat
    decreases turns,
{
    if turns == 0 {
        0
    } else {
        p.yield_of(p.produces_item_type) + produced_in(p.after_turn(), (turns - 1) as nat)
    }
}

/// How many batches a producer hands over in `turns` turns when its first
/// batch is due in turn `first` and each cycle takes `cycle` turns.
pub open spec fn batches_in(turns: nat, first: nat, cycle: nat) -> nat {
    if turns < first {
        0
    } else {
        ((turns - first) / cycle as int + 1) as nat
    }
}

/// A turn keeps a producer's counters at 1 or above.
pub proof fn lemma_turn_keeps_wf(p: Producer)
    requires
        p.wf(),
    ensures
        p.after_turn().wf(),
        p.after_turn().number_produced == p.number_produced,
        p.after_turn().production_turns == p.production_turns,
        p.after_turn().produces_item_type == p.produces_item_type,
{
}

/// A producer hands over one batch in the turn in which its count stands at
/// 1 and one more after each full cycle, and nothing in between.
pub proof fn lemma_produced_in(p: Producer, turns: nat)
    requires
        p.wf(),
    ensures
        produced_in(p, turns) == p.number_produced * batches_in(
            turns,
            p.turns_remaining as nat,
            p.production_turns as nat,
        ),
        after_turns(p, turns).wf(),
    decreases turns,
{
    let b = p.number_produced as int;
    let t = p.turns_remaining as int;
    let c = p.production_turns as int;
    if turns > 0 {
        let rest = (turns - 1) as nat;
        lemma_produced_in(p.after_turn(), rest);
        if t == 1 {
            let later = batches_in(rest, c as nat, c as nat) as int;
            if rest < c {
                vstd::arithmetic::div_mod::lemma_basic_div(rest as int, c);
            } else {
                vstd::arithmetic::div_mod::lemma_div_plus_one(rest - c, c);
            }
            assert(b * (later + 1) == b + b * later) by (nonlinear_arith);
        } else {
            assert(batches_in(turns, t as nat, c as nat) == batches_in(
                rest,
                (t - 1) as nat,
                c as nat,
            ));
        }
    }
}

/// A producer with a cycle of one turn, at the start of its cycle, hands over
/// one batch in every turn and is the same after every turn.
pub proof fn lemma_every_turn_producer(p: Producer, turns: nat)
    requires
        p.turns_remaining == 1,
        p.production_turns == 1,
    ensures
        p.after_turn() == p,
        after_turns(p, turns) == p,
        produced_in(p, turns) == turns * p.number_produced,
    decreases turns,
{
    if turns > 0 {
        lemma_every_turn_producer(p, (turns - 1) as nat);
        assert(turns * p.number_produced == p.number_produced + (turns - 1) * p.number_produced)
            by (nonlinear_arith);
    }
}

} // verus!
