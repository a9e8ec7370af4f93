//! The player's stock of items.

use vstd::prelude::*;

verus! {

/// The kinds of item that can be produced and held.
#[derive(Clone, Copy, Debug, PartialEq, Eq, Structural, Hash)]
pub enum ItemType {
    Wood,
    Stone,
}

/// How many items of each kind the player holds.
#[derive(Clone, Copy, Debug, PartialEq, Eq, Structural)]
pub struct PlayerResources {
    pub wood: u32,
    pub stone: u32,
}

impl PlayerResources {
    /// The number of items of kind `item` held.
    pub open spec fn count(self, item: ItemType) -> nat {
        match item {
            ItemType::Wood => self.wood as nat,
            ItemType::Stone => self.stone as nat,
        }
    }

    /// The stock with `count` more items of kind `item`.
    pub open spec fn with_added(self, item: ItemType, count: nat) -> PlayerResources {
        match item {
            ItemType::Wood => PlayerResources { wood: (self.wood + count) as u32, ..self },
            ItemType::Stone => PlayerResources { stone: (self.stone + count) as u32, ..self },
        }
    }

    /// The stock at the start of a session: nothing of any kind.
    pub fn new() -> (resources: PlayerResources)
        ensures
            resources == (PlayerResources { wood: 0, stone: 0 }),
    {
        PlayerResources { wood: 0, stone: 0 }
    }

    /// The number of items of kind `item` held.
    pub fn held(&self, item: &ItemType) -> (n: u32)
        ensures
            n == self.count(*item),
    {
        match item {
            ItemType::Wood => self.wood,
            ItemType::Stone => self.stone,
        }
    }

    /// Add `count` items of type `item` to the player's resources.
    pub fn add_item(&mut self, item: &ItemType, count: u32)
        requires
            old(self).count(*item) + count <= u32::MAX,
        ensures
            *final(self) == old(self).with_added(*item, count as nat),
            final(self).count(*item) == old(self).count(*item) + count,
    {
        match item {
            ItemType::Wood => self.wood += count,
            ItemType::Stone => self.stone += count,
        }
    }
}

} // verus!
