//! Items as the item store records them: where each came from and who has
//! owned it.

use vstd::prelude::*;
use crate::archetype::ArchetypeHandle;

pub mod seed;

pub use seed::{Seed, SeedGrower};

verus! {

/// One entry of an item's ownership log. Ids are the 128 bits of UUIDs.
#[derive(Clone, Copy, Debug, PartialEq, Eq, Structural)]
pub struct LoggedOwner {
    pub item_id: u128,
    pub logged_owner_id: u128,
    pub acquisition: Acquisition,
    pub owner_index: i32,
}

/// How an item came to its owner.
#[derive(Clone, Copy, Debug, PartialEq, Eq, Structural)]
pub enum Acquisition {
    Trade,
    Farmed,
    Crafted,
    Hatched,
}

impl Acquisition {
    /// How a freshly spawned item is acquired.
    pub fn spawned() -> (r: Self)
        ensures
            r == Acquisition::Trade,
    {
        Acquisition::Trade
    }

    /// The acquisition stored under this number, in declaration order.
    pub fn try_from_i32(i: i32) -> (r: Option<Self>)
        ensures
            i == 0 ==> r == Some(Acquisition::Trade),
            i == 1 ==> r == Some(Acquisition::Farmed),
            i == 2 ==> r == Some(Acquisition::Crafted),
            i == 3 ==> r == Some(Acquisition::Hatched),
            (i < 0 || i > 3) <==> r is None,
    {
        match i {
            0 => Some(Acquisition::Trade),
            1 => Some(Acquisition::Farmed),
            2 => Some(Acquisition::Crafted),
            3 => Some(Acquisition::Hatched),
            _ => None,
        }
    }

    /// The acquisition's name, as it is displayed.
    pub fn name(&self) -> (r: &'static str)
        ensures
            *self == Acquisition::Trade ==> r@ == "Trade"@,
            *self == Acquisition::Farmed ==> r@ == "Farmed"@,
            *self == Acquisition::Crafted ==> r@ == "Crafted"@,
            *self == Acquisition::Hatched ==> r@ == "Hatched"@,
    {
        proof {
            reveal_strlit("Trade");
            reveal_strlit("Farmed");
            reveal_strlit("Crafted");
            reveal_strlit("Hatched");
        }
        match self {
            Acquisition::Trade => "Trade",
            Acquisition::Farmed => "Farmed",
            Acquisition::Crafted => "Crafted",
            Acquisition::Hatched => "Hatched",
        }
    }
}

/// What every item has: its archetype, its id and its owner's id.
#[derive(Clone, Copy, Debug, PartialEq, Eq, Structural)]
pub struct ItemBase {
    pub archetype_handle: ArchetypeHandle,
    pub item_id: u128,
    pub owner_id: u128,
}

} // verus!
