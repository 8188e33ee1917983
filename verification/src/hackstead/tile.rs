//! Tiles of land, each of which may hold a plant.

use vstd::prelude::*;
use super::plant::Plant;
use super::time::{now, Timestamp};
use crate::id::{fresh_uuid, ItemId, SteaderId, TileId};

verus! {

/// Format for requesting that a user's item is consumed in exchange for a new tile of land.
/// The steader to give the land to is inferred to be the owner of the item.
#[derive(Clone, Copy, Debug, PartialEq, Eq, Structural)]
pub struct TileCreationRequest {
    /// id for an item that is capable of being removed in exchange for another tile of land.
    pub tile_redeemable_item_id: ItemId,
}

#[derive(Clone, Debug)]
pub struct TileBase {
    pub owner_id: SteaderId,
    pub tile_id: TileId,
    pub acquired: Timestamp,
}

#[derive(Clone, Debug)]
pub struct Tile {
    pub plant: Option<Plant>,
    pub base: TileBase,
}

impl Tile {
    /// A fresh, empty tile owned by `owner_id`, acquired now.
    pub fn new(owner_id: SteaderId) -> (r: Tile)
        ensures
            r.plant is None,
            r.base.owner_id == owner_id,
            crate::id::is_random_uuid(r.base.tile_id.0),
    {
        Tile { plant: None, base: TileBase { acquired: now(), tile_id: TileId(fresh_uuid()), owner_id } }
    }
}

} // verus!
