//! The Wormhole allows quick communication with the server, used especially
//! for receiving information about game events as soon as they occur.
//! These are the messages that travel through it.

use vstd::prelude::*;
use crate::config::evalput::Output;
use crate::hackstead::{item, plant, Item, Plant, Tile};
use crate::id::{ItemId, SteaderId, TileId};

pub mod connection;
pub mod asks;

verus! {

/// How often heartbeat pings are sent, in seconds.
pub const HEARTBEAT_INTERVAL_SECS: u64 = 1;

/// How long before lack of client response causes a timeout, in seconds.
pub const CLIENT_TIMEOUT_SECS: u64 = 10;

/// How long before lack of server response causes a timeout, in seconds.
pub const SERVER_TIMEOUT_SECS: u64 = 25;

pub type StrResult<T> = Result<T, String>;

/// AskedNotes are immediate responses to things explicitly requested by the client using an
/// AskMessage. Almost all of these Results have string error messages.
#[derive(Debug)]
pub enum AskedNote {
    /// This event is actually infallible; returns the new total xp of the user's stead.
    KnowledgeSnortResult(StrResult<usize>),
    /// Returns the fresh new plant, if successful.
    PlantSummonResult(StrResult<Plant>),
    /// Returns the now-deceased plant, if successful.
    PlantSlaughterResult(StrResult<Plant>),
    /// Returns the Craft struct added to the plant, if successful.
    PlantCraftStartResult(StrResult<plant::Craft>),
    /// Returns the effect structs, if successful.
    PlantRubStartResult(StrResult<Vec<plant::RubEffect>>),
    /// Returns the new name of the plant.
    PlantNicknameResult(StrResult<String>),
    /// Returns the number of skill points left, if successful.
    PlantSkillUnlockResult(StrResult<usize>),
    /// Returns the new xp total for this plant.
    PlantKnowledgeSnortResult(StrResult<usize>),
    /// Returns the fresh tile, if successful.
    TileSummonResult(StrResult<Tile>),
    /// Returns the list of new items, if successful.
    ItemSpawnResult(StrResult<Vec<Item>>),
    /// Returns the list of new items, complete with updated owner logs.
    ItemThrowResult(StrResult<Vec<Item>>),
    /// Returns what hatching produced, if successful.
    ItemHatchResult(StrResult<Output<Item>>),
    /// Returns the new name of the gotchi.
    GotchiNicknameResult(StrResult<String>),
}

/// The error message a result carries, if it failed.
pub open spec fn err_of<T>(r: StrResult<T>) -> Option<Seq<char>> {
    match r {
        Ok(_) => None,
        Err(e) => Some(e@),
    }
}

impl AskedNote {
    /// The error message this note carries, if the asked thing failed.
    pub open spec fn err_spec(&self) -> Option<Seq<char>> {
        match self {
            AskedNote::KnowledgeSnortResult(r) => err_of(*r),
            AskedNote::PlantSummonResult(r) => err_of(*r),
            AskedNote::PlantSlaughterResult(r) => err_of(*r),
            AskedNote::PlantCraftStartResult(r) => err_of(*r),
            AskedNote::PlantRubStartResult(r) => err_of(*r),
            AskedNote::PlantNicknameResult(r) => err_of(*r),
            AskedNote::PlantSkillUnlockResult(r) => err_of(*r),
            AskedNote::PlantKnowledgeSnortResult(r) => err_of(*r),
            AskedNote::TileSummonResult(r) => err_of(*r),
            AskedNote::ItemSpawnResult(r) => err_of(*r),
            AskedNote::ItemThrowResult(r) => err_of(*r),
            AskedNote::ItemHatchResult(r) => err_of(*r),
            AskedNote::GotchiNicknameResult(r) => err_of(*r),
        }
    }

    /// Returns an AskedNote's error message, if any.
    pub fn err(&self) -> (r: Option<&str>)
        ensures
            r matches Some(e) ==> self.err_spec() == Some(e@),
            r is None <==> self.err_spec() is None,
    {
        match self {
            AskedNote::KnowledgeSnortResult(Err(e)) => Some(e.as_str()),
            AskedNote::PlantSummonResult(Err(e)) => Some(e.as_str()),
            AskedNote::PlantSlaughterResult(Err(e)) => Some(e.as_str()),
            AskedNote::PlantCraftStartResult(Err(e)) => Some(e.as_str()),
            AskedNote::PlantRubStartResult(Err(e)) => Some(e.as_str()),
            AskedNote::PlantNicknameResult(Err(e)) => Some(e.as_str()),
            AskedNote::PlantSkillUnlockResult(Err(e)) => Some(e.as_str()),
            AskedNote::PlantKnowledgeSnortResult(Err(e)) => Some(e.as_str()),
            AskedNote::TileSummonResult(Err(e)) => Some(e.as_str()),
            AskedNote::ItemSpawnResult(Err(e)) => Some(e.as_str()),
            AskedNote::ItemThrowResult(Err(e)) => Some(e.as_str()),
            AskedNote::ItemHatchResult(Err(e)) => Some(e.as_str()),
            AskedNote::GotchiNicknameResult(Err(e)) => Some(e.as_str()),
            _ => None,
        }
    }
}

/// Rude Notes aren't responses to any particular Ask from the client,
/// they sort of barge in unannounced.
#[derive(Debug)]
pub enum RudeNote {
    /// Identifies the giver and contains a list of items, complete with updated ownership logs.
    ItemThrowReceipt { from: SteaderId, items: Vec<Item> },
    YieldFinish { output: Output<Item>, tile_id: TileId },
    CraftFinish { output: Output<Item>, tile_id: TileId },
    RubEffectFinish { effect: plant::RubEffect, tile_id: TileId },
    /// `value` and `rate` are `f32` bit patterns.
    TimerUpdate { timer_id: plant::timer::TimerId, value: u32, rate: u32 },
}

/// Like a notification, but cuter; a tidbit of information that the server
/// thinks you might have a special interest in.
#[derive(Debug)]
pub enum Note {
    Rude(RudeNote),
    Edit(EditNote),
    Asked {
        note: AskedNote,
        /// Sent back with the AskedNote, so that clients can see which of their
        /// Asks a particular AskedNote is responding to.
        ask_id: usize,
    },
}

/// The bytes of a diff describing changes to your hackstead.
#[derive(Clone, Debug)]
pub enum EditNote {
    Bincode(Vec<u8>),
    Json(String),
}

#[derive(Clone, Debug)]
pub enum ItemAsk {
    /// This Ask should only be performed by privileged users.
    Spawn { item_conf: item::Conf, amount: usize },
    Throw { receiver_id: SteaderId, item_ids: Vec<ItemId> },
    Hatch { hatchable_item_id: ItemId },
    GotchiNickname { item_id: ItemId, new_name: String },
}

#[derive(Clone, Debug)]
pub enum PlantAsk {
    Summon { tile_id: TileId, seed_item_id: ItemId },
    Slaughter { tile_id: TileId },
    Craft { tile_id: TileId, recipe_index: usize },
    Rub { tile_id: TileId, rub_item_id: ItemId },
    Nickname { tile_id: TileId, new_name: String },
    SkillUnlock { tile_id: TileId, source_skill_conf: plant::skill::Conf, unlock_index: usize },
    KnowledgeSnort { tile_id: TileId, xp: usize },
}

/// Something the client wants the server to do.
#[derive(Clone, Debug)]
pub enum Ask {
    /// This Ask should only be performed by privileged users.
    KnowledgeSnort { xp: usize },
    Plant(PlantAsk),
    Item(ItemAsk),
    TileSummon { tile_redeemable_item_id: ItemId },
}

#[derive(Clone, Debug)]
pub struct AskMessage {
    pub ask: Ask,
    /// Sent back with the AskedNote, so that clients can see which of their
    /// Asks a particular AskedNote is responding to.
    pub ask_id: usize,
}

/// Ask the server to do something on the behalf of a steader that cannot be inferred.
#[derive(Clone, Debug)]
pub struct Beg {
    pub steader_id: SteaderId,
    /// The request to perform.
    pub ask: Ask,
}

} // verus!
