//! The asks a client sends for its hacksteads, plants, items and gotchis, and
//! which note from the server answers each ask. Sending an ask and waiting
//! for its answer is the caller's part.

use vstd::prelude::*;
use super::{Ask, AskedNote, ItemAsk, PlantAsk};
use crate::hackstead::item::Gotchi;
use crate::hackstead::plant::skill::Unlock;
use crate::hackstead::{item, Hackstead, Item, Plant};
use crate::id::{IdentifiesItem, IdentifiesPlant, IdentifiesSteader, ItemId};

verus! {

impl Item {
    /// The ask to redeem this item for a new tile.
    pub fn redeem_for_tile_ask(&self) -> (r: Ask)
        ensures
            r == (Ask::TileSummon { tile_redeemable_item_id: self.item_id }),
    {
        Ask::TileSummon { tile_redeemable_item_id: self.item_id }
    }

    /// The ask to hatch this item.
    pub fn hatch_ask(&self) -> (r: Ask)
        ensures
            r == Ask::Item(ItemAsk::Hatch { hatchable_item_id: self.item_id }),
    {
        Ask::Item(ItemAsk::Hatch { hatchable_item_id: self.item_id })
    }

    /// The ask to throw this item, alone, to the steader `to`.
    pub fn throw_at_ask<S: IdentifiesSteader>(&self, to: S) -> (r: Ask)
        ensures
            r matches Ask::Item(ItemAsk::Throw { receiver_id, item_ids }) && receiver_id == to.steader_id_spec()
                && item_ids@ == seq![self.item_id],
    {
        let receiver_id = to.steader_id();
        let item_ids = vec![self.item_id];
        Ask::Item(ItemAsk::Throw { receiver_id, item_ids })
    }
}

/// The ids of these items, in order.
pub open spec fn ids_of<I: IdentifiesItem + Copy>(items: Seq<I>) -> Seq<ItemId> {
    items.map_values(|i: I| i.item_id_spec())
}

impl Hackstead {
    /// The ask to throw these items to the steader `to`.
    pub fn throw_items_ask<S: IdentifiesSteader, I: IdentifiesItem + Copy>(&self, to: S, items: &[I]) -> (r: Ask)
        ensures
            r matches Ask::Item(ItemAsk::Throw { receiver_id, item_ids }) && receiver_id == to.steader_id_spec()
                && item_ids@ == ids_of(items@),
    {
        let receiver_id = to.steader_id();
        let mut item_ids: Vec<ItemId> = Vec::new();
        let mut i: usize = 0;
        while i < items.len()
            invariant
                i <= items@.len(),
                item_ids@ == ids_of(items@.subrange(0, i as int)),
            decreases items@.len() - i,
        {
            item_ids.push(items[i].item_id());
            i = i + 1;
            assert(ids_of(items@.subrange(0, i as int)) =~= item_ids@);
        }
        assert(items@.subrange(0, items@.len() as int) =~= items@);
        Ask::Item(ItemAsk::Throw { receiver_id, item_ids })
    }

    /// The ask to spawn `amount` items of the kind `item_conf`.
    pub fn spawn_items_ask(&self, item_conf: item::Conf, amount: usize) -> (r: Ask)
        ensures
            r == Ask::Item(ItemAsk::Spawn { item_conf, amount }),
    {
        Ask::Item(ItemAsk::Spawn { item_conf, amount })
    }

    /// The ask to add `xp` to this hackstead.
    pub fn knowledge_snort_ask(&self, xp: usize) -> (r: Ask)
        ensures
            r == (Ask::KnowledgeSnort { xp }),
    {
        Ask::KnowledgeSnort { xp }
    }

    /// The ask to redeem `item` for a new tile.
    pub fn unlock_tile_with_ask<I: IdentifiesItem>(&self, item: I) -> (r: Ask)
        ensures
            r == (Ask::TileSummon { tile_redeemable_item_id: item.item_id_spec() }),
    {
        Ask::TileSummon { tile_redeemable_item_id: item.item_id() }
    }
}

impl Unlock {
    /// The ask to unlock this on the plant `p`.
    pub fn unlock_for_ask<P: IdentifiesPlant>(&self, p: P) -> (r: Ask)
        ensures
            r == Ask::Plant(
                PlantAsk::SkillUnlock {
                    tile_id: p.plant_tile_id_spec(),
                    source_skill_conf: self.source_skill,
                    unlock_index: self.index,
                },
            ),
    {
        Ask::Plant(
            PlantAsk::SkillUnlock { tile_id: p.tile_id(), source_skill_conf: self.source_skill, unlock_index: self.index },
        )
    }
}

impl Plant {
    /// The ask to slaughter this plant.
    pub fn slaughter_ask(&self) -> (r: Ask)
        ensures
            r == Ask::Plant(PlantAsk::Slaughter { tile_id: self.tile_id }),
    {
        Ask::Plant(PlantAsk::Slaughter { tile_id: self.tile_id })
    }

    /// The ask to rub the item `rub` onto this plant.
    pub fn rub_with_ask<I: IdentifiesItem>(&self, rub: I) -> (r: Ask)
        ensures
            r == Ask::Plant(PlantAsk::Rub { tile_id: self.tile_id, rub_item_id: rub.item_id_spec() }),
    {
        Ask::Plant(PlantAsk::Rub { rub_item_id: rub.item_id(), tile_id: self.tile_id })
    }

    /// The ask to rename this plant.
    pub fn rename_ask(&self, new_name: String) -> (r: Ask)
        ensures
            r matches Ask::Plant(PlantAsk::Nickname { tile_id, new_name: n }) && tile_id == self.tile_id && n@
                == new_name@,
    {
        Ask::Plant(PlantAsk::Nickname { tile_id: self.tile_id, new_name })
    }
}

impl Gotchi {
    /// The ask to rename this gotchi.
    pub fn rename_ask(&self, new_name: String) -> (r: Ask)
        ensures
            r matches Ask::Item(ItemAsk::GotchiNickname { item_id, new_name: n }) && item_id == self.item_id && n@
                == new_name@,
    {
        Ask::Item(ItemAsk::GotchiNickname { item_id: self.item_id, new_name })
    }
}

/// The note that answers an ask: the result of the same kind.
pub open spec fn answers(ask: Ask, note: AskedNote) -> bool {
    match ask {
        Ask::KnowledgeSnort { .. } => note is KnowledgeSnortResult,
        Ask::TileSummon { .. } => note is TileSummonResult,
        Ask::Item(ItemAsk::Spawn { .. }) => note is ItemSpawnResult,
        Ask::Item(ItemAsk::Throw { .. }) => note is ItemThrowResult,
        Ask::Item(ItemAsk::Hatch { .. }) => note is ItemHatchResult,
        Ask::Item(ItemAsk::GotchiNickname { .. }) => note is GotchiNicknameResult,
        Ask::Plant(PlantAsk::Summon { .. }) => note is PlantSummonResult,
        Ask::Plant(PlantAsk::Slaughter { .. }) => note is PlantSlaughterResult,
        Ask::Plant(PlantAsk::Craft { .. }) => note is PlantCraftStartResult,
        Ask::Plant(PlantAsk::Rub { .. }) => note is PlantRubStartResult,
        Ask::Plant(PlantAsk::Nickname { .. }) => note is PlantNicknameResult,
        Ask::Plant(PlantAsk::SkillUnlock { .. }) => note is PlantSkillUnlockResult,
        Ask::Plant(PlantAsk::KnowledgeSnort { .. }) => note is PlantKnowledgeSnortResult,
    }
}

impl Ask {
    /// Whether `note` is the kind of note that answers this ask.
    pub fn answered_by(&self, note: &AskedNote) -> (r: bool)
        ensures
            r == answers(*self, *note),
    {
        match self {
            Ask::KnowledgeSnort { .. } => matches!(note, AskedNote::KnowledgeSnortResult(_)),
            Ask::TileSummon { .. } => matches!(note, AskedNote::TileSummonResult(_)),
            Ask::Item(ItemAsk::Spawn { .. }) => matches!(note, AskedNote::ItemSpawnResult(_)),
            Ask::Item(ItemAsk::Throw { .. }) => matches!(note, AskedNote::ItemThrowResult(_)),
            Ask::Item(ItemAsk::Hatch { .. }) => matches!(note, AskedNote::ItemHatchResult(_)),
            Ask::Item(ItemAsk::GotchiNickname { .. }) => matches!(note, AskedNote::GotchiNicknameResult(_)),
            Ask::Plant(PlantAsk::Summon { .. }) => matches!(note, AskedNote::PlantSummonResult(_)),
            Ask::Plant(PlantAsk::Slaughter { .. }) => matches!(note, AskedNote::PlantSlaughterResult(_)),
            Ask::Plant(PlantAsk::Craft { .. }) => matches!(note, AskedNote::PlantCraftStartResult(_)),
            Ask::Plant(PlantAsk::Rub { .. }) => matches!(note, AskedNote::PlantRubStartResult(_)),
            Ask::Plant(PlantAsk::Nickname { .. }) => matches!(note, AskedNote::PlantNicknameResult(_)),
            Ask::Plant(PlantAsk::SkillUnlock { .. }) => matches!(note, AskedNote::PlantSkillUnlockResult(_)),
            Ask::Plant(PlantAsk::KnowledgeSnort { .. }) => matches!(note, AskedNote::PlantKnowledgeSnortResult(_)),
        }
    }
}

} // verus!
