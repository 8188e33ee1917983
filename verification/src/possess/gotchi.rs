//! Gotchis: possessions with a nickname and a log of who harvested them.

use vstd::prelude::*;
use crate::archetype::{ArchetypeHandle, ArchetypeKind, Config, GotchiArchetype};
use super::{Possessable, PossessionKind};

verus! {

#[derive(Clone, Debug)]
pub struct GotchiHarvestOwner {
    pub id: String,
    pub harvested: u64,
}

#[derive(Clone, Debug)]
pub struct Gotchi {
    pub archetype_handle: ArchetypeHandle,
    pub nickname: String,
    pub harvest_log: Vec<GotchiHarvestOwner>,
}

impl Possessable for Gotchi {
    open spec fn into_kind_spec(self) -> PossessionKind {
        PossessionKind::Gotchi(self)
    }

    fn from_possession_kind(pk: PossessionKind) -> (r: Option<Self>) {
        pk.as_gotchi()
    }

    fn into_possession_kind(self) -> (r: PossessionKind) {
        PossessionKind::Gotchi(self)
    }
}

impl Gotchi {
    /// A gotchi of this archetype, named after it, harvested by nobody yet.
    pub fn new(config: &Config, archetype_handle: ArchetypeHandle, owner_id: &str) -> (r: Self)
        requires
            archetype_handle < config.possession_archetypes@.len(),
        ensures
            r.archetype_handle == archetype_handle,
            r.nickname@ == config.possession_archetypes@[archetype_handle as int].name@,
            r.harvest_log@.len() == 1,
            r.harvest_log@[0].id@ == owner_id@,
            r.harvest_log@[0].harvested == 0,
    {
        Self {
            archetype_handle,
            nickname: config.possession_archetypes[archetype_handle].name.clone(),
            harvest_log: vec![GotchiHarvestOwner { id: owner_id.to_owned(), harvested: 0 }],
        }
    }

    /// The gotchi archetype this gotchi is of.
    pub fn archetype<'a>(&self, config: &'a Config) -> (r: &'a GotchiArchetype)
        requires
            self.archetype_handle < config.possession_archetypes@.len(),
            config.possession_archetypes@[self.archetype_handle as int].kind is Gotchi,
        ensures
            config.possession_archetypes@[self.archetype_handle as int].kind == ArchetypeKind::Gotchi(*r),
    {
        match &config.possession_archetypes[self.archetype_handle].kind {
            ArchetypeKind::Gotchi(g) => g,
            _ => vstd::pervasive::unreached(),
        }
    }
}

} // verus!
