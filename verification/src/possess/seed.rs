//! Seeds, and the pedigree of steaders who grew them.

use vstd::prelude::*;
use crate::archetype::{ArchetypeHandle, ArchetypeKind, Config, SeedArchetype};
use super::{Possessable, PossessionKind};

verus! {

#[derive(Clone, Debug)]
pub struct Seed {
    pub archetype_handle: ArchetypeHandle,
    pub pedigree: Vec<SeedGrower>,
}

impl Possessable for Seed {
    open spec fn into_kind_spec(self) -> PossessionKind {
        PossessionKind::Seed(self)
    }

    fn from_possession_kind(pk: PossessionKind) -> (r: Option<Self>) {
        pk.as_seed()
    }

    fn into_possession_kind(self) -> (r: PossessionKind) {
        PossessionKind::Seed(self)
    }
}

#[derive(Clone, Debug)]
pub struct SeedGrower {
    pub id: String,
    pub generations: u64,
}

impl SeedGrower {
    pub fn new(id: String, generations: u64) -> (r: Self)
        ensures
            r.id == id,
            r.generations == generations,
    {
        SeedGrower { id, generations }
    }
}

impl Seed {
    /// A seed of this archetype, grown so far only by its owner.
    pub fn new(archetype_handle: ArchetypeHandle, owner_id: &str) -> (r: Self)
        ensures
            r.archetype_handle == archetype_handle,
            r.pedigree@.len() == 1,
            r.pedigree@[0].id@ == owner_id@,
            r.pedigree@[0].generations == 0,
    {
        Self {
            archetype_handle,
            pedigree: vec![SeedGrower { id: owner_id.to_owned(), generations: 0 }],
        }
    }

    /// The seed archetype this seed is of.
    pub fn archetype<'a>(&self, config: &'a Config) -> (r: &'a SeedArchetype)
        requires
            self.archetype_handle < config.possession_archetypes@.len(),
            config.possession_archetypes@[self.archetype_handle as int].kind is Seed,
        ensures
            config.possession_archetypes@[self.archetype_handle as int].kind == ArchetypeKind::Seed(*r),
    {
        match &config.possession_archetypes[self.archetype_handle].kind {
            ArchetypeKind::Seed(s) => s,
            _ => vstd::pervasive::unreached(),
        }
    }
}

} // verus!
