//! Keepsakes: possessions that are neither gotchis nor seeds.

use vstd::prelude::*;
use crate::archetype::ArchetypeHandle;
use super::{Possessable, PossessionKind};

verus! {

#[derive(Clone, Debug)]
pub struct Keepsake {
    pub archetype_handle: ArchetypeHandle,
}

impl Possessable for Keepsake {
    open spec fn into_kind_spec(self) -> PossessionKind {
        PossessionKind::Keepsake(self)
    }

    fn from_possession_kind(pk: PossessionKind) -> (r: Option<Self>) {
        pk.as_keepsake()
    }

    fn into_possession_kind(self) -> (r: PossessionKind) {
        PossessionKind::Keepsake(self)
    }
}

impl Keepsake {
    /// A keepsake of this archetype.
    pub fn new(archetype_handle: ArchetypeHandle, _owner_id: &str) -> (r: Self)
        ensures
            r.archetype_handle == archetype_handle,
    {
        Keepsake { archetype_handle }
    }
}

} // verus!
