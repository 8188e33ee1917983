//! Possessions: gotchis, seeds and keepsakes, with their owners and history.

use vstd::prelude::*;
use crate::archetype::{Archetype, ArchetypeHandle, ArchetypeKind, Config};
use crate::id::fresh_uuid;
use crate::market;

pub mod gotchi;
pub mod keepsake;
pub mod seed;

pub use gotchi::Gotchi;
pub use keepsake::Keepsake;
pub use seed::Seed;

verus! {

/// A kind of possession that can be told apart from the others.
pub trait Possessable: Sized {
    /// The possession kind that holds this value.
    spec fn into_kind_spec(self) -> PossessionKind;

    fn from_possession_kind(pk: PossessionKind) -> (r: Option<Self>)
        ensures
            r matches Some(p) ==> p.into_kind_spec() == pk,
            r is None ==> forall|p: Self| #[trigger] p.into_kind_spec() != pk,
    ;

    fn into_possession_kind(self) -> (r: PossessionKind)
        ensures
            r == self.into_kind_spec(),
    ;
}

#[derive(Clone, Debug)]
pub enum PossessionKind {
    Gotchi(Gotchi),
    Seed(Seed),
    Keepsake(Keepsake),
}

impl PossessionKind {
    /// A possession of the kind that its archetype says.
    pub(crate) fn new(config: &Config, ah: ArchetypeHandle, owner_id: &str) -> (r: Self)
        requires
            ah < config.possession_archetypes@.len(),
        ensures
            config.possession_archetypes@[ah as int].kind is Gotchi ==> r == PossessionKind::Gotchi(
                r->Gotchi_0,
            ) && r->Gotchi_0.archetype_handle == ah
                && r->Gotchi_0.nickname@ == config.possession_archetypes@[ah as int].name@,
            config.possession_archetypes@[ah as int].kind is Seed ==> r is Seed
                && r->Seed_0.archetype_handle == ah,
            config.possession_archetypes@[ah as int].kind is Keepsake ==> r is Keepsake
                && r->Keepsake_0.archetype_handle == ah,
    {
        match config.possession_archetypes[ah].kind {
            ArchetypeKind::Gotchi(_) => PossessionKind::Gotchi(Gotchi::new(config, ah, owner_id)),
            ArchetypeKind::Seed(_) => PossessionKind::Seed(Seed::new(ah, owner_id)),
            ArchetypeKind::Keepsake(_) => PossessionKind::Keepsake(Keepsake::new(ah, owner_id)),
        }
    }

    pub fn as_gotchi(self) -> (r: Option<Gotchi>)
        ensures
            r matches Some(g) ==> self == PossessionKind::Gotchi(g),
            r is None <==> !(self is Gotchi),
    {
        match self {
            PossessionKind::Gotchi(g) => Some(g),
            _ => None,
        }
    }

    pub fn gotchi(&self) -> (r: Option<&Gotchi>)
        ensures
            r matches Some(g) ==> *self == PossessionKind::Gotchi(*g),
            r is None <==> !(self is Gotchi),
    {
        match self {
            PossessionKind::Gotchi(g) => Some(g),
            _ => None,
        }
    }

    pub fn is_gotchi(&self) -> (r: bool)
        ensures
            r == self is Gotchi,
    {
        match self {
            PossessionKind::Gotchi(_) => true,
            _ => false,
        }
    }

    pub fn gotchi_mut(&mut self) -> (r: Option<&mut Gotchi>)
        ensures
            r is Some <==> *old(self) is Gotchi,
            r is Some ==> *r->0 == (*old(self))->Gotchi_0 && *final(self) == PossessionKind::Gotchi(
                *final(r->0),
            ),
            r is None ==> *final(self) == *old(self),
    {
        match self {
            PossessionKind::Gotchi(g) => Some(g),
            _ => None,
        }
    }

    pub fn as_seed(self) -> (r: Option<Seed>)
        ensures
            r matches Some(s) ==> self == PossessionKind::Seed(s),
            r is None <==> !(self is Seed),
    {
        match self {
            PossessionKind::Seed(g) => Some(g),
            _ => None,
        }
    }

    pub fn seed(&self) -> (r: Option<&Seed>)
        ensures
            r matches Some(s) ==> *self == PossessionKind::Seed(*s),
            r is None <==> !(self is Seed),
    {
        match self {
            PossessionKind::Seed(g) => Some(g),
            _ => None,
        }
    }

    pub fn is_seed(&self) -> (r: bool)
        ensures
            r == self is Seed,
    {
        match self {
            PossessionKind::Seed(_) => true,
            _ => false,
        }
    }

    pub fn seed_mut(&mut self) -> (r: Option<&mut Seed>)
        ensures
            r is Some <==> *old(self) is Seed,
            r is Some ==> *r->0 == (*old(self))->Seed_0 && *final(self) == PossessionKind::Seed(
                *final(r->0),
            ),
            r is None ==> *final(self) == *old(self),
    {
        match self {
            PossessionKind::Seed(g) => Some(g),
            _ => None,
        }
    }

    pub fn as_keepsake(self) -> (r: Option<Keepsake>)
        ensures
            r matches Some(k) ==> self == PossessionKind::Keepsake(k),
            r is None <==> !(self is Keepsake),
    {
        match self {
            PossessionKind::Keepsake(g) => Some(g),
            _ => None,
        }
    }

    pub fn keepsake(&self) -> (r: Option<&Keepsake>)
        ensures
            r matches Some(k) ==> *self == PossessionKind::Keepsake(*k),
            r is None <==> !(self is Keepsake),
    {
        match self {
            PossessionKind::Keepsake(g) => Some(g),
            _ => None,
        }
    }

    pub fn is_keepsake(&self) -> (r: bool)
        ensures
            r == self is Keepsake,
    {
        match self {
            PossessionKind::Keepsake(_) => true,
            _ => false,
        }
    }

    pub fn keepsake_mut(&mut self) -> (r: Option<&mut Keepsake>)
        ensures
            r is Some <==> *old(self) is Keepsake,
            r is Some ==> *r->0 == (*old(self))->Keepsake_0 && *final(self)
                == PossessionKind::Keepsake(*final(r->0)),
            r is None ==> *final(self) == *old(self),
    {
        match self {
            PossessionKind::Keepsake(g) => Some(g),
            _ => None,
        }
    }
}

#[derive(Clone, Debug)]
pub struct Owner {
    pub id: String,
    pub acquisition: Acquisition,
}

impl Owner {
    pub fn farmer(id: String) -> (r: Self)
        ensures
            r.id == id,
            r.acquisition == Acquisition::Farmed,
    {
        Self { id, acquisition: Acquisition::Farmed }
    }

    pub fn crafter(id: String) -> (r: Self)
        ensures
            r.id == id,
            r.acquisition == Acquisition::Crafted,
    {
        Self { id, acquisition: Acquisition::Crafted }
    }

    pub fn hatcher(id: String) -> (r: Self)
        ensures
            r.id == id,
            r.acquisition == Acquisition::Hatched,
    {
        Self { id, acquisition: Acquisition::Hatched }
    }
}

#[derive(Clone, Copy, Debug, PartialEq, Eq, Structural)]
pub enum Acquisition {
    Trade,
    Purchase { price: u64 },
    Farmed,
    Crafted,
    Hatched,
}

impl Acquisition {
    /// How a freshly spawned possession is acquired.
    pub fn spawned() -> (r: Self)
        ensures
            r == Acquisition::Trade,
    {
        Acquisition::Trade
    }
}

/// A copy of Possession for when you know what variant of PossessionKind
/// you have at compile time and want to easily access its properties alongside
/// those properties all Possessions have.
#[derive(Clone, Debug)]
pub struct Possessed<P: Possessable> {
    pub inner: P,
    pub archetype_handle: ArchetypeHandle,
    /// The 128 bits of a UUID.
    pub id: u128,
    pub steader: String,
    pub ownership_log: Vec<Owner>,
    pub sale: Option<market::Sale>,
}

impl<P: Possessable> Possessed<P> {
    /// The untyped possession this typed copy stands for.
    pub open spec fn possession_spec(self) -> Possession {
        Possession {
            kind: self.inner.into_kind_spec(),
            archetype_handle: self.archetype_handle,
            id: self.id,
            steader: self.steader,
            ownership_log: self.ownership_log,
            sale: self.sale,
        }
    }

    /// The typed copy of `p`, if `p` holds the kind `P` stands for; turned
    /// back into a possession, the copy is `p` again.
    pub fn from_possession(p: Possession) -> (r: Option<Possessed<P>>)
        ensures
            r matches Some(q) ==> q.possession_spec() == p,
            r is None ==> forall|x: P| #[trigger] x.into_kind_spec() != p.kind,
    {
        let Possession { kind, archetype_handle, id, steader, ownership_log, sale } = p;
        match P::from_possession_kind(kind) {
            Some(inner) => Some(Self { inner, archetype_handle, id, steader, ownership_log, sale }),
            None => None,
        }
    }

    /// The untyped possession this typed copy stands for.
    pub fn into_possession(self) -> (r: Possession)
        ensures
            r == self.possession_spec(),
    {
        let Self { inner, archetype_handle, id, steader, ownership_log, sale } = self;
        Possession {
            kind: P::into_possession_kind(inner),
            archetype_handle,
            id,
            steader,
            ownership_log,
            sale,
        }
    }

    /// The archetype of this possession.
    pub fn archetype<'a>(&self, config: &'a Config) -> (r: &'a Archetype)
        requires
            self.archetype_handle < config.possession_archetypes@.len(),
        ensures
            *r == config.possession_archetypes@[self.archetype_handle as int],
    {
        &config.possession_archetypes[self.archetype_handle]
    }
}

#[derive(Clone, Debug)]
pub struct Possession {
    pub kind: PossessionKind,
    pub archetype_handle: ArchetypeHandle,
    /// The 128 bits of a UUID.
    pub id: u128,
    pub steader: String,
    pub ownership_log: Vec<Owner>,
    pub sale: Option<market::Sale>,
}

impl Possession {
    /// A fresh possession of this archetype, owned and logged by `owner`, not for sale.
    pub fn new(config: &Config, archetype_handle: ArchetypeHandle, owner: Owner) -> (r: Self)
        requires
            archetype_handle < config.possession_archetypes@.len(),
        ensures
            r.archetype_handle == archetype_handle,
            r.steader@ == owner.id@,
            r.ownership_log@ == seq![owner],
            r.sale is None,
            config.possession_archetypes@[archetype_handle as int].kind is Gotchi <==> r.kind is Gotchi,
            config.possession_archetypes@[archetype_handle as int].kind is Seed <==> r.kind is Seed,
            r.kind is Gotchi ==> r.kind->Gotchi_0.nickname@ == config.possession_archetypes@[archetype_handle as int].name@,
    {
        let kind = PossessionKind::new(config, archetype_handle, owner.id.as_str());
        let steader = owner.id.clone();
        Self {
            kind,
            id: fresh_uuid(),
            archetype_handle,
            steader,
            ownership_log: vec![owner],
            sale: None,
        }
    }

    /// The gotchi's nickname for a gotchi, the archetype's name for anything else.
    pub fn nickname<'a>(&'a self, config: &'a Config) -> (r: &'a str)
        requires
            self.archetype_handle < config.possession_archetypes@.len(),
        ensures
            self.kind is Gotchi ==> r@ == self.kind->Gotchi_0.nickname@,
            !(self.kind is Gotchi) ==> r@ == config.possession_archetypes@[self.archetype_handle as int].name@,
    {
        match &self.kind {
            PossessionKind::Gotchi(g) => g.nickname.as_str(),
            _ => self.archetype(config).name.as_str(),
        }
    }

    /// The archetype of this possession.
    pub fn archetype<'a>(&self, config: &'a Config) -> (r: &'a Archetype)
        requires
            self.archetype_handle < config.possession_archetypes@.len(),
        ensures
            *r == config.possession_archetypes@[self.archetype_handle as int],
    {
        &config.possession_archetypes[self.archetype_handle]
    }
}

} // verus!
