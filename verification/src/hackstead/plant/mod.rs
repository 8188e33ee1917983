//! Plants growing on tiles: their state, the effects rubbed onto them, and the
//! filters that decide which plants an effect applies to.

use vstd::prelude::*;
use crate::config::{Evalput, RawEvalput};
use crate::config::verify::{all_known, concat, first_missing, plant_confs, push_str, texts,
    FromFile, noted_error, Problem, RawConfig as WholeRawConfig, Verify, VerifResult};
use crate::hackstead::item;
use crate::id::{IdentifiesSteader, IdentifiesTile, NoSuch, NoSuchResult, NoSuchRubEffectOnPlant,
    SteaderId, TileId};

pub mod buff;
pub mod book;
pub mod effect;
pub mod skill;
pub mod timer;

pub use buff::{Buff, RawBuff};
pub use effect::{RubEffect, RubEffectId};
pub use skill::{RawSkill, Skill};
pub use timer::{SharedTimer, TimerKind};

verus! {

/// A plant::Conf points to a plant::Config: its index among the configured plants.
#[derive(Clone, Copy, Debug, PartialEq, Eq, Structural)]
pub struct Conf(pub usize);

#[derive(Debug)]
pub struct Config {
    pub name: String,
    /// An `f32` bit pattern, if present.
    pub base_yield_duration: Option<u32>,
    pub skillpoint_unlock_xps: Vec<usize>,
    pub skills: Vec<Skill>,
}

/// A plant as written in its configuration file; its skills come from a file of their own.
#[derive(Debug)]
pub struct RawConfig {
    pub name: String,
    pub skillpoint_unlock_xps: Vec<usize>,
    /// An `f32` bit pattern, if present.
    pub base_yield_duration: Option<u32>,
    pub skills: FromFile<Vec<RawSkill>>,
}

#[derive(Clone, Debug)]
pub struct Plant {
    pub owner_id: SteaderId,
    pub tile_id: TileId,
    pub xp: usize,
    pub nickname: String,
    pub conf: Conf,
    /// Records how many items have been applied to this plant
    /// over its lifetime (including effects that wore off long ago)
    pub lifetime_rubs: usize,
    pub craft: Option<Craft>,
    /// Effects from potions, warp powder, etc. that actively change the behavior of this plant.
    pub rub_effects: Vec<RubEffect>,
    pub unlocked_skills: Vec<skill::Conf>,
}

/// `i` is the first position of a rub effect with this id.
pub open spec fn is_first_effect(effects: Seq<RubEffect>, id: RubEffectId, i: int) -> bool {
    &&& 0 <= i < effects.len()
    &&& effects[i].effect_id == id
    &&& forall|j: int| 0 <= j < i ==> effects[j].effect_id != id
}

/// Some rub effect has this id.
pub open spec fn has_effect(effects: Seq<RubEffect>, id: RubEffectId) -> bool {
    exists|i: int| 0 <= i < effects.len() && effects[i].effect_id == id
}

/// The first position of a rub effect with this id, if any.
fn find_effect(effects: &Vec<RubEffect>, id: RubEffectId) -> (r: Option<usize>)
    ensures
        r matches Some(i) ==> is_first_effect(effects@, id, i as int),
        r is None <==> !has_effect(effects@, id),
{
    let mut i: usize = 0;
    while i < effects.len()
        invariant
            i <= effects@.len(),
            forall|j: int| 0 <= j < i ==> effects@[j].effect_id != id,
        decreases effects@.len() - i,
    {
        if effects[i].effect_id == id {
            return Some(i);
        }
        i = i + 1;
    }
    None
}

impl Plant {
    /// A fresh plant of this kind on the tile, named after its kind.
    pub fn from_conf<S: IdentifiesSteader, T: IdentifiesTile>(iu: S, it: T, conf: Conf, config: &Config) -> (r: Self)
        ensures
            r.owner_id == iu.steader_id_spec(),
            r.tile_id == it.tile_id_spec(),
            r.xp == 0,
            r.nickname@ == config.name@,
            r.conf == conf,
            r.lifetime_rubs == 0,
            r.craft is None,
            r.rub_effects@.len() == 0,
            r.unlocked_skills@.len() == 0,
    {
        Self {
            owner_id: iu.steader_id(),
            tile_id: it.tile_id(),
            xp: 0,
            nickname: config.name.clone(),
            conf,
            lifetime_rubs: 0,
            craft: None,
            rub_effects: Vec::new(),
            unlocked_skills: Vec::new(),
        }
    }

    /// The rub effect with this id.
    pub fn rub_effect(&self, effect_id: RubEffectId) -> (r: NoSuchResult<&RubEffect>)
        ensures
            r matches Ok(e) ==> exists|i: int|
                is_first_effect(self.rub_effects@, effect_id, i) && *e == self.rub_effects@[i],
            r is Err <==> !has_effect(self.rub_effects@, effect_id),
            r matches Err(e) ==> e == NoSuch::Effect(
                NoSuchRubEffectOnPlant(self.owner_id, self.tile_id, effect_id),
            ),
    {
        match find_effect(&self.rub_effects, effect_id) {
            Some(i) => Ok(&self.rub_effects[i]),
            None => Err(NoSuch::Effect(NoSuchRubEffectOnPlant(self.owner_id, self.tile_id, effect_id))),
        }
    }

    /// The rub effect with this id, to change.
    pub fn rub_effect_mut(&mut self, effect_id: RubEffectId) -> (r: NoSuchResult<&mut RubEffect>)
        ensures
            r is Err <==> !has_effect(old(self).rub_effects@, effect_id),
            r is Err ==> r->Err_0 == NoSuch::Effect(
                NoSuchRubEffectOnPlant(old(self).owner_id, old(self).tile_id, effect_id),
            ) && *final(self) == *old(self),
            r is Ok ==> exists|i: int|
                is_first_effect(old(self).rub_effects@, effect_id, i) && *r->Ok_0
                    == old(self).rub_effects@[i] && final(self).rub_effects@
                    == old(self).rub_effects@.update(i, *final(r->Ok_0)) && *final(self) == (Plant {
                    rub_effects: final(self).rub_effects,
                    ..*old(self)
                }),
    {
        match find_effect(&self.rub_effects, effect_id) {
            Some(i) => Ok(&mut self.rub_effects[i]),
            None => Err(NoSuch::Effect(NoSuchRubEffectOnPlant(self.owner_id, self.tile_id, effect_id))),
        }
    }

    /// Removes the rub effect with this id; the last rub effect takes its place.
    pub fn take_rub_effect(&mut self, effect_id: RubEffectId) -> (r: NoSuchResult<RubEffect>)
        ensures
            r is Err <==> !has_effect(old(self).rub_effects@, effect_id),
            r is Err ==> r->Err_0 == NoSuch::Effect(
                NoSuchRubEffectOnPlant(old(self).owner_id, old(self).tile_id, effect_id),
            ) && *final(self) == *old(self),
            r is Ok ==> exists|i: int|
                is_first_effect(old(self).rub_effects@, effect_id, i) && r->Ok_0
                    == old(self).rub_effects@[i] && final(self).rub_effects@
                    == old(self).rub_effects@.update(i, old(self).rub_effects@.last()).drop_last()
                    && *final(self) == (Plant { rub_effects: final(self).rub_effects, ..*old(self) }),
    {
        match find_effect(&self.rub_effects, effect_id) {
            Some(i) => Ok(self.rub_effects.swap_remove(i)),
            None => Err(NoSuch::Effect(NoSuchRubEffectOnPlant(self.owner_id, self.tile_id, effect_id))),
        }
    }
}

#[derive(Clone, Copy, Debug, PartialEq, Eq, Structural)]
pub struct Craft {
    pub recipe_archetype_handle: usize,
}

/// Which plants an effect applies to, as written in a configuration file, by names.
#[derive(Clone, Debug)]
pub enum RawFilter {
    Only(Vec<String>),
    Not(Vec<String>),
    All,
}

impl RawFilter {
    /// A filter that lets every plant through.
    pub fn default() -> (r: Self)
        ensures
            r is All,
    {
        RawFilter::All
    }
}

/// `cs` are the confs of the plants named `ns` in `raw`, in order.
pub open spec fn confs_of(raw: &WholeRawConfig, ns: Seq<String>, cs: Seq<Conf>) -> bool {
    &&& cs.len() == ns.len()
    &&& forall|i: int| 0 <= i < ns.len() ==> cs[i] == raw.plant_conf_spec(#[trigger] ns[i]@)
}

/// The word naming a filter's kind.
pub open spec fn filter_word(f: &RawFilter) -> Seq<char> {
    match f {
        RawFilter::Only(_) => "only"@,
        RawFilter::Not(_) => "not"@,
        RawFilter::All => "all"@,
    }
}

impl Verify for RawFilter {
    type Verified = Filter;

    open spec fn checkable(&self, raw: &WholeRawConfig) -> bool {
        true
    }

    open spec fn resolves(&self, raw: &WholeRawConfig) -> bool {
        match self {
            RawFilter::Only(ns) => all_known(texts(ns@), raw.plant_names()),
            RawFilter::Not(ns) => all_known(texts(ns@), raw.plant_names()),
            RawFilter::All => true,
        }
    }

    open spec fn resolved_as(&self, raw: &WholeRawConfig, v: Filter) -> bool {
        match (self, v) {
            (RawFilter::Only(ns), Filter::Only(cs)) => confs_of(raw, ns@, cs@),
            (RawFilter::Not(ns), Filter::Not(cs)) => confs_of(raw, ns@, cs@),
            (RawFilter::All, Filter::All) => true,
            _ => false,
        }
    }

    open spec fn error_spec(&self, raw: &WholeRawConfig) -> (Problem, Seq<Seq<char>>) {
        match self {
            RawFilter::Only(ns) => (
                Problem::UnknownPlant(ns@[first_missing(texts(ns@), raw.plant_names())]@),
                Seq::empty(),
            ),
            RawFilter::Not(ns) => (
                Problem::UnknownPlant(ns@[first_missing(texts(ns@), raw.plant_names())]@),
                Seq::empty(),
            ),
            RawFilter::All => (Problem::Custom(Seq::empty()), Seq::empty()),
        }
    }

    open spec fn context_spec(&self) -> Option<Seq<char>> {
        Some("in a "@ + filter_word(self) + " filter"@)
    }

    fn verify_raw(self, raw: &WholeRawConfig) -> (r: VerifResult<Filter>) {
        self.resolve_raw(raw)
    }

    fn context(&self) -> (r: Option<String>) {
        Some(self.note())
    }
}

impl RawFilter {
    /// Replaces each plant name by its plant's conf; the first unknown name is an error.
    pub fn resolve_raw(&self, raw: &WholeRawConfig) -> (r: VerifResult<Filter>)
        ensures
            r is Ok <==> self.resolves(raw),
            r matches Ok(v) ==> self.resolved_as(raw, v),
            r matches Err(e) ==> e@ == self.error_spec(raw),
    {
        match self {
            RawFilter::Only(these) => match plant_confs(raw, these) {
                Ok(cs) => Ok(Filter::Only(cs)),
                Err(e) => Err(e),
            },
            RawFilter::Not(these) => match plant_confs(raw, these) {
                Ok(cs) => Ok(Filter::Not(cs)),
                Err(e) => Err(e),
            },
            RawFilter::All => Ok(Filter::All),
        }
    }

    /// The note an error found in this filter gains.
    pub fn note(&self) -> (r: String)
        ensures
            self.context_spec() == Some(r@),
    {
        let word = match self {
            RawFilter::Only(_) => "only",
            RawFilter::Not(_) => "not",
            RawFilter::All => "all",
        };
        let mut s = concat("in a ", word);
        push_str(&mut s, " filter");
        s
    }

    /// As `resolve_raw`, an error gaining this filter's note.
    pub fn resolve(&self, raw: &WholeRawConfig) -> (r: VerifResult<Filter>)
        ensures
            r is Ok <==> self.resolves(raw),
            r matches Ok(v) ==> self.resolved_as(raw, v),
            r matches Err(e) ==> e@ == noted_error(*self, raw),
    {
        let note = self.note();
        match self.resolve_raw(raw) {
            Ok(f) => Ok(f),
            Err(e) => Err(e.noted(note)),
        }
    }
}

/// Which plants an effect applies to.
#[derive(Clone, Debug)]
pub enum Filter {
    Only(Vec<Conf>),
    Not(Vec<Conf>),
    All,
}

impl Filter {
    /// Whether the filter lets this plant kind through.
    pub open spec fn allows_spec(&self, c: Conf) -> bool {
        match self {
            Filter::Only(these) => these@.contains(c),
            Filter::Not(these) => !these@.contains(c),
            Filter::All => true,
        }
    }

    /// A filter that lets every plant through.
    pub fn default() -> (r: Self)
        ensures
            r is All,
    {
        Filter::All
    }

    pub fn allows(&self, c: Conf) -> (r: bool)
        ensures
            r == self.allows_spec(c),
    {
        match self {
            Filter::Only(these) => contains_conf(these, c),
            Filter::Not(these) => !contains_conf(these, c),
            Filter::All => true,
        }
    }
}

/// Whether `c` is among `these`.
fn contains_conf(these: &Vec<Conf>, c: Conf) -> (r: bool)
    ensures
        r == these@.contains(c),
{
    let mut i: usize = 0;
    while i < these.len()
        invariant
            i <= these@.len(),
            forall|j: int| 0 <= j < i ==> these@[j] != c,
        decreases these@.len() - i,
    {
        if these[i] == c {
            assert(these@[i as int] == c);
            return true;
        }
        i = i + 1;
    }
    false
}

/// A recipe as written in a configuration file, naming items by name.
#[derive(Debug)]
pub struct RawRecipe {
    pub title: String,
    /// The name of the item whose art the recipe shows.
    pub art: String,
    pub explanation: String,
    pub destroys_plant: bool,
    /// An `f32` bit pattern.
    pub time: u32,
    pub needs: Vec<(usize, String)>,
    pub makes: RawEvalput,
}

#[derive(Debug)]
pub struct Recipe {
    pub title: String,
    pub art: item::Conf,
    pub explanation: String,
    pub destroys_plant: bool,
    /// An `f32` bit pattern.
    pub time: u32,
    pub needs: Vec<(usize, item::Conf)>,
    pub makes: Evalput<item::Conf>,
}

} // verus!
