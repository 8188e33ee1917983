//! The archetype configuration: plants, possessions, their advancements and recipes,
//! lookups by name, and the check that every name the configuration uses resolves.
//!
//! `f32` values of the configuration (durations, chances, multipliers) are held
//! as their IEEE-754 bit patterns; the logic here only carries them.

use vstd::prelude::*;
use vstd::std_specs::cmp::PartialEqSpecImpl;

pub mod advancement;
pub mod recipe;
pub mod sums;
pub mod plant_sums;
pub mod check;

pub use advancement::{Advancement, AdvancementSet};
pub use recipe::{Recipe, RecipeMakes, SpawnRate};

verus! {

/// `i` is the first position of `name` in `names`.
pub open spec fn is_first_named(names: Seq<Seq<char>>, name: Seq<char>, i: int) -> bool {
    &&& 0 <= i < names.len()
    &&& names[i] == name
    &&& forall|j: int| 0 <= j < i ==> names[j] != name
}

#[derive(Clone, Debug)]
pub enum ConfigError {
    UnknownArchetypeName(String),
}

pub type LootTableHandle = usize;

pub type LootTable = Vec<(SpawnRate, String)>;

// I should _really_ use a different version of this for PlantArchetypes and PossessionArchetypes ...
pub type ArchetypeHandle = usize;

#[derive(Debug)]
pub struct Config {
    pub special_users: Vec<String>,
    pub profile_archetype: ProfileArchetype,
    pub plant_archetypes: Vec<PlantArchetype>,
    pub possession_archetypes: Vec<Archetype>,
}

#[derive(Clone, Debug)]
pub struct ProfileArchetype {
    pub advancements: AdvancementSet<HacksteadAdvancementKind>,
}

pub type HacksteadAdvancement = Advancement<HacksteadAdvancementKind>;

pub type HacksteadAdvancementSet = AdvancementSet<HacksteadAdvancementKind>;

#[derive(Clone, Copy, Debug, PartialEq, Eq, Structural)]
pub enum HacksteadAdvancementKind {
    Land { pieces: u32 },
}

#[derive(Clone, Copy, Debug, PartialEq, Eq, Structural)]
pub struct HacksteadAdvancementSum {
    pub land: u32,
    pub xp: u64,
}

#[derive(Debug)]
pub struct GotchiArchetype {
    pub base_happiness: u64,
    pub plant_effects: Vec<(String, PlantAdvancement)>,
    pub hatch_table: Option<LootTable>,
    pub welcome_gift: bool,
}

#[derive(Clone, Debug)]
pub struct SeedArchetype {
    pub grows_into: String,
}

#[derive(Clone, Copy, Debug, PartialEq, Eq, Structural)]
pub struct LandUnlock {
    pub requires_xp: bool,
}

#[derive(Debug)]
pub struct ItemApplication {
    pub short_description: String,
    pub advancements: Vec<ItemApplicationAdvancement>,
}

#[derive(Debug)]
pub struct ItemApplicationAdvancement {
    /// An `f32` bit pattern.
    pub duration: u32,
    pub effect: PlantAdvancement,
}

#[derive(Debug)]
pub struct KeepsakeArchetype {
    pub unlocks_land: Option<LandUnlock>,
    pub plant_effects: Vec<(String, PlantAdvancement)>,
    pub item_application: Option<ItemApplication>,
}

#[derive(Debug)]
pub enum ArchetypeKind {
    Gotchi(GotchiArchetype),
    Seed(SeedArchetype),
    Keepsake(KeepsakeArchetype),
}

/// The shelf a possession is shown on: gotchis apart, everything else together.
#[derive(Clone, Copy, Debug, PartialEq, Eq, Structural)]
pub enum Category {
    Gotchi,
    Misc,
}

impl ArchetypeKind {
    /// Gotchis are shown apart; everything else is miscellaneous.
    pub fn category(&self) -> (r: Category)
        ensures
            r == (if self is Gotchi {
                Category::Gotchi
            } else {
                Category::Misc
            }),
    {
        match self {
            ArchetypeKind::Gotchi(_) => Category::Gotchi,
            _ => Category::Misc,
        }
    }

    pub fn keepsake(&self) -> (r: Option<&KeepsakeArchetype>)
        ensures
            r matches Some(k) ==> *self == ArchetypeKind::Keepsake(*k),
            r is None <==> !(self is Keepsake),
    {
        match self {
            ArchetypeKind::Keepsake(k) => Some(k),
            _ => None,
        }
    }

    pub fn gotchi(&self) -> (r: Option<&GotchiArchetype>)
        ensures
            r matches Some(g) ==> *self == ArchetypeKind::Gotchi(*g),
            r is None <==> !(self is Gotchi),
    {
        match self {
            ArchetypeKind::Gotchi(g) => Some(g),
            _ => None,
        }
    }
}

#[derive(Debug)]
pub struct Archetype {
    pub name: String,
    pub description: String,
    pub kind: ArchetypeKind,
}

#[derive(Debug)]
pub struct PlantArchetype {
    pub name: String,
    /// An `f32` bit pattern, if present.
    pub base_yield_duration: Option<u32>,
    pub advancements: AdvancementSet<PlantAdvancementKind>,
}

impl Eq for PlantArchetype {}

/// Plant archetypes are told apart by name alone.
impl PartialEq for PlantArchetype {
    fn eq(&self, other: &Self) -> (r: bool) {
        self.name == other.name
    }
}

impl PartialEqSpecImpl for PlantArchetype {
    open spec fn obeys_eq_spec() -> bool {
        true
    }

    open spec fn eq_spec(&self, other: &Self) -> bool {
        self.name@ == other.name@
    }
}

pub type PlantAdvancement = Advancement<PlantAdvancementKind>;

pub type PlantAdvancementSet = AdvancementSet<PlantAdvancementKind>;

/// A leading chance, then a min and max percent of things returned; `f32` bit patterns.
#[derive(Clone, Copy, Debug, PartialEq, Eq)]
pub struct CraftReturnChance(pub u32, pub (u32, u32));

/// What a plant advancement does. The numbers are `f32` bit patterns.
#[derive(Debug, PartialEq)]
pub enum PlantAdvancementKind {
    Neighbor(Box<PlantAdvancementKind>),
    /// Stores the number of extra cycles to add for the duration of the effect
    TimeAcceleration(u32),
    Xp(u32),
    YieldSpeed(u32),
    YieldSize(u32),
    Yield(Vec<(SpawnRate, String)>),
    Craft(Vec<Recipe<String>>),
    CraftReturn(CraftReturnChance),
    DoubleCraftYield(u32),
}

impl Config {
    /// The names of the plant archetypes, in order.
    pub open spec fn plant_names(&self) -> Seq<Seq<char>> {
        self.plant_archetypes@.map_values(|p: PlantArchetype| p.name@)
    }

    /// The names of the possession archetypes, in order.
    pub open spec fn possession_names(&self) -> Seq<Seq<char>> {
        self.possession_archetypes@.map_values(|a: Archetype| a.name@)
    }

    pub open spec fn has_plant(&self, name: Seq<char>) -> bool {
        self.plant_names().contains(name)
    }

    pub open spec fn has_possession(&self, name: Seq<char>) -> bool {
        self.possession_names().contains(name)
    }

    /// The handle of the first plant archetype with this name.
    pub fn find_plant_handle(&self, name: &str) -> (r: Result<ArchetypeHandle, ConfigError>)
        ensures
            r matches Ok(i) ==> is_first_named(self.plant_names(), name@, i as int),
            r is Err <==> !self.has_plant(name@),
            r matches Err(ConfigError::UnknownArchetypeName(n)) ==> n@ == name@,
    {
        let target = name.to_owned();
        let mut i: usize = 0;
        while i < self.plant_archetypes.len()
            invariant
                target@ == name@,
                i <= self.plant_archetypes@.len(),
                forall|j: int| 0 <= j < i ==> self.plant_names()[j] != name@,
            decreases self.plant_archetypes@.len() - i,
        {
            if self.plant_archetypes[i].name == target {
                assert(self.plant_names()[i as int] == name@);
                return Ok(i);
            }
            i = i + 1;
        }
        assert forall|j: int| 0 <= j < self.plant_names().len() implies self.plant_names()[j]
            != name@ by {}
        Err(ConfigError::UnknownArchetypeName(target))
    }

    /// The first plant archetype with this name.
    pub fn find_plant(&self, name: &str) -> (r: Result<&PlantArchetype, ConfigError>)
        ensures
            r matches Ok(p) ==> exists|i: int|
                is_first_named(self.plant_names(), name@, i) && *p == self.plant_archetypes@[i],
            r is Err <==> !self.has_plant(name@),
            r matches Err(ConfigError::UnknownArchetypeName(n)) ==> n@ == name@,
    {
        match self.find_plant_handle(name) {
            Ok(i) => Ok(&self.plant_archetypes[i]),
            Err(e) => Err(e),
        }
    }

    /// The handle of the first possession archetype with this name.
    pub fn find_possession_handle(&self, name: &str) -> (r: Result<ArchetypeHandle, ConfigError>)
        ensures
            r matches Ok(i) ==> is_first_named(self.possession_names(), name@, i as int),
            r is Err <==> !self.has_possession(name@),
            r matches Err(ConfigError::UnknownArchetypeName(n)) ==> n@ == name@,
    {
        let target = name.to_owned();
        let mut i: usize = 0;
        while i < self.possession_archetypes.len()
            invariant
                target@ == name@,
                i <= self.possession_archetypes@.len(),
                forall|j: int| 0 <= j < i ==> self.possession_names()[j] != name@,
            decreases self.possession_archetypes@.len() - i,
        {
            if self.possession_archetypes[i].name == target {
                assert(self.possession_names()[i as int] == name@);
                return Ok(i);
            }
            i = i + 1;
        }
        assert forall|j: int| 0 <= j < self.possession_names().len() implies self.possession_names()[j]
            != name@ by {}
        Err(ConfigError::UnknownArchetypeName(target))
    }

    /// The first possession archetype with this name.
    pub fn find_possession(&self, name: &str) -> (r: Result<&Archetype, ConfigError>)
        ensures
            r matches Ok(a) ==> exists|i: int|
                is_first_named(self.possession_names(), name@, i) && *a == self.possession_archetypes@[i],
            r is Err <==> !self.has_possession(name@),
            r matches Err(ConfigError::UnknownArchetypeName(n)) ==> n@ == name@,
    {
        match self.find_possession_handle(name) {
            Ok(i) => Ok(&self.possession_archetypes[i]),
            Err(e) => Err(e),
        }
    }
}

} // verus!
