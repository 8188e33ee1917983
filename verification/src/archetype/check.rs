//! In the config, you can specify the names of archetypes, and a name may be
//! spelled wrong. This module checks that every name the config uses resolves.

use vstd::prelude::*;
use super::{Archetype, ArchetypeKind, Config, PlantAdvancement, PlantAdvancementKind, Recipe,
    RecipeMakes, SpawnRate};
use super::recipe::need_names;
use crate::config::verify::{all_known, first_missing, is_first_missing, lemma_first_missing_unique};

verus! {

/// A name the config uses that resolves to no archetype, with where it was found.
#[derive(Debug)]
pub enum ArchetypeNameError {
    /// A seed claims it grows into an unknown plant archetype.
    SeedGrowsIntoUnknownPlant { seed: String, plant: String },
    /// A gotchi claims it hatches into an unknown possession archetype.
    GotchiHatchesIntoUnknownPossession { gotchi: String, possession: String },
    /// A gotchi claims it affects an unknown plant archetype.
    GotchiAffectsUnknownPlant { gotchi: String, plant: String },
    /// A yield advancement of a plant includes an unknown resource.
    YieldIncludesUnknownResource { advancement: String, plant: String, resource: String },
    /// A crafting advancement of a plant produces an unknown resource.
    CraftProducesUnknownResource { advancement: String, plant: String, resource: String },
    /// A crafting advancement of a plant uses an unknown resource in a recipe.
    CraftUsesUnknownResource {
        advancement: String,
        plant: String,
        resource: String,
        makes: RecipeMakes<String>,
    },
}

/// What a recipe makes, with each name as characters.
pub enum MakesView {
    Just(usize, Seq<char>),
    OneOf(Seq<(u32, Seq<char>)>),
    AllOf(Seq<(usize, Seq<char>)>),
}

impl View for RecipeMakes<String> {
    type V = MakesView;

    open spec fn view(&self) -> MakesView {
        match self {
            RecipeMakes::Just(n, h) => MakesView::Just(*n, h@),
            RecipeMakes::OneOf(v) => MakesView::OneOf(v@.map_values(|p: (u32, String)| (p.0, p.1@))),
            RecipeMakes::AllOf(v) => MakesView::AllOf(v@.map_values(|p: (usize, String)| (p.0, p.1@))),
        }
    }
}

/// The same recipe output, as a new value.
fn copy_makes(m: &RecipeMakes<String>) -> (r: RecipeMakes<String>)
    ensures
        r@ == m@,
{
    match m {
        RecipeMakes::Just(n, h) => RecipeMakes::Just(*n, h.clone()),
        RecipeMakes::OneOf(v) => {
            let mut out: Vec<(u32, String)> = Vec::new();
            let mut i: usize = 0;
            while i < v.len()
                invariant
                    i <= v@.len(),
                    out@.len() == i,
                    forall|j: int| 0 <= j < i ==> (#[trigger] out@[j]).0 == v@[j].0 && out@[j].1@ == v@[j].1@,
                decreases v@.len() - i,
            {
                out.push((v[i].0, v[i].1.clone()));
                i = i + 1;
            }
            let r = RecipeMakes::OneOf(out);
            assert(out@.map_values(|p: (u32, String)| (p.0, p.1@)) =~= v@.map_values(
                |p: (u32, String)| (p.0, p.1@),
            ));
            r
        },
        RecipeMakes::AllOf(v) => {
            let mut out: Vec<(usize, String)> = Vec::new();
            let mut i: usize = 0;
            while i < v.len()
                invariant
                    i <= v@.len(),
                    out@.len() == i,
                    forall|j: int| 0 <= j < i ==> (#[trigger] out@[j]).0 == v@[j].0 && out@[j].1@ == v@[j].1@,
                decreases v@.len() - i,
            {
                out.push((v[i].0, v[i].1.clone()));
                i = i + 1;
            }
            let r = RecipeMakes::AllOf(out);
            assert(out@.map_values(|p: (usize, String)| (p.0, p.1@)) =~= v@.map_values(
                |p: (usize, String)| (p.0, p.1@),
            ));
            r
        },
    }
}

/// An unresolved name, with where it was found, each name as characters.
pub enum NameProblem {
    SeedGrowsIntoUnknownPlant(Seq<char>, Seq<char>),
    GotchiHatchesIntoUnknownPossession(Seq<char>, Seq<char>),
    GotchiAffectsUnknownPlant(Seq<char>, Seq<char>),
    YieldIncludesUnknownResource(Seq<char>, Seq<char>, Seq<char>),
    CraftProducesUnknownResource(Seq<char>, Seq<char>, Seq<char>),
    CraftUsesUnknownResource(Seq<char>, Seq<char>, Seq<char>, MakesView),
}

impl View for ArchetypeNameError {
    type V = NameProblem;

    open spec fn view(&self) -> NameProblem {
        match self {
            ArchetypeNameError::SeedGrowsIntoUnknownPlant { seed, plant } => NameProblem::SeedGrowsIntoUnknownPlant(
                seed@,
                plant@,
            ),
            ArchetypeNameError::GotchiHatchesIntoUnknownPossession {
                gotchi,
                possession,
            } => NameProblem::GotchiHatchesIntoUnknownPossession(gotchi@, possession@),
            ArchetypeNameError::GotchiAffectsUnknownPlant { gotchi, plant } => NameProblem::GotchiAffectsUnknownPlant(
                gotchi@,
                plant@,
            ),
            ArchetypeNameError::YieldIncludesUnknownResource {
                advancement,
                plant,
                resource,
            } => NameProblem::YieldIncludesUnknownResource(advancement@, plant@, resource@),
            ArchetypeNameError::CraftProducesUnknownResource {
                advancement,
                plant,
                resource,
            } => NameProblem::CraftProducesUnknownResource(advancement@, plant@, resource@),
            ArchetypeNameError::CraftUsesUnknownResource {
                advancement,
                plant,
                resource,
                makes,
            } => NameProblem::CraftUsesUnknownResource(advancement@, plant@, resource@, makes@),
        }
    }
}

/// The possession names of a loot table, in order.
pub open spec fn table_names(t: Seq<(SpawnRate, String)>) -> Seq<Seq<char>> {
    t.map_values(|p: (SpawnRate, String)| p.1@)
}

/// The plant names of a list of plant effects, in order.
pub open spec fn effect_names(v: Seq<(String, PlantAdvancement)>) -> Seq<Seq<char>> {
    v.map_values(|p: (String, PlantAdvancement)| p.0@)
}

/// The first name of `names` that is not among `known`.
pub open spec fn first_unknown(names: Seq<Seq<char>>, known: Seq<Seq<char>>) -> Seq<char> {
    names[first_missing(names, known)]
}

/// Every possession in a loot table is known.
pub open spec fn table_resolves(c: Config, t: Seq<(SpawnRate, String)>) -> bool {
    forall|k: int| 0 <= k < t.len() ==> c.has_possession(#[trigger] t[k].1@)
}

/// Every plant a list of plant effects names is known.
pub open spec fn effects_resolve(c: Config, v: Seq<(String, PlantAdvancement)>) -> bool {
    forall|k: int| 0 <= k < v.len() ==> c.has_plant(#[trigger] v[k].0@)
}

/// Every possession a recipe needs is known.
pub open spec fn needs_resolve(c: Config, v: Seq<(usize, String)>) -> bool {
    forall|k: int| 0 <= k < v.len() ==> c.has_possession(#[trigger] v[k].1@)
}

/// Every name a recipe uses is known.
pub open spec fn recipe_resolves(c: Config, r: Recipe<String>) -> bool {
    r.makes.names_resolve(c) && needs_resolve(c, r.needs@)
}

/// Every name a possession archetype uses is known.
pub open spec fn archetype_resolves(c: Config, a: Archetype) -> bool {
    match a.kind {
        ArchetypeKind::Seed(sa) => c.has_plant(sa.grows_into@),
        ArchetypeKind::Gotchi(ga) => {
            &&& (ga.hatch_table matches Some(t) ==> table_resolves(c, t@))
            &&& effects_resolve(c, ga.plant_effects@)
        },
        ArchetypeKind::Keepsake(_) => true,
    }
}

/// Some plant archetype of `c` is named `n`.
pub open spec fn names_plant_archetype(c: Config, n: Seq<char>) -> bool {
    exists|p: int| 0 <= p < c.plant_archetypes@.len() && (#[trigger] c.plant_archetypes@[p]).name@ == n
}

/// Some possession archetype of `c` is named `n`.
pub open spec fn names_possession_archetype(c: Config, n: Seq<char>) -> bool {
    exists|p: int| 0 <= p < c.possession_archetypes@.len() && (#[trigger] c.possession_archetypes@[p]).name@ == n
}

proof fn lemma_has_plant_names_one(c: Config, n: Seq<char>)
    ensures
        c.has_plant(n) <==> names_plant_archetype(c, n),
{
    if c.has_plant(n) {
        let p = choose|p: int| 0 <= p < c.plant_names().len() && c.plant_names()[p] == n;
        assert(c.plant_archetypes@[p].name@ == n);
    }
    if names_plant_archetype(c, n) {
        let p = choose|p: int| 0 <= p < c.plant_archetypes@.len() && (#[trigger] c.plant_archetypes@[p]).name@ == n;
        assert(c.plant_names()[p] == n);
    }
}

proof fn lemma_has_possession_names_one(c: Config, n: Seq<char>)
    ensures
        c.has_possession(n) <==> names_possession_archetype(c, n),
{
    if c.has_possession(n) {
        let p = choose|p: int| 0 <= p < c.possession_names().len() && c.possession_names()[p] == n;
        assert(c.possession_archetypes@[p].name@ == n);
    }
    if names_possession_archetype(c, n) {
        let p = choose|p: int|
            0 <= p < c.possession_archetypes@.len() && (#[trigger] c.possession_archetypes@[p]).name@ == n;
        assert(c.possession_names()[p] == n);
    }
}

/// A gotchi archetype resolves exactly when every plant its plant effects name
/// is the name of a plant archetype, whether or not it has a hatch table, and
/// its hatch table, when it has one, names only possession archetypes.
pub proof fn law_gotchi_effects_must_name_plants(c: Config, a: Archetype)
    requires
        a.kind is Gotchi,
    ensures
        archetype_resolves(c, a) <==> {
            &&& forall|k: int|
                0 <= k < a.kind->Gotchi_0.plant_effects@.len() ==> names_plant_archetype(
                    c,
                    (#[trigger] a.kind->Gotchi_0.plant_effects@[k]).0@,
                )
            &&& (a.kind->Gotchi_0.hatch_table matches Some(t) ==> forall|k: int|
                0 <= k < t@.len() ==> names_possession_archetype(c, (#[trigger] t@[k]).1@))
        },
{
    let ga = a.kind->Gotchi_0;
    assert forall|k: int| 0 <= k < ga.plant_effects@.len() implies (c.has_plant(
        (#[trigger] ga.plant_effects@[k]).0@,
    ) <==> names_plant_archetype(c, ga.plant_effects@[k].0@)) by {
        lemma_has_plant_names_one(c, ga.plant_effects@[k].0@);
    }
    if let Some(t) = ga.hatch_table {
        assert forall|k: int| 0 <= k < t@.len() implies (c.has_possession((#[trigger] t@[k]).1@)
            <==> names_possession_archetype(c, t@[k].1@)) by {
            lemma_has_possession_names_one(c, t@[k].1@);
        }
    }
}

/// Every name a plant advancement uses is known (neighbor advancements are not looked into).
pub open spec fn advancement_resolves(c: Config, adv: PlantAdvancement) -> bool {
    match adv.kind {
        PlantAdvancementKind::Yield(resources) => table_resolves(c, resources@),
        PlantAdvancementKind::Craft(recipes) => forall|k: int|
            0 <= k < recipes@.len() ==> recipe_resolves(c, #[trigger] recipes@[k]),
        _ => true,
    }
}

/// Every name the config uses resolves.
pub open spec fn names_resolve(c: Config) -> bool {
    &&& forall|i: int|
        0 <= i < c.possession_archetypes@.len() ==> archetype_resolves(
            c,
            #[trigger] c.possession_archetypes@[i],
        )
    &&& forall|i: int, j: int|
        0 <= i < c.plant_archetypes@.len() && 0 <= j < c.plant_archetypes@[i].advancements.all_spec().len()
            ==> advancement_resolves(c, #[trigger] c.plant_archetypes@[i].advancements.all_spec()[j])
}

/// `i` is the first possession archetype with a name that does not resolve.
pub open spec fn is_first_bad_archetype(c: Config, i: int) -> bool {
    &&& 0 <= i < c.possession_archetypes@.len()
    &&& !archetype_resolves(c, c.possession_archetypes@[i])
    &&& forall|j: int| 0 <= j < i ==> archetype_resolves(c, #[trigger] c.possession_archetypes@[j])
}

/// The `j`th advancement of the `p`th plant archetype is the first, plant by
/// plant, with a name that does not resolve.
pub open spec fn is_first_bad_advancement(c: Config, p: int, j: int) -> bool {
    &&& 0 <= p < c.plant_archetypes@.len()
    &&& 0 <= j < c.plant_archetypes@[p].advancements.all_spec().len()
    &&& !advancement_resolves(c, c.plant_archetypes@[p].advancements.all_spec()[j])
    &&& forall|q: int, k: int|
        0 <= q < p && 0 <= k < c.plant_archetypes@[q].advancements.all_spec().len() ==> advancement_resolves(
            c,
            #[trigger] c.plant_archetypes@[q].advancements.all_spec()[k],
        )
    &&& forall|k: int|
        0 <= k < j ==> advancement_resolves(c, #[trigger] c.plant_archetypes@[p].advancements.all_spec()[k])
}

/// `k` is the first recipe of `rs` with a name that does not resolve.
pub open spec fn is_first_bad_recipe(c: Config, rs: Seq<Recipe<String>>, k: int) -> bool {
    &&& 0 <= k < rs.len()
    &&& !recipe_resolves(c, rs[k])
    &&& forall|j: int| 0 <= j < k ==> recipe_resolves(c, #[trigger] rs[j])
}

pub open spec fn first_bad_recipe(c: Config, rs: Seq<Recipe<String>>) -> int {
    choose|k: int| is_first_bad_recipe(c, rs, k)
}

pub proof fn lemma_first_bad_recipe_unique(c: Config, rs: Seq<Recipe<String>>, k: int)
    requires
        is_first_bad_recipe(c, rs, k),
    ensures
        first_bad_recipe(c, rs) == k,
{
    let m = first_bad_recipe(c, rs);
    assert(is_first_bad_recipe(c, rs, m));
    if m < k {
        assert(recipe_resolves(c, rs[m]));
    } else if k < m {
        assert(recipe_resolves(c, rs[k]));
    }
}

pub proof fn lemma_first_bad_archetype_unique(c: Config, i: int)
    requires
        is_first_bad_archetype(c, i),
    ensures
        (choose|m: int| is_first_bad_archetype(c, m)) == i,
{
    let m = choose|m: int| is_first_bad_archetype(c, m);
    assert(is_first_bad_archetype(c, m));
    if m < i {
        assert(archetype_resolves(c, c.possession_archetypes@[m]));
    } else if i < m {
        assert(archetype_resolves(c, c.possession_archetypes@[i]));
    }
}

pub proof fn lemma_first_bad_advancement_unique(c: Config, p: int, j: int)
    requires
        is_first_bad_advancement(c, p, j),
    ensures
        (choose|q: int, k: int| is_first_bad_advancement(c, q, k)) == (p, j),
{
    let (q, k) = choose|q: int, k: int| is_first_bad_advancement(c, q, k);
    assert(is_first_bad_advancement(c, q, k));
    if q < p {
        assert(advancement_resolves(c, c.plant_archetypes@[q].advancements.all_spec()[k]));
    } else if p < q {
        assert(advancement_resolves(c, c.plant_archetypes@[p].advancements.all_spec()[j]));
    } else if k < j {
        assert(advancement_resolves(c, c.plant_archetypes@[p].advancements.all_spec()[k]));
    } else if j < k {
        assert(advancement_resolves(c, c.plant_archetypes@[q].advancements.all_spec()[j]));
    }
}

/// The error a possession archetype with an unresolved name gives: for a
/// gotchi, its loot table is looked into before the plants it affects.
pub open spec fn archetype_problem(c: Config, a: Archetype) -> NameProblem {
    match a.kind {
        ArchetypeKind::Gotchi(ga) => {
            let hatch_bad = match ga.hatch_table {
                Some(t) => !table_resolves(c, t@),
                None => false,
            };
            if hatch_bad {
                NameProblem::GotchiHatchesIntoUnknownPossession(
                    a.name@,
                    first_unknown(table_names(ga.hatch_table.unwrap()@), c.possession_names()),
                )
            } else {
                NameProblem::GotchiAffectsUnknownPlant(
                    a.name@,
                    first_unknown(effect_names(ga.plant_effects@), c.plant_names()),
                )
            }
        },
        ArchetypeKind::Seed(sa) => NameProblem::SeedGrowsIntoUnknownPlant(a.name@, sa.grows_into@),
        ArchetypeKind::Keepsake(_) => NameProblem::SeedGrowsIntoUnknownPlant(a.name@, Seq::empty()),
    }
}

/// The error a plant advancement with an unresolved name gives: in the first
/// recipe with one, what it makes is looked into before what it needs.
pub open spec fn advancement_problem(c: Config, plant: Seq<char>, adv: PlantAdvancement) -> NameProblem {
    match adv.kind {
        PlantAdvancementKind::Yield(rs) => NameProblem::YieldIncludesUnknownResource(
            adv.title@,
            plant,
            first_unknown(table_names(rs@), c.possession_names()),
        ),
        PlantAdvancementKind::Craft(recipes) => {
            let r = recipes@[first_bad_recipe(c, recipes@)];
            if !r.makes.names_resolve(c) {
                NameProblem::CraftProducesUnknownResource(
                    adv.title@,
                    plant,
                    first_unknown(r.makes.names(), c.possession_names()),
                )
            } else {
                NameProblem::CraftUsesUnknownResource(
                    adv.title@,
                    plant,
                    first_unknown(need_names(r.needs@), c.possession_names()),
                    r.makes@,
                )
            }
        },
        _ => NameProblem::YieldIncludesUnknownResource(adv.title@, plant, Seq::empty()),
    }
}

/// The error checking the config's names gives: the first possession
/// archetype with an unresolved name, or else the first plant advancement.
pub open spec fn name_problem(c: Config) -> NameProblem {
    if exists|i: int| is_first_bad_archetype(c, i) {
        archetype_problem(c, c.possession_archetypes@[choose|i: int| is_first_bad_archetype(c, i)])
    } else {
        let (p, j) = choose|p: int, j: int| is_first_bad_advancement(c, p, j);
        advancement_problem(
            c,
            c.plant_archetypes@[p].name@,
            c.plant_archetypes@[p].advancements.all_spec()[j],
        )
    }
}

/// The name an error reports as unknown is indeed unknown.
pub open spec fn error_is_genuine(c: Config, e: ArchetypeNameError) -> bool {
    match e {
        ArchetypeNameError::SeedGrowsIntoUnknownPlant { plant, .. } => !c.has_plant(plant@),
        ArchetypeNameError::GotchiHatchesIntoUnknownPossession { possession, .. } => !c.has_possession(possession@),
        ArchetypeNameError::GotchiAffectsUnknownPlant { plant, .. } => !c.has_plant(plant@),
        ArchetypeNameError::YieldIncludesUnknownResource { resource, .. } => !c.has_possession(resource@),
        ArchetypeNameError::CraftProducesUnknownResource { resource, .. } => !c.has_possession(resource@),
        ArchetypeNameError::CraftUsesUnknownResource { resource, .. } => !c.has_possession(resource@),
    }
}

/// The first possession of a loot table that the config does not know.
fn first_unknown_in_table(config: &Config, t: &Vec<(SpawnRate, String)>) -> (r: Option<String>)
    ensures
        r is None <==> table_resolves(*config, t@),
        r matches Some(n) ==> !config.has_possession(n@),
        r matches Some(n) ==> n@ == first_unknown(table_names(t@), config.possession_names()),
{
    let mut k: usize = 0;
    while k < t.len()
        invariant
            k <= t@.len(),
            forall|j: int| 0 <= j < k ==> config.has_possession(#[trigger] t@[j].1@),
        decreases t@.len() - k,
    {
        if config.find_possession(t[k].1.as_str()).is_err() {
            proof {
                assert(is_first_missing(table_names(t@), config.possession_names(), k as int));
                lemma_first_missing_unique(table_names(t@), config.possession_names(), k as int);
            }
            return Some(t[k].1.clone());
        }
        k = k + 1;
    }
    None
}

/// The first plant of a list of plant effects that the config does not know.
fn first_unknown_in_effects(config: &Config, v: &Vec<(String, PlantAdvancement)>) -> (r: Option<String>)
    ensures
        r is None <==> effects_resolve(*config, v@),
        r matches Some(n) ==> !config.has_plant(n@),
        r matches Some(n) ==> n@ == first_unknown(effect_names(v@), config.plant_names()),
{
    let mut k: usize = 0;
    while k < v.len()
        invariant
            k <= v@.len(),
            forall|j: int| 0 <= j < k ==> config.has_plant(#[trigger] v@[j].0@),
        decreases v@.len() - k,
    {
        if config.find_plant(v[k].0.as_str()).is_err() {
            proof {
                assert(is_first_missing(effect_names(v@), config.plant_names(), k as int));
                lemma_first_missing_unique(effect_names(v@), config.plant_names(), k as int);
            }
            return Some(v[k].0.clone());
        }
        k = k + 1;
    }
    None
}

/// The first possession a recipe needs that the config does not know.
fn first_unknown_in_needs(config: &Config, v: &Vec<(usize, String)>) -> (r: Option<String>)
    ensures
        r is None <==> needs_resolve(*config, v@),
        r matches Some(n) ==> !config.has_possession(n@),
        r matches Some(n) ==> n@ == first_unknown(need_names(v@), config.possession_names()),
{
    let mut k: usize = 0;
    while k < v.len()
        invariant
            k <= v@.len(),
            forall|j: int| 0 <= j < k ==> config.has_possession(#[trigger] v@[j].1@),
        decreases v@.len() - k,
    {
        if config.find_possession(v[k].1.as_str()).is_err() {
            proof {
                assert(is_first_missing(need_names(v@), config.possession_names(), k as int));
                lemma_first_missing_unique(need_names(v@), config.possession_names(), k as int);
            }
            return Some(v[k].1.clone());
        }
        k = k + 1;
    }
    None
}

/// The first possession a recipe makes that the config does not know.
fn first_unknown_made(config: &Config, makes: &RecipeMakes<String>) -> (r: Option<String>)
    ensures
        r is None <==> makes.names_resolve(*config),
        r matches Some(n) ==> !config.has_possession(n@),
        r matches Some(n) ==> n@ == first_unknown(makes.names(), config.possession_names()),
{
    let all = makes.all();
    let mut k: usize = 0;
    while k < all.len()
        invariant
            k <= all@.len(),
            all@.len() == makes.all_spec().len(),
            forall|i: int| 0 <= i < all@.len() ==> all@[i].0 == makes.all_spec()[i].0,
            forall|j: int| 0 <= j < k ==> config.has_possession(#[trigger] makes.all_spec()[j].0@),
        decreases all@.len() - k,
    {
        if config.find_possession(all[k].0.as_str()).is_err() {
            proof {
                assert(is_first_missing(makes.names(), config.possession_names(), k as int));
                lemma_first_missing_unique(makes.names(), config.possession_names(), k as int);
            }
            return Some(all[k].0.clone());
        }
        k = k + 1;
    }
    None
}

/// Checks the names that one plant advancement uses.
fn check_advancement(config: &Config, plant: &String, adv: &PlantAdvancement) -> (r: Result<
    (),
    ArchetypeNameError,
>)
    ensures
        r is Ok <==> advancement_resolves(*config, *adv),
        r matches Err(e) ==> error_is_genuine(*config, e),
        r matches Err(e) ==> e@ == advancement_problem(*config, plant@, *adv),
{
    match &adv.kind {
        PlantAdvancementKind::Yield(resources) => {
            match first_unknown_in_table(config, resources) {
                Some(resource) => Err(
                    ArchetypeNameError::YieldIncludesUnknownResource {
                        advancement: adv.title.clone(),
                        plant: plant.clone(),
                        resource,
                    },
                ),
                None => Ok(()),
            }
        },
        PlantAdvancementKind::Craft(recipes) => {
            let mut k: usize = 0;
            while k < recipes.len()
                invariant
                    k <= recipes@.len(),
                    adv.kind == PlantAdvancementKind::Craft(*recipes),
                    forall|j: int| 0 <= j < k ==> recipe_resolves(*config, #[trigger] recipes@[j]),
                decreases recipes@.len() - k,
            {
                let recipe = &recipes[k];
                match first_unknown_made(config, &recipe.makes) {
                    Some(resource) => {
                        assert(adv.kind->Craft_0@[k as int] == recipes@[k as int]);
                        assert(!recipe_resolves(*config, adv.kind->Craft_0@[k as int]));
                        assert(!advancement_resolves(*config, *adv));
                        proof {
                            lemma_first_bad_recipe_unique(*config, recipes@, k as int);
                        }
                        return Err(
                            ArchetypeNameError::CraftProducesUnknownResource {
                                advancement: adv.title.clone(),
                                plant: plant.clone(),
                                resource,
                            },
                        );
                    },
                    None => {},
                }
                match first_unknown_in_needs(config, &recipe.needs) {
                    Some(resource) => {
                        assert(adv.kind->Craft_0@[k as int] == recipes@[k as int]);
                        assert(!recipe_resolves(*config, adv.kind->Craft_0@[k as int]));
                        assert(!advancement_resolves(*config, *adv));
                        proof {
                            lemma_first_bad_recipe_unique(*config, recipes@, k as int);
                        }
                        return Err(
                            ArchetypeNameError::CraftUsesUnknownResource {
                                advancement: adv.title.clone(),
                                plant: plant.clone(),
                                resource,
                                makes: copy_makes(&recipe.makes),
                            },
                        );
                    },
                    None => {},
                }
                k = k + 1;
            }
            Ok(())
        },
        _ => Ok(()),
    }
}

/// Checks the names that one possession archetype uses.
fn check_archetype(config: &Config, a: &Archetype) -> (r: Result<(), ArchetypeNameError>)
    ensures
        r is Ok <==> archetype_resolves(*config, *a),
        r matches Err(e) ==> error_is_genuine(*config, e),
        r matches Err(e) ==> e@ == archetype_problem(*config, *a),
{
    match &a.kind {
        ArchetypeKind::Seed(sa) => {
            if config.find_plant(sa.grows_into.as_str()).is_err() {
                return Err(
                    ArchetypeNameError::SeedGrowsIntoUnknownPlant {
                        seed: a.name.clone(),
                        plant: sa.grows_into.clone(),
                    },
                );
            }
            Ok(())
        },
        ArchetypeKind::Gotchi(ga) => {
            match &ga.hatch_table {
                Some(table) => {
                    match first_unknown_in_table(config, table) {
                        Some(possession) => {
                            return Err(
                                ArchetypeNameError::GotchiHatchesIntoUnknownPossession {
                                    gotchi: a.name.clone(),
                                    possession,
                                },
                            );
                        },
                        None => {},
                    }
                },
                None => {},
            }
            match first_unknown_in_effects(config, &ga.plant_effects) {
                Some(plant) => Err(
                    ArchetypeNameError::GotchiAffectsUnknownPlant { gotchi: a.name.clone(), plant },
                ),
                None => Ok(()),
            }
        },
        _ => Ok(()),
    }
}

/// Checks that every name the config uses resolves to an archetype; on failure,
/// reports the first unknown name met, with where it was met.
pub fn check_archetype_name_matches(config: &Config) -> (r: Result<(), ArchetypeNameError>)
    ensures
        r is Ok <==> names_resolve(*config),
        r matches Err(e) ==> error_is_genuine(*config, e),
        r matches Err(e) ==> e@ == name_problem(*config),
{
    let mut i: usize = 0;
    while i < config.possession_archetypes.len()
        invariant
            i <= config.possession_archetypes@.len(),
            forall|j: int|
                0 <= j < i ==> archetype_resolves(*config, #[trigger] config.possession_archetypes@[j]),
        decreases config.possession_archetypes@.len() - i,
    {
        match check_archetype(config, &config.possession_archetypes[i]) {
            Err(e) => {
                proof {
                    assert(is_first_bad_archetype(*config, i as int));
                    lemma_first_bad_archetype_unique(*config, i as int);
                }
                return Err(e);
            },
            Ok(()) => {},
        }
        i = i + 1;
    }
    let mut p: usize = 0;
    while p < config.plant_archetypes.len()
        invariant
            p <= config.plant_archetypes@.len(),
            forall|j: int|
                0 <= j < config.possession_archetypes@.len() ==> archetype_resolves(
                    *config,
                    #[trigger] config.possession_archetypes@[j],
                ),
            forall|q: int, j: int|
                0 <= q < p && 0 <= j < config.plant_archetypes@[q].advancements.all_spec().len()
                    ==> advancement_resolves(
                    *config,
                    #[trigger] config.plant_archetypes@[q].advancements.all_spec()[j],
                ),
        decreases config.plant_archetypes@.len() - p,
    {
        let arch = &config.plant_archetypes[p];
        let all = arch.advancements.all();
        let mut k: usize = 0;
        while k < all.len()
            invariant
                k <= all@.len(),
                p < config.plant_archetypes@.len(),
                forall|j: int|
                    0 <= j < config.possession_archetypes@.len() ==> archetype_resolves(
                        *config,
                        #[trigger] config.possession_archetypes@[j],
                    ),
                forall|q: int, j: int|
                    0 <= q < p && 0 <= j < config.plant_archetypes@[q].advancements.all_spec().len()
                        ==> advancement_resolves(
                        *config,
                        #[trigger] config.plant_archetypes@[q].advancements.all_spec()[j],
                    ),
                *arch == config.plant_archetypes@[p as int],
                all@.len() == arch.advancements.all_spec().len(),
                forall|j: int| 0 <= j < all@.len() ==> *all@[j] == arch.advancements.all_spec()[j],
                forall|j: int|
                    0 <= j < k ==> advancement_resolves(
                        *config,
                        #[trigger] arch.advancements.all_spec()[j],
                    ),
            decreases all@.len() - k,
        {
            match check_advancement(config, &arch.name, all[k]) {
                Err(e) => {
                    assert(!advancement_resolves(
                        *config,
                        config.plant_archetypes@[p as int].advancements.all_spec()[k as int],
                    ));
                    proof {
                        assert(is_first_bad_advancement(*config, p as int, k as int));
                        lemma_first_bad_advancement_unique(*config, p as int, k as int);
                        assert(!exists|i: int| is_first_bad_archetype(*config, i));
                    }
                    return Err(e);
                },
                Ok(()) => {},
            }
            k = k + 1;
        }
        p = p + 1;
    }
    Ok(())
}

} // verus!
