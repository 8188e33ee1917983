//! Summing up the advancements a plant has unlocked. What needs no arithmetic
//! on floating-point numbers happens here: the xp they cost, the loot and the
//! recipes they bring with every name looked up, and the factors and chances
//! (as `f32` bit patterns) that the sum multiplies or adds up.

use vstd::prelude::*;
use super::{is_first_named, ArchetypeHandle, Config, ConfigError, CraftReturnChance,
    PlantAdvancement, PlantAdvancementKind, Recipe, SpawnRate};
use super::recipe::recipe_resolved_as;
use super::sums::deref_seq;
use crate::config::verify::{all_known, first_missing, is_first_missing, lemma_first_missing_concat,
    lemma_first_missing_unique};

verus! {

/// The kind an advancement acts as: a neighbor upgrade acts as the upgrade it holds.
pub open spec fn acting_kind(a: PlantAdvancement) -> PlantAdvancementKind {
    match a.kind {
        PlantAdvancementKind::Neighbor(n) => *n,
        _ => a.kind,
    }
}

/// The names of the rows of a loot table, in order.
pub open spec fn row_names(rows: Seq<(SpawnRate, String)>) -> Seq<Seq<char>> {
    rows.map_values(|r: (SpawnRate, String)| r.1@)
}

/// The names a list of recipes uses, recipe by recipe.
pub open spec fn recipes_names(rs: Seq<Recipe<String>>) -> Seq<Seq<char>>
    decreases rs.len(),
{
    if rs.len() == 0 {
        Seq::empty()
    } else {
        recipes_names(rs.drop_last()) + rs.last().names()
    }
}

/// The names an advancement of this kind uses, in the order they are looked up.
pub open spec fn kind_names(k: PlantAdvancementKind) -> Seq<Seq<char>> {
    match k {
        PlantAdvancementKind::Yield(rows) => row_names(rows@),
        PlantAdvancementKind::Craft(rs) => recipes_names(rs@),
        _ => Seq::empty(),
    }
}

/// The names the advancements use, in the order they are looked up.
pub open spec fn checked_names(s: Seq<PlantAdvancement>) -> Seq<Seq<char>>
    decreases s.len(),
{
    if s.len() == 0 {
        Seq::empty()
    } else {
        checked_names(s.drop_last()) + kind_names(acting_kind(s.last()))
    }
}

/// The xp all these advancements cost together.
pub open spec fn xp_of(s: Seq<PlantAdvancement>) -> int
    decreases s.len(),
{
    if s.len() == 0 {
        0
    } else {
        xp_of(s.drop_last()) + s.last().xp
    }
}

/// A factor or chance that advancements bring, to be combined by the sum.
#[derive(Clone, Copy, Debug, PartialEq, Eq, Structural)]
pub enum Factor {
    Xp,
    YieldSpeed,
    YieldSize,
    DoubleCraftYield,
}

/// The bit pattern an advancement of this kind brings for factor `f`, if any.
pub open spec fn factor_of(k: PlantAdvancementKind, f: Factor) -> Seq<u32> {
    match (k, f) {
        (PlantAdvancementKind::Xp(b), Factor::Xp) => seq![b],
        (PlantAdvancementKind::YieldSpeed(b), Factor::YieldSpeed) => seq![b],
        (PlantAdvancementKind::YieldSize(b), Factor::YieldSize) => seq![b],
        (PlantAdvancementKind::DoubleCraftYield(b), Factor::DoubleCraftYield) => seq![b],
        _ => Seq::empty(),
    }
}

/// The bit patterns the advancements bring for factor `f`, in order.
pub open spec fn factors(s: Seq<PlantAdvancement>, f: Factor) -> Seq<u32>
    decreases s.len(),
{
    if s.len() == 0 {
        Seq::empty()
    } else {
        factors(s.drop_last(), f) + factor_of(acting_kind(s.last()), f)
    }
}

/// Each factor is gathered from the advancements of its own kind alone, in order:
/// an advancement adds its value to the xp gains only if it acts as an `Xp`
/// advancement, to the yield speed multipliers only as `YieldSpeed`, to the
/// yield size multipliers only as `YieldSize`, and to the double craft yield
/// chances only as `DoubleCraftYield`; no advancement adds to any other factor.
pub proof fn law_each_factor_from_its_own_kind(s: Seq<PlantAdvancement>, a: PlantAdvancement)
    ensures
        factors(Seq::empty(), Factor::Xp) == Seq::<u32>::empty(),
        factors(Seq::empty(), Factor::YieldSpeed) == Seq::<u32>::empty(),
        factors(Seq::empty(), Factor::YieldSize) == Seq::<u32>::empty(),
        factors(Seq::empty(), Factor::DoubleCraftYield) == Seq::<u32>::empty(),
        factors(s.push(a), Factor::Xp) == factors(s, Factor::Xp) + match acting_kind(a) {
            PlantAdvancementKind::Xp(b) => seq![b],
            _ => Seq::<u32>::empty(),
        },
        factors(s.push(a), Factor::YieldSpeed) == factors(s, Factor::YieldSpeed) + match acting_kind(a) {
            PlantAdvancementKind::YieldSpeed(b) => seq![b],
            _ => Seq::<u32>::empty(),
        },
        factors(s.push(a), Factor::YieldSize) == factors(s, Factor::YieldSize) + match acting_kind(a) {
            PlantAdvancementKind::YieldSize(b) => seq![b],
            _ => Seq::<u32>::empty(),
        },
        factors(s.push(a), Factor::DoubleCraftYield) == factors(s, Factor::DoubleCraftYield) + match acting_kind(a) {
            PlantAdvancementKind::DoubleCraftYield(b) => seq![b],
            _ => Seq::<u32>::empty(),
        },
{
    assert(s.push(a).drop_last() =~= s);
}

/// The craft return chances the advancements bring, in order.
pub open spec fn craft_returns(s: Seq<PlantAdvancement>) -> Seq<CraftReturnChance>
    decreases s.len(),
{
    if s.len() == 0 {
        Seq::empty()
    } else {
        craft_returns(s.drop_last()) + match acting_kind(s.last()) {
            PlantAdvancementKind::CraftReturn(c) => seq![c],
            _ => Seq::empty(),
        }
    }
}

/// The loot table rows the advancements bring, in order.
pub open spec fn yield_rows(s: Seq<PlantAdvancement>) -> Seq<(SpawnRate, String)>
    decreases s.len(),
{
    if s.len() == 0 {
        Seq::empty()
    } else {
        yield_rows(s.drop_last()) + match acting_kind(s.last()) {
            PlantAdvancementKind::Yield(rows) => rows@,
            _ => Seq::empty(),
        }
    }
}

/// The recipes the advancements bring, in order.
pub open spec fn craft_recipes(s: Seq<PlantAdvancement>) -> Seq<Recipe<String>>
    decreases s.len(),
{
    if s.len() == 0 {
        Seq::empty()
    } else {
        craft_recipes(s.drop_last()) + match acting_kind(s.last()) {
            PlantAdvancementKind::Craft(rs) => rs@,
            _ => Seq::empty(),
        }
    }
}

/// `ys` are the rows `rows` with each name replaced by the handle of the first
/// possession archetype of that name.
pub open spec fn rows_resolved_as(c: Config, rows: Seq<(SpawnRate, String)>, ys: Seq<(SpawnRate, ArchetypeHandle)>) -> bool {
    &&& ys.len() == rows.len()
    &&& forall|i: int|
        0 <= i < rows.len() ==> (#[trigger] ys[i]).0 == rows[i].0 && is_first_named(
            c.possession_names(),
            rows[i].1@,
            ys[i].1 as int,
        )
}

/// `xs` are the recipes `rs` with every name resolved.
pub open spec fn recipes_resolved_as(c: Config, rs: Seq<Recipe<String>>, xs: Seq<Recipe<ArchetypeHandle>>) -> bool {
    &&& xs.len() == rs.len()
    &&& forall|i: int| 0 <= i < rs.len() ==> recipe_resolved_as(c, #[trigger] rs[i], xs[i])
}

pub proof fn lemma_recipes_names_concat(x: Seq<Recipe<String>>, y: Seq<Recipe<String>>)
    ensures
        recipes_names(x + y) == recipes_names(x) + recipes_names(y),
    decreases y.len(),
{
    if y.len() == 0 {
        assert(x + y =~= x);
        assert(recipes_names(x) + recipes_names(y) =~= recipes_names(x));
    } else {
        lemma_recipes_names_concat(x, y.drop_last());
        assert((x + y).drop_last() =~= x + y.drop_last());
        assert((x + y).last() == y.last());
        assert(recipes_names(x + y) =~= recipes_names(x) + recipes_names(y));
    }
}

pub proof fn lemma_checked_names_concat(x: Seq<PlantAdvancement>, y: Seq<PlantAdvancement>)
    ensures
        checked_names(x + y) == checked_names(x) + checked_names(y),
    decreases y.len(),
{
    if y.len() == 0 {
        assert(x + y =~= x);
        assert(checked_names(x) + checked_names(y) =~= checked_names(x));
    } else {
        lemma_checked_names_concat(x, y.drop_last());
        assert((x + y).drop_last() =~= x + y.drop_last());
        assert((x + y).last() == y.last());
        assert(checked_names(x + y) =~= checked_names(x) + checked_names(y));
    }
}

/// The xp of a prefix never exceeds the xp of the whole.
pub proof fn lemma_xp_prefix(s: Seq<PlantAdvancement>, i: int)
    requires
        0 <= i <= s.len(),
    ensures
        0 <= xp_of(s.take(i)) <= xp_of(s),
    decreases s.len(),
{
    if i == s.len() {
        assert(s.take(i) =~= s);
        lemma_xp_nonnegative(s);
    } else {
        lemma_xp_prefix(s.drop_last(), i);
        assert(s.drop_last().take(i) =~= s.take(i));
    }
}

pub proof fn lemma_xp_nonnegative(s: Seq<PlantAdvancement>)
    ensures
        xp_of(s) >= 0,
    decreases s.len(),
{
    if s.len() > 0 {
        lemma_xp_nonnegative(s.drop_last());
    }
}

/// The kind `a` acts as.
fn acting<'a>(a: &'a PlantAdvancement) -> (r: &'a PlantAdvancementKind)
    ensures
        *r == acting_kind(*a),
{
    match &a.kind {
        PlantAdvancementKind::Neighbor(n) => &**n,
        other => other,
    }
}

/// Appends the rows of a loot table with each name resolved; the first unknown
/// name is an error, and nothing is appended after it.
fn resolve_rows(config: &Config, rows: &Vec<(SpawnRate, String)>, out: &mut Vec<(SpawnRate, ArchetypeHandle)>) -> (r: Result<(), ConfigError>)
    ensures
        r is Ok <==> all_known(row_names(rows@), config.possession_names()),
        r is Ok ==> final(out)@.len() == old(out)@.len() + rows@.len() && final(out)@.subrange(
            0,
            old(out)@.len() as int,
        ) == old(out)@ && rows_resolved_as(
            *config,
            rows@,
            final(out)@.subrange(old(out)@.len() as int, final(out)@.len() as int),
        ),
        r matches Err(ConfigError::UnknownArchetypeName(n)) ==> n@ == row_names(rows@)[first_missing(
            row_names(rows@),
            config.possession_names(),
        )],
{
    let ghost known = config.possession_names();
    let ghost ns = row_names(rows@);
    let ghost start = out@;
    let mut i: usize = 0;
    while i < rows.len()
        invariant
            known == config.possession_names(),
            ns == row_names(rows@),
            i <= rows@.len(),
            out@.len() == start.len() + i,
            out@.subrange(0, start.len() as int) == start,
            forall|j: int| 0 <= j < i ==> known.contains(#[trigger] ns[j]),
            forall|j: int|
                0 <= j < i ==> (#[trigger] out@[start.len() + j]).0 == rows@[j].0 && is_first_named(
                    known,
                    rows@[j].1@,
                    out@[start.len() + j].1 as int,
                ),
        decreases rows@.len() - i,
    {
        match config.find_possession_handle(rows[i].1.as_str()) {
            Ok(h) => {
                proof {
                    assert(known[h as int] == ns[i as int]);
                }
                let ghost before = out@;
                out.push((rows[i].0, h));
                proof {
                    assert(out@.subrange(0, start.len() as int) =~= before.subrange(0, start.len() as int));
                    assert forall|j: int| 0 <= j < i + 1 implies (#[trigger] out@[start.len() + j]).0
                        == rows@[j].0 && is_first_named(known, rows@[j].1@, out@[start.len() + j].1 as int) by {
                        if j < i {
                            assert(out@[start.len() + j] == before[start.len() + j]);
                        }
                    }
                }
            },
            Err(e) => {
                proof {
                    assert(is_first_missing(ns, known, i as int));
                    lemma_first_missing_unique(ns, known, i as int);
                }
                return Err(e);
            },
        }
        i = i + 1;
    }
    proof {
        let tail = out@.subrange(start.len() as int, out@.len() as int);
        assert forall|j: int| 0 <= j < rows@.len() implies (#[trigger] tail[j]).0 == rows@[j].0
            && is_first_named(known, rows@[j].1@, tail[j].1 as int) by {
            assert(tail[j] == out@[start.len() + j]);
        }
    }
    Ok(())
}

/// Appends the recipes with every name resolved; the first unknown name is an
/// error, and nothing is appended after the recipe that holds it.
fn resolve_recipes(config: &Config, rs: &Vec<Recipe<String>>, out: &mut Vec<Recipe<ArchetypeHandle>>) -> (r: Result<(), ConfigError>)
    ensures
        r is Ok <==> all_known(recipes_names(rs@), config.possession_names()),
        r is Ok ==> final(out)@.len() == old(out)@.len() + rs@.len() && final(out)@.subrange(
            0,
            old(out)@.len() as int,
        ) == old(out)@ && recipes_resolved_as(
            *config,
            rs@,
            final(out)@.subrange(old(out)@.len() as int, final(out)@.len() as int),
        ),
        r matches Err(ConfigError::UnknownArchetypeName(n)) ==> n@ == recipes_names(rs@)[first_missing(
            recipes_names(rs@),
            config.possession_names(),
        )],
{
    let ghost known = config.possession_names();
    let ghost start = out@;
    let mut i: usize = 0;
    while i < rs.len()
        invariant
            known == config.possession_names(),
            i <= rs@.len(),
            out@.len() == start.len() + i,
            out@.subrange(0, start.len() as int) == start,
            all_known(recipes_names(rs@.take(i as int)), known),
            forall|j: int|
                0 <= j < i ==> recipe_resolved_as(*config, #[trigger] rs@[j], out@[start.len() + j]),
        decreases rs@.len() - i,
    {
        proof {
            assert(rs@.take(i + 1).drop_last() =~= rs@.take(i as int));
            assert(rs@.take(i + 1).last() == rs@[i as int]);
            lemma_first_missing_concat(recipes_names(rs@.take(i as int)), rs@[i as int].names(), known);
        }
        match rs[i].find_handles(config) {
            Ok(x) => {
                let ghost before = out@;
                out.push(x);
                proof {
                    assert(out@.subrange(0, start.len() as int) =~= before.subrange(0, start.len() as int));
                    assert forall|j: int| 0 <= j < i + 1 implies recipe_resolved_as(
                        *config,
                        #[trigger] rs@[j],
                        out@[start.len() + j],
                    ) by {
                        if j < i {
                            assert(out@[start.len() + j] == before[start.len() + j]);
                        }
                    }
                }
            },
            Err(e) => {
                proof {
                    let a = recipes_names(rs@.take(i + 1));
                    let b = recipes_names(rs@.subrange(i + 1, rs@.len() as int));
                    lemma_recipes_names_concat(rs@.take(i + 1), rs@.subrange(i + 1, rs@.len() as int));
                    assert(rs@.take(i + 1) + rs@.subrange(i + 1, rs@.len() as int) =~= rs@);
                    lemma_first_missing_concat(a, b, known);
                }
                return Err(e);
            },
        }
        i = i + 1;
    }
    proof {
        assert(rs@.take(i as int) =~= rs@);
        let tail = out@.subrange(start.len() as int, out@.len() as int);
        assert forall|j: int| 0 <= j < rs@.len() implies recipe_resolved_as(*config, #[trigger] rs@[j], tail[j]) by {
            assert(tail[j] == out@[start.len() + j]);
        }
    }
    Ok(())
}

/// What the advancements a plant has unlocked bring, before any floating-point
/// arithmetic: the xp they cost, every factor and chance they bring (as `f32`
/// bit patterns, in order), and their loot and recipes with names resolved.
#[derive(Debug)]
pub struct PlantAdvancementParts {
    pub xp: u64,
    pub xp_gains: Vec<u32>,
    pub yield_speed_multipliers: Vec<u32>,
    pub yield_size_multipliers: Vec<u32>,
    pub double_craft_yield_chances: Vec<u32>,
    pub craft_return_chances: Vec<CraftReturnChance>,
    pub yields: Vec<(SpawnRate, ArchetypeHandle)>,
    pub recipes: Vec<Recipe<ArchetypeHandle>>,
}

/// What a plant's unlocked advancements add up to. Factors and chances are
/// `f32` bit patterns.
#[derive(Debug)]
pub struct PlantAdvancementSum {
    pub xp: u64,
    pub xp_multiplier: u64,
    pub yield_speed_multiplier: u32,
    pub yield_size_multiplier: u32,
    pub yields: Vec<(SpawnRate, ArchetypeHandle)>,
    pub double_craft_yield_chance: u32,
    pub craft_return_chances: Vec<CraftReturnChance>,
    pub recipes: Vec<Recipe<ArchetypeHandle>>,
}

impl PlantAdvancementSum {
    /// Neighbor bonuses that a plant gives out do not count toward its own sum.
    pub fn filter_base(a: &PlantAdvancement) -> (r: bool)
        ensures
            r == !(a.kind is Neighbor),
    {
        match &a.kind {
            PlantAdvancementKind::Neighbor(..) => false,
            _ => true,
        }
    }
}

impl PlantAdvancementParts {
    /// Walks the unlocked advancements in order, each acting as the upgrade it
    /// holds if it is a neighbor upgrade, and looks up every name of their
    /// loot and recipes, all of which must name possessions.
    pub fn new(config: &Config, unlocked: &[&PlantAdvancement]) -> (p: Self)
        requires
            xp_of(deref_seq(unlocked@)) <= u64::MAX,
            all_known(checked_names(deref_seq(unlocked@)), config.possession_names()),
        ensures
            ({
                let s = deref_seq(unlocked@);
                &&& p.xp == xp_of(s)
                &&& p.xp_gains@ == factors(s, Factor::Xp)
                &&& p.yield_speed_multipliers@ == factors(s, Factor::YieldSpeed)
                &&& p.yield_size_multipliers@ == factors(s, Factor::YieldSize)
                &&& p.double_craft_yield_chances@ == factors(s, Factor::DoubleCraftYield)
                &&& p.craft_return_chances@ == craft_returns(s)
                &&& rows_resolved_as(*config, yield_rows(s), p.yields@)
                &&& recipes_resolved_as(*config, craft_recipes(s), p.recipes@)
            }),
    {
        match Self::try_new(config, unlocked) {
            Ok(p) => p,
            Err(_) => {
                proof {
                    assert(false);
                }
                vstd::pervasive::unreached()
            },
        }
    }

    /// As `new`, but checks the names: the first name of the loot or recipes
    /// that names no possession is an error.
    pub fn try_new(config: &Config, unlocked: &[&PlantAdvancement]) -> (r: Result<Self, ConfigError>)
        requires
            xp_of(deref_seq(unlocked@)) <= u64::MAX,
        ensures
            r is Ok <==> all_known(checked_names(deref_seq(unlocked@)), config.possession_names()),
            r matches Err(ConfigError::UnknownArchetypeName(n)) ==> n@ == checked_names(
                deref_seq(unlocked@),
            )[first_missing(checked_names(deref_seq(unlocked@)), config.possession_names())],
            r matches Ok(p) ==> {
                let s = deref_seq(unlocked@);
                &&& p.xp == xp_of(s)
                &&& p.xp_gains@ == factors(s, Factor::Xp)
                &&& p.yield_speed_multipliers@ == factors(s, Factor::YieldSpeed)
                &&& p.yield_size_multipliers@ == factors(s, Factor::YieldSize)
                &&& p.double_craft_yield_chances@ == factors(s, Factor::DoubleCraftYield)
                &&& p.craft_return_chances@ == craft_returns(s)
                &&& rows_resolved_as(*config, yield_rows(s), p.yields@)
                &&& recipes_resolved_as(*config, craft_recipes(s), p.recipes@)
            },
    {
        let ghost s = deref_seq(unlocked@);
        let ghost known = config.possession_names();
        let mut p = PlantAdvancementParts {
            xp: 0,
            xp_gains: Vec::new(),
            yield_speed_multipliers: Vec::new(),
            yield_size_multipliers: Vec::new(),
            double_craft_yield_chances: Vec::new(),
            craft_return_chances: Vec::new(),
            yields: Vec::new(),
            recipes: Vec::new(),
        };
        let mut i: usize = 0;
        while i < unlocked.len()
            invariant
                s == deref_seq(unlocked@),
                known == config.possession_names(),
                xp_of(s) <= u64::MAX,
                i <= s.len(),
                all_known(checked_names(s.take(i as int)), known),
                p.xp == xp_of(s.take(i as int)),
                p.xp_gains@ == factors(s.take(i as int), Factor::Xp),
                p.yield_speed_multipliers@ == factors(s.take(i as int), Factor::YieldSpeed),
                p.yield_size_multipliers@ == factors(s.take(i as int), Factor::YieldSize),
                p.double_craft_yield_chances@ == factors(s.take(i as int), Factor::DoubleCraftYield),
                p.craft_return_chances@ == craft_returns(s.take(i as int)),
                rows_resolved_as(*config, yield_rows(s.take(i as int)), p.yields@),
                recipes_resolved_as(*config, craft_recipes(s.take(i as int)), p.recipes@),
            decreases s.len() - i,
        {
            let a: &PlantAdvancement = unlocked[i];
            let ghost pre = s.take(i as int);
            let ghost now = s.take(i + 1);
            proof {
                assert(now.drop_last() =~= pre);
                assert(now.last() == *a);
                lemma_xp_prefix(s, i + 1);
                lemma_first_missing_concat(checked_names(pre), kind_names(acting_kind(*a)), known);
            }
            p.xp = p.xp + a.xp;
            let kind = acting(a);
            let ghost yields_before = p.yields@;
            let ghost recipes_before = p.recipes@;
            let step = match kind {
                PlantAdvancementKind::Xp(b) => {
                    p.xp_gains.push(*b);
                    Ok(())
                },
                PlantAdvancementKind::YieldSpeed(b) => {
                    p.yield_speed_multipliers.push(*b);
                    Ok(())
                },
                PlantAdvancementKind::YieldSize(b) => {
                    p.yield_size_multipliers.push(*b);
                    Ok(())
                },
                PlantAdvancementKind::DoubleCraftYield(b) => {
                    p.double_craft_yield_chances.push(*b);
                    Ok(())
                },
                PlantAdvancementKind::CraftReturn(c) => {
                    p.craft_return_chances.push(*c);
                    Ok(())
                },
                PlantAdvancementKind::Yield(rows) => resolve_rows(config, rows, &mut p.yields),
                PlantAdvancementKind::Craft(rs) => resolve_recipes(config, rs, &mut p.recipes),
                _ => Ok(()),
            };
            match step {
                Ok(()) => {},
                Err(e) => {
                    proof {
                        let rest = s.subrange(i + 1, s.len() as int);
                        assert(now + rest =~= s);
                        lemma_checked_names_concat(now, rest);
                        lemma_first_missing_concat(checked_names(now), checked_names(rest), known);
                    }
                    return Err(e);
                },
            }
            proof {
                assert(p.xp_gains@ =~= factors(now, Factor::Xp));
                assert(p.yield_speed_multipliers@ =~= factors(now, Factor::YieldSpeed));
                assert(p.yield_size_multipliers@ =~= factors(now, Factor::YieldSize));
                assert(p.double_craft_yield_chances@ =~= factors(now, Factor::DoubleCraftYield));
                assert(p.craft_return_chances@ =~= craft_returns(now));
                let ry = yield_rows(now);
                assert forall|j: int| 0 <= j < ry.len() implies (#[trigger] p.yields@[j]).0 == ry[j].0
                    && is_first_named(known, ry[j].1@, p.yields@[j].1 as int) by {
                    if j >= yields_before.len() {
                        let t = p.yields@.subrange(yields_before.len() as int, p.yields@.len() as int);
                        assert(p.yields@[j] == t[j - yields_before.len()]);
                    } else {
                        assert(p.yields@[j] == p.yields@.subrange(0, yields_before.len() as int)[j]);
                    }
                }
                let rr = craft_recipes(now);
                assert forall|j: int| 0 <= j < rr.len() implies recipe_resolved_as(
                    *config,
                    #[trigger] rr[j],
                    p.recipes@[j],
                ) by {
                    if j >= recipes_before.len() {
                        let t = p.recipes@.subrange(recipes_before.len() as int, p.recipes@.len() as int);
                        assert(p.recipes@[j] == t[j - recipes_before.len()]);
                    } else {
                        assert(p.recipes@[j] == p.recipes@.subrange(0, recipes_before.len() as int)[j]);
                    }
                }
            }
            i = i + 1;
        }
        proof {
            assert(s.take(i as int) =~= s);
        }
        Ok(p)
    }
}

} // verus!
