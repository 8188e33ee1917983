//! Checking the parts of a configuration file that hold evalputs: recipes,
//! buffs, effects, skills, plants and items, and the whole configuration.
//! Each evalput node is also handed to `check`, which judges what this crate
//! does not hold in verified form (the chances of a node, as `f64` bits); an
//! error found inside a part gains that part's note.

use vstd::prelude::*;
use crate::config::evalput::{checked_as, evalput_error, fails_with, lemma_checked_sound, passes_within, sound_evalput,
    verify_with};
use crate::config::verify::{first_failing, is_first_failing, lemma_first_failing_exists, lemma_first_failing_unique,
    with_note};
use crate::config::verify::{all_known, concat, counted_names, first_missing, item_confs, push_str,
    Problem, RawConfig, VerifError, VerifResult};
use crate::config::RawEvalput;
use crate::hackstead::plant::{Buff, RawBuff, RawRecipe, Recipe};
use crate::hackstead::plant::effect::{self, ConfigKind};
use crate::config::verify::{first_unresolved, is_first_unresolved, lemma_first_unresolved_unique, noted_error, Verify};
use crate::hackstead::plant::skill::{self, resolve_unlock, wrapped, RawSkill, RawUnlockVerifyWrapper, Skill};
use crate::hackstead::plant;
use crate::hackstead::item;
use crate::hackstead::{self, ConfigAdvancement};
use crate::config::game;
use crate::config::verify::FromFile;
use std::collections::HashMap;
use vstd::utf8::{decode_utf8, encode_utf8, is_char_boundary};
use vstd::string::StringSliceAdditionalSpecFns;

verus! {

/// `check` may be called on any evalput node.
pub open spec fn callable<F: Fn(&RawEvalput) -> VerifResult<()>>(check: F) -> bool {
    forall|x: &RawEvalput| call_requires(check, (x,))
}

/// `check` passes every evalput node of the recipe, whatever it may give.
pub open spec fn recipe_passes<F: Fn(&RawEvalput) -> VerifResult<()>>(check: F, r: RawRecipe) -> bool {
    passes_within(check, r.makes)
}

/// `check` passes every evalput node of these recipes.
pub open spec fn recipes_pass<F: Fn(&RawEvalput) -> VerifResult<()>>(check: F, rs: Seq<RawRecipe>) -> bool {
    forall|i: int| 0 <= i < rs.len() ==> recipe_passes(check, #[trigger] rs[i])
}

/// `check` passes every evalput node of the buff.
pub open spec fn buff_passes<F: Fn(&RawEvalput) -> VerifResult<()>>(check: F, b: RawBuff) -> bool
    decreases b,
{
    match b {
        RawBuff::Neighbor(x) => buff_passes(check, *x),
        RawBuff::Yield(e) => passes_within(check, e),
        RawBuff::Craft(rs) => recipes_pass(check, rs@),
        _ => true,
    }
}

/// `check` passes every evalput node of the effect's buff.
pub open spec fn effect_passes<F: Fn(&RawEvalput) -> VerifResult<()>>(check: F, e: effect::RawConfig) -> bool {
    match e.buff {
        Some(b) => buff_passes(check, b),
        None => true,
    }
}

/// `check` passes every evalput node of these effects.
pub open spec fn effects_pass<F: Fn(&RawEvalput) -> VerifResult<()>>(check: F, es: Seq<effect::RawConfig>) -> bool {
    forall|i: int| 0 <= i < es.len() ==> effect_passes(check, #[trigger] es[i])
}

/// `check` passes every evalput node of the skill's effects.
pub open spec fn skill_passes<F: Fn(&RawEvalput) -> VerifResult<()>>(check: F, s: RawSkill) -> bool {
    effects_pass(check, s.effects@)
}

/// `check` passes every evalput node of the plant's skills.
pub open spec fn plant_passes<F: Fn(&RawEvalput) -> VerifResult<()>>(check: F, p: plant::RawConfig) -> bool {
    forall|i: int| 0 <= i < p.skills.inner@.len() ==> skill_passes(check, #[trigger] p.skills.inner@[i])
}

/// `check` passes every evalput node of the item's effects and hatch table.
pub open spec fn item_passes<F: Fn(&RawEvalput) -> VerifResult<()>>(check: F, i: item::RawConfig) -> bool {
    &&& effects_pass(check, i.passive_plant_effects@)
    &&& effects_pass(check, i.plant_rub_effects@)
    &&& (i.hatch_table matches Some(t) ==> passes_within(check, t))
}

/// `check` passes every evalput node of the configuration's plants and items,
/// whatever it may give.
pub open spec fn config_passes<F: Fn(&RawEvalput) -> VerifResult<()>>(check: F, raw: RawConfig) -> bool {
    &&& forall|i: int| 0 <= i < raw.plants@.len() ==> plant_passes(check, #[trigger] raw.plants@[i].inner)
    &&& forall|i: int| 0 <= i < raw.items@.len() ==> item_passes(check, #[trigger] raw.items@[i].inner)
}

/// The note an error found in a recipe gains.
pub open spec fn recipe_note(r: RawRecipe) -> Seq<char> {
    "in a recipe named \""@ + r.title@ + "\""@
}

/// Every item a recipe names is configured, and its evalput is sound.
pub open spec fn recipe_sound(r: RawRecipe, raw: RawConfig) -> bool {
    &&& all_known(counted_names(r.needs@), raw.item_names())
    &&& raw.has_item(r.art@)
    &&& sound_evalput(r.makes, raw)
}

/// `out` is `r` with each item name replaced by the conf of the first item of
/// that name, and its evalput checked by `check`.
pub open spec fn recipe_checked<F: Fn(&RawEvalput) -> VerifResult<()>>(
    r: RawRecipe,
    raw: RawConfig,
    check: F,
    out: Recipe,
) -> bool {
    &&& out.title@ == r.title@
    &&& out.explanation@ == r.explanation@
    &&& out.destroys_plant == r.destroys_plant
    &&& out.time == r.time
    &&& all_known(counted_names(r.needs@), raw.item_names())
    &&& out.needs@.len() == r.needs@.len()
    &&& forall|i: int|
        0 <= i < r.needs@.len() ==> #[trigger] out.needs@[i] == (
            r.needs@[i].0,
            raw.item_conf_spec(r.needs@[i].1@),
        )
    &&& raw.has_item(r.art@)
    &&& out.art == raw.item_conf_spec(r.art@)
    &&& checked_as(r.makes, raw, check, out.makes)
}

/// The error that checking a recipe that is not sound finds when the caller's
/// check passes every evalput node in it: the first unknown item it needs, else its
/// unknown art, else the error in what it makes.
pub open spec fn recipe_error(r: RawRecipe, raw: RawConfig) -> (Problem, Seq<Seq<char>>) {
    if !all_known(counted_names(r.needs@), raw.item_names()) {
        (
            Problem::UnknownItem(r.needs@[first_missing(counted_names(r.needs@), raw.item_names())].1@),
            seq!["in what the recipe needs"@, recipe_note(r)],
        )
    } else if !raw.has_item(r.art@) {
        (Problem::UnknownItem(r.art@), seq!["in the art field"@, recipe_note(r)])
    } else {
        with_note(with_note(evalput_error(r.makes, raw), "in what the recipe makes"@), recipe_note(r))
    }
}

/// Soundness of recipes in `raw`, as a predicate.
pub open spec fn recipe_sound_in(raw: RawConfig) -> spec_fn(RawRecipe) -> bool {
    |r: RawRecipe| recipe_sound(r, raw)
}

/// `err` is an error that checking the recipe `r` can end in: the first step
/// that fails (an unknown item it needs, its unknown art, or what checking what
/// it makes ends in), with the recipe's note.
pub open spec fn recipe_fails<F: Fn(&RawEvalput) -> VerifResult<()>>(
    r: RawRecipe,
    raw: RawConfig,
    check: F,
    err: (Problem, Seq<Seq<char>>),
) -> bool {
    &&& err.1.len() > 0
    &&& err.1.last() == recipe_note(r)
    &&& if !all_known(counted_names(r.needs@), raw.item_names()) {
        (err.0, err.1.drop_last()) == (
            Problem::UnknownItem(r.needs@[first_missing(counted_names(r.needs@), raw.item_names())].1@),
            seq!["in what the recipe needs"@],
        )
    } else if !raw.has_item(r.art@) {
        (err.0, err.1.drop_last()) == (Problem::UnknownItem(r.art@), seq!["in the art field"@])
    } else {
        &&& err.1.len() > 1
        &&& err.1[err.1.len() - 2] == "in what the recipe makes"@
        &&& fails_with(r.makes, raw, check, (err.0, err.1.drop_last().drop_last()))
    }
}

/// The recipe checks out against `raw` with `check`, to some recipe.
pub open spec fn recipe_checks_out<F: Fn(&RawEvalput) -> VerifResult<()>>(r: RawRecipe, raw: RawConfig, check: F) -> bool {
    exists|out: Recipe| recipe_checked(r, raw, check, out)
}

/// `err` is an error that checking these recipes in order can end in: that of
/// the first recipe that does not check out.
pub open spec fn recipes_fail<F: Fn(&RawEvalput) -> VerifResult<()>>(
    rs: Seq<RawRecipe>,
    raw: RawConfig,
    check: F,
    err: (Problem, Seq<Seq<char>>),
) -> bool {
    exists|i: int|
        #![trigger rs[i]]
        0 <= i < rs.len() && (forall|j: int| 0 <= j < i ==> recipe_checks_out(#[trigger] rs[j], raw, check))
            && recipe_fails(rs[i], raw, check, err)
}

impl RawRecipe {
    /// The note an error found in this recipe gains.
    pub fn context(&self) -> (r: String)
        ensures
            r@ == recipe_note(*self),
    {
        let mut s = concat("in a recipe named \"", self.title.as_str());
        push_str(&mut s, "\"");
        s
    }

    /// Checks what the recipe needs, then its art, then what it makes.
    pub fn verify_with<F: Fn(&RawEvalput) -> VerifResult<()>>(&self, raw: &RawConfig, check: &F) -> (r:
        VerifResult<Recipe>)
        requires
            callable(*check),
        ensures
            r matches Ok(out) ==> recipe_checked(*self, *raw, *check, out),
            r is Ok ==> recipe_sound(*self, *raw),
            recipe_passes(*check, *self) && recipe_sound(*self, *raw) ==> r is Ok,
            !all_known(counted_names(self.needs@), raw.item_names()) ==> (r matches Err(e) && e@ == (
                Problem::UnknownItem(
                    self.needs@[first_missing(counted_names(self.needs@), raw.item_names())].1@,
                ),
                seq!["in what the recipe needs"@, recipe_note(*self)],
            )),
            all_known(counted_names(self.needs@), raw.item_names()) && !raw.has_item(self.art@) ==> (r matches Err(
                e,
            ) && e@ == (Problem::UnknownItem(self.art@), seq!["in the art field"@, recipe_note(*self)])),
            recipe_passes(*check, *self) && !recipe_sound(*self, *raw) ==> (r matches Err(e) && e@ == recipe_error(
                *self,
                *raw,
            )),
            r matches Err(e) ==> e@.1.len() > 0 && e@.1.last() == recipe_note(*self),
            r matches Err(e) ==> recipe_fails(*self, *raw, *check, e@),
    {
        let context = self.context();
        let needs = match item_confs(raw, &self.needs) {
            Ok(n) => n,
            Err(e) => {
                let r = e.noted("in what the recipe needs".to_owned()).noted(context);
                assert(r@.1.drop_last() =~= seq!["in what the recipe needs"@]);
                return Err(r);
            },
        };
        let art = match raw.item_conf(self.art.as_str()) {
            Ok(a) => a,
            Err(e) => {
                let r = e.noted("in the art field".to_owned()).noted(context);
                assert(r@.1.drop_last() =~= seq!["in the art field"@]);
                return Err(r);
            },
        };
        let makes = match verify_with(&self.makes, raw, check) {
            Ok(m) => m,
            Err(e) => {
                let r = e.noted("in what the recipe makes".to_owned()).noted(context);
                assert(r@.1.drop_last().drop_last() =~= e@.1);
                return Err(r);
            },
        };
        proof {
            lemma_checked_sound(self.makes, *raw, *check, makes);
        }
        Ok(
            Recipe {
                title: self.title.clone(),
                art,
                explanation: self.explanation.clone(),
                destroys_plant: self.destroys_plant,
                time: self.time,
                needs,
                makes,
            },
        )
    }
}

/// The word that names a buff's kind in its note.
pub open spec fn buff_word(b: RawBuff) -> Seq<char> {
    match b {
        RawBuff::Neighbor(_) => " neighbor"@,
        RawBuff::ExtraTimeTicks(_) => "n extra time ticks"@,
        RawBuff::ExtraTimeTicksMultiplier(_) => " time ticks multiplier"@,
        RawBuff::Xp(_) => " xp"@,
        RawBuff::YieldSpeedMultiplier(_) => " yield speed multiplier"@,
        RawBuff::YieldSizeMultiplier(_) => " yield size multipler"@,
        RawBuff::Yield(_) => " yield"@,
        RawBuff::Craft(_) => " craft"@,
        RawBuff::CraftSpeedMultiplier(_) => " craft speed multiplier"@,
        RawBuff::CraftInputReturnChance(_) => " craft input return chance"@,
        RawBuff::CraftOutputDoubleChance(_) => " craft otuput double chance"@,
        RawBuff::Art { .. } => "n art"@,
    }
}

/// The note an error found in a buff gains.
pub open spec fn buff_note(b: RawBuff) -> Seq<char> {
    "in a"@ + buff_word(b) + " buff"@
}

/// Every item a buff names is configured, and its evalputs are sound.
pub open spec fn buff_sound(b: RawBuff, raw: RawConfig) -> bool
    decreases b,
{
    match b {
        RawBuff::Neighbor(x) => buff_sound(*x, raw),
        RawBuff::Yield(e) => sound_evalput(e, raw),
        RawBuff::Craft(rs) => forall|i: int| 0 <= i < rs@.len() ==> recipe_sound(#[trigger] rs@[i], raw),
        _ => true,
    }
}

/// `out` is the buff `b` with its yields and recipes checked, and every other
/// value kept.
pub open spec fn buff_checked<F: Fn(&RawEvalput) -> VerifResult<()>>(
    b: RawBuff,
    raw: RawConfig,
    check: F,
    out: Buff,
) -> bool
    decreases b,
{
    match (b, out) {
        (RawBuff::Neighbor(x), Buff::Neighbor(y)) => buff_checked(*x, raw, check, *y),
        (RawBuff::ExtraTimeTicks(x), Buff::ExtraTimeTicks(y)) => x == y,
        (RawBuff::ExtraTimeTicksMultiplier(x), Buff::ExtraTimeTicksMultiplier(y)) => x == y,
        (RawBuff::Xp(x), Buff::Xp(y)) => x == y,
        (RawBuff::YieldSpeedMultiplier(x), Buff::YieldSpeedMultiplier(y)) => x == y,
        (RawBuff::YieldSizeMultiplier(x), Buff::YieldSizeMultiplier(y)) => x == y,
        (RawBuff::Yield(e), Buff::Yield(o)) => checked_as(e, raw, check, o),
        (RawBuff::Craft(rs), Buff::Craft(os)) => {
            &&& rs@.len() == os@.len()
            &&& forall|i: int| 0 <= i < rs@.len() ==> recipe_checked(#[trigger] rs@[i], raw, check, os@[i])
        },
        (RawBuff::CraftSpeedMultiplier(x), Buff::CraftSpeedMultiplier(y)) => x == y,
        (RawBuff::CraftInputReturnChance(x), Buff::CraftInputReturnChance(y)) => x == y,
        (RawBuff::CraftOutputDoubleChance(x), Buff::CraftOutputDoubleChance(y)) => x == y,
        (RawBuff::Art { file: f1, precedence: p1 }, Buff::Art { file: f2, precedence: p2 }) => f1@ == f2@
            && p1 == p2,
        _ => false,
    }
}

/// The error that checking a buff that is not sound finds when the caller's
/// check passes every evalput node in it: that of what it holds (the buff it passes
/// on, its yield, or its first recipe that is not sound), with the buff's note.
pub open spec fn buff_error(b: RawBuff, raw: RawConfig) -> (Problem, Seq<Seq<char>>)
    decreases b,
{
    let inner = match b {
        RawBuff::Neighbor(x) => buff_error(*x, raw),
        RawBuff::Yield(e) => evalput_error(e, raw),
        RawBuff::Craft(rs) => {
            let i = first_failing(rs@, recipe_sound_in(raw));
            if 0 <= i < rs@.len() {
                recipe_error(rs@[i], raw)
            } else {
                (Problem::Custom(Seq::empty()), Seq::empty())
            }
        },
        _ => (Problem::Custom(Seq::empty()), Seq::empty()),
    };
    with_note(inner, buff_note(b))
}

/// A buff that checks out is sound.
pub proof fn lemma_buff_checked_sound<F: Fn(&RawEvalput) -> VerifResult<()>>(
    b: RawBuff,
    raw: RawConfig,
    check: F,
    out: Buff,
)
    requires
        buff_checked(b, raw, check, out),
    ensures
        buff_sound(b, raw),
    decreases b,
{
    match (b, out) {
        (RawBuff::Neighbor(x), Buff::Neighbor(y)) => lemma_buff_checked_sound(*x, raw, check, *y),
        (RawBuff::Yield(e), Buff::Yield(o)) => lemma_checked_sound(e, raw, check, o),
        (RawBuff::Craft(rs), Buff::Craft(os)) => {
            assert forall|i: int| 0 <= i < rs@.len() implies recipe_sound(#[trigger] rs@[i], raw) by {
                assert(recipe_checked(rs@[i], raw, check, os@[i]));
                lemma_checked_sound(rs@[i].makes, raw, check, os@[i].makes);
            }
        },
        _ => {},
    }
}

/// Checks these recipes in order; the first error stops the check.
fn verify_recipes<F: Fn(&RawEvalput) -> VerifResult<()>>(rs: &Vec<RawRecipe>, raw: &RawConfig, check: &F) -> (r:
    VerifResult<Vec<Recipe>>)
    requires
        callable(*check),
    ensures
        r matches Ok(os) ==> os@.len() == rs@.len() && forall|i: int|
            0 <= i < rs@.len() ==> recipe_checked(#[trigger] rs@[i], *raw, *check, os@[i]),
        recipes_pass(*check, rs@) && (forall|i: int| 0 <= i < rs@.len() ==> recipe_sound(#[trigger] rs@[i], *raw))
            ==> r is Ok,
        r matches Err(e) ==> exists|i: int|
            0 <= i < rs@.len() && e@.1.len() > 0 && e@.1.last() == recipe_note(#[trigger] rs@[i]),
        r matches Err(e) ==> recipes_fail(rs@, *raw, *check, e@),
        recipes_pass(*check, rs@) && !(forall|i: int| 0 <= i < rs@.len() ==> recipe_sound(#[trigger] rs@[i], *raw))
            ==> (r matches Err(e) && e@ == recipe_error(rs@[first_failing(rs@, recipe_sound_in(*raw))], *raw)),
{
    let mut out: Vec<Recipe> = Vec::new();
    let mut i: usize = 0;
    while i < rs.len()
        invariant
            callable(*check),
            i <= rs@.len(),
            out@.len() == i,
            forall|j: int| 0 <= j < i ==> recipe_checked(#[trigger] rs@[j], *raw, *check, out@[j]),
            forall|j: int| 0 <= j < i ==> recipe_sound(#[trigger] rs@[j], *raw),
        decreases rs@.len() - i,
    {
        match rs[i].verify_with(raw, check) {
            Ok(v) => {
                out.push(v);
            },
            Err(e) => {
                assert(recipe_note(rs@[i as int]) == e@.1.last());
                assert forall|j: int| 0 <= j < i implies recipe_checks_out(#[trigger] rs@[j], *raw, *check) by {
                    assert(recipe_checked(rs@[j], *raw, *check, out@[j]));
                }
                proof {
                    if recipes_pass(*check, rs@) {
                        assert(recipe_passes(*check, rs@[i as int]));
                        assert(is_first_failing(rs@, recipe_sound_in(*raw), i as int));
                        lemma_first_failing_unique(rs@, recipe_sound_in(*raw), i as int);
                    }
                }
                return Err(e);
            },
        }
        i = i + 1;
    }
    Ok(out)
}

/// `err` is an error that checking the buff `b` can end in: that of the buff it
/// passes on, of its yield, or of its recipes, with the buff's note.
pub open spec fn buff_fails<F: Fn(&RawEvalput) -> VerifResult<()>>(
    b: RawBuff,
    raw: RawConfig,
    check: F,
    err: (Problem, Seq<Seq<char>>),
) -> bool
    decreases b,
{
    &&& err.1.len() > 0
    &&& err.1.last() == buff_note(b)
    &&& match b {
        RawBuff::Neighbor(x) => buff_fails(*x, raw, check, (err.0, err.1.drop_last())),
        RawBuff::Yield(e) => fails_with(e, raw, check, (err.0, err.1.drop_last())),
        RawBuff::Craft(rs) => recipes_fail(rs@, raw, check, (err.0, err.1.drop_last())),
        _ => false,
    }
}

/// The buff checks out against `raw` with `check`, to some buff.
pub open spec fn buff_checks_out<F: Fn(&RawEvalput) -> VerifResult<()>>(b: RawBuff, raw: RawConfig, check: F) -> bool {
    exists|out: Buff| buff_checked(b, raw, check, out)
}

impl RawBuff {
    /// The note an error found in this buff gains.
    pub fn context(&self) -> (r: String)
        ensures
            r@ == buff_note(*self),
    {
        let word = match self {
            RawBuff::Neighbor(_) => " neighbor",
            RawBuff::ExtraTimeTicks(_) => "n extra time ticks",
            RawBuff::ExtraTimeTicksMultiplier(_) => " time ticks multiplier",
            RawBuff::Xp(_) => " xp",
            RawBuff::YieldSpeedMultiplier(_) => " yield speed multiplier",
            RawBuff::YieldSizeMultiplier(_) => " yield size multipler",
            RawBuff::Yield(_) => " yield",
            RawBuff::Craft(_) => " craft",
            RawBuff::CraftSpeedMultiplier(_) => " craft speed multiplier",
            RawBuff::CraftInputReturnChance(_) => " craft input return chance",
            RawBuff::CraftOutputDoubleChance(_) => " craft otuput double chance",
            RawBuff::Art { .. } => "n art",
        };
        let mut s = concat("in a", word);
        push_str(&mut s, " buff");
        s
    }

    /// Checks a buff: the buff it passes on, its yield, or its recipes.
    pub fn verify_with<F: Fn(&RawEvalput) -> VerifResult<()>>(&self, raw: &RawConfig, check: &F) -> (r:
        VerifResult<Buff>)
        requires
            callable(*check),
        ensures
            r matches Ok(out) ==> buff_checked(*self, *raw, *check, out),
            r is Ok ==> buff_sound(*self, *raw),
            buff_passes(*check, *self) && buff_sound(*self, *raw) ==> r is Ok,
            buff_passes(*check, *self) && !buff_sound(*self, *raw) ==> (r matches Err(e) && e@ == buff_error(
                *self,
                *raw,
            )),
            r matches Err(e) ==> e@.1.len() > 0 && e@.1.last() == buff_note(*self),
            r matches Err(e) ==> buff_fails(*self, *raw, *check, e@),
        decreases self,
    {
        let context = self.context();
        let v: Buff = match self {
            RawBuff::Neighbor(b) => {
                assert(decreases_to!(*self => *b));
                match b.verify_with(raw, check) {
                    Ok(v) => Buff::Neighbor(Box::new(v)),
                    Err(e) => {
                        assert(e@.1.push(context@).drop_last() =~= e@.1);
                        return Err(e.noted(context));
                    },
                }
            },
            RawBuff::ExtraTimeTicks(u) => Buff::ExtraTimeTicks(*u),
            RawBuff::ExtraTimeTicksMultiplier(f) => Buff::ExtraTimeTicksMultiplier(*f),
            RawBuff::Xp(f) => Buff::Xp(*f),
            RawBuff::YieldSpeedMultiplier(f) => Buff::YieldSpeedMultiplier(*f),
            RawBuff::YieldSizeMultiplier(f) => Buff::YieldSizeMultiplier(*f),
            RawBuff::Yield(e) => match verify_with(e, raw, check) {
                Ok(v) => Buff::Yield(v),
                Err(err) => {
                    assert(err@.1.push(context@).drop_last() =~= err@.1);
                    return Err(err.noted(context));
                },
            },
            RawBuff::Craft(recipes) => match verify_recipes(recipes, raw, check) {
                Ok(v) => Buff::Craft(v),
                Err(err) => {
                    proof {
                        if buff_passes(*check, *self) && !buff_sound(*self, *raw) {
                            let i = choose|i: int| 0 <= i < recipes@.len() && !recipe_sound(#[trigger] recipes@[i], *raw);
                            assert(!recipe_sound_in(*raw)(recipes@[i]));
                            lemma_first_failing_exists(recipes@, recipe_sound_in(*raw));
                        }
                    }
                    assert(err@.1.push(context@).drop_last() =~= err@.1);
                    return Err(err.noted(context));
                },
            },
            RawBuff::CraftSpeedMultiplier(f) => Buff::CraftSpeedMultiplier(*f),
            RawBuff::CraftInputReturnChance(f) => Buff::CraftInputReturnChance(*f),
            RawBuff::CraftOutputDoubleChance(f) => Buff::CraftOutputDoubleChance(*f),
            RawBuff::Art { file, precedence } => Buff::Art { file: file.clone(), precedence: *precedence },
        };
        proof {
            lemma_buff_checked_sound(*self, *raw, *check, v);
        }
        Ok(v)
    }
}

/// How many bytes of an effect's description its note shows: twenty, or all
/// of them when there are fewer.
pub open spec fn head_len(description: Seq<char>) -> int {
    let n = encode_utf8(description).len();
    if n < 20 {
        n as int
    } else {
        20
    }
}

/// The characters that the first `head_len` bytes of the description encode.
pub open spec fn description_head(description: Seq<char>) -> Seq<char> {
    decode_utf8(encode_utf8(description).subrange(0, head_len(description)))
}

/// The description's first `head_len` bytes end on a character boundary, so
/// its note can show them (the note is made for every effect checked).
pub open spec fn describable(e: effect::RawConfig) -> bool {
    is_char_boundary(encode_utf8(e.description@), head_len(e.description@))
}

/// The note an error found in an effect gains.
pub open spec fn effect_note(e: effect::RawConfig) -> Seq<char> {
    "in an effect described \""@ + description_head(e.description@) + "...\""@
}

/// An effect either buffs or turns its plant into a configured plant, its
/// buff is sound, and its filter names configured plants.
pub open spec fn effect_sound(e: effect::RawConfig, raw: RawConfig) -> bool {
    &&& (e.buff is Some) != (e.transmogrification is Some)
    &&& (e.transmogrification matches Some(n) ==> raw.has_plant(n@))
    &&& (e.buff matches Some(b) ==> buff_sound(b, raw))
    &&& e.for_plants.resolves(&raw)
}

/// `out` is the effect `e`, its buff checked or its plant name replaced by the
/// plant's conf, and its filter resolved.
pub open spec fn effect_checked<F: Fn(&RawEvalput) -> VerifResult<()>>(
    e: effect::RawConfig,
    raw: RawConfig,
    check: F,
    out: effect::Config,
) -> bool {
    &&& out.description@ == e.description@
    &&& out.duration == e.duration
    &&& e.for_plants.resolves(&raw)
    &&& e.for_plants.resolved_as(&raw, out.for_plants)
    &&& match (e.buff, e.transmogrification, out.kind) {
        (Some(b), None, ConfigKind::Buff(ob)) => buff_checked(b, raw, check, ob),
        (None, Some(n), ConfigKind::Transmogrification(c)) => raw.has_plant(n@) && c
            == raw.plant_conf_spec(n@),
        _ => false,
    }
}

/// The error that checking an effect that is not sound finds when the
/// caller's check passes every evalput node in it: an unknown plant to turn into,
/// else the error in its buff, else that it has both or neither, else the
/// error in its filter; with the effect's note.
pub open spec fn effect_error(e: effect::RawConfig, raw: RawConfig) -> (Problem, Seq<Seq<char>>) {
    let trans_bad = match e.transmogrification {
        Some(n) => !raw.has_plant(n@),
        None => false,
    };
    let buff_bad = match e.buff {
        Some(b) => !buff_sound(b, raw),
        None => false,
    };
    if trans_bad {
        (
            Problem::UnknownPlant(e.transmogrification.unwrap()@),
            seq!["in the transmogrification field"@, effect_note(e)],
        )
    } else if buff_bad {
        with_note(buff_error(e.buff.unwrap(), raw), effect_note(e))
    } else if e.buff is Some && e.transmogrification is Some {
        (Problem::Custom("a single effect should not transmog AND buff"@), seq![effect_note(e)])
    } else if e.buff is None && e.transmogrification is None {
        (Problem::Custom("an effect should either transmog OR buff"@), seq![effect_note(e)])
    } else {
        with_note(noted_error(e.for_plants, &raw), effect_note(e))
    }
}

/// Soundness of effects in `raw`, as a predicate.
pub open spec fn effect_sound_in(raw: RawConfig) -> spec_fn(effect::RawConfig) -> bool {
    |e: effect::RawConfig| effect_sound(e, raw)
}

impl effect::RawConfig {
    /// The note an error found in this effect gains: the start of its description.
    pub fn context(&self) -> (r: String)
        requires
            describable(*self),
        ensures
            r@ == effect_note(*self),
    {
        let d = self.description.as_str();
        let len = d.as_bytes().len();
        let n: usize = if len < 20 {
            len
        } else {
            20
        };
        assert(d.spec_bytes() == encode_utf8(self.description@));
        assert(n as int == head_len(self.description@));
        let (head, _) = d.split_at(n);
        proof {
            vstd::utf8::encode_utf8_decode_utf8(head@);
            assert(head.spec_bytes() == encode_utf8(head@));
            assert(head@ == description_head(self.description@));
        }
        let mut s = concat("in an effect described \"", head);
        push_str(&mut s, "...\"");
        s
    }

    /// Checks an effect: the plant it turns its plant into, then its buff,
    /// that it has exactly one of them, then which plants it is for.
    pub fn verify_with<F: Fn(&RawEvalput) -> VerifResult<()>>(&self, raw: &RawConfig, check: &F) -> (r:
        VerifResult<effect::Config>)
        requires
            callable(*check),
            describable(*self),
        ensures
            r matches Ok(out) ==> effect_checked(*self, *raw, *check, out),
            r is Ok ==> effect_sound(*self, *raw),
            effect_passes(*check, *self) && effect_sound(*self, *raw) ==> r is Ok,
            self.transmogrification matches Some(n) ==> (!raw.has_plant(n@) ==> (r matches Err(e) && e@ == (
                Problem::UnknownPlant(n@),
                seq!["in the transmogrification field"@, effect_note(*self)],
            ))),
            self.buff is None && self.transmogrification is None ==> (r matches Err(e) && e@ == (
                Problem::Custom("an effect should either transmog OR buff"@),
                seq![effect_note(*self)],
            )),
            self.buff matches Some(b) ==> (self.transmogrification matches Some(n) ==> (raw.has_plant(n@)
                && buff_passes(*check, b) && buff_sound(b, *raw) ==> (r matches Err(e) && e@ == (
                Problem::Custom("a single effect should not transmog AND buff"@),
                seq![effect_note(*self)],
            )))),
            effect_passes(*check, *self) && !effect_sound(*self, *raw) ==> (r matches Err(e) && e@ == effect_error(
                *self,
                *raw,
            )),
            r matches Err(e) ==> e@.1.len() > 0 && e@.1.last() == effect_note(*self),
            r matches Err(e) ==> effect_fails(*self, *raw, *check, e@),
    {
        let context = self.context();
        let transmogrification = match &self.transmogrification {
            Some(plant_name) => match raw.plant_conf(plant_name.as_str()) {
                Ok(c) => Some(c),
                Err(e) => {
                    let r = e.noted("in the transmogrification field".to_owned()).noted(context);
                    assert(r@.1.drop_last() =~= seq!["in the transmogrification field"@]);
                    return Err(r);
                },
            },
            None => None,
        };
        assert(!transmog_unknown(*self, *raw));
        let buff = match &self.buff {
            Some(b) => match b.verify_with(raw, check) {
                Ok(v) => {
                    assert(buff_checks_out(*b, *raw, *check)) by {
                        assert(buff_checked(*b, *raw, *check, v));
                    }
                    Some(v)
                },
                Err(e) => {
                    assert(e@.1.push(context@).drop_last() =~= e@.1);
                    return Err(e.noted(context));
                },
            },
            None => None,
        };
        assert(self.buff matches Some(b) ==> buff_checks_out(b, *raw, *check));
        let kind = match (buff, transmogrification) {
            (Some(buff), None) => ConfigKind::Buff(buff),
            (None, Some(trans)) => ConfigKind::Transmogrification(trans),
            (Some(_), Some(_)) => {
                let r = VerifError::custom("a single effect should not transmog AND buff").noted(context);
                assert(r@.1.drop_last() =~= Seq::<Seq<char>>::empty());
                return Err(r);
            },
            (None, None) => {
                let r = VerifError::custom("an effect should either transmog OR buff").noted(context);
                assert(r@.1.drop_last() =~= Seq::<Seq<char>>::empty());
                return Err(r);
            },
        };
        let for_plants = match self.for_plants.resolve(raw) {
            Ok(f) => f,
            Err(e) => {
                assert(e@.1.push(context@).drop_last() =~= e@.1);
                return Err(e.noted(context));
            },
        };
        Ok(
            effect::Config {
                kind,
                description: self.description.clone(),
                for_plants,
                duration: self.duration,
            },
        )
    }
}

/// The effect turns its plant into a plant that is not configured.
pub open spec fn transmog_unknown(e: effect::RawConfig, raw: RawConfig) -> bool {
    match e.transmogrification {
        Some(n) => !raw.has_plant(n@),
        None => false,
    }
}

/// The error an effect whose buff checked out ends in, without the effect's
/// note: it buffs and transmogs, or does neither, or its filter names a plant
/// that is not configured.
pub open spec fn effect_shape_error(e: effect::RawConfig, raw: RawConfig, inner: (Problem, Seq<Seq<char>>)) -> bool {
    if e.buff is Some && e.transmogrification is Some {
        inner == (Problem::Custom("a single effect should not transmog AND buff"@), Seq::<Seq<char>>::empty())
    } else if e.buff is None && e.transmogrification is None {
        inner == (Problem::Custom("an effect should either transmog OR buff"@), Seq::<Seq<char>>::empty())
    } else {
        !e.for_plants.resolves(&raw) && inner == noted_error(e.for_plants, &raw)
    }
}

/// `err` is an error that checking the effect `e` can end in: its unknown
/// transmogrification, else what checking its buff ends in, else (its buff
/// checked out) the error of its shape or filter; with the effect's note.
pub open spec fn effect_fails<F: Fn(&RawEvalput) -> VerifResult<()>>(
    e: effect::RawConfig,
    raw: RawConfig,
    check: F,
    err: (Problem, Seq<Seq<char>>),
) -> bool {
    &&& err.1.len() > 0
    &&& err.1.last() == effect_note(e)
    &&& if transmog_unknown(e, raw) {
        (err.0, err.1.drop_last()) == (
            Problem::UnknownPlant(e.transmogrification.unwrap()@),
            seq!["in the transmogrification field"@],
        )
    } else {
        ||| (e.buff matches Some(b) && buff_fails(b, raw, check, (err.0, err.1.drop_last())))
        ||| ((e.buff matches Some(b) ==> buff_checks_out(b, raw, check)) && effect_shape_error(
            e,
            raw,
            (err.0, err.1.drop_last()),
        ))
    }
}

/// The effect checks out against `raw` with `check`, to some effect.
pub open spec fn effect_checks_out<F: Fn(&RawEvalput) -> VerifResult<()>>(
    e: effect::RawConfig,
    raw: RawConfig,
    check: F,
) -> bool {
    exists|out: effect::Config| effect_checked(e, raw, check, out)
}

/// `err` is an error that checking these effects in order can end in: that of
/// the first effect that does not check out.
pub open spec fn effects_fail<F: Fn(&RawEvalput) -> VerifResult<()>>(
    es: Seq<effect::RawConfig>,
    raw: RawConfig,
    check: F,
    err: (Problem, Seq<Seq<char>>),
) -> bool {
    exists|i: int|
        #![trigger es[i]]
        0 <= i < es.len() && (forall|j: int| 0 <= j < i ==> effect_checks_out(#[trigger] es[j], raw, check))
            && effect_fails(es[i], raw, check, err)
}

/// Every effect among `es` can show its description in its note.
pub open spec fn effects_describable(es: Seq<effect::RawConfig>) -> bool {
    forall|i: int| 0 <= i < es.len() ==> describable(#[trigger] es[i])
}

/// Every effect among `es` is sound.
pub open spec fn effects_sound(es: Seq<effect::RawConfig>, raw: RawConfig) -> bool {
    forall|i: int| 0 <= i < es.len() ==> effect_sound(#[trigger] es[i], raw)
}

/// `out` holds the effects `es`, each checked.
pub open spec fn effects_checked<F: Fn(&RawEvalput) -> VerifResult<()>>(
    es: Seq<effect::RawConfig>,
    raw: RawConfig,
    check: F,
    out: Seq<effect::Config>,
) -> bool {
    &&& out.len() == es.len()
    &&& forall|i: int| 0 <= i < es.len() ==> effect_checked(#[trigger] es[i], raw, check, out[i])
}

/// Checks these effects in order; the first error stops the check.
pub fn verify_effects<F: Fn(&RawEvalput) -> VerifResult<()>>(
    es: &Vec<effect::RawConfig>,
    raw: &RawConfig,
    check: &F,
) -> (r: VerifResult<Vec<effect::Config>>)
    requires
        callable(*check),
        effects_describable(es@),
    ensures
        r matches Ok(out) ==> effects_checked(es@, *raw, *check, out@),
        r is Ok ==> effects_sound(es@, *raw),
        effects_pass(*check, es@) && effects_sound(es@, *raw) ==> r is Ok,
        r matches Err(e) ==> exists|i: int|
            0 <= i < es@.len() && e@.1.len() > 0 && e@.1.last() == effect_note(#[trigger] es@[i]),
        r matches Err(e) ==> effects_fail(es@, *raw, *check, e@),
        effects_pass(*check, es@) && !effects_sound(es@, *raw) ==> (r matches Err(e) && is_first_failing(
            es@,
            effect_sound_in(*raw),
            first_failing(es@, effect_sound_in(*raw)),
        ) && e@ == effect_error(es@[first_failing(es@, effect_sound_in(*raw))], *raw)),
{
    let mut out: Vec<effect::Config> = Vec::new();
    let mut i: usize = 0;
    while i < es.len()
        invariant
            callable(*check),
            effects_describable(es@),
            i <= es@.len(),
            out@.len() == i,
            forall|j: int| 0 <= j < i ==> effect_checked(#[trigger] es@[j], *raw, *check, out@[j]),
            forall|j: int| 0 <= j < i ==> effect_sound(#[trigger] es@[j], *raw),
        decreases es@.len() - i,
    {
        assert(describable(es@[i as int]));
        match es[i].verify_with(raw, check) {
            Ok(v) => {
                out.push(v);
            },
            Err(e) => {
                assert(effect_note(es@[i as int]) == e@.1.last());
                assert forall|j: int| 0 <= j < i implies effect_checks_out(#[trigger] es@[j], *raw, *check) by {
                    assert(effect_checked(es@[j], *raw, *check, out@[j]));
                }
                proof {
                    if effects_pass(*check, es@) {
                        assert(effect_passes(*check, es@[i as int]));
                        assert(is_first_failing(es@, effect_sound_in(*raw), i as int));
                        lemma_first_failing_unique(es@, effect_sound_in(*raw), i as int);
                    }
                }
                return Err(e);
            },
        }
        i = i + 1;
    }
    Ok(out)
}

/// The note an error found in a skill gains.
pub open spec fn skill_note(s: RawSkill) -> Seq<char> {
    "in a skill titled "@ + s.title@
}

/// The unlocks of the skill `s` of the plant `plant_conf`, each with its place.
pub open spec fn unlocks_of(plant_conf: plant::Conf, s: RawSkill) -> Seq<RawUnlockVerifyWrapper> {
    Seq::new(
        s.unlocks@.len(),
        |i: int| wrapped(s.unlocks@[i].0, skill::Conf(plant_conf, s.conf), plant_conf, i as usize),
    )
}

/// The effects of a skill are sound, and every name in its unlocks names
/// something configured.
pub open spec fn skill_sound(plant_conf: plant::Conf, s: RawSkill, raw: RawConfig) -> bool {
    &&& effects_sound(s.effects@, raw)
    &&& forall|i: int| 0 <= i < s.unlocks@.len() ==> (#[trigger] unlocks_of(plant_conf, s)[i]).resolves(&raw)
}

/// `out` is the skill `s` of the plant `plant_conf` with its effects and its
/// unlocks checked.
pub open spec fn skill_checked<F: Fn(&RawEvalput) -> VerifResult<()>>(
    plant_conf: plant::Conf,
    s: RawSkill,
    raw: RawConfig,
    check: F,
    out: Skill,
) -> bool {
    &&& out.title@ == s.title@
    &&& effects_checked(s.effects@, raw, check, out.effects@)
    &&& out.unlocks@.len() == s.unlocks@.len()
    &&& forall|i: int|
        0 <= i < s.unlocks@.len() ==> (#[trigger] unlocks_of(plant_conf, s)[i]).resolves(&raw)
            && unlocks_of(plant_conf, s)[i].resolved_as(&raw, out.unlocks@[i])
}

/// The error that checking a skill that is not sound finds when the caller's
/// check passes every evalput node in it: that of its first effect that is not
/// sound, else that of its first unlock that does not resolve; with the
/// skill's note.
pub open spec fn skill_error(plant_conf: plant::Conf, s: RawSkill, raw: RawConfig) -> (Problem, Seq<Seq<char>>) {
    if !effects_sound(s.effects@, raw) {
        with_note(effect_error(s.effects@[first_failing(s.effects@, effect_sound_in(raw))], raw), skill_note(s))
    } else {
        with_note(
            noted_error(unlocks_of(plant_conf, s)[first_unresolved(unlocks_of(plant_conf, s), &raw)], &raw),
            skill_note(s),
        )
    }
}

/// Soundness of the skills of the plant `plant_conf` in `raw`, as a predicate.
pub open spec fn skill_sound_in(plant_conf: plant::Conf, raw: RawConfig) -> spec_fn(RawSkill) -> bool {
    |s: RawSkill| skill_sound(plant_conf, s, raw)
}

/// The effects check out against `raw` with `check`, to some effects.
pub open spec fn effects_check_out<F: Fn(&RawEvalput) -> VerifResult<()>>(
    es: Seq<effect::RawConfig>,
    raw: RawConfig,
    check: F,
) -> bool {
    exists|out: Seq<effect::Config>| effects_checked(es, raw, check, out)
}

/// `err` is an error that checking the skill `s` of the plant `plant_conf` can
/// end in: what checking its effects ends in, else (they checked out) the error
/// of its first unlock that names something not configured; with the skill's note.
pub open spec fn skill_fails<F: Fn(&RawEvalput) -> VerifResult<()>>(
    plant_conf: plant::Conf,
    s: RawSkill,
    raw: RawConfig,
    check: F,
    err: (Problem, Seq<Seq<char>>),
) -> bool {
    &&& err.1.len() > 0
    &&& err.1.last() == skill_note(s)
    &&& {
        ||| effects_fail(s.effects@, raw, check, (err.0, err.1.drop_last()))
        ||| {
            &&& effects_check_out(s.effects@, raw, check)
            &&& exists|i: int| 0 <= i < s.unlocks@.len() && !(#[trigger] unlocks_of(plant_conf, s)[i]).resolves(&raw)
            &&& (err.0, err.1.drop_last()) == noted_error(
                unlocks_of(plant_conf, s)[first_unresolved(unlocks_of(plant_conf, s), &raw)],
                &raw,
            )
        }
    }
}

impl RawSkill {
    /// The note an error found in this skill gains.
    pub fn context(&self) -> (r: String)
        ensures
            r@ == skill_note(*self),
    {
        concat("in a skill titled ", self.title.as_str())
    }

    /// Checks this skill of the plant `plant_conf`: its effects, then its unlocks.
    pub fn verify_with<F: Fn(&RawEvalput) -> VerifResult<()>>(
        &self,
        plant_conf: plant::Conf,
        raw: &RawConfig,
        check: &F,
    ) -> (r: VerifResult<Skill>)
        requires
            callable(*check),
            raw.valid_plant(plant_conf),
            effects_describable(self.effects@),
        ensures
            r matches Ok(out) ==> skill_checked(plant_conf, *self, *raw, *check, out),
            r is Ok ==> skill_sound(plant_conf, *self, *raw),
            skill_passes(*check, *self) && skill_sound(plant_conf, *self, *raw) ==> r is Ok,
            skill_passes(*check, *self) && !skill_sound(plant_conf, *self, *raw) ==> (r matches Err(e) && e@ == skill_error(
                plant_conf,
                *self,
                *raw,
            )),
            r matches Err(e) ==> e@.1.len() > 0 && e@.1.last() == skill_note(*self),
            r matches Err(e) ==> skill_fails(plant_conf, *self, *raw, *check, e@),
    {
        let context = self.context();
        let effects = match verify_effects(&self.effects, raw, check) {
            Ok(v) => v,
            Err(e) => {
                assert(e@.1.push(context@).drop_last() =~= e@.1);
                return Err(e.noted(context));
            },
        };
        assert(effects_check_out(self.effects@, *raw, *check)) by {
            assert(effects_checked(self.effects@, *raw, *check, effects@));
        }
        let ghost us = unlocks_of(plant_conf, *self);
        let mut unlocks: Vec<skill::Unlock> = Vec::new();
        let mut i: usize = 0;
        while i < self.unlocks.len()
            invariant
                raw.valid_plant(plant_conf),
                effects_sound(self.effects@, *raw),
                effects_check_out(self.effects@, *raw, *check),
                us == unlocks_of(plant_conf, *self),
                context@ == skill_note(*self),
                i <= self.unlocks@.len(),
                unlocks@.len() == i,
                forall|j: int| 0 <= j < i ==> (#[trigger] us[j]).resolves(raw) && us[j].resolved_as(raw, unlocks@[j]),
            decreases self.unlocks@.len() - i,
        {
            let unlock = &self.unlocks[i].0;
            assert(us[i as int] == wrapped(*unlock, skill::Conf(plant_conf, self.conf), plant_conf, i));
            match resolve_unlock(unlock, skill::Conf(plant_conf, self.conf), plant_conf, i, raw) {
                Ok(u) => {
                    unlocks.push(u);
                },
                Err(e) => {
                    let note = concat("in an unlock for ", unlock.skill.as_str());
                    proof {
                        assert(is_first_unresolved(us, raw, i as int));
                        lemma_first_unresolved_unique(us, raw, i as int);
                    }
                    let r = e.noted(note).noted(context);
                    assert(r@.1.drop_last() =~= e@.1.push(note@));
                    assert(!us[i as int].resolves(raw));
                    return Err(r);
                },
            }
            i = i + 1;
        }
        assert(forall|j: int| 0 <= j < self.unlocks@.len() ==> (#[trigger] us[j]).resolves(raw));
        Ok(Skill { title: self.title.clone(), unlocks, effects })
    }
}

/// The note an error found in something read from the file `file` gains.
pub open spec fn file_note(file: Seq<char>) -> Seq<char> {
    "from a file "@ + file
}

/// The note an error found in a plant gains.
pub open spec fn plant_note(p: plant::RawConfig) -> Seq<char> {
    "in a plant named "@ + p.name@
}

/// Every effect of every skill of a plant can show its description in its note.
pub open spec fn plant_describable(p: plant::RawConfig) -> bool {
    forall|i: int| 0 <= i < p.skills.inner@.len() ==> effects_describable(#[trigger] p.skills.inner@[i].effects@)
}

/// A plant's name is configured, and its skills are sound.
pub open spec fn plant_sound(p: plant::RawConfig, raw: RawConfig) -> bool {
    &&& raw.has_plant(p.name@)
    &&& forall|i: int|
        0 <= i < p.skills.inner@.len() ==> skill_sound(
            raw.plant_conf_spec(p.name@),
            #[trigger] p.skills.inner@[i],
            raw,
        )
}

/// `out` is the plant `p` with each of its skills checked as skills of the
/// first plant of its name.
pub open spec fn plant_checked<F: Fn(&RawEvalput) -> VerifResult<()>>(
    p: plant::RawConfig,
    raw: RawConfig,
    check: F,
    out: plant::Config,
) -> bool {
    &&& raw.has_plant(p.name@)
    &&& out.name@ == p.name@
    &&& out.base_yield_duration == p.base_yield_duration
    &&& out.skillpoint_unlock_xps@ == p.skillpoint_unlock_xps@
    &&& out.skills@.len() == p.skills.inner@.len()
    &&& forall|i: int|
        0 <= i < p.skills.inner@.len() ==> skill_checked(
            raw.plant_conf_spec(p.name@),
            #[trigger] p.skills.inner@[i],
            raw,
            check,
            out.skills@[i],
        )
}

/// The same numbers, in a new `Vec`.
fn copy_numbers(v: &Vec<usize>) -> (r: Vec<usize>)
    ensures
        r@ == v@,
{
    let mut out: Vec<usize> = Vec::new();
    let mut i: usize = 0;
    while i < v.len()
        invariant
            i <= v@.len(),
            out@ == v@.subrange(0, i as int),
        decreases v@.len() - i,
    {
        out.push(v[i]);
        i = i + 1;
        assert(out@ =~= v@.subrange(0, i as int));
    }
    assert(out@ =~= v@);
    out
}

/// The error that checking a plant that is not sound finds when the caller's
/// check passes every evalput node in it: its unknown name, else the error in its
/// first skill that is not sound with the note of the skills' file; with the
/// plant's note.
pub open spec fn plant_error(p: plant::RawConfig, raw: RawConfig) -> (Problem, Seq<Seq<char>>) {
    if !raw.has_plant(p.name@) {
        (Problem::UnknownPlant(p.name@), seq![plant_note(p)])
    } else {
        let pc = raw.plant_conf_spec(p.name@);
        with_note(
            with_note(
                skill_error(pc, p.skills.inner@[first_failing(p.skills.inner@, skill_sound_in(pc, raw))], raw),
                file_note(p.skills.file@),
            ),
            plant_note(p),
        )
    }
}

/// The skill checks out as a skill of the plant `plant_conf`, to some skill.
pub open spec fn skill_checks_out<F: Fn(&RawEvalput) -> VerifResult<()>>(
    plant_conf: plant::Conf,
    s: RawSkill,
    raw: RawConfig,
    check: F,
) -> bool {
    exists|out: Skill| skill_checked(plant_conf, s, raw, check, out)
}

/// `err` is an error that checking the plant `p` can end in: its unknown name,
/// else what checking its first skill that does not check out ends in, with the
/// note of the skills' file; with the plant's note.
pub open spec fn plant_fails<F: Fn(&RawEvalput) -> VerifResult<()>>(
    p: plant::RawConfig,
    raw: RawConfig,
    check: F,
    err: (Problem, Seq<Seq<char>>),
) -> bool {
    &&& err.1.len() > 0
    &&& err.1.last() == plant_note(p)
    &&& if !raw.has_plant(p.name@) {
        (err.0, err.1.drop_last()) == (Problem::UnknownPlant(p.name@), Seq::<Seq<char>>::empty())
    } else {
        &&& err.1.len() > 1
        &&& err.1[err.1.len() - 2] == file_note(p.skills.file@)
        &&& exists|i: int|
            #![trigger p.skills.inner@[i]]
            0 <= i < p.skills.inner@.len() && (forall|j: int|
                0 <= j < i ==> skill_checks_out(
                    raw.plant_conf_spec(p.name@),
                    #[trigger] p.skills.inner@[j],
                    raw,
                    check,
                )) && skill_fails(
                raw.plant_conf_spec(p.name@),
                p.skills.inner@[i],
                raw,
                check,
                (err.0, err.1.drop_last().drop_last()),
            )
    }
}

impl plant::RawConfig {
    /// The note an error found in this plant gains.
    pub fn context(&self) -> (r: String)
        ensures
            r@ == plant_note(*self),
    {
        concat("in a plant named ", self.name.as_str())
    }

    /// Checks a plant: its name, then its skills, read from their own file,
    /// as skills of the first plant of its name.
    pub fn verify_with<F: Fn(&RawEvalput) -> VerifResult<()>>(&self, raw: &RawConfig, check: &F) -> (r:
        VerifResult<plant::Config>)
        requires
            callable(*check),
            plant_describable(*self),
        ensures
            r matches Ok(out) ==> plant_checked(*self, *raw, *check, out),
            r is Ok ==> plant_sound(*self, *raw),
            plant_passes(*check, *self) && plant_sound(*self, *raw) ==> r is Ok,
            !raw.has_plant(self.name@) ==> (r matches Err(e) && e@ == (
                Problem::UnknownPlant(self.name@),
                seq![plant_note(*self)],
            )),
            plant_passes(*check, *self) && !plant_sound(*self, *raw) ==> (r matches Err(e) && e@ == plant_error(
                *self,
                *raw,
            )),
            r matches Err(e) ==> e@.1.len() > 0 && e@.1.last() == plant_note(*self),
            r matches Err(e) ==> plant_fails(*self, *raw, *check, e@),
    {
        let context = self.context();
        let conf = match raw.plant_conf(self.name.as_str()) {
            Ok(c) => c,
            Err(e) => {
                assert(e@.1.push(context@).drop_last() =~= e@.1);
                return Err(e.noted(context));
            },
        };
        let rskills = &self.skills.inner;
        let mut skills: Vec<Skill> = Vec::new();
        let mut i: usize = 0;
        while i < rskills.len()
            invariant
                callable(*check),
                plant_describable(*self),
                *rskills == self.skills.inner,
                raw.valid_plant(conf),
                raw.has_plant(self.name@),
                conf == raw.plant_conf_spec(self.name@),
                context@ == plant_note(*self),
                i <= rskills@.len(),
                skills@.len() == i,
                forall|j: int| 0 <= j < i ==> skill_checked(conf, #[trigger] rskills@[j], *raw, *check, skills@[j]),
                forall|j: int| 0 <= j < i ==> skill_sound(conf, #[trigger] rskills@[j], *raw),
            decreases rskills@.len() - i,
        {
            assert(effects_describable(rskills@[i as int].effects@));
            match rskills[i].verify_with(conf, raw, check) {
                Ok(v) => {
                    skills.push(v);
                },
                Err(e) => {
                    let file = concat("from a file ", self.skills.file.as_str());
                    assert forall|j: int| 0 <= j < i implies skill_checks_out(conf, #[trigger] rskills@[j], *raw, *check) by {
                        assert(skill_checked(conf, rskills@[j], *raw, *check, skills@[j]));
                    }
                    assert(e@.1.push(file@).push(context@).drop_last().drop_last() =~= e@.1);
                    proof {
                        if plant_passes(*check, *self) {
                            assert(skill_passes(*check, rskills@[i as int]));
                            assert(is_first_failing(rskills@, skill_sound_in(conf, *raw), i as int));
                            lemma_first_failing_unique(rskills@, skill_sound_in(conf, *raw), i as int);
                        }
                    }
                    return Err(e.noted(file).noted(context));
                },
            }
            i = i + 1;
        }
        Ok(
            plant::Config {
                name: self.name.clone(),
                base_yield_duration: self.base_yield_duration,
                skillpoint_unlock_xps: copy_numbers(&self.skillpoint_unlock_xps),
                skills,
            },
        )
    }
}

/// The note an error found in an item gains.
pub open spec fn item_note(i: item::RawConfig) -> Seq<char> {
    "in the item named "@ + i.name@
}

/// Every effect of an item can show its description in its note.
pub open spec fn item_describable(i: item::RawConfig) -> bool {
    effects_describable(i.passive_plant_effects@) && effects_describable(i.plant_rub_effects@)
}

/// The plant an item grows into is configured, and its effects and hatch table are sound.
pub open spec fn item_sound(i: item::RawConfig, raw: RawConfig) -> bool {
    &&& (i.grows_into matches Some(n) ==> raw.has_plant(n@))
    &&& effects_sound(i.passive_plant_effects@, raw)
    &&& effects_sound(i.plant_rub_effects@, raw)
    &&& (i.hatch_table matches Some(t) ==> sound_evalput(t, raw))
}

/// `out` is the item `i` with the plant it grows into replaced by that plant's
/// conf, and its effects and hatch table checked.
pub open spec fn item_checked<F: Fn(&RawEvalput) -> VerifResult<()>>(
    i: item::RawConfig,
    raw: RawConfig,
    check: F,
    out: item::Config,
) -> bool {
    &&& out.name@ == i.name@
    &&& out.description@ == i.description@
    &&& out.conf == i.conf
    &&& out.gotchi == i.gotchi
    &&& out.unlocks_land == i.unlocks_land
    &&& out.welcome_gift == i.welcome_gift
    &&& match (i.grows_into, out.grows_into) {
        (Some(n), Some(c)) => raw.has_plant(n@) && c == raw.plant_conf_spec(n@),
        (None, None) => true,
        _ => false,
    }
    &&& effects_checked(i.passive_plant_effects@, raw, check, out.passive_plant_effects@)
    &&& effects_checked(i.plant_rub_effects@, raw, check, out.plant_rub_effects@)
    &&& match (i.hatch_table, out.hatch_table) {
        (Some(t), Some(o)) => checked_as(t, raw, check, o),
        (None, None) => true,
        _ => false,
    }
}

/// The error that checking an item that is not sound finds when the caller's
/// check passes every evalput node in it: the unknown plant it grows into, else the
/// error in its first passive effect that is not sound, else in its first rub
/// effect that is not sound, else in its hatch table; with the item's note.
pub open spec fn item_error(i: item::RawConfig, raw: RawConfig) -> (Problem, Seq<Seq<char>>) {
    let grows_bad = match i.grows_into {
        Some(n) => !raw.has_plant(n@),
        None => false,
    };
    if grows_bad {
        (Problem::UnknownPlant(i.grows_into.unwrap()@), seq![item_note(i)])
    } else if !effects_sound(i.passive_plant_effects@, raw) {
        with_note(
            effect_error(
                i.passive_plant_effects@[first_failing(i.passive_plant_effects@, effect_sound_in(raw))],
                raw,
            ),
            item_note(i),
        )
    } else if !effects_sound(i.plant_rub_effects@, raw) {
        with_note(
            effect_error(i.plant_rub_effects@[first_failing(i.plant_rub_effects@, effect_sound_in(raw))], raw),
            item_note(i),
        )
    } else {
        with_note(evalput_error(i.hatch_table.unwrap(), raw), item_note(i))
    }
}

/// The item grows into a plant that is not configured.
pub open spec fn grows_unknown(i: item::RawConfig, raw: RawConfig) -> bool {
    match i.grows_into {
        Some(n) => !raw.has_plant(n@),
        None => false,
    }
}

/// `err` is an error that checking the item `i` can end in: the unknown plant
/// it grows into, else what checking its passive effects ends in, else (they
/// checked out) its rub effects, else (those too) its hatch table; with the
/// item's note.
pub open spec fn item_fails<F: Fn(&RawEvalput) -> VerifResult<()>>(
    i: item::RawConfig,
    raw: RawConfig,
    check: F,
    err: (Problem, Seq<Seq<char>>),
) -> bool {
    &&& err.1.len() > 0
    &&& err.1.last() == item_note(i)
    &&& if grows_unknown(i, raw) {
        (err.0, err.1.drop_last()) == (Problem::UnknownPlant(i.grows_into.unwrap()@), Seq::<Seq<char>>::empty())
    } else {
        ||| effects_fail(i.passive_plant_effects@, raw, check, (err.0, err.1.drop_last()))
        ||| (effects_check_out(i.passive_plant_effects@, raw, check) && effects_fail(
            i.plant_rub_effects@,
            raw,
            check,
            (err.0, err.1.drop_last()),
        ))
        ||| {
            &&& effects_check_out(i.passive_plant_effects@, raw, check)
            &&& effects_check_out(i.plant_rub_effects@, raw, check)
            &&& i.hatch_table matches Some(t) && fails_with(t, raw, check, (err.0, err.1.drop_last()))
        }
    }
}

impl item::RawConfig {
    /// The note an error found in this item gains.
    pub fn context(&self) -> (r: String)
        ensures
            r@ == item_note(*self),
    {
        concat("in the item named ", self.name.as_str())
    }

    /// Checks an item: the plant it grows into, its passive effects, its rub
    /// effects, then its hatch table.
    pub fn verify_with<F: Fn(&RawEvalput) -> VerifResult<()>>(&self, raw: &RawConfig, check: &F) -> (r:
        VerifResult<item::Config>)
        requires
            callable(*check),
            item_describable(*self),
        ensures
            r matches Ok(out) ==> item_checked(*self, *raw, *check, out),
            r is Ok ==> item_sound(*self, *raw),
            item_passes(*check, *self) && item_sound(*self, *raw) ==> r is Ok,
            self.grows_into matches Some(n) ==> (!raw.has_plant(n@) ==> (r matches Err(e) && e@ == (
                Problem::UnknownPlant(n@),
                seq![item_note(*self)],
            ))),
            item_passes(*check, *self) && !item_sound(*self, *raw) ==> (r matches Err(e) && e@ == item_error(
                *self,
                *raw,
            )),
            r matches Err(e) ==> e@.1.len() > 0 && e@.1.last() == item_note(*self),
            r matches Err(e) ==> item_fails(*self, *raw, *check, e@),
    {
        let context = self.context();
        let grows_into = match &self.grows_into {
            Some(plant_name) => match raw.plant_conf(plant_name.as_str()) {
                Ok(c) => Some(c),
                Err(e) => {
                    assert(e@.1.push(context@).drop_last() =~= e@.1);
                    return Err(e.noted(context));
                },
            },
            None => None,
        };
        let passive_plant_effects = match verify_effects(&self.passive_plant_effects, raw, check) {
            Ok(v) => v,
            Err(e) => {
                assert(e@.1.push(context@).drop_last() =~= e@.1);
                return Err(e.noted(context));
            },
        };
        assert(effects_check_out(self.passive_plant_effects@, *raw, *check)) by {
            assert(effects_checked(self.passive_plant_effects@, *raw, *check, passive_plant_effects@));
        }
        let plant_rub_effects = match verify_effects(&self.plant_rub_effects, raw, check) {
            Ok(v) => v,
            Err(e) => {
                assert(e@.1.push(context@).drop_last() =~= e@.1);
                return Err(e.noted(context));
            },
        };
        assert(effects_check_out(self.plant_rub_effects@, *raw, *check)) by {
            assert(effects_checked(self.plant_rub_effects@, *raw, *check, plant_rub_effects@));
        }
        let hatch_table = match &self.hatch_table {
            Some(t) => match verify_with(t, raw, check) {
                Ok(v) => {
                    proof {
                        lemma_checked_sound(*t, *raw, *check, v);
                    }
                    Some(v)
                },
                Err(e) => {
                    assert(e@.1.push(context@).drop_last() =~= e@.1);
                    return Err(e.noted(context));
                },
            },
            None => None,
        };
        Ok(
            item::Config {
                grows_into,
                conf: self.conf,
                name: self.name.clone(),
                description: self.description.clone(),
                gotchi: self.gotchi,
                unlocks_land: self.unlocks_land,
                welcome_gift: self.welcome_gift,
                passive_plant_effects,
                plant_rub_effects,
                hatch_table,
            },
        )
    }
}

/// Every effect of the configuration can show its description in its note.
pub open spec fn config_describable(raw: RawConfig) -> bool {
    &&& forall|i: int| 0 <= i < raw.plants@.len() ==> plant_describable(#[trigger] raw.plants@[i].inner)
    &&& forall|i: int| 0 <= i < raw.items@.len() ==> item_describable(#[trigger] raw.items@[i].inner)
}

/// Every plant and every item of the configuration is sound.
pub open spec fn config_sound(raw: RawConfig) -> bool {
    &&& forall|i: int| 0 <= i < raw.plants@.len() ==> plant_sound(#[trigger] raw.plants@[i].inner, raw)
    &&& forall|i: int| 0 <= i < raw.items@.len() ==> item_sound(#[trigger] raw.items@[i].inner, raw)
}

/// Soundness of plants, each read from a file, in `raw`, as a predicate.
pub open spec fn plant_file_sound_in(raw: RawConfig) -> spec_fn(FromFile<plant::RawConfig>) -> bool {
    |p: FromFile<plant::RawConfig>| plant_sound(p.inner, raw)
}

/// Soundness of items, each read from a file, in `raw`, as a predicate.
pub open spec fn item_file_sound_in(raw: RawConfig) -> spec_fn(FromFile<item::RawConfig>) -> bool {
    |i: FromFile<item::RawConfig>| item_sound(i.inner, raw)
}

/// Every plant of the configuration is sound.
pub open spec fn plants_sound(raw: RawConfig) -> bool {
    forall|i: int| 0 <= i < raw.plants@.len() ==> plant_sound(#[trigger] raw.plants@[i].inner, raw)
}

/// The error that checking a configuration that is not sound finds when the
/// caller's check passes every evalput node in it: that of its first plant that is
/// not sound, else that of its first item that is not sound, with the note of
/// the file it was read from.
pub open spec fn config_error(raw: RawConfig) -> (Problem, Seq<Seq<char>>) {
    if !plants_sound(raw) {
        let k = first_failing(raw.plants@, plant_file_sound_in(raw));
        with_note(plant_error(raw.plants@[k].inner, raw), file_note(raw.plants@[k].file@))
    } else {
        let k = first_failing(raw.items@, item_file_sound_in(raw));
        with_note(item_error(raw.items@[k].inner, raw), file_note(raw.items@[k].file@))
    }
}

/// No item after position `i` and before `n` has the conf of the item at `i`.
pub open spec fn last_of_conf(items: Seq<FromFile<item::RawConfig>>, i: int, n: int) -> bool {
    forall|j: int| i < j < n ==> #[trigger] items[j].inner.conf != items[i].inner.conf
}

/// Some item before position `n` has the conf `k`.
pub open spec fn has_conf(items: Seq<FromFile<item::RawConfig>>, k: u128, n: int) -> bool {
    exists|j: int| 0 <= j < n && #[trigger] items[j].inner.conf.0 == k
}

/// `c` holds each plant of `raw` checked, under its position, and each item
/// checked, under its conf; of items sharing a conf, the last one.
pub open spec fn config_checked<F: Fn(&RawEvalput) -> VerifResult<()>>(
    raw: RawConfig,
    check: F,
    c: game::Config,
) -> bool {
    &&& forall|k: usize| #[trigger] c.plants@.contains_key(k) <==> k < raw.plants@.len()
    &&& forall|k: usize|
        k < raw.plants@.len() ==> plant_checked(raw.plants@[k as int].inner, raw, check, #[trigger] c.plants@[k])
    &&& forall|k: u128| #[trigger] c.items@.contains_key(k) <==> has_conf(raw.items@, k, raw.items@.len() as int)
    &&& forall|i: int|
        0 <= i < raw.items@.len() && last_of_conf(raw.items@, i, raw.items@.len() as int) ==> item_checked(
            #[trigger] raw.items@[i].inner,
            raw,
            check,
            c.items@[raw.items@[i].inner.conf.0],
        )
    &&& c.hackstead.advancements@ == raw.hackstead.inner.advancements@
}

/// The same advancements, in a new `Vec`.
fn copy_advancements(v: &Vec<ConfigAdvancement>) -> (r: Vec<ConfigAdvancement>)
    ensures
        r@ == v@,
{
    let mut out: Vec<ConfigAdvancement> = Vec::new();
    let mut i: usize = 0;
    while i < v.len()
        invariant
            i <= v@.len(),
            out@ == v@.subrange(0, i as int),
        decreases v@.len() - i,
    {
        let a = &v[i];
        out.push(
            ConfigAdvancement {
                advancement_title: a.advancement_title.clone(),
                description: a.description.clone(),
                achiever_title: a.achiever_title.clone(),
                xp: a.xp,
                land_pieces: a.land_pieces,
            },
        );
        i = i + 1;
        assert(out@ =~= v@.subrange(0, i as int));
    }
    assert(out@ =~= v@);
    out
}

/// The plant checks out against `raw` with `check`, to some plant.
pub open spec fn plant_checks_out<F: Fn(&RawEvalput) -> VerifResult<()>>(p: plant::RawConfig, raw: RawConfig, check: F) -> bool {
    exists|out: plant::Config| plant_checked(p, raw, check, out)
}

/// The item checks out against `raw` with `check`, to some item.
pub open spec fn item_checks_out<F: Fn(&RawEvalput) -> VerifResult<()>>(i: item::RawConfig, raw: RawConfig, check: F) -> bool {
    exists|out: item::Config| item_checked(i, raw, check, out)
}

/// `err` is an error that checking the configuration can end in: what checking
/// its first plant that does not check out ends in, else (every plant checked
/// out) its first item that does not; with the note of that part's file.
pub open spec fn config_fails<F: Fn(&RawEvalput) -> VerifResult<()>>(
    raw: RawConfig,
    check: F,
    err: (Problem, Seq<Seq<char>>),
) -> bool {
    &&& err.1.len() > 0
    &&& {
        ||| exists|k: int|
            #![trigger raw.plants@[k]]
            0 <= k < raw.plants@.len() && (forall|j: int|
                0 <= j < k ==> plant_checks_out((#[trigger] raw.plants@[j]).inner, raw, check)) && err.1.last()
                == file_note(raw.plants@[k].file@) && plant_fails(
                raw.plants@[k].inner,
                raw,
                check,
                (err.0, err.1.drop_last()),
            )
        ||| {
            &&& forall|j: int|
                0 <= j < raw.plants@.len() ==> plant_checks_out((#[trigger] raw.plants@[j]).inner, raw, check)
            &&& exists|k: int|
                #![trigger raw.items@[k]]
                0 <= k < raw.items@.len() && (forall|j: int|
                    0 <= j < k ==> item_checks_out((#[trigger] raw.items@[j]).inner, raw, check)) && err.1.last()
                    == file_note(raw.items@[k].file@) && item_fails(
                    raw.items@[k].inner,
                    raw,
                    check,
                    (err.0, err.1.drop_last()),
                )
        }
    }
}

impl RawConfig {
    /// Checks the whole configuration: every plant, then every item, each read
    /// from its own file.
    pub fn verify_with<F: Fn(&RawEvalput) -> VerifResult<()>>(&self, check: &F) -> (r: VerifResult<
        game::Config,
    >)
        requires
            callable(*check),
            config_describable(*self),
        ensures
            r matches Ok(c) ==> config_checked(*self, *check, c),
            r is Ok ==> config_sound(*self),
            config_passes(*check, *self) && config_sound(*self) ==> r is Ok,
            config_passes(*check, *self) && !config_sound(*self) ==> (r matches Err(e) && e@ == config_error(*self)),
            r matches Err(e) ==> config_fails(*self, *check, e@),
            r matches Err(e) ==> e@.1.len() >= 2 && ((exists|i: int|
                0 <= i < self.plants@.len() && e@.1.last() == file_note(self.plants@[i].file@) && e@.1[e@.1.len()
                    - 2] == plant_note(#[trigger] self.plants@[i].inner)) || (exists|i: int|
                0 <= i < self.items@.len() && e@.1.last() == file_note(self.items@[i].file@) && e@.1[e@.1.len()
                    - 2] == item_note(#[trigger] self.items@[i].inner))),
    {
        broadcast use vstd::std_specs::hash::group_hash_axioms;

        let mut plants: HashMap<usize, plant::Config> = HashMap::new();
        let mut i: usize = 0;
        while i < self.plants.len()
            invariant
                callable(*check),
                config_describable(*self),
                i <= self.plants@.len(),
                forall|k: usize| #[trigger] plants@.contains_key(k) <==> k < i,
                forall|k: usize|
                    k < i ==> plant_checked(self.plants@[k as int].inner, *self, *check, #[trigger] plants@[k]),
                forall|j: int| 0 <= j < i ==> plant_sound(#[trigger] self.plants@[j].inner, *self),
            decreases self.plants@.len() - i,
        {
            assert(plant_describable(self.plants@[i as int].inner));
            match self.plants[i].inner.verify_with(self, check) {
                Ok(p) => {
                    plants.insert(i, p);
                },
                Err(e) => {
                    let note = concat("from a file ", self.plants[i].file.as_str());
                    assert forall|j: int| 0 <= j < i implies plant_checks_out((#[trigger] self.plants@[j]).inner, *self, *check) by {
                        assert(plant_checked(self.plants@[j].inner, *self, *check, plants@[j as usize]));
                    }
                    assert(e@.1.push(note@).drop_last() =~= e@.1);
                    proof {
                        if config_passes(*check, *self) {
                            assert(plant_passes(*check, self.plants@[i as int].inner));
                            assert(is_first_failing(self.plants@, plant_file_sound_in(*self), i as int));
                            lemma_first_failing_unique(self.plants@, plant_file_sound_in(*self), i as int);
                        }
                    }
                    let r = e.noted(note);
                    assert(r@.1[r@.1.len() - 2] == plant_note(self.plants@[i as int].inner));
                    return Err(r);
                },
            }
            i = i + 1;
        }
        assert forall|j: int| 0 <= j < self.plants@.len() implies plant_checks_out(
            (#[trigger] self.plants@[j]).inner,
            *self,
            *check,
        ) by {
            assert(plant_checked(self.plants@[j].inner, *self, *check, plants@[j as usize]));
        }
        let mut items: HashMap<u128, item::Config> = HashMap::new();
        let mut i: usize = 0;
        while i < self.items.len()
            invariant
                callable(*check),
                config_describable(*self),
                i <= self.items@.len(),
                plants_sound(*self),
                forall|j: int|
                    0 <= j < self.plants@.len() ==> plant_checks_out((#[trigger] self.plants@[j]).inner, *self, *check),
                forall|j: int| 0 <= j < i ==> item_checks_out((#[trigger] self.items@[j]).inner, *self, *check),
                forall|k: u128| #[trigger] items@.contains_key(k) <==> has_conf(self.items@, k, i as int),
                forall|j: int|
                    0 <= j < i && last_of_conf(self.items@, j, i as int) ==> item_checked(
                        #[trigger] self.items@[j].inner,
                        *self,
                        *check,
                        items@[self.items@[j].inner.conf.0],
                    ),
                forall|j: int| 0 <= j < i ==> item_sound(#[trigger] self.items@[j].inner, *self),
            decreases self.items@.len() - i,
        {
            assert(item_describable(self.items@[i as int].inner));
            match self.items[i].inner.verify_with(self, check) {
                Ok(it) => {
                    assert(item_checks_out(self.items@[i as int].inner, *self, *check)) by {
                        assert(item_checked(self.items@[i as int].inner, *self, *check, it));
                    }
                    let ghost before = items@;
                    let k = self.items[i].inner.conf.0;
                    items.insert(k, it);
                    proof {
                        assert forall|kk: u128| #[trigger] items@.contains_key(kk) <==> has_conf(
                            self.items@,
                            kk,
                            i + 1,
                        ) by {
                            if has_conf(self.items@, kk, i + 1) && kk != k {
                                let j = choose|j: int| 0 <= j < i + 1 && #[trigger] self.items@[j].inner.conf.0 == kk;
                                assert(j < i);
                                assert(has_conf(self.items@, kk, i as int));
                            }
                            if kk == k {
                                assert(self.items@[i as int].inner.conf.0 == kk);
                            }
                            if before.contains_key(kk) {
                                let j = choose|j: int| 0 <= j < i && #[trigger] self.items@[j].inner.conf.0 == kk;
                                assert(self.items@[j].inner.conf.0 == kk);
                            }
                        }
                        assert forall|j: int|
                            0 <= j < i + 1 && last_of_conf(self.items@, j, i + 1) implies item_checked(
                            #[trigger] self.items@[j].inner,
                            *self,
                            *check,
                            items@[self.items@[j].inner.conf.0],
                        ) by {
                            if j < i {
                                assert(self.items@[i as int].inner.conf != self.items@[j].inner.conf);
                                assert(last_of_conf(self.items@, j, i as int));
                            }
                        }
                    }
                },
                Err(e) => {
                    let note = concat("from a file ", self.items[i].file.as_str());
                    assert(e@.1.push(note@).drop_last() =~= e@.1);
                    proof {
                        if config_passes(*check, *self) {
                            assert(item_passes(*check, self.items@[i as int].inner));
                            assert(is_first_failing(self.items@, item_file_sound_in(*self), i as int));
                            lemma_first_failing_unique(self.items@, item_file_sound_in(*self), i as int);
                        }
                    }
                    let r = e.noted(note);
                    assert(r@.1[r@.1.len() - 2] == item_note(self.items@[i as int].inner));
                    return Err(r);
                },
            }
            i = i + 1;
        }
        let hackstead = hackstead::Config { advancements: copy_advancements(&self.hackstead.inner.advancements) };
        Ok(game::Config { plants, items, hackstead })
    }
}

} // verus!
