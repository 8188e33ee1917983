//! Buffs: what effects and skills do to a plant.
//! Multipliers and chances are `f32` bit patterns.

use vstd::prelude::*;
use crate::archetype::sums::deref_seq;
use super::{RawRecipe, Recipe};
use crate::config::{Evalput, RawEvalput};
use crate::hackstead::item;
use crate::hackstead::Hackstead;
use crate::config::game;
use super::{Conf, Plant, RubEffect, Skill};
use super::effect::{self, ConfigKind};

verus! {

/// A buff as written in a configuration file, naming items by name.
#[derive(Debug)]
pub enum RawBuff {
    Neighbor(Box<RawBuff>),
    ExtraTimeTicks(usize),
    ExtraTimeTicksMultiplier(u32),
    Xp(u32),
    YieldSpeedMultiplier(u32),
    YieldSizeMultiplier(u32),
    Yield(RawEvalput),
    Craft(Vec<RawRecipe>),
    CraftSpeedMultiplier(u32),
    CraftInputReturnChance(u32),
    CraftOutputDoubleChance(u32),
    Art { file: String, precedence: usize },
}

#[derive(Debug)]
pub enum Buff {
    Neighbor(Box<Buff>),
    Art { file: String, precedence: usize },
    /// Stores the number of extra cycles to add for the duration of the effect
    ExtraTimeTicks(usize),
    ExtraTimeTicksMultiplier(u32),
    Xp(u32),
    // yield
    YieldSpeedMultiplier(u32),
    YieldSizeMultiplier(u32),
    Yield(Evalput<item::Conf>),
    // craft
    Craft(Vec<Recipe>),
    CraftSpeedMultiplier(u32),
    CraftInputReturnChance(u32),
    CraftOutputDoubleChance(u32),
}

/// The recipes a buff offers: those of a craft buff, none for any other.
pub open spec fn buff_recipes(b: Buff) -> Seq<Recipe> {
    match b {
        Buff::Craft(rs) => rs@,
        _ => Seq::empty(),
    }
}

impl Buff {
    /// The recipes this buff offers: those of a craft buff, none for any other.
    pub fn recipes(&self) -> (r: Vec<&Recipe>)
        ensures
            r@.len() == buff_recipes(*self).len(),
            forall|i: int| 0 <= i < r@.len() ==> *r@[i] == buff_recipes(*self)[i],
    {
        let mut out: Vec<&Recipe> = Vec::new();
        match self {
            Buff::Craft(rs) => {
                let mut i: usize = 0;
                while i < rs.len()
                    invariant
                        i <= rs@.len(),
                        out@.len() == i,
                        forall|j: int| 0 <= j < i ==> *out@[j] == rs@[j],
                    decreases rs@.len() - i,
                {
                    out.push(&rs[i]);
                    i = i + 1;
                }
            },
            _ => {},
        }
        out
    }
}

/// Where a buff on a plant comes from.
#[derive(Debug)]
pub enum Source {
    Neighbor(Box<Source>),
    PassiveItemEffect(item::Conf),
    RubbedItemEffect(item::Conf),
    SkillUnlock(super::skill::Conf),
}

/// The precedence of the art chosen so far, 0 before any.
pub open spec fn chosen_precedence(s: Seq<Buff>, chosen: Option<int>) -> int {
    match chosen {
        Some(i) => s[i]->precedence as int,
        None => 0,
    }
}

/// The position of the art a plant shows among its buffs: walking them in
/// order, an art buff replaces the one chosen so far when its precedence is at
/// least as high.
pub open spec fn chosen_art_index(s: Seq<Buff>) -> Option<int>
    decreases s.len(),
{
    if s.len() == 0 {
        None
    } else {
        let before = chosen_art_index(s.drop_last());
        match s.last() {
            Buff::Art { precedence, .. } => if precedence >= chosen_precedence(s.drop_last(), before) {
                Some(s.len() - 1)
            } else {
                before
            },
            _ => before,
        }
    }
}

/// The art a plant shows, from its buffs: the file of the art buff of highest
/// precedence, the last of those tied; none when no buff is art.
pub fn chosen_art<'a>(buffs: &[&'a Buff]) -> (r: Option<&'a String>)
    ensures
        r is None <==> chosen_art_index(deref_seq(buffs@)) is None,
        r matches Some(f) ==> ({
            let i = chosen_art_index(deref_seq(buffs@))->Some_0;
            0 <= i < buffs@.len() && *buffs@[i] is Art && buffs@[i]->file == *f
        }),
{
    let ghost s = deref_seq(buffs@);
    let mut art: Option<&'a String> = None;
    let mut precedence: usize = 0;
    let mut i: usize = 0;
    while i < buffs.len()
        invariant
            s == deref_seq(buffs@),
            i <= buffs@.len(),
            art is None <==> chosen_art_index(s.take(i as int)) is None,
            chosen_art_index(s.take(i as int)) matches Some(k) ==> 0 <= k < i && s[k] is Art
                && art == Some(&s[k]->file) && precedence == s[k]->precedence,
            chosen_art_index(s.take(i as int)) is None ==> precedence == 0,
        decreases buffs@.len() - i,
    {
        proof {
            assert(s.take(i + 1).drop_last() =~= s.take(i as int));
            assert(s.take(i + 1).last() == s[i as int]);
            let before = chosen_art_index(s.take(i as int));
            if let Some(k) = before {
                assert(s.take(i as int)[k] == s[k]);
            }
        }
        match buffs[i] {
            Buff::Art { file, precedence: p } => {
                if *p >= precedence {
                    art = Some(file);
                    precedence = *p;
                }
            },
            _ => {},
        }
        i = i + 1;
    }
    proof {
        assert(s.take(i as int) =~= s);
    }
    art
}

/// The art chosen has the highest precedence of all art buffs, and no later art
/// buff ties it.
pub proof fn law_chosen_art_is_highest_and_last(s: Seq<Buff>)
    ensures
        chosen_art_index(s) matches Some(i) ==> 0 <= i < s.len() && s[i] is Art && (forall|j: int|
            0 <= j < s.len() && #[trigger] s[j] is Art ==> s[j]->precedence <= s[i]->precedence
                && (j > i ==> s[j]->precedence < s[i]->precedence)),
        chosen_art_index(s) is None <==> forall|j: int| 0 <= j < s.len() ==> !(#[trigger] s[j] is Art),
    decreases s.len(),
{
    if s.len() > 0 {
        let t = s.drop_last();
        let n = s.len() - 1;
        law_chosen_art_is_highest_and_last(t);
        assert forall|j: int| 0 <= j < t.len() implies #[trigger] t[j] == s[j] by {}
        let before = chosen_art_index(t);
        match s.last() {
            Buff::Art { precedence, .. } => {
                if precedence >= chosen_precedence(t, before) {
                    assert(chosen_art_index(s) == Some(n));
                    assert forall|j: int| 0 <= j < s.len() && #[trigger] s[j] is Art implies s[j]->precedence
                        <= s[n]->precedence && (j > n ==> s[j]->precedence < s[n]->precedence) by {
                        if j < n {
                            assert(t[j] is Art);
                        }
                    }
                } else {
                    let i = before->Some_0;
                    assert(chosen_art_index(s) == Some(i));
                    assert forall|j: int| 0 <= j < s.len() && #[trigger] s[j] is Art implies s[j]->precedence
                        <= s[i]->precedence && (j > i ==> s[j]->precedence < s[i]->precedence) by {
                        if j < n {
                            assert(t[j] is Art);
                        }
                    }
                }
                assert(s[n] is Art);
            },
            _ => {
                assert(chosen_art_index(s) == before);
                if let Some(i) = before {
                    assert forall|j: int| 0 <= j < s.len() && #[trigger] s[j] is Art implies s[j]->precedence
                        <= s[i]->precedence && (j > i ==> s[j]->precedence < s[i]->precedence) by {
                        if j < n {
                            assert(t[j] is Art);
                        }
                    }
                } else {
                    assert forall|j: int| 0 <= j < s.len() implies !(#[trigger] s[j] is Art) by {
                        if j < n {
                            assert(!(t[j] is Art));
                        }
                    }
                }
            },
        }
    }
}

/// Each buff, with where it comes from.
pub open spec fn deref_buffs<'a>(s: Seq<(&'a Buff, Source)>) -> Seq<(Buff, Source)> {
    s.map_values(|p: (&'a Buff, Source)| (*p.0, p.1))
}

/// The buffs of those of `effects` that let the plant kind `plant` through,
/// each coming from `source`.
pub open spec fn passive_buffs(effects: Seq<effect::Config>, plant: Conf, source: Source) -> Seq<(Buff, Source)>
    decreases effects.len(),
{
    if effects.len() == 0 {
        Seq::empty()
    } else {
        let rest = passive_buffs(effects.drop_last(), plant, source);
        let e = effects.last();
        match e.kind {
            ConfigKind::Buff(b) => if e.for_plants.allows_spec(plant) {
                rest.push((b, source))
            } else {
                rest
            },
            _ => rest,
        }
    }
}

/// The buffs of `effects`, each coming from `source`.
pub open spec fn effect_buffs(effects: Seq<effect::Config>, source: Source) -> Seq<(Buff, Source)>
    decreases effects.len(),
{
    if effects.len() == 0 {
        Seq::empty()
    } else {
        let rest = effect_buffs(effects.drop_last(), source);
        match effects.last().kind {
            ConfigKind::Buff(b) => rest.push((b, source)),
            _ => rest,
        }
    }
}

/// The buffs the passive effects of the items of `inventory` give a plant of
/// kind `plant`, item by item.
pub open spec fn inventory_buffs(inventory: Seq<item::Item>, config: game::Config, plant: Conf) -> Seq<(Buff, Source)>
    decreases inventory.len(),
{
    if inventory.len() == 0 {
        Seq::empty()
    } else {
        let c = inventory.last().conf;
        inventory_buffs(inventory.drop_last(), config, plant) + passive_buffs(
            config.items@[c.0].passive_plant_effects@,
            plant,
            Source::PassiveItemEffect(c),
        )
    }
}

/// The effect configuration a rub effect stands for.
pub open spec fn rubbed_effect(r: RubEffect, config: game::Config) -> effect::Config {
    config.items@[r.item_conf.0].plant_rub_effects@[r.effect_conf as int]
}

/// The buffs of the effects rubbed onto a plant, in order.
pub open spec fn rub_buffs(rubs: Seq<RubEffect>, config: game::Config) -> Seq<(Buff, Source)>
    decreases rubs.len(),
{
    if rubs.len() == 0 {
        Seq::empty()
    } else {
        let rest = rub_buffs(rubs.drop_last(), config);
        match rubbed_effect(rubs.last(), config).kind {
            ConfigKind::Buff(b) => rest.push((b, Source::RubbedItemEffect(rubs.last().item_conf))),
            _ => rest,
        }
    }
}

/// The buffs of the effects of the unlocked skills, skill by skill.
pub open spec fn skill_buffs(confs: Seq<super::skill::Conf>, skills: Seq<Skill>) -> Seq<(Buff, Source)>
    decreases confs.len(),
{
    if confs.len() == 0 || skills.len() == 0 {
        Seq::empty()
    } else {
        skill_buffs(confs.drop_last(), skills.drop_last()) + effect_buffs(
            skills.last().effects@,
            Source::SkillUnlock(confs.last()),
        )
    }
}

/// Every item of the inventory is configured, and every rub effect stands for
/// an effect of its item.
pub open spec fn buffs_resolve(plant: Plant, hs: Hackstead, config: game::Config) -> bool {
    &&& forall|i: int| 0 <= i < hs.inventory@.len() ==> config.items@.contains_key(#[trigger] hs.inventory@[i].conf.0)
    &&& forall|i: int|
        0 <= i < plant.rub_effects@.len() ==> config.items@.contains_key(
            (#[trigger] plant.rub_effects@[i]).item_conf.0,
        ) && plant.rub_effects@[i].effect_conf < config.items@[plant.rub_effects@[i].item_conf.0].plant_rub_effects@.len()
}

/// Appends the buffs of those of `effects` that let `plant` through, each
/// coming from the item `source`.
fn push_passive_buffs<'a>(out: &mut Vec<(&'a Buff, Source)>, effects: &'a Vec<effect::Config>, plant: Conf, source: item::Conf)
    ensures
        deref_buffs(final(out)@) == deref_buffs(old(out)@) + passive_buffs(
            effects@,
            plant,
            Source::PassiveItemEffect(source),
        ),
{
    let ghost start = deref_buffs(out@);
    let mut j: usize = 0;
    while j < effects.len()
        invariant
            j <= effects@.len(),
            deref_buffs(out@) == start + passive_buffs(effects@.subrange(0, j as int), plant, Source::PassiveItemEffect(source)),
        decreases effects@.len() - j,
    {
        let e = &effects[j];
        proof {
            assert(effects@.subrange(0, j + 1).drop_last() =~= effects@.subrange(0, j as int));
        }
        match &e.kind {
            ConfigKind::Buff(b) => {
                if e.for_plants.allows(plant) {
                    let ghost before = out@;
                    out.push((b, Source::PassiveItemEffect(source)));
                    assert(deref_buffs(out@) =~= deref_buffs(before).push((*b, Source::PassiveItemEffect(source))));
                }
            },
            _ => {},
        }
        j = j + 1;
    }
    assert(effects@.subrange(0, effects@.len() as int) =~= effects@);
}

/// Appends the buffs of `effects`, each coming from the unlocked skill `source`.
fn push_skill_buffs<'a>(out: &mut Vec<(&'a Buff, Source)>, effects: &'a Vec<effect::Config>, source: super::skill::Conf)
    ensures
        deref_buffs(final(out)@) == deref_buffs(old(out)@) + effect_buffs(effects@, Source::SkillUnlock(source)),
{
    let ghost start = deref_buffs(out@);
    let mut j: usize = 0;
    while j < effects.len()
        invariant
            j <= effects@.len(),
            deref_buffs(out@) == start + effect_buffs(effects@.subrange(0, j as int), Source::SkillUnlock(source)),
        decreases effects@.len() - j,
    {
        proof {
            assert(effects@.subrange(0, j + 1).drop_last() =~= effects@.subrange(0, j as int));
        }
        match &effects[j].kind {
            ConfigKind::Buff(b) => {
                let ghost before = out@;
                out.push((b, Source::SkillUnlock(source)));
                assert(deref_buffs(out@) =~= deref_buffs(before).push((*b, Source::SkillUnlock(source))));
            },
            _ => {},
        }
        j = j + 1;
    }
    assert(effects@.subrange(0, effects@.len() as int) =~= effects@);
}

impl Plant {
    /// The buffs on this plant, each with where it comes from: those of the
    /// passive effects of the items in the inventory of `hs` that let this
    /// plant's kind through, item by item, then those of the effects rubbed
    /// onto it, then those of the effects of its unlocked skills. Buffs that
    /// neighbors spread are not among them. `skills` are the skills that the
    /// confs of the unlocked skills stand for, in the same order.
    pub fn buffs<'a>(&self, hs: &Hackstead, config: &'a game::Config, skills: &[&'a Skill]) -> (r: Vec<
        (&'a Buff, Source),
    >)
        requires
            buffs_resolve(*self, *hs, *config),
            skills@.len() == self.unlocked_skills@.len(),
        ensures
            deref_buffs(r@) == inventory_buffs(hs.inventory@, *config, self.conf) + rub_buffs(
                self.rub_effects@,
                *config,
            ) + skill_buffs(self.unlocked_skills@, deref_seq(skills@)),
    {
        broadcast use vstd::std_specs::hash::group_hash_axioms;

        let mut out: Vec<(&'a Buff, Source)> = Vec::new();
        let mut i: usize = 0;
        while i < hs.inventory.len()
            invariant
                i <= hs.inventory@.len(),
                buffs_resolve(*self, *hs, *config),
                deref_buffs(out@) == inventory_buffs(hs.inventory@.subrange(0, i as int), *config, self.conf),
            decreases hs.inventory@.len() - i,
        {
            let c = hs.inventory[i].conf;
            proof {
                assert(hs.inventory@.subrange(0, i + 1).drop_last() =~= hs.inventory@.subrange(0, i as int));
                assert(config.items@.contains_key(hs.inventory@[i as int].conf.0));
            }
            match config.items.get(&c.0) {
                Some(ic) => {
                    push_passive_buffs(&mut out, &ic.passive_plant_effects, self.conf, c);
                },
                None => {},
            }
            i = i + 1;
        }
        assert(hs.inventory@.subrange(0, hs.inventory@.len() as int) =~= hs.inventory@);
        let ghost after_items = deref_buffs(out@);
        let mut k: usize = 0;
        while k < self.rub_effects.len()
            invariant
                k <= self.rub_effects@.len(),
                buffs_resolve(*self, *hs, *config),
                deref_buffs(out@) == after_items + rub_buffs(self.rub_effects@.subrange(0, k as int), *config),
            decreases self.rub_effects@.len() - k,
        {
            let rub = self.rub_effects[k];
            proof {
                assert(self.rub_effects@.subrange(0, k + 1).drop_last() =~= self.rub_effects@.subrange(0, k as int));
                assert(config.items@.contains_key(self.rub_effects@[k as int].item_conf.0));
            }
            match config.items.get(&rub.item_conf.0) {
                Some(ic) => {
                    let e = &ic.plant_rub_effects[rub.effect_conf];
                    match &e.kind {
                        ConfigKind::Buff(b) => {
                            let ghost before = out@;
                            out.push((b, Source::RubbedItemEffect(rub.item_conf)));
                            assert(deref_buffs(out@) =~= deref_buffs(before).push(
                                (*b, Source::RubbedItemEffect(rub.item_conf)),
                            ));
                        },
                        _ => {},
                    }
                },
                None => {},
            }
            k = k + 1;
        }
        assert(self.rub_effects@.subrange(0, self.rub_effects@.len() as int) =~= self.rub_effects@);
        let ghost after_rubs = deref_buffs(out@);
        let mut m: usize = 0;
        while m < skills.len()
            invariant
                m <= skills@.len(),
                skills@.len() == self.unlocked_skills@.len(),
                deref_buffs(out@) == after_rubs + skill_buffs(
                    self.unlocked_skills@.subrange(0, m as int),
                    deref_seq(skills@).subrange(0, m as int),
                ),
            decreases skills@.len() - m,
        {
            proof {
                assert(self.unlocked_skills@.subrange(0, m + 1).drop_last() =~= self.unlocked_skills@.subrange(0, m as int));
                assert(deref_seq(skills@).subrange(0, m + 1).drop_last() =~= deref_seq(skills@).subrange(0, m as int));
            }
            let sk: &'a Skill = skills[m];
            push_skill_buffs(&mut out, &sk.effects, self.unlocked_skills[m]);
            m = m + 1;
        }
        assert(self.unlocked_skills@.subrange(0, skills@.len() as int) =~= self.unlocked_skills@);
        assert(deref_seq(skills@).subrange(0, skills@.len() as int) =~= deref_seq(skills@));
        out
    }
}


/// The loot tables of the yield buffs among `s`, in order.
pub open spec fn yields_of(s: Seq<Buff>) -> Seq<Evalput<item::Conf>>
    decreases s.len(),
{
    if s.len() == 0 {
        Seq::empty()
    } else {
        yields_of(s.drop_last()) + match s.last() {
            Buff::Yield(y) => seq![y],
            _ => Seq::empty(),
        }
    }
}

/// The recipes the craft buffs among `s` offer, in order.
pub open spec fn recipes_of(s: Seq<Buff>) -> Seq<Recipe>
    decreases s.len(),
{
    if s.len() == 0 {
        Seq::empty()
    } else {
        recipes_of(s.drop_last()) + buff_recipes(s.last())
    }
}

/// What a plant's buffs yield and let it craft, gathered in the order of the
/// buffs: the loot table of each yield buff, and every recipe of each craft buff.
pub fn gathered<'a>(buffs: &Vec<&'a Buff>) -> (r: (Vec<&'a Evalput<item::Conf>>, Vec<&'a Recipe>))
    ensures
        deref_seq(r.0@) == yields_of(deref_seq(buffs@)),
        deref_seq(r.1@) == recipes_of(deref_seq(buffs@)),
{
    let ghost s = deref_seq(buffs@);
    let mut yields: Vec<&'a Evalput<item::Conf>> = Vec::new();
    let mut recipes: Vec<&'a Recipe> = Vec::new();
    let mut i: usize = 0;
    while i < buffs.len()
        invariant
            i <= buffs@.len(),
            s == deref_seq(buffs@),
            deref_seq(yields@) == yields_of(s.take(i as int)),
            deref_seq(recipes@) == recipes_of(s.take(i as int)),
        decreases buffs@.len() - i,
    {
        assert(s.take(i + 1).drop_last() =~= s.take(i as int));
        assert(s.take(i + 1).last() == *buffs@[i as int]);
        let b: &'a Buff = buffs[i];
        let ghost ys = yields@;
        let ghost rs0 = recipes@;
        match b {
            Buff::Yield(y) => {
                yields.push(y);
                assert(deref_seq(yields@) =~= deref_seq(ys).push(*y));
                assert(deref_seq(recipes@) =~= recipes_of(s.take(i + 1)));
            },
            Buff::Craft(rs) => {
                let mut j: usize = 0;
                while j < rs.len()
                    invariant
                        j <= rs@.len(),
                        deref_seq(recipes@) == deref_seq(rs0) + rs@.take(j as int),
                    decreases rs@.len() - j,
                {
                    let ghost before = recipes@;
                    recipes.push(&rs[j]);
                    assert(deref_seq(recipes@) =~= deref_seq(before).push(rs@[j as int]));
                    assert(rs@.take(j + 1) =~= rs@.take(j as int).push(rs@[j as int]));
                    j = j + 1;
                }
                assert(rs@.take(j as int) =~= rs@);
                assert(deref_seq(yields@) =~= yields_of(s.take(i + 1)));
            },
            _ => {
                assert(deref_seq(yields@) =~= yields_of(s.take(i + 1)));
                assert(deref_seq(recipes@) =~= recipes_of(s.take(i + 1)));
            },
        }
        i = i + 1;
    }
    assert(s.take(i as int) =~= s);
    (yields, recipes)
}

} // verus!
