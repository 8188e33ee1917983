//! The verified game configuration: every plant and item, keyed by the number
//! of its conf, and the hackstead's levels.

use vstd::prelude::*;
use std::collections::HashMap;
use vstd::std_specs::iter::IteratorSpec;
use crate::hackstead::{self, item, plant};
use crate::hackstead::plant::buff::buff_recipes;
use crate::hackstead::plant::effect::ConfigKind;

verus! {

broadcast use vstd::std_specs::hash::group_hash_axioms;

/// `rec` is a recipe that a craft buff of an effect of a skill of `p` offers.
pub open spec fn offers_recipe(p: plant::Config, rec: plant::Recipe) -> bool {
    exists|s: int, e: int, k: int|
        0 <= s < p.skills@.len() && 0 <= e < p.skills@[s].effects@.len() && #[trigger] effect_recipe(
            p.skills@[s].effects@[e],
            k,
        ) == Some(rec)
}

/// The `k`th recipe the effect's buff offers, if it has one.
pub open spec fn effect_recipe(e: plant::effect::Config, k: int) -> Option<plant::Recipe> {
    match e.kind {
        ConfigKind::Buff(b) => if 0 <= k < buff_recipes(b).len() {
            Some(buff_recipes(b)[k])
        } else {
            None
        },
        _ => None,
    }
}

/// The recipes that the effects of the skills of `p` offer.
fn plant_recipes<'a>(p: &'a plant::Config, out: &mut Vec<&'a plant::Recipe>)
    ensures
        final(out)@.len() >= old(out)@.len(),
        forall|i: int| 0 <= i < old(out)@.len() ==> final(out)@[i] == old(out)@[i],
        forall|i: int| old(out)@.len() <= i < final(out)@.len() ==> offers_recipe(*p, *final(out)@[i]),
        forall|s: int, e: int, k: int|
            0 <= s < p.skills@.len() && 0 <= e < p.skills@[s].effects@.len() && (
            #[trigger] effect_recipe(p.skills@[s].effects@[e], k)) is Some ==> exists|i: int|
                old(out)@.len() <= i < final(out)@.len() && Some(*final(out)@[i]) == effect_recipe(
                    p.skills@[s].effects@[e],
                    k,
                ),
{
    let ghost start = out@.len();
    let ghost first = out@;
    let mut s: usize = 0;
    while s < p.skills.len()
        invariant
            s <= p.skills@.len(),
            start <= out@.len(),
            first.len() == start,
            forall|i: int| 0 <= i < start ==> out@[i] == first[i],
            forall|i: int| start <= i < out@.len() ==> offers_recipe(*p, *out@[i]),
            forall|s2: int, e: int, k: int|
                0 <= s2 < s && 0 <= e < p.skills@[s2].effects@.len() && (#[trigger] effect_recipe(
                    p.skills@[s2].effects@[e],
                    k,
                )) is Some ==> exists|i: int|
                    start <= i < out@.len() && Some(*out@[i]) == effect_recipe(p.skills@[s2].effects@[e], k),
        decreases p.skills@.len() - s,
    {
        let effects = &p.skills[s].effects;
        let mut e: usize = 0;
        while e < effects.len()
            invariant
                s < p.skills@.len(),
                *effects == p.skills@[s as int].effects,
                e <= effects@.len(),
                start <= out@.len(),
                first.len() == start,
                forall|i: int| 0 <= i < start ==> out@[i] == first[i],
                forall|i: int| start <= i < out@.len() ==> offers_recipe(*p, *out@[i]),
                forall|s2: int, e2: int, k: int|
                    0 <= s2 < s && 0 <= e2 < p.skills@[s2].effects@.len() && (#[trigger] effect_recipe(
                        p.skills@[s2].effects@[e2],
                        k,
                    )) is Some ==> exists|i: int|
                        start <= i < out@.len() && Some(*out@[i]) == effect_recipe(p.skills@[s2].effects@[e2], k),
                forall|e2: int, k: int|
                    0 <= e2 < e && (#[trigger] effect_recipe(effects@[e2], k)) is Some ==> exists|i: int|
                        start <= i < out@.len() && Some(*out@[i]) == effect_recipe(effects@[e2], k),
            decreases effects@.len() - e,
        {
            if let Some(b) = effects[e].kind.buff() {
                let rs = b.recipes();
                let ghost before = out@;
                let mut k: usize = 0;
                while k < rs.len()
                    invariant
                        s < p.skills@.len(),
                        *effects == p.skills@[s as int].effects,
                        e < effects@.len(),
                        effects@[e as int].kind == ConfigKind::Buff(*b),
                        rs@.len() == buff_recipes(*b).len(),
                        forall|j: int| 0 <= j < rs@.len() ==> *rs@[j] == buff_recipes(*b)[j],
                        k <= rs@.len(),
                        before.len() >= start,
                        out@.len() == before.len() + k,
                        forall|i: int| 0 <= i < before.len() ==> out@[i] == before[i],
                        forall|j: int| 0 <= j < k ==> out@[before.len() + j] == rs@[j],
                        forall|i: int| start <= i < out@.len() ==> offers_recipe(*p, *out@[i]),
                    decreases rs@.len() - k,
                {
                    proof {
                        assert(effect_recipe(p.skills@[s as int].effects@[e as int], k as int) == Some(*rs@[k as int]));
                    }
                    out.push(rs[k]);
                    k = k + 1;
                }
                proof {
                    assert forall|s2: int, e2: int, kk: int|
                        0 <= s2 < s && 0 <= e2 < p.skills@[s2].effects@.len() && (#[trigger] effect_recipe(
                            p.skills@[s2].effects@[e2],
                            kk,
                        )) is Some implies exists|i: int|
                            start <= i < out@.len() && Some(*out@[i]) == effect_recipe(p.skills@[s2].effects@[e2], kk) by {
                        let i = choose|i: int|
                            start <= i < before.len() && Some(*before[i]) == effect_recipe(p.skills@[s2].effects@[e2], kk);
                        assert(out@[i] == before[i]);
                    }
                    assert forall|e2: int, kk: int|
                        0 <= e2 < e + 1 && (#[trigger] effect_recipe(effects@[e2], kk)) is Some implies exists|i: int|
                            start <= i < out@.len() && Some(*out@[i]) == effect_recipe(effects@[e2], kk) by {
                        if e2 < e {
                            let i = choose|i: int|
                                start <= i < before.len() && Some(*before[i]) == effect_recipe(effects@[e2], kk);
                            assert(out@[i] == before[i]);
                        } else {
                            assert(out@[before.len() + kk] == rs@[kk]);
                        }
                    }
                }
            } else {
                proof {
                    assert forall|kk: int| (#[trigger] effect_recipe(effects@[e as int], kk)) is None by {}
                }
            }
            e = e + 1;
        }
        s = s + 1;
    }
}

/// The game configuration: plants keyed by the number of their `plant::Conf`,
/// items keyed by the number of their `item::Conf`.
#[derive(Debug)]
pub struct Config {
    pub plants: HashMap<usize, plant::Config>,
    pub items: HashMap<u128, item::Config>,
    pub hackstead: hackstead::Config,
}

impl Config {
    /// Some configured plant offers this recipe.
    pub open spec fn offered(&self, rec: plant::Recipe) -> bool {
        exists|p: plant::Config| #[trigger] self.plants@.values().contains(p) && offers_recipe(p, rec)
    }

    /// Some item configured under this name, if there is one. (Which one, when
    /// several share the name, depends on the order the map is walked in.)
    pub fn item_named(&self, item_name: &str) -> (r: Option<&item::Config>)
        ensures
            r matches Some(c) ==> c.name@ == item_name@ && self.items@.values().contains(*c),
            r is None <==> !(exists|c: item::Config|
                #[trigger] self.items@.values().contains(c) && c.name@ == item_name@),
    {
        let target = item_name.to_owned();
        for c in it: self.items.values()
            invariant
                target@ == item_name@,
                it.seq().unref().to_set() == self.items@.values(),
                forall|j: int| 0 <= j < it.index() ==> (#[trigger] it.seq()[j]).name@ != item_name@,
        {
            if c.name == target {
                return Some(c);
            }
        }
        None
    }

    /// The items given to every new hackstead.
    pub fn welcome_gifts(&self) -> (r: Vec<&item::Config>)
        ensures
            forall|i: int| 0 <= i < r@.len() ==> (#[trigger] r@[i]).welcome_gift
                && self.items@.values().contains(*r@[i]),
            forall|c: item::Config| #[trigger] self.items@.values().contains(c) && c.welcome_gift
                ==> r@.unref().contains(c),
    {
        let mut out: Vec<&item::Config> = Vec::new();
        let ghost all = self.items.values().remaining();
        for c in it: self.items.values()
            invariant
                it.seq() == all,
                all.unref().to_set() == self.items@.values(),
                forall|i: int| 0 <= i < out@.len() ==> (#[trigger] out@[i]).welcome_gift
                    && self.items@.values().contains(*out@[i]),
                forall|j: int| 0 <= j < it.index() && (#[trigger] all[j]).welcome_gift
                    ==> out@.unref().contains(*all[j]),
            ensures
                forall|j: int| 0 <= j < all.len() && (#[trigger] all[j]).welcome_gift
                    ==> out@.unref().contains(*all[j]),
        {
            proof {
                assert(it.seq().unref().to_set().contains(*c));
            }
            if c.welcome_gift {
                let ghost before = out@;
                out.push(c);
                proof {
                    assert forall|j: int| 0 <= j < it.index() + 1 && (#[trigger] all[j]).welcome_gift
                        implies out@.unref().contains(*all[j]) by {
                        if j < it.index() {
                            let k = choose|k: int| 0 <= k < before.len() && before.unref()[k] == *all[j];
                            assert(out@.unref()[k] == before.unref()[k]);
                        } else {
                            assert(out@.unref()[before.len() as int] == *c);
                        }
                    }
                }
            }
        }
        proof {
            assert forall|c: item::Config| #[trigger] self.items@.values().contains(c) && c.welcome_gift
                implies out@.unref().contains(c) by {
                assert(all.unref().to_set().contains(c));
                let j = choose|j: int| 0 <= j < all.unref().len() && all.unref()[j] == c;
                assert(*all[j] == c);
            }
        }
        out
    }

    /// The items that grow into plants, each with the plant it grows into.
    pub fn seeds(&self) -> (r: Vec<(plant::Conf, &item::Config)>)
        ensures
            forall|i: int| 0 <= i < r@.len() ==> (#[trigger] r@[i]).1.grows_into == Some(r@[i].0)
                && self.items@.values().contains(*r@[i].1),
            forall|c: item::Config| #[trigger] self.items@.values().contains(c) && c.grows_into is Some
                ==> exists|i: int| 0 <= i < r@.len() && *(#[trigger] r@[i]).1 == c,
    {
        let mut out: Vec<(plant::Conf, &item::Config)> = Vec::new();
        let ghost all = self.items.values().remaining();
        for c in it: self.items.values()
            invariant
                it.seq() == all,
                all.unref().to_set() == self.items@.values(),
                forall|i: int| 0 <= i < out@.len() ==> (#[trigger] out@[i]).1.grows_into == Some(out@[i].0)
                    && self.items@.values().contains(*out@[i].1),
                forall|j: int| 0 <= j < it.index() && (#[trigger] all[j]).grows_into is Some
                    ==> exists|i: int| 0 <= i < out@.len() && *(#[trigger] out@[i]).1 == *all[j],
            ensures
                forall|j: int| 0 <= j < all.len() && (#[trigger] all[j]).grows_into is Some
                    ==> exists|i: int| 0 <= i < out@.len() && *(#[trigger] out@[i]).1 == *all[j],
        {
            proof {
                assert(it.seq().unref().to_set().contains(*c));
            }
            if let Some(pc) = c.grows_into {
                let ghost before = out@;
                out.push((pc, c));
                proof {
                    assert forall|j: int| 0 <= j < it.index() + 1 && (#[trigger] all[j]).grows_into is Some
                        implies exists|i: int| 0 <= i < out@.len() && *(#[trigger] out@[i]).1 == *all[j] by {
                        if j < it.index() {
                            let k = choose|k: int| 0 <= k < before.len() && *before[k].1 == *all[j];
                            assert(out@[k] == before[k]);
                        } else {
                            assert(*out@[before.len() as int].1 == *c);
                        }
                    }
                }
            }
        }
        proof {
            assert forall|c: item::Config| #[trigger] self.items@.values().contains(c) && c.grows_into is Some
                implies exists|i: int| 0 <= i < out@.len() && *(#[trigger] out@[i]).1 == c by {
                assert(all.unref().to_set().contains(c));
                let j = choose|j: int| 0 <= j < all.unref().len() && all.unref()[j] == c;
                assert(*all[j] == c);
            }
        }
        out
    }

    /// The items that unlock land, each with how it does.
    pub fn land_unlockers(&self) -> (r: Vec<(&item::LandUnlock, &item::Config)>)
        ensures
            forall|i: int| 0 <= i < r@.len() ==> (#[trigger] r@[i]).1.unlocks_land == Some(*r@[i].0)
                && self.items@.values().contains(*r@[i].1),
            forall|c: item::Config| #[trigger] self.items@.values().contains(c) && c.unlocks_land is Some
                ==> exists|i: int| 0 <= i < r@.len() && *(#[trigger] r@[i]).1 == c,
    {
        let mut out: Vec<(&item::LandUnlock, &item::Config)> = Vec::new();
        let ghost all = self.items.values().remaining();
        for c in it: self.items.values()
            invariant
                it.seq() == all,
                all.unref().to_set() == self.items@.values(),
                forall|i: int| 0 <= i < out@.len() ==> (#[trigger] out@[i]).1.unlocks_land == Some(*out@[i].0)
                    && self.items@.values().contains(*out@[i].1),
                forall|j: int| 0 <= j < it.index() && (#[trigger] all[j]).unlocks_land is Some
                    ==> exists|i: int| 0 <= i < out@.len() && *(#[trigger] out@[i]).1 == *all[j],
            ensures
                forall|j: int| 0 <= j < all.len() && (#[trigger] all[j]).unlocks_land is Some
                    ==> exists|i: int| 0 <= i < out@.len() && *(#[trigger] out@[i]).1 == *all[j],
        {
            proof {
                assert(it.seq().unref().to_set().contains(*c));
            }
            if let Some(lu) = &c.unlocks_land {
                let ghost before = out@;
                out.push((lu, c));
                proof {
                    assert forall|j: int| 0 <= j < it.index() + 1 && (#[trigger] all[j]).unlocks_land is Some
                        implies exists|i: int| 0 <= i < out@.len() && *(#[trigger] out@[i]).1 == *all[j] by {
                        if j < it.index() {
                            let k = choose|k: int| 0 <= k < before.len() && *before[k].1 == *all[j];
                            assert(out@[k] == before[k]);
                        } else {
                            assert(*out@[before.len() as int].1 == *c);
                        }
                    }
                }
            }
        }
        proof {
            assert forall|c: item::Config| #[trigger] self.items@.values().contains(c) && c.unlocks_land is Some
                implies exists|i: int| 0 <= i < out@.len() && *(#[trigger] out@[i]).1 == c by {
                assert(all.unref().to_set().contains(c));
                let j = choose|j: int| 0 <= j < all.unref().len() && all.unref()[j] == c;
                assert(*all[j] == c);
            }
        }
        out
    }

    /// Every recipe that a craft buff of an effect of a skill of a configured plant offers.
    pub fn recipes(&self) -> (r: Vec<&plant::Recipe>)
        ensures
            forall|i: int| 0 <= i < r@.len() ==> self.offered(*r@[i]),
            forall|p: plant::Config, s: int, e: int, k: int|
                #[trigger] self.plants@.values().contains(p) && 0 <= s < p.skills@.len() && 0 <= e
                    < p.skills@[s].effects@.len() && (#[trigger] effect_recipe(p.skills@[s].effects@[e], k))
                    is Some ==> exists|i: int|
                    0 <= i < r@.len() && Some(*r@[i]) == effect_recipe(p.skills@[s].effects@[e], k),
    {
        let mut out: Vec<&plant::Recipe> = Vec::new();
        let ghost all = self.plants.values().remaining();
        for p in it: self.plants.values()
            invariant
                it.seq() == all,
                all.unref().to_set() == self.plants@.values(),
                forall|i: int| 0 <= i < out@.len() ==> self.offered(*out@[i]),
                forall|j: int, s: int, e: int, k: int|
                    0 <= j < it.index() && 0 <= s < all[j].skills@.len() && 0 <= e < all[j].skills@[s].effects@.len()
                        && (#[trigger] effect_recipe(all[j].skills@[s].effects@[e], k)) is Some ==> exists|i: int|
                        0 <= i < out@.len() && Some(*out@[i]) == effect_recipe(all[j].skills@[s].effects@[e], k),
            ensures
                forall|j: int, s: int, e: int, k: int|
                    0 <= j < all.len() && 0 <= s < all[j].skills@.len() && 0 <= e < all[j].skills@[s].effects@.len()
                        && (#[trigger] effect_recipe(all[j].skills@[s].effects@[e], k)) is Some ==> exists|i: int|
                        0 <= i < out@.len() && Some(*out@[i]) == effect_recipe(all[j].skills@[s].effects@[e], k),
        {
            proof {
                assert(it.seq().unref().to_set().contains(*p));
            }
            let ghost before = out@;
            plant_recipes(p, &mut out);
            proof {
                assert forall|i: int| 0 <= i < out@.len() implies self.offered(*out@[i]) by {
                    if i >= before.len() {
                        assert(self.plants@.values().contains(*p) && offers_recipe(*p, *out@[i]));
                    } else {
                        assert(out@[i] == before[i]);
                    }
                }
                assert forall|j: int, s: int, e: int, k: int|
                    0 <= j < it.index() + 1 && 0 <= s < all[j].skills@.len() && 0 <= e < all[j].skills@[s].effects@.len()
                        && (#[trigger] effect_recipe(all[j].skills@[s].effects@[e], k)) is Some implies exists|i: int|
                        0 <= i < out@.len() && Some(*out@[i]) == effect_recipe(all[j].skills@[s].effects@[e], k) by {
                    if j < it.index() {
                        let i = choose|i: int|
                            0 <= i < before.len() && Some(*before[i]) == effect_recipe(all[j].skills@[s].effects@[e], k);
                        assert(out@[i] == before[i]);
                    } else {
                        assert(*all[j] == *p);
                    }
                }
            }
        }
        proof {
            assert forall|p: plant::Config, s: int, e: int, k: int|
                #[trigger] self.plants@.values().contains(p) && 0 <= s < p.skills@.len() && 0 <= e
                    < p.skills@[s].effects@.len() && (#[trigger] effect_recipe(p.skills@[s].effects@[e], k))
                    is Some implies exists|i: int|
                    0 <= i < out@.len() && Some(*out@[i]) == effect_recipe(p.skills@[s].effects@[e], k) by {
                assert(all.unref().to_set().contains(p));
                let j = choose|j: int| 0 <= j < all.unref().len() && all.unref()[j] == p;
                assert(*all[j] == p);
            }
        }
        out
    }
}

} // verus!
