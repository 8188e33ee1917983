//! Skills a plant can unlock, and what unlocking them costs.

use vstd::prelude::*;
use crate::hackstead::item;
use crate::config::verify::{all_known, concat, counted_names, first_missing, item_confs, noted_error,
    skill_confs, texts, Problem, RawConfig as WholeRawConfig, Verify, VerifResult};

verus! {

/// A skill::Conf points to a skill on a certain plant's list of skills;
/// it also holds the Conf of the plant. The skill is named by the 128 bits of a UUID.
#[derive(Clone, Copy, Debug, PartialEq, Eq, Structural)]
pub struct Conf(pub super::Conf, pub u128);

/// A cost as written in a configuration file, by names.
#[derive(Clone, Debug)]
pub struct RawCost {
    pub points: usize,
    pub items: Vec<(usize, String)>,
    pub skills: Vec<String>,
}

impl RawCost {
    /// A cost of nothing at all.
    pub fn empty() -> (r: Self)
        ensures
            r.points == 0,
            r.items@.len() == 0,
            r.skills@.len() == 0,
    {
        RawCost { points: 0, items: Vec::new(), skills: Vec::new() }
    }

    /// A cost of this many skill points and nothing else.
    pub fn points(points: usize) -> (r: Self)
        ensures
            r.points == points,
            r.items@.len() == 0,
            r.skills@.len() == 0,
    {
        RawCost { points, items: Vec::new(), skills: Vec::new() }
    }
}

impl RawCost {
    /// Replaces the skill titles, then the item names, by their confs on the
    /// plant `plant_conf`; the first unknown one is an error.
    pub fn resolve_raw(&self, plant_conf: super::Conf, raw: &WholeRawConfig) -> (r: VerifResult<Cost>)
        requires
            raw.valid_plant(plant_conf),
        ensures
            r is Ok <==> (plant_conf, *self).resolves(raw),
            r matches Ok(v) ==> (plant_conf, *self).resolved_as(raw, v),
            r matches Err(e) ==> e@ == (plant_conf, *self).error_spec(raw),
    {
        let skills = match skill_confs(raw, plant_conf, &self.skills) {
            Ok(s) => s,
            Err(e) => return Err(e),
        };
        let items = match item_confs(raw, &self.items) {
            Ok(i) => i,
            Err(e) => return Err(e),
        };
        Ok(Cost { points: self.points, skills, items })
    }

    /// As `resolve_raw`, an error gaining the note of an unlock's cost.
    pub fn resolve(&self, plant_conf: super::Conf, raw: &WholeRawConfig) -> (r: VerifResult<Cost>)
        requires
            raw.valid_plant(plant_conf),
        ensures
            r is Ok <==> (plant_conf, *self).resolves(raw),
            r matches Ok(v) ==> (plant_conf, *self).resolved_as(raw, v),
            r matches Err(e) ==> e@ == noted_error((plant_conf, *self), raw),
    {
        match self.resolve_raw(plant_conf, raw) {
            Ok(c) => Ok(c),
            Err(e) => Err(e.noted("in one of an unlock's costs".to_owned())),
        }
    }
}

#[derive(Clone, Debug)]
pub struct Cost {
    pub points: usize,
    pub items: Vec<(usize, item::Conf)>,
    pub skills: Vec<Conf>,
}

impl Verify for (super::Conf, RawCost) {
    type Verified = Cost;

    open spec fn checkable(&self, raw: &WholeRawConfig) -> bool {
        raw.valid_plant(self.0)
    }

    open spec fn resolves(&self, raw: &WholeRawConfig) -> bool {
        &&& all_known(texts(self.1.skills@), raw.skill_titles(self.0))
        &&& all_known(counted_names(self.1.items@), raw.item_names())
    }

    open spec fn resolved_as(&self, raw: &WholeRawConfig, v: Cost) -> bool {
        &&& v.points == self.1.points
        &&& v.skills@.len() == self.1.skills@.len()
        &&& forall|i: int|
            0 <= i < self.1.skills@.len() ==> v.skills@[i] == raw.skill_conf_spec(
                self.0,
                #[trigger] self.1.skills@[i]@,
            )
        &&& v.items@.len() == self.1.items@.len()
        &&& forall|i: int|
            0 <= i < self.1.items@.len() ==> #[trigger] v.items@[i] == (
                self.1.items@[i].0,
                raw.item_conf_spec(self.1.items@[i].1@),
            )
    }

    open spec fn error_spec(&self, raw: &WholeRawConfig) -> (Problem, Seq<Seq<char>>) {
        if !all_known(texts(self.1.skills@), raw.skill_titles(self.0)) {
            (
                Problem::UnknownPlantSkill(
                    self.0,
                    self.1.skills@[first_missing(texts(self.1.skills@), raw.skill_titles(self.0))]@,
                ),
                Seq::empty(),
            )
        } else {
            (
                Problem::UnknownItem(
                    self.1.items@[first_missing(counted_names(self.1.items@), raw.item_names())].1@,
                ),
                Seq::empty(),
            )
        }
    }

    open spec fn context_spec(&self) -> Option<Seq<char>> {
        Some("in one of an unlock's costs"@)
    }

    fn verify_raw(self, raw: &WholeRawConfig) -> (r: VerifResult<Cost>) {
        self.1.resolve_raw(self.0, raw)
    }

    fn context(&self) -> (r: Option<String>) {
        Some("in one of an unlock's costs".to_owned())
    }
}

/// An unlock as written in a configuration file, by names.
#[derive(Clone, Debug)]
pub struct RawUnlock {
    pub skill: String,
    pub costs: RawCost,
    pub hide_until: RawCost,
}

/// An unlock written either as the bare name of a skill or in full.
#[derive(Clone, Debug)]
pub struct SkillNameOrRawUnlock(pub RawUnlock);

impl SkillNameOrRawUnlock {
    /// The unlock a bare skill name stands for: one skill point, never hidden.
    pub fn from_skill_name(s: &str) -> (r: Self)
        ensures
            r.0.skill@ == s@,
            r.0.costs.points == 1,
            r.0.costs.items@.len() == 0,
            r.0.costs.skills@.len() == 0,
            r.0.hide_until.points == 0,
            r.0.hide_until.items@.len() == 0,
            r.0.hide_until.skills@.len() == 0,
    {
        SkillNameOrRawUnlock(
            RawUnlock { skill: s.to_owned(), costs: RawCost::points(1), hide_until: RawCost::empty() },
        )
    }
}

/// An unlock being checked: where it stands among the unlocks of the skill
/// `source_skill` of the plant `plant_conf`.
#[derive(Clone, Debug)]
pub struct RawUnlockVerifyWrapper {
    pub inner: RawUnlock,
    pub source_skill: Conf,
    pub plant_conf: super::Conf,
    pub index: usize,
}

impl Verify for RawUnlockVerifyWrapper {
    type Verified = Unlock;

    open spec fn checkable(&self, raw: &WholeRawConfig) -> bool {
        raw.valid_plant(self.plant_conf)
    }

    open spec fn resolves(&self, raw: &WholeRawConfig) -> bool {
        &&& raw.has_skill(self.plant_conf, self.inner.skill@)
        &&& (self.plant_conf, self.inner.hide_until).resolves(raw)
        &&& (self.plant_conf, self.inner.costs).resolves(raw)
    }

    open spec fn resolved_as(&self, raw: &WholeRawConfig, v: Unlock) -> bool {
        &&& v.skill == raw.skill_conf_spec(self.plant_conf, self.inner.skill@)
        &&& (self.plant_conf, self.inner.hide_until).resolved_as(raw, v.hide_until)
        &&& (self.plant_conf, self.inner.costs).resolved_as(raw, v.costs)
        &&& v.source_skill == self.source_skill
        &&& v.index == self.index
    }

    open spec fn error_spec(&self, raw: &WholeRawConfig) -> (Problem, Seq<Seq<char>>) {
        if !raw.has_skill(self.plant_conf, self.inner.skill@) {
            (Problem::UnknownPlantSkill(self.plant_conf, self.inner.skill@), Seq::empty())
        } else if !(self.plant_conf, self.inner.hide_until).resolves(raw) {
            noted_error((self.plant_conf, self.inner.hide_until), raw)
        } else {
            noted_error((self.plant_conf, self.inner.costs), raw)
        }
    }

    open spec fn context_spec(&self) -> Option<Seq<char>> {
        Some("in an unlock for "@ + self.inner.skill@)
    }

    /// Checks the skill unlocked, then what hides it, then what it costs.
    fn verify_raw(self, raw: &WholeRawConfig) -> (r: VerifResult<Unlock>) {
        resolve_unlock(&self.inner, self.source_skill, self.plant_conf, self.index, raw)
    }

    fn context(&self) -> (r: Option<String>) {
        Some(concat("in an unlock for ", self.inner.skill.as_str()))
    }
}

/// The unlock `inner`, standing at `index` among the unlocks of the skill
/// `source_skill` of the plant `plant_conf`.
pub open spec fn wrapped(inner: RawUnlock, source_skill: Conf, plant_conf: super::Conf, index: usize) -> RawUnlockVerifyWrapper {
    RawUnlockVerifyWrapper { inner, source_skill, plant_conf, index }
}

/// Checks the unlock `inner`, standing at `index` among the unlocks of the
/// skill `source_skill` of the plant `plant_conf`: the skill unlocked, then
/// what hides it, then what it costs.
pub fn resolve_unlock(
    inner: &RawUnlock,
    source_skill: Conf,
    plant_conf: super::Conf,
    index: usize,
    raw: &WholeRawConfig,
) -> (r: VerifResult<Unlock>)
    requires
        raw.valid_plant(plant_conf),
    ensures
        r is Ok <==> wrapped(*inner, source_skill, plant_conf, index).resolves(raw),
        r matches Ok(v) ==> wrapped(*inner, source_skill, plant_conf, index).resolved_as(raw, v),
        r matches Err(e) ==> e@ == wrapped(*inner, source_skill, plant_conf, index).error_spec(raw),
{
    let skill = match raw.plant_skill_conf(plant_conf, inner.skill.as_str()) {
        Ok(s) => s,
        Err(e) => return Err(e),
    };
    let hide_until = match inner.hide_until.resolve(plant_conf, raw) {
        Ok(c) => c,
        Err(e) => return Err(e),
    };
    let costs = match inner.costs.resolve(plant_conf, raw) {
        Ok(c) => c,
        Err(e) => return Err(e),
    };
    Ok(Unlock { skill, hide_until, costs, source_skill, index })
}

#[derive(Clone, Debug)]
pub struct Unlock {
    pub skill: Conf,
    pub hide_until: Cost,
    pub costs: Cost,
    pub source_skill: Conf,
    pub index: usize,
}

/// A skill as written in a configuration file; the skill's own conf is the
/// 128 bits of a UUID.
#[derive(Debug)]
pub struct RawSkill {
    pub title: String,
    pub unlocks: Vec<SkillNameOrRawUnlock>,
    pub effects: Vec<super::effect::RawConfig>,
    pub conf: u128,
}

#[derive(Debug)]
pub struct Skill {
    pub title: String,
    pub unlocks: Vec<Unlock>,
    pub effects: Vec<super::effect::Config>,
}

} // verus!
