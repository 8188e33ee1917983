//! Timers that drive a plant's yields, crafts, rub effects and xp.
//! Durations are `f32` bit patterns.

use vstd::prelude::*;
use super::{Buff, RubEffectId, Skill};
use crate::id::{fresh_uuid, IdentifiesTile, TileId};

verus! {

/// The `f32` 1000.0, the duration of the xp timer, as a bit pattern.
pub const XP_TIMER_DURATION: u32 = 0x447a_0000;

/// Identifies a timer; the 128 bits of a UUID.
#[derive(Clone, Copy, Debug, PartialEq, Eq, Hash, Structural)]
pub struct TimerId(pub u128);

#[derive(Clone, Copy, Debug, PartialEq, Eq, Structural)]
pub enum TimerKind {
    Yield,
    Craft { recipe_index: usize },
    Rub { effect_id: RubEffectId },
    Xp,
}

#[derive(Clone, Copy, Debug, PartialEq, Eq, Structural)]
pub enum Lifecycle {
    // when this timer finishes, it restarts again.
    Perennial { duration: u32 },
    // this timer runs once, then, kaputt.
    Annual,
}

impl Lifecycle {
    pub fn is_perennial(&self) -> (r: bool)
        ensures
            r == self is Perennial,
    {
        match self {
            Lifecycle::Perennial { .. } => true,
            _ => false,
        }
    }

    pub fn is_annual(&self) -> (r: bool)
        ensures
            r == self is Annual,
    {
        match self {
            Lifecycle::Annual => true,
            _ => false,
        }
    }
}

#[derive(Clone, Copy, Debug, PartialEq, Eq, Structural)]
pub struct ServerTimer {
    pub kind: TimerKind,
    pub tile_id: TileId,
    pub timer_id: TimerId,
    pub value: u32,
    pub predicted_next: u32,
}

#[derive(Clone, Copy, Debug, PartialEq, Eq, Structural)]
pub struct ClientTimer {
    pub timer_id: TimerId,
    pub value: u32,
    pub rate: u32,
}

#[derive(Clone, Copy, Debug, PartialEq, Eq, Structural)]
pub struct SharedTimer {
    pub timer_id: TimerId,
    pub duration: u32,
    pub lifecycle: Lifecycle,
    pub tile_id: TileId,
    pub kind: TimerKind,
}

/// The effect is an xp buff (when `want_xp`) or a yield buff (otherwise).
pub open spec fn is_buff_of(e: super::effect::Config, want_xp: bool) -> bool {
    match e.kind {
        super::effect::ConfigKind::Buff(Buff::Xp(_)) => want_xp,
        super::effect::ConfigKind::Buff(Buff::Yield(_)) => !want_xp,
        _ => false,
    }
}

/// Some buff of these skills' effects is an xp buff (when `want_xp`) or a yield buff.
pub open spec fn skills_have_buff(skills: Seq<&Skill>, want_xp: bool) -> bool {
    exists|i: int, j: int|
        0 <= i < skills.len() && 0 <= j < skills[i].effects@.len() && is_buff_of(
            #[trigger] skills[i].effects@[j],
            want_xp,
        )
}

/// Some skill has an effect whose buff is a yield buff.
pub open spec fn some_effect_yields(skills: Seq<&Skill>) -> bool {
    exists|i: int, j: int|
        0 <= i < skills.len() && 0 <= j < skills[i].effects@.len() && (#[trigger] skills[i].effects@[j]).kind matches super::effect::ConfigKind::Buff(Buff::Yield(_))
}

/// Some skill has an effect whose buff is an xp buff.
pub open spec fn some_effect_gives_xp(skills: Seq<&Skill>) -> bool {
    exists|i: int, j: int|
        0 <= i < skills.len() && 0 <= j < skills[i].effects@.len() && (#[trigger] skills[i].effects@[j]).kind matches super::effect::ConfigKind::Buff(Buff::Xp(_))
}

/// An effect counts as a yield buff exactly when its buff is `Yield`, and as an
/// xp buff exactly when its buff is `Xp`; no other kind of buff (a yield size
/// multiplier, say) counts as either.
pub proof fn law_which_buffs_start_timers(e: super::effect::Config)
    ensures
        is_buff_of(e, false) <==> e.kind matches super::effect::ConfigKind::Buff(Buff::Yield(_)),
        is_buff_of(e, true) <==> e.kind matches super::effect::ConfigKind::Buff(Buff::Xp(_)),
{
}

/// Skills have a yield buff exactly when one of their effects buffs with
/// `Yield`, and an xp buff exactly when one of their effects buffs with `Xp`.
pub proof fn law_skills_yield_when_an_effect_yields(skills: Seq<&Skill>)
    ensures
        skills_have_buff(skills, false) <==> some_effect_yields(skills),
        skills_have_buff(skills, true) <==> some_effect_gives_xp(skills),
{
    if skills_have_buff(skills, false) {
        let (i, j) = choose|i: int, j: int|
            0 <= i < skills.len() && 0 <= j < skills[i].effects@.len() && is_buff_of(
                #[trigger] skills[i].effects@[j],
                false,
            );
        assert(skills[i].effects@[j].kind matches super::effect::ConfigKind::Buff(Buff::Yield(_)));
    }
    if some_effect_yields(skills) {
        let (i, j) = choose|i: int, j: int|
            0 <= i < skills.len() && 0 <= j < skills[i].effects@.len() && (#[trigger] skills[i].effects@[j]).kind matches super::effect::ConfigKind::Buff(Buff::Yield(_));
        assert(is_buff_of(skills[i].effects@[j], false));
    }
    if skills_have_buff(skills, true) {
        let (i, j) = choose|i: int, j: int|
            0 <= i < skills.len() && 0 <= j < skills[i].effects@.len() && is_buff_of(
                #[trigger] skills[i].effects@[j],
                true,
            );
        assert(skills[i].effects@[j].kind matches super::effect::ConfigKind::Buff(Buff::Xp(_)));
    }
    if some_effect_gives_xp(skills) {
        let (i, j) = choose|i: int, j: int|
            0 <= i < skills.len() && 0 <= j < skills[i].effects@.len() && (#[trigger] skills[i].effects@[j]).kind matches super::effect::ConfigKind::Buff(Buff::Xp(_));
        assert(is_buff_of(skills[i].effects@[j], true));
    }
}

impl SharedTimer {
    /// A fresh timer for the tile.
    pub fn new<T: IdentifiesTile>(lifecycle: Lifecycle, kind: TimerKind, t: T, duration: u32) -> (r:
        Self)
        ensures
            r.duration == duration,
            r.lifecycle == lifecycle,
            r.tile_id == t.tile_id_spec(),
            r.kind == kind,
    {
        Self { timer_id: TimerId(fresh_uuid()), duration, lifecycle, tile_id: t.tile_id(), kind }
    }

    /// The timers a plant with these unlocked skills runs: an xp timer when some
    /// skill grants xp, and a yield timer when some skill yields and the plant has
    /// a base yield duration.
    pub fn for_skills(tile_id: TileId, conf: &super::Config, skills: &[&Skill]) -> (r: Vec<SharedTimer>)
        ensures
            r@.len() == (if skills_have_buff(skills@, true) {
                1int
            } else {
                0
            }) + (if skills_have_buff(skills@, false) && conf.base_yield_duration is Some {
                1int
            } else {
                0
            }),
            skills_have_buff(skills@, true) ==> r@[0].kind == TimerKind::Xp && r@[0].duration
                == XP_TIMER_DURATION && r@[0].lifecycle == (Lifecycle::Perennial {
                duration: XP_TIMER_DURATION,
            }) && r@[0].tile_id == tile_id,
            some_effect_yields(skills@) && conf.base_yield_duration is Some ==> ({
                let y = r@[r@.len() - 1];
                let d = conf.base_yield_duration->Some_0;
                r@.len() > 0 && y.kind == TimerKind::Yield && y.duration == d && y.lifecycle == (Lifecycle::Perennial {
                    duration: d,
                }) && y.tile_id == tile_id
            }),
            !some_effect_yields(skills@) ==> forall|k: int| 0 <= k < r@.len() ==> #[trigger] r@[k].kind != TimerKind::Yield,
            some_effect_gives_xp(skills@) ==> r@.len() > 0 && r@[0].kind == TimerKind::Xp,
            skills_have_buff(skills@, false) && conf.base_yield_duration is Some ==> ({
                let y = r@[r@.len() - 1];
                let d = conf.base_yield_duration->Some_0;
                y.kind == TimerKind::Yield && y.duration == d && y.lifecycle == (Lifecycle::Perennial {
                    duration: d,
                }) && y.tile_id == tile_id
            }),
    {
        proof {
            law_skills_yield_when_an_effect_yields(skills@);
        }
        let mut timers: Vec<SharedTimer> = Vec::new();
        if any_buff(skills, true) {
            timers.push(
                SharedTimer::new(
                    Lifecycle::Perennial { duration: XP_TIMER_DURATION },
                    TimerKind::Xp,
                    tile_id,
                    XP_TIMER_DURATION,
                ),
            );
        }
        if any_buff(skills, false) {
            if let Some(duration) = conf.base_yield_duration {
                timers.push(
                    SharedTimer::new(Lifecycle::Perennial { duration }, TimerKind::Yield, tile_id, duration),
                );
            }
        }
        timers
    }
}

/// Whether some buff of the skills' effects is an xp buff (`want_xp`) or a yield buff.
fn any_buff(skills: &[&Skill], want_xp: bool) -> (r: bool)
    ensures
        r == skills_have_buff(skills@, want_xp),
{
    let mut i: usize = 0;
    while i < skills.len()
        invariant
            i <= skills@.len(),
            forall|a: int, j: int|
                0 <= a < i && 0 <= j < skills@[a].effects@.len() ==> !is_buff_of(
                    #[trigger] skills@[a].effects@[j],
                    want_xp,
                ),
        decreases skills@.len() - i,
    {
        let s: &Skill = skills[i];
        let mut j: usize = 0;
        while j < s.effects.len()
            invariant
                i < skills@.len(),
                *s == *skills@[i as int],
                j <= s.effects@.len(),
                forall|k: int|
                    0 <= k < j ==> !is_buff_of(#[trigger] s.effects@[k], want_xp),
            decreases s.effects@.len() - j,
        {
            match s.effects[j].kind.buff() {
                Some(b) => {
                    let hit = match b {
                        Buff::Xp(_) => want_xp,
                        Buff::Yield(_) => !want_xp,
                        _ => false,
                    };
                    if hit {
                        return true;
                    }
                },
                None => {},
            }
            j = j + 1;
        }
        i = i + 1;
    }
    false
}

} // verus!
