//! Effects that items have on plants, passively or when rubbed onto them.

use vstd::prelude::*;
use super::{Buff, Conf, Filter, RawBuff, RawFilter};
use crate::hackstead::item;

pub use crate::id::RubEffectId;

verus! {

#[derive(Clone, Copy, Debug, PartialEq, Eq, Structural)]
pub struct RubEffect {
    /// Records whether this is the first, second, third, etc. effect to be rubbed onto this plant.
    pub effect_id: RubEffectId,
    /// The conf of the item that was consumed to apply this effect.
    pub item_conf: item::Conf,
    /// The index of the effect within this item that describes this effect.
    pub effect_conf: usize,
}

impl RubEffect {
    /// The effect configuration this rub effect stands for, among the rub
    /// effects of the item that was consumed.
    pub fn config<'a>(&self, item: &'a item::Config) -> (r: &'a Config)
        requires
            item.conf == self.item_conf,
            self.effect_conf < item.plant_rub_effects@.len(),
        ensures
            *r == item.plant_rub_effects@[self.effect_conf as int],
    {
        &item.plant_rub_effects[self.effect_conf]
    }
}

/// An effect as written in a configuration file: a buff, or the name of the
/// plant it turns its plant into.
#[derive(Debug)]
pub struct RawConfig {
    pub description: String,
    pub buff: Option<RawBuff>,
    pub for_plants: RawFilter,
    /// An `f32` bit pattern, if present.
    pub duration: Option<u32>,
    pub transmogrification: Option<String>,
}

#[derive(Debug)]
pub struct Config {
    pub description: String,
    pub kind: ConfigKind,
    pub for_plants: Filter,
    /// An `f32` bit pattern, if present.
    pub duration: Option<u32>,
}

#[derive(Debug)]
pub enum ConfigKind {
    Buff(Buff),
    Transmogrification(Conf),
}

impl ConfigKind {
    pub fn buff(&self) -> (r: Option<&Buff>)
        ensures
            r matches Some(b) ==> *self == ConfigKind::Buff(*b),
            r is None <==> !(self is Buff),
    {
        match self {
            ConfigKind::Buff(b) => Some(b),
            _ => None,
        }
    }
}

} // verus!
