//! Items in a hackstead's inventory: what they are, who has owned them, and
//! whether a gotchi lives in them.

use vstd::prelude::*;
use crate::config::{Evalput, RawEvalput};
use crate::id::{fresh_uuid, IdentifiesSteader, ItemId, NoSuch, NoSuchGotchiOnItem, NoSuchResult, SteaderId};
use super::plant;

verus! {

/// One entry of an item's ownership log.
#[derive(Clone, Copy, Debug, PartialEq, Eq, Structural)]
pub struct LoggedOwner {
    pub logged_owner_id: SteaderId,
    pub acquisition: Acquisition,
    pub owner_index: usize,
}

#[derive(Clone, Copy, Debug, PartialEq, Eq, Structural)]
pub enum Acquisition {
    Trade,
    Farmed,
    Crafted,
    Hatched,
}

impl Acquisition {
    /// How a freshly spawned item is acquired.
    pub fn spawned() -> (r: Self)
        ensures
            r == Acquisition::Trade,
    {
        Acquisition::Trade
    }

    /// The acquisition with this number, in declaration order.
    pub fn try_from_usize(i: usize) -> (r: Option<Self>)
        ensures
            i == 0 ==> r == Some(Acquisition::Trade),
            i == 1 ==> r == Some(Acquisition::Farmed),
            i == 2 ==> r == Some(Acquisition::Crafted),
            i == 3 ==> r == Some(Acquisition::Hatched),
            i > 3 ==> r is None,
    {
        match i {
            0 => Some(Acquisition::Trade),
            1 => Some(Acquisition::Farmed),
            2 => Some(Acquisition::Crafted),
            3 => Some(Acquisition::Hatched),
            _ => None,
        }
    }
}

/// An item::Conf points to an item::Config; the 128 bits of a UUID.
#[derive(Clone, Copy, Debug, PartialEq, Eq, Hash, Structural)]
pub struct Conf(pub u128);

#[derive(Clone, Copy, Debug, PartialEq, Eq, Structural)]
pub struct LandUnlock {
    pub requires_xp: bool,
}

/// The configuration of a gotchi that lives in an item.
#[derive(Clone, Copy, Debug, PartialEq, Eq, Structural)]
pub struct GotchiConfig {
    pub base_happiness: usize,
}

/// A gotchi living in an item.
#[derive(Clone, Debug)]
pub struct Gotchi {
    pub nickname: String,
    pub item_id: ItemId,
}

impl Gotchi {
    /// A gotchi named after its item's configuration.
    pub fn new<I: crate::id::IdentifiesItem>(conf: &Config, ii: I) -> (r: Self)
        ensures
            r.nickname@ == conf.name@,
            r.item_id == ii.item_id_spec(),
    {
        Self { nickname: conf.name.clone(), item_id: ii.item_id() }
    }
}

/// An item as written in a configuration file, naming plants and items by name.
#[derive(Debug)]
pub struct RawConfig {
    pub name: String,
    pub description: String,
    pub conf: Conf,
    pub gotchi: Option<GotchiConfig>,
    pub grows_into: Option<String>,
    pub unlocks_land: Option<LandUnlock>,
    pub welcome_gift: bool,
    pub passive_plant_effects: Vec<plant::effect::RawConfig>,
    pub plant_rub_effects: Vec<plant::effect::RawConfig>,
    pub hatch_table: Option<RawEvalput>,
}

/// The configuration of a kind of item.
#[derive(Debug)]
pub struct Config {
    pub name: String,
    pub description: String,
    pub conf: Conf,
    pub gotchi: Option<GotchiConfig>,
    pub grows_into: Option<plant::Conf>,
    pub unlocks_land: Option<LandUnlock>,
    pub welcome_gift: bool,
    pub passive_plant_effects: Vec<plant::effect::Config>,
    pub plant_rub_effects: Vec<plant::effect::Config>,
    pub hatch_table: Option<Evalput<Conf>>,
}

#[derive(Clone, Debug)]
pub struct Item {
    pub item_id: ItemId,
    pub owner_id: SteaderId,
    pub conf: Conf,
    pub gotchi: Option<Gotchi>,
    pub ownership_log: Vec<LoggedOwner>,
}

impl Item {
    /// A fresh item of the configured kind, owned by `owner`, with a gotchi in it
    /// exactly when the configuration has one.
    pub fn from_conf<S: IdentifiesSteader>(conf: &Config, owner: S, acquisition: Acquisition) -> (r:
        Self)
        ensures
            r.owner_id == owner.steader_id_spec(),
            r.conf == conf.conf,
            r.gotchi is Some <==> conf.gotchi is Some,
            r.gotchi matches Some(g) ==> g.nickname@ == conf.name@ && g.item_id == r.item_id,
            r.ownership_log@ == seq![
                LoggedOwner {
                    owner_index: 0,
                    logged_owner_id: owner.steader_id_spec(),
                    acquisition,
                },
            ],
    {
        let logged_owner_id = owner.steader_id();
        let item_id = ItemId(fresh_uuid());
        let gotchi = if conf.gotchi.is_some() {
            Some(Gotchi::new(conf, item_id))
        } else {
            None
        };
        Self {
            item_id,
            gotchi,
            owner_id: logged_owner_id,
            ownership_log: vec![LoggedOwner { owner_index: 0, logged_owner_id, acquisition }],
            conf: conf.conf,
        }
    }

    /// The gotchi's nickname when a gotchi lives here, else the name of the item's kind.
    pub fn nickname<'a>(&'a self, conf: &'a Config) -> (r: &'a str)
        requires
            conf.conf == self.conf,
        ensures
            self.gotchi matches Some(g) ==> r@ == g.nickname@,
            self.gotchi is None ==> r@ == conf.name@,
    {
        match &self.gotchi {
            Some(g) => g.nickname.as_str(),
            _ => conf.name.as_str(),
        }
    }

    /// The gotchi living in this item.
    pub fn gotchi(&self) -> (r: NoSuchResult<&Gotchi>)
        ensures
            self.gotchi matches Some(g) ==> r matches Ok(x) && *x == g,
            self.gotchi is None ==> r == Err::<&Gotchi, NoSuch>(
                NoSuch::Gotchi(NoSuchGotchiOnItem(self.owner_id, self.item_id)),
            ),
    {
        match &self.gotchi {
            Some(g) => Ok(g),
            None => Err(NoSuch::Gotchi(NoSuchGotchiOnItem(self.owner_id, self.item_id))),
        }
    }

    /// The gotchi living in this item, to change.
    pub fn gotchi_mut(&mut self) -> (r: NoSuchResult<&mut Gotchi>)
        ensures
            old(self).gotchi is Some <==> r is Ok,
            r is Ok ==> *r->Ok_0 == old(self).gotchi->Some_0 && *final(self) == (Item {
                gotchi: Some(*final(r->Ok_0)),
                ..*old(self)
            }),
            r is Err ==> r->Err_0 == NoSuch::Gotchi(
                NoSuchGotchiOnItem(old(self).owner_id, old(self).item_id),
            ) && *final(self) == *old(self),
    {
        let (owner_id, item_id) = (self.owner_id, self.item_id);
        match &mut self.gotchi {
            Some(g) => Ok(g),
            None => Err(NoSuch::Gotchi(NoSuchGotchiOnItem(owner_id, item_id))),
        }
    }
}

} // verus!
