//! What those Hackagotchi farms are made of: a profile, tiles of land with
//! plants on them, an inventory of items, and timers; and how to look things up in one.

use vstd::prelude::*;
use crate::config::{first_level_beyond, law_level_index_monotone, lemma_first_level_beyond,
    max_level_index};
use crate::id::{fresh_uuid, IdentifiesItem, IdentifiesPlant, IdentifiesTile, ItemId, NoSuch,
    NoSuchItem, NoSuchPlantOnTile, NoSuchResult, NoSuchTile, SteaderId, TileId};

pub mod item;
pub mod plant;
pub mod tile;
pub mod time;

pub use item::Item;
pub use plant::Plant;
pub use tile::Tile;
use time::{now, Timestamp};

verus! {

#[derive(Clone, Debug)]
pub struct Hackstead {
    pub profile: Profile,
    pub land: Vec<Tile>,
    pub inventory: Vec<Item>,
    pub timers: Vec<plant::SharedTimer>,
    pub local_version: usize,
}

#[derive(Clone, Debug)]
pub struct Profile {
    pub steader_id: SteaderId,
    pub slack_id: Option<String>,
    pub xp: usize,
    pub extra_land_plot_count: usize,
    /// Indicates when this Hacksteader first joined the elite community.
    pub joined: Timestamp,
    pub last_active: Timestamp,
    pub last_farm: Timestamp,
}

impl Profile {
    /// A fresh profile with a fresh steader id, no xp and no extra land, joined now.
    pub fn new(slack_id: Option<String>) -> (r: Self)
        ensures
            r.slack_id == slack_id,
            r.xp == 0,
            r.extra_land_plot_count == 0,
            crate::id::is_random_uuid(r.steader_id.0),
    {
        Self {
            steader_id: SteaderId(fresh_uuid()),
            slack_id,
            xp: 0,
            extra_land_plot_count: 0,
            joined: now(),
            last_active: now(),
            last_farm: now(),
        }
    }
}

/// The hackstead part of the game configuration: the levels a hackstead climbs.
#[derive(Clone, Debug)]
pub struct Config {
    pub advancements: Vec<ConfigAdvancement>,
}

#[derive(Clone, Debug)]
pub struct ConfigAdvancement {
    pub advancement_title: String,
    pub description: String,
    pub achiever_title: String,
    pub xp: usize,
    pub land_pieces: usize,
}

/// Format for requesting that a new hackstead is made for a user.
#[derive(Clone, Debug)]
pub struct NewHacksteadRequest {
    /// A slack id to be associated with this user, if any.
    pub slack_id: Option<String>,
}

/// The xp each level costs, in order.
pub open spec fn level_xps(advs: Seq<ConfigAdvancement>) -> Seq<usize> {
    advs.map_values(|a: ConfigAdvancement| a.xp)
}

/// The land the first `n` levels grant together.
pub open spec fn land_prefix(advs: Seq<ConfigAdvancement>, n: int) -> int
    decreases n,
{
    if n <= 0 || n > advs.len() {
        0
    } else {
        land_prefix(advs, n - 1) + advs[n - 1].land_pieces
    }
}

/// `i` is the first position of an item with this id.
pub open spec fn is_first_item(inv: Seq<Item>, id: ItemId, i: int) -> bool {
    &&& 0 <= i < inv.len()
    &&& inv[i].item_id == id
    &&& forall|j: int| 0 <= j < i ==> inv[j].item_id != id
}

/// `i` is the first position of a tile with this id.
pub open spec fn is_first_tile(land: Seq<Tile>, id: TileId, i: int) -> bool {
    &&& 0 <= i < land.len()
    &&& land[i].base.tile_id == id
    &&& forall|j: int| 0 <= j < i ==> land[j].base.tile_id != id
}

pub open spec fn has_item_with(inv: Seq<Item>, id: ItemId) -> bool {
    exists|i: int| 0 <= i < inv.len() && inv[i].item_id == id
}

pub open spec fn has_tile_with(land: Seq<Tile>, id: TileId) -> bool {
    exists|i: int| 0 <= i < land.len() && land[i].base.tile_id == id
}

/// The first tile with this id holds a plant.
pub open spec fn has_plant_on(land: Seq<Tile>, id: TileId) -> bool {
    exists|i: int| is_first_tile(land, id, i) && land[i].plant is Some
}

/// The tiles of `land` that hold no plant, in order.
pub open spec fn free_tiles_spec(land: Seq<Tile>) -> Seq<Tile>
    decreases land.len(),
{
    if land.len() == 0 {
        seq![]
    } else if land.last().plant is None {
        free_tiles_spec(land.drop_last()).push(land.last())
    } else {
        free_tiles_spec(land.drop_last())
    }
}

/// The plants growing on `land`, in order.
pub open spec fn plants_spec(land: Seq<Tile>) -> Seq<Plant>
    decreases land.len(),
{
    if land.len() == 0 {
        seq![]
    } else if land.last().plant is Some {
        plants_spec(land.drop_last()).push(land.last().plant->Some_0)
    } else {
        plants_spec(land.drop_last())
    }
}

/// The first position of an item with this id, if any.
fn find_item(inv: &Vec<Item>, id: ItemId) -> (r: Option<usize>)
    ensures
        r matches Some(i) ==> is_first_item(inv@, id, i as int),
        r is None <==> !has_item_with(inv@, id),
{
    let mut i: usize = 0;
    while i < inv.len()
        invariant
            i <= inv@.len(),
            forall|j: int| 0 <= j < i ==> inv@[j].item_id != id,
        decreases inv@.len() - i,
    {
        if inv[i].item_id == id {
            return Some(i);
        }
        i = i + 1;
    }
    None
}

/// The first position of a tile with this id, if any.
fn find_tile(land: &Vec<Tile>, id: TileId) -> (r: Option<usize>)
    ensures
        r matches Some(i) ==> is_first_tile(land@, id, i as int),
        r is None <==> !has_tile_with(land@, id),
{
    let mut i: usize = 0;
    while i < land.len()
        invariant
            i <= land@.len(),
            forall|j: int| 0 <= j < i ==> land@[j].base.tile_id != id,
        decreases land@.len() - i,
    {
        if land[i].base.tile_id == id {
            return Some(i);
        }
        i = i + 1;
    }
    None
}

impl Hackstead {
    /// A hackstead with a fresh profile and nothing else.
    pub fn empty(slack_id: Option<String>) -> (r: Self)
        ensures
            r.profile.slack_id == slack_id,
            r.profile.xp == 0,
            r.profile.extra_land_plot_count == 0,
            r.land@.len() == 0,
            r.inventory@.len() == 0,
            r.timers@.len() == 0,
            r.local_version == 0,
    {
        Hackstead {
            profile: Profile::new(slack_id),
            land: Vec::new(),
            inventory: Vec::new(),
            timers: Vec::new(),
            local_version: 0,
        }
    }

    /// A hackstead for a new user: one item of each welcome gift, and one empty tile.
    pub fn new_user(slack_id: Option<String>, welcome_gifts: &[&item::Config]) -> (r: Self)
        ensures
            r.profile.slack_id == slack_id,
            r.profile.xp == 0,
            r.inventory@.len() == welcome_gifts@.len(),
            forall|i: int|
                0 <= i < r.inventory@.len() ==> (#[trigger] r.inventory@[i]).conf == welcome_gifts@[i].conf
                    && r.inventory@[i].owner_id == r.profile.steader_id
                    && r.inventory@[i].ownership_log@.len() == 1
                    && r.inventory@[i].ownership_log@[0].acquisition == item::Acquisition::Trade,
            r.land@.len() == 1,
            r.land@[0].plant is None,
            r.land@[0].base.owner_id == r.profile.steader_id,
            r.timers@.len() == 0,
    {
        let mut hs = Hackstead::empty(slack_id);
        let steader_id = hs.profile.steader_id;
        let mut inventory: Vec<Item> = Vec::new();
        let mut i: usize = 0;
        while i < welcome_gifts.len()
            invariant
                i <= welcome_gifts@.len(),
                inventory@.len() == i,
                forall|k: int|
                    0 <= k < i ==> (#[trigger] inventory@[k]).conf == welcome_gifts@[k].conf
                        && inventory@[k].owner_id == steader_id && inventory@[k].ownership_log@.len()
                        == 1 && inventory@[k].ownership_log@[0].acquisition
                        == item::Acquisition::Trade,
            decreases welcome_gifts@.len() - i,
        {
            inventory.push(Item::from_conf(welcome_gifts[i], steader_id, item::Acquisition::spawned()));
            i = i + 1;
        }
        hs.inventory = inventory;
        hs.land.push(Tile::new(steader_id));
        hs
    }

    /// The land the hackstead's xp allows, by the levels of the configuration.
    pub open spec fn max_land_spec(&self, config: Config) -> int {
        land_prefix(
            config.advancements@,
            first_level_beyond(level_xps(config.advancements@), self.profile.xp as int, 0),
        )
    }

    /// The maximum amount of land this Hackstead is currently able to unlock based on the amount
    /// of xp it has.
    pub fn max_land(&self, config: &Config) -> (r: usize)
        requires
            self.max_land_spec(*config) <= usize::MAX,
        ensures
            r == self.max_land_spec(*config),
    {
        let lvls = &config.advancements;
        let mut xps: Vec<usize> = Vec::new();
        let mut k: usize = 0;
        while k < lvls.len()
            invariant
                k <= lvls@.len(),
                xps@ == level_xps(lvls@).take(k as int),
            decreases lvls@.len() - k,
        {
            xps.push(lvls[k].xp);
            k = k + 1;
            assert(xps@ =~= level_xps(lvls@).take(k as int));
        }
        assert(xps@ =~= level_xps(lvls@));
        let i = max_level_index(self.profile.xp, xps.as_slice());
        proof {
            lemma_land_prefix_monotone(lvls@, 0, i as int);
        }
        let mut sum: usize = 0;
        let mut j: usize = 0;
        while j < i
            invariant
                i <= lvls@.len(),
                j <= i,
                sum == land_prefix(lvls@, j as int),
                land_prefix(lvls@, i as int) <= usize::MAX,
            decreases i - j,
        {
            proof {
                lemma_land_prefix_monotone(lvls@, j + 1, i as int);
            }
            sum = sum + lvls[j].land_pieces;
            j = j + 1;
        }
        sum
    }

    /// Returns true if this hackstead has enough xp to redeem another tile of land.
    pub fn land_unlock_eligible(&self, config: &Config) -> (r: bool)
        requires
            self.max_land_spec(*config) + self.profile.extra_land_plot_count <= usize::MAX,
        ensures
            r == (self.land@.len() < self.max_land_spec(*config) + self.profile.extra_land_plot_count),
    {
        let xp_allows = self.max_land(config);
        let extra = self.profile.extra_land_plot_count;
        let eligible = xp_allows + extra;
        self.land.len() < eligible
    }

    /// All tiles which are not occupied by plants, in order.
    pub fn free_tiles(&self) -> (r: Vec<&Tile>)
        ensures
            r@.len() == free_tiles_spec(self.land@).len(),
            forall|i: int| 0 <= i < r@.len() ==> *r@[i] == free_tiles_spec(self.land@)[i],
    {
        let mut r: Vec<&Tile> = Vec::new();
        let mut i: usize = 0;
        while i < self.land.len()
            invariant
                i <= self.land@.len(),
                r@.len() == free_tiles_spec(self.land@.take(i as int)).len(),
                forall|k: int|
                    0 <= k < r@.len() ==> *r@[k] == free_tiles_spec(self.land@.take(i as int))[k],
            decreases self.land@.len() - i,
        {
            assert(self.land@.take(i + 1).drop_last() =~= self.land@.take(i as int));
            if self.land[i].plant.is_none() {
                r.push(&self.land[i]);
            }
            i = i + 1;
        }
        assert(self.land@.take(i as int) =~= self.land@);
        r
    }

    /// A tile in this hackstead not occupied by a plant, if any: a clone of the first one.
    pub fn free_tile(&self) -> (r: Option<Tile>)
        ensures
            r is None <==> free_tiles_spec(self.land@).len() == 0,
            r matches Some(t) ==> vstd::pervasive::cloned(free_tiles_spec(self.land@)[0], t),
    {
        let free = self.free_tiles();
        if free.len() == 0 {
            None
        } else {
            Some(free[0].clone())
        }
    }

    /// All the plants growing in this hackstead, in the order of their tiles.
    pub fn plants(&self) -> (r: Vec<&Plant>)
        ensures
            r@.len() == plants_spec(self.land@).len(),
            forall|i: int| 0 <= i < r@.len() ==> *r@[i] == plants_spec(self.land@)[i],
    {
        let mut r: Vec<&Plant> = Vec::new();
        let mut i: usize = 0;
        while i < self.land.len()
            invariant
                i <= self.land@.len(),
                r@.len() == plants_spec(self.land@.take(i as int)).len(),
                forall|k: int|
                    0 <= k < r@.len() ==> *r@[k] == plants_spec(self.land@.take(i as int))[k],
            decreases self.land@.len() - i,
        {
            assert(self.land@.take(i + 1).drop_last() =~= self.land@.take(i as int));
            match &self.land[i].plant {
                Some(p) => r.push(p),
                None => {},
            }
            i = i + 1;
        }
        assert(self.land@.take(i as int) =~= self.land@);
        r
    }

    /// The item with this id.
    pub fn item<I: IdentifiesItem>(&self, i: I) -> (r: NoSuchResult<&Item>)
        ensures
            r matches Ok(x) ==> exists|k: int|
                is_first_item(self.inventory@, i.item_id_spec(), k) && *x == self.inventory@[k],
            r is Err <==> !has_item_with(self.inventory@, i.item_id_spec()),
            r matches Err(e) ==> e == NoSuch::Item(NoSuchItem(self.profile.steader_id, i.item_id_spec())),
    {
        let item_id = i.item_id();
        match find_item(&self.inventory, item_id) {
            Some(k) => Ok(&self.inventory[k]),
            None => Err(NoSuch::Item(NoSuchItem(self.profile.steader_id, item_id))),
        }
    }

    /// The item with this id, to change.
    pub fn item_mut<I: IdentifiesItem>(&mut self, i: I) -> (r: NoSuchResult<&mut Item>)
        ensures
            r is Err <==> !has_item_with(old(self).inventory@, i.item_id_spec()),
            r is Err ==> r->Err_0 == NoSuch::Item(
                NoSuchItem(old(self).profile.steader_id, i.item_id_spec()),
            ) && *final(self) == *old(self),
            r is Ok ==> exists|k: int|
                is_first_item(old(self).inventory@, i.item_id_spec(), k) && *r->Ok_0
                    == old(self).inventory@[k] && final(self).inventory@
                    == old(self).inventory@.update(k, *final(r->Ok_0)) && *final(self) == (Hackstead {
                    inventory: final(self).inventory,
                    ..*old(self)
                }),
    {
        let item_id = i.item_id();
        let steader_id = self.profile.steader_id;
        match find_item(&self.inventory, item_id) {
            Some(k) => Ok(&mut self.inventory[k]),
            None => Err(NoSuch::Item(NoSuchItem(steader_id, item_id))),
        }
    }

    /// Removes the item with this id from the inventory; the last item takes its place.
    pub fn take_item<I: IdentifiesItem>(&mut self, i: I) -> (r: NoSuchResult<Item>)
        ensures
            r is Err <==> !has_item_with(old(self).inventory@, i.item_id_spec()),
            r is Err ==> r->Err_0 == NoSuch::Item(
                NoSuchItem(old(self).profile.steader_id, i.item_id_spec()),
            ) && *final(self) == *old(self),
            r is Ok ==> exists|k: int|
                is_first_item(old(self).inventory@, i.item_id_spec(), k) && r->Ok_0
                    == old(self).inventory@[k] && final(self).inventory@
                    == old(self).inventory@.update(k, old(self).inventory@.last()).drop_last()
                    && *final(self) == (Hackstead { inventory: final(self).inventory, ..*old(self) }),
    {
        let item_id = i.item_id();
        let steader_id = self.profile.steader_id;
        match find_item(&self.inventory, item_id) {
            Some(k) => Ok(self.inventory.swap_remove(k)),
            None => Err(NoSuch::Item(NoSuchItem(steader_id, item_id))),
        }
    }

    /// The tile with this id.
    pub fn tile<T: IdentifiesTile>(&self, t: T) -> (r: NoSuchResult<&Tile>)
        ensures
            r matches Ok(x) ==> exists|k: int|
                is_first_tile(self.land@, t.tile_id_spec(), k) && *x == self.land@[k],
            r is Err <==> !has_tile_with(self.land@, t.tile_id_spec()),
            r matches Err(e) ==> e == NoSuch::Tile(NoSuchTile(self.profile.steader_id, t.tile_id_spec())),
    {
        let tile_id = t.tile_id();
        match find_tile(&self.land, tile_id) {
            Some(k) => Ok(&self.land[k]),
            None => Err(NoSuch::Tile(NoSuchTile(self.profile.steader_id, tile_id))),
        }
    }

    /// The tile with this id, to change.
    pub fn tile_mut<T: IdentifiesTile>(&mut self, t: T) -> (r: NoSuchResult<&mut Tile>)
        ensures
            r is Err <==> !has_tile_with(old(self).land@, t.tile_id_spec()),
            r is Err ==> r->Err_0 == NoSuch::Tile(
                NoSuchTile(old(self).profile.steader_id, t.tile_id_spec()),
            ) && *final(self) == *old(self),
            r is Ok ==> exists|k: int|
                is_first_tile(old(self).land@, t.tile_id_spec(), k) && *r->Ok_0 == old(self).land@[k]
                    && final(self).land@ == old(self).land@.update(k, *final(r->Ok_0)) && *final(self)
                    == (Hackstead { land: final(self).land, ..*old(self) }),
    {
        let tile_id = t.tile_id();
        let steader_id = self.profile.steader_id;
        match find_tile(&self.land, tile_id) {
            Some(k) => Ok(&mut self.land[k]),
            None => Err(NoSuch::Tile(NoSuchTile(steader_id, tile_id))),
        }
    }

    /// The plant on the tile with this id. Accepts anything that names a tile,
    /// since this simply fails when no plant grows on the tile.
    pub fn plant<T: IdentifiesTile>(&self, t: T) -> (r: NoSuchResult<&Plant>)
        ensures
            r matches Ok(p) ==> exists|k: int|
                is_first_tile(self.land@, t.tile_id_spec(), k) && self.land@[k].plant == Some(*p),
            r is Ok <==> has_plant_on(self.land@, t.tile_id_spec()),
            !has_tile_with(self.land@, t.tile_id_spec()) ==> r == Err::<&Plant, NoSuch>(
                NoSuch::Tile(NoSuchTile(self.profile.steader_id, t.tile_id_spec())),
            ),
            has_tile_with(self.land@, t.tile_id_spec()) && !has_plant_on(self.land@, t.tile_id_spec())
                ==> r == Err::<&Plant, NoSuch>(
                NoSuch::Plant(NoSuchPlantOnTile(self.profile.steader_id, t.tile_id_spec())),
            ),
    {
        let tile_id = t.tile_id();
        let steader_id = self.profile.steader_id;
        match find_tile(&self.land, tile_id) {
            Some(k) => match &self.land[k].plant {
                Some(p) => Ok(p),
                None => Err(NoSuch::Plant(NoSuchPlantOnTile(steader_id, tile_id))),
            },
            None => Err(NoSuch::Tile(NoSuchTile(steader_id, tile_id))),
        }
    }

    /// The plant on the tile with this id, to change.
    pub fn plant_mut<T: IdentifiesTile>(&mut self, t: T) -> (r: NoSuchResult<&mut Plant>)
        ensures
            r is Ok <==> has_plant_on(old(self).land@, t.tile_id_spec()),
            r is Err ==> *final(self) == *old(self),
            !has_tile_with(old(self).land@, t.tile_id_spec()) ==> r is Err && r->Err_0 == NoSuch::Tile(
                NoSuchTile(old(self).profile.steader_id, t.tile_id_spec()),
            ),
            has_tile_with(old(self).land@, t.tile_id_spec()) && !has_plant_on(
                old(self).land@,
                t.tile_id_spec(),
            ) ==> r is Err && r->Err_0 == NoSuch::Plant(
                NoSuchPlantOnTile(old(self).profile.steader_id, t.tile_id_spec()),
            ),
            r is Ok ==> exists|k: int|
                is_first_tile(old(self).land@, t.tile_id_spec(), k) && old(self).land@[k].plant == Some(
                    *r->Ok_0,
                ) && final(self).land@ == old(self).land@.update(
                    k,
                    Tile { plant: Some(*final(r->Ok_0)), ..old(self).land@[k] },
                ) && *final(self) == (Hackstead { land: final(self).land, ..*old(self) }),
    {
        let tile_id = t.tile_id();
        let steader_id = self.profile.steader_id;
        match find_tile(&self.land, tile_id) {
            Some(k) => {
                if self.land[k].plant.is_none() {
                    return Err(NoSuch::Plant(NoSuchPlantOnTile(steader_id, tile_id)));
                }
                let tile = &mut self.land[k];
                match &mut tile.plant {
                    Some(p) => Ok(p),
                    None => Err(NoSuch::Plant(NoSuchPlantOnTile(steader_id, tile_id))),
                }
            },
            None => Err(NoSuch::Tile(NoSuchTile(steader_id, tile_id))),
        }
    }

    /// Takes the plant off the tile with this id, leaving the tile empty.
    pub fn take_plant<T: IdentifiesTile>(&mut self, t: T) -> (r: NoSuchResult<Plant>)
        ensures
            r is Ok <==> has_plant_on(old(self).land@, t.tile_id_spec()),
            r is Err ==> *final(self) == *old(self),
            !has_tile_with(old(self).land@, t.tile_id_spec()) ==> r is Err && r->Err_0 == NoSuch::Tile(
                NoSuchTile(old(self).profile.steader_id, t.tile_id_spec()),
            ),
            has_tile_with(old(self).land@, t.tile_id_spec()) && !has_plant_on(
                old(self).land@,
                t.tile_id_spec(),
            ) ==> r is Err && r->Err_0 == NoSuch::Plant(
                NoSuchPlantOnTile(old(self).profile.steader_id, t.tile_id_spec()),
            ),
            r is Ok ==> exists|k: int|
                is_first_tile(old(self).land@, t.tile_id_spec(), k) && old(self).land@[k].plant == Some(
                    r->Ok_0,
                ) && final(self).land@ == old(self).land@.update(
                    k,
                    Tile { plant: None, ..old(self).land@[k] },
                ) && *final(self) == (Hackstead { land: final(self).land, ..*old(self) }),
    {
        let tile_id = t.tile_id();
        let steader_id = self.profile.steader_id;
        match find_tile(&self.land, tile_id) {
            Some(k) => {
                if self.land[k].plant.is_none() {
                    return Err(NoSuch::Plant(NoSuchPlantOnTile(steader_id, tile_id)));
                }
                let tile = &mut self.land[k];
                match tile.plant.take() {
                    Some(p) => Ok(p),
                    None => Err(NoSuch::Plant(NoSuchPlantOnTile(steader_id, tile_id))),
                }
            },
            None => Err(NoSuch::Tile(NoSuchTile(steader_id, tile_id))),
        }
    }

    pub fn has_item<I: IdentifiesItem>(&self, i: I) -> (r: bool)
        ensures
            r == has_item_with(self.inventory@, i.item_id_spec()),
    {
        self.item(i).is_ok()
    }

    pub fn has_tile<T: IdentifiesTile>(&self, t: T) -> (r: bool)
        ensures
            r == has_tile_with(self.land@, t.tile_id_spec()),
    {
        self.tile(t).is_ok()
    }

    pub fn has_plant<P: IdentifiesPlant>(&self, p: P) -> (r: bool)
        ensures
            r == has_plant_on(self.land@, p.plant_tile_id_spec()),
    {
        self.plant(IdentifiesPlant::tile_id(p)).is_ok()
    }
}

/// The land of a longer prefix of levels is never less.
pub proof fn lemma_land_prefix_monotone(advs: Seq<ConfigAdvancement>, m: int, n: int)
    requires
        0 <= m <= n <= advs.len(),
    ensures
        0 <= land_prefix(advs, m) <= land_prefix(advs, n),
    decreases n,
{
    if m < n {
        lemma_land_prefix_monotone(advs, m, n - 1);
    } else if n > 0 {
        lemma_land_prefix_monotone(advs, n - 1, n - 1);
    }
}

/// More xp never allows less land.
pub proof fn law_max_land_monotone(hs1: Hackstead, hs2: Hackstead, config: Config)
    requires
        hs1.profile.xp <= hs2.profile.xp,
    ensures
        hs1.max_land_spec(config) <= hs2.max_land_spec(config),
{
    let levels = level_xps(config.advancements@);
    law_level_index_monotone(hs1.profile.xp, hs2.profile.xp, levels);
    lemma_first_level_beyond(levels, hs1.profile.xp as int, 0);
    lemma_first_level_beyond(levels, hs2.profile.xp as int, 0);
    assert(levels.len() == config.advancements@.len());
    lemma_land_prefix_monotone(
        config.advancements@,
        first_level_beyond(levels, hs1.profile.xp as int, 0),
        first_level_beyond(levels, hs2.profile.xp as int, 0),
    );
}

} // verus!
