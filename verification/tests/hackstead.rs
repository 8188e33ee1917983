use hcor::hackstead::item::{self, Acquisition, GotchiConfig};
use hcor::hackstead::plant::{self, Filter, RubEffect, RubEffectId};
use hcor::hackstead::{ConfigAdvancement, Hackstead, Plant, Tile};
use hcor::hackstead::plant::buff::Source;
use hcor::hackstead::plant::{skill, Buff, Skill};
use std::collections::HashMap;
use hcor::id::{ItemId, NoSuch, NoSuchItem, NoSuchPlantOnTile, NoSuchRubEffectOnPlant, NoSuchTile, TileId};

fn item_config(name: &str, conf: u128, gotchi: bool) -> item::Config {
    item::Config {
        name: name.to_string(),
        description: format!("a {}", name),
        conf: item::Conf(conf),
        gotchi: if gotchi { Some(GotchiConfig { base_happiness: 2 }) } else { None },
        grows_into: None,
        unlocks_land: None,
        welcome_gift: true,
        passive_plant_effects: vec![],
        plant_rub_effects: vec![],
        hatch_table: None,
    }
}

fn plant_config(name: &str) -> plant::Config {
    plant::Config {
        name: name.to_string(),
        base_yield_duration: None,
        skillpoint_unlock_xps: vec![10, 20],
        skills: vec![],
    }
}

fn level(xp: usize, land_pieces: usize) -> ConfigAdvancement {
    ConfigAdvancement {
        advancement_title: format!("level {}", xp),
        description: String::new(),
        achiever_title: String::new(),
        xp,
        land_pieces,
    }
}

#[test]
fn new_user_gets_welcome_gifts_and_one_free_tile() {
    let egg = item_config("nest egg", 1, false);
    let gotchi = item_config("adorpheus", 2, true);
    let hs = Hackstead::new_user(Some("U123".to_string()), &[&egg, &gotchi]);
    assert_eq!(hs.profile.slack_id.as_deref(), Some("U123"));
    assert_eq!(hs.profile.xp, 0);
    assert_eq!(hs.inventory.len(), 2);
    assert_eq!(hs.inventory[0].conf, item::Conf(1));
    assert_eq!(hs.inventory[1].conf, item::Conf(2));
    for it in &hs.inventory {
        assert_eq!(it.owner_id, hs.profile.steader_id);
        assert_eq!(it.ownership_log.len(), 1);
        assert_eq!(it.ownership_log[0].acquisition, Acquisition::Trade);
        assert_eq!(it.ownership_log[0].owner_index, 0);
    }
    assert!(hs.inventory[0].gotchi.is_none());
    let g = hs.inventory[1].gotchi.as_ref().unwrap();
    assert_eq!(g.nickname, "adorpheus");
    assert_eq!(g.item_id, hs.inventory[1].item_id);
    assert_eq!(hs.inventory[1].nickname(&gotchi), "adorpheus");
    assert_eq!(hs.inventory[0].nickname(&egg), "nest egg");
    assert_eq!(hs.land.len(), 1);
    assert!(hs.land[0].plant.is_none());
    assert_eq!(hs.free_tiles().len(), 1);
    assert!(hs.plants().is_empty());
}

#[test]
fn empty_hackstead_has_nothing() {
    let hs = Hackstead::empty(None);
    assert!(hs.profile.slack_id.is_none());
    assert!(hs.land.is_empty() && hs.inventory.is_empty() && hs.timers.is_empty());
    assert_eq!(hs.local_version, 0);
}

#[test]
fn items_are_found_and_taken_by_id() {
    let configs = [item_config("a", 1, false), item_config("b", 2, true), item_config("c", 3, false)];
    let refs: Vec<&item::Config> = configs.iter().collect();
    let mut hs = Hackstead::new_user(None, &refs);
    let ids: Vec<ItemId> = hs.inventory.iter().map(|i| i.item_id).collect();
    assert!(hs.has_item(ids[1]));
    assert_eq!(hs.item(ids[2]).unwrap().conf, item::Conf(3));

    let taken = hs.take_item(ids[0]).unwrap();
    assert_eq!(taken.item_id, ids[0]);
    assert_eq!(hs.inventory.len(), 2);
    // the last item takes the place of the one taken
    assert_eq!(hs.inventory[0].item_id, ids[2]);
    assert_eq!(hs.inventory[1].item_id, ids[1]);
    assert!(!hs.has_item(ids[0]));

    let steader = hs.profile.steader_id;
    assert_eq!(hs.take_item(ids[0]).unwrap_err(), NoSuch::Item(NoSuchItem(steader, ids[0])));
    assert_eq!(hs.item(ids[0]).unwrap_err(), NoSuch::Item(NoSuchItem(steader, ids[0])));
    assert_eq!(hs.inventory.len(), 2);

    hs.item_mut(ids[2]).unwrap().conf = item::Conf(9);
    assert_eq!(hs.inventory[0].conf, item::Conf(9));
}

#[test]
fn gotchis_live_in_items() {
    let cfg = item_config("adorpheus", 2, true);
    let plain = item_config("rock", 3, false);
    let mut hs = Hackstead::new_user(None, &[&cfg, &plain]);
    let steader = hs.profile.steader_id;
    let rock_id = hs.inventory[1].item_id;
    assert_eq!(hs.inventory[0].gotchi().unwrap().nickname, "adorpheus");
    assert_eq!(
        hs.inventory[1].gotchi().unwrap_err(),
        NoSuch::Gotchi(hcor::id::NoSuchGotchiOnItem(steader, rock_id))
    );
    hs.inventory[0].gotchi_mut().unwrap().nickname = "dorph".to_string();
    assert_eq!(hs.inventory[0].nickname(&cfg), "dorph");
}

#[test]
fn plants_are_found_by_tile() {
    let mut hs = Hackstead::new_user(None, &[]);
    let steader = hs.profile.steader_id;
    hs.land.push(Tile::new(steader));
    hs.land.push(Tile::new(steader));
    let tiles: Vec<TileId> = hs.land.iter().map(|t| t.base.tile_id).collect();
    let cfg = plant_config("bractus");
    hs.land[1].plant = Some(Plant::from_conf(steader, tiles[1], plant::Conf(0), &cfg));

    assert_eq!(hs.plants().len(), 1);
    assert_eq!(hs.free_tiles().len(), 2);
    assert_eq!(hs.free_tile().unwrap().base.tile_id, tiles[0]);
    assert!(hs.has_tile(tiles[2]));
    assert!(hs.has_plant(hs.land[1].plant.as_ref().unwrap()));
    let p = hs.plant(tiles[1]).unwrap();
    assert_eq!(p.nickname, "bractus");
    assert_eq!(p.xp, 0);
    assert_eq!(p.tile_id, tiles[1]);
    assert_eq!(p.owner_id, steader);
    assert_eq!(hs.plant(tiles[0]).unwrap_err(), NoSuch::Plant(NoSuchPlantOnTile(steader, tiles[0])));
    let missing = TileId(7);
    assert_eq!(hs.tile(missing).unwrap_err(), NoSuch::Tile(NoSuchTile(steader, missing)));
    assert_eq!(hs.plant(missing).unwrap_err(), NoSuch::Tile(NoSuchTile(steader, missing)));

    hs.plant_mut(tiles[1]).unwrap().xp = 30;
    assert_eq!(hs.plant(tiles[1]).unwrap().xp, 30);
    let taken = hs.take_plant(tiles[1]).unwrap();
    assert_eq!(taken.xp, 30);
    assert!(hs.land[1].plant.is_none());
    assert!(hs.plants().is_empty());
    assert_eq!(hs.take_plant(tiles[1]).unwrap_err(), NoSuch::Plant(NoSuchPlantOnTile(steader, tiles[1])));
}

#[test]
fn land_follows_levels_reached() {
    let config = hcor::hackstead::Config { advancements: vec![level(0, 1), level(100, 2), level(200, 4)] };
    let mut hs = Hackstead::new_user(None, &[]);
    assert_eq!(hs.max_land(&config), 1);
    assert!(!hs.land_unlock_eligible(&config));
    hs.profile.xp = 100;
    assert_eq!(hs.max_land(&config), 3);
    assert!(hs.land_unlock_eligible(&config));
    hs.profile.xp = 299;
    assert_eq!(hs.max_land(&config), 3);
    hs.profile.xp = 300;
    assert_eq!(hs.max_land(&config), 7);
    hs.profile.xp = 0;
    hs.profile.extra_land_plot_count = 1;
    assert!(hs.land_unlock_eligible(&config));
}

#[test]
fn rub_effects_are_found_and_taken_by_id() {
    let steader = hcor::id::SteaderId(1);
    let tile = TileId(2);
    let mut p = Plant::from_conf(steader, tile, plant::Conf(0), &plant_config("bractus"));
    for n in 0..3u128 {
        p.rub_effects.push(RubEffect { effect_id: RubEffectId(10 + n), item_conf: item::Conf(n), effect_conf: 0 });
    }
    assert_eq!(p.rub_effect(RubEffectId(11)).unwrap().item_conf, item::Conf(1));
    assert_eq!(
        p.rub_effect(RubEffectId(99)).unwrap_err(),
        NoSuch::Effect(NoSuchRubEffectOnPlant(steader, tile, RubEffectId(99)))
    );
    p.rub_effect_mut(RubEffectId(12)).unwrap().effect_conf = 4;
    assert_eq!(p.rub_effects[2].effect_conf, 4);
    let taken = p.take_rub_effect(RubEffectId(10)).unwrap();
    assert_eq!(taken.item_conf, item::Conf(0));
    assert_eq!(p.rub_effects.len(), 2);
    assert_eq!(p.rub_effects[0].effect_id, RubEffectId(12));
    assert!(p.take_rub_effect(RubEffectId(10)).is_err());
}

#[test]
fn filters_let_plants_through() {
    let only = Filter::Only(vec![plant::Conf(1), plant::Conf(3)]);
    let not = Filter::Not(vec![plant::Conf(1)]);
    assert!(only.allows(plant::Conf(3)));
    assert!(!only.allows(plant::Conf(2)));
    assert!(!not.allows(plant::Conf(1)));
    assert!(not.allows(plant::Conf(2)));
    assert!(Filter::default().allows(plant::Conf(42)));
    assert!(matches!(plant::RawFilter::default(), plant::RawFilter::All));
}

#[test]
fn item_acquisitions_round_trip_their_numbers() {
    assert_eq!(Acquisition::try_from_usize(0), Some(Acquisition::Trade));
    assert_eq!(Acquisition::try_from_usize(1), Some(Acquisition::Farmed));
    assert_eq!(Acquisition::try_from_usize(2), Some(Acquisition::Crafted));
    assert_eq!(Acquisition::try_from_usize(3), Some(Acquisition::Hatched));
    assert_eq!(Acquisition::try_from_usize(4), None);
    assert_eq!(Acquisition::spawned(), Acquisition::Trade);
}

fn buff_effect(buff: Buff, for_plants: Filter) -> plant::effect::Config {
    plant::effect::Config {
        description: String::new(),
        kind: plant::effect::ConfigKind::Buff(buff),
        for_plants,
        duration: None,
    }
}

#[test]
fn plant_buffs_come_from_items_rubs_and_skills() {
    let mut potion = item_config("potion", 1, false);
    potion.passive_plant_effects = vec![
        buff_effect(Buff::Xp(1), Filter::All),
        buff_effect(Buff::Xp(2), Filter::Not(vec![plant::Conf(0)])),
        plant::effect::Config {
            description: String::new(),
            kind: plant::effect::ConfigKind::Transmogrification(plant::Conf(1)),
            for_plants: Filter::All,
            duration: None,
        },
    ];
    potion.plant_rub_effects = vec![buff_effect(Buff::ExtraTimeTicks(3), Filter::Not(vec![plant::Conf(0)]))];
    let mut items = HashMap::new();
    items.insert(1, potion);
    let config = hcor::config::game::Config {
        plants: HashMap::new(),
        items,
        hackstead: hcor::hackstead::Config { advancements: vec![] },
    };

    let mut hs = Hackstead::empty(None);
    let steader = hs.profile.steader_id;
    hs.inventory.push(hcor::hackstead::Item::from_conf(&config.items[&1], steader, Acquisition::Trade));
    let mut p = Plant::from_conf(steader, TileId(2), plant::Conf(0), &plant_config("bractus"));
    p.rub_effects.push(RubEffect { effect_id: RubEffectId(9), item_conf: item::Conf(1), effect_conf: 0 });
    let grow = Skill {
        title: "Grow".to_string(),
        unlocks: vec![],
        effects: vec![buff_effect(Buff::YieldSpeedMultiplier(4), Filter::All)],
    };
    p.unlocked_skills.push(skill::Conf(plant::Conf(0), 77));

    let buffs = p.buffs(&hs, &config, &[&grow]);
    assert_eq!(buffs.len(), 3);
    assert!(matches!(buffs[0], (Buff::Xp(1), Source::PassiveItemEffect(item::Conf(1)))));
    assert!(matches!(buffs[1], (Buff::ExtraTimeTicks(3), Source::RubbedItemEffect(item::Conf(1)))));
    assert!(matches!(buffs[2], (Buff::YieldSpeedMultiplier(4), Source::SkillUnlock(c)) if c == skill::Conf(plant::Conf(0), 77)));
}

#[test]
fn fresh_tiles_get_random_uuids() {
    let t = Tile::new(hcor::id::SteaderId(9));
    assert_eq!((t.base.tile_id.0 >> 76) & 0xf, 4);
    assert_eq!((t.base.tile_id.0 >> 62) & 0x3, 2);
    let u = Tile::new(hcor::id::SteaderId(9));
    assert_ne!(t.base.tile_id, u.base.tile_id);
}
