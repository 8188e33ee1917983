use std::collections::HashMap;
use hcor::config::game::Config;
use hcor::hackstead::item::{self, LandUnlock};
use hcor::hackstead::plant::{self, Buff, Filter, Recipe, Skill};
use hcor::hackstead::plant::effect::{self, ConfigKind};
use hcor::config::Evalput;
use hcor::hackstead::plant::buff::chosen_art;

fn item(name: &str, conf: u128, welcome: bool, grows: Option<usize>, land: bool) -> item::Config {
    item::Config {
        name: name.to_string(),
        description: String::new(),
        conf: item::Conf(conf),
        gotchi: None,
        grows_into: grows.map(plant::Conf),
        unlocks_land: if land { Some(LandUnlock { requires_xp: true }) } else { None },
        welcome_gift: welcome,
        passive_plant_effects: vec![],
        plant_rub_effects: vec![],
        hatch_table: None,
    }
}

fn recipe(title: &str) -> Recipe {
    Recipe {
        title: title.to_string(),
        art: item::Conf(1),
        explanation: String::new(),
        destroys_plant: false,
        time: 0x4120_0000,
        needs: vec![(1, item::Conf(1))],
        makes: Evalput::Item(item::Conf(2)),
    }
}

fn effect_with(buff: Buff) -> effect::Config {
    effect::Config {
        description: String::new(),
        kind: ConfigKind::Buff(buff),
        for_plants: Filter::All,
        duration: None,
    }
}

fn config() -> Config {
    let mut items = HashMap::new();
    items.insert(1, item("nest egg", 1, true, None, false));
    items.insert(2, item("bread", 2, false, None, true));
    items.insert(3, item("bractus seed", 3, true, Some(0), false));
    let mut plants = HashMap::new();
    plants.insert(
        0,
        plant::Config {
            name: "bractus".to_string(),
            base_yield_duration: None,
            skillpoint_unlock_xps: vec![],
            skills: vec![
                Skill {
                    title: "Bake".to_string(),
                    unlocks: vec![],
                    effects: vec![
                        effect_with(Buff::Craft(vec![recipe("loaf"), recipe("bun")])),
                        effect_with(Buff::Xp(0x3f80_0000)),
                    ],
                },
                Skill {
                    title: "Transform".to_string(),
                    unlocks: vec![],
                    effects: vec![effect::Config {
                        description: String::new(),
                        kind: ConfigKind::Transmogrification(plant::Conf(0)),
                        for_plants: Filter::All,
                        duration: None,
                    }],
                },
            ],
        },
    );
    Config { plants, items, hackstead: hcor::hackstead::Config { advancements: vec![] } }
}

#[test]
fn items_are_found_by_name() {
    let c = config();
    assert_eq!(c.item_named("bread").unwrap().conf, item::Conf(2));
    assert!(c.item_named("cake").is_none());
}

#[test]
fn welcome_gifts_seeds_and_land_unlockers_are_picked_out() {
    let c = config();
    let mut gifts: Vec<u128> = c.welcome_gifts().iter().map(|i| i.conf.0).collect();
    gifts.sort();
    assert_eq!(gifts, vec![1, 3]);
    let seeds = c.seeds();
    assert_eq!(seeds.len(), 1);
    assert_eq!(seeds[0].0, plant::Conf(0));
    assert_eq!(seeds[0].1.name, "bractus seed");
    let land = c.land_unlockers();
    assert_eq!(land.len(), 1);
    assert!(land[0].0.requires_xp);
    assert_eq!(land[0].1.name, "bread");
}

#[test]
fn recipes_come_from_craft_buffs() {
    let c = config();
    let titles: Vec<&str> = c.recipes().iter().map(|r| r.title.as_str()).collect();
    assert_eq!(titles, vec!["loaf", "bun"]);
    assert_eq!(Buff::Xp(0).recipes().len(), 0);
}

#[test]
fn the_art_of_highest_precedence_wins_and_the_last_of_ties() {
    let a = Buff::Art { file: "a.png".to_string(), precedence: 1 };
    let b = Buff::Art { file: "b.png".to_string(), precedence: 3 };
    let c = Buff::Art { file: "c.png".to_string(), precedence: 3 };
    let d = Buff::Art { file: "d.png".to_string(), precedence: 2 };
    let xp = Buff::Xp(0);
    assert_eq!(chosen_art(&[&a, &b, &xp, &c, &d]).unwrap(), "c.png");
    assert_eq!(chosen_art(&[&d, &a]).unwrap(), "d.png");
    assert!(chosen_art(&[&xp]).is_none());
    assert!(chosen_art(&[]).is_none());
}
