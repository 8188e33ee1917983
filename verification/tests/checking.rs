use hcor::config::evalput::{verify_with, Evalput, OneOfChance, OneOfRow, RawEvalput};
use hcor::config::verify::{FromFile, RawConfig, VerifError, VerifErrorKind, VerifResult};
use hcor::hackstead::plant::effect::{self, ConfigKind};
use hcor::hackstead::plant::skill::{RawCost, RawSkill, RawUnlock, SkillNameOrRawUnlock};
use hcor::hackstead::plant::{self, Buff, Filter, RawBuff, RawFilter, RawRecipe};
use hcor::hackstead::{self, item, ConfigAdvancement};

fn accept_all(_: &RawEvalput) -> VerifResult<()> {
    Ok(())
}

fn refuse_xp(e: &RawEvalput) -> VerifResult<()> {
    match e {
        Evalput::Xp(_) => Err(VerifError::custom("no xp here")),
        _ => Ok(()),
    }
}

fn trail(e: &VerifError) -> Vec<&str> {
    e.source.iter().map(|s| s.as_str()).collect()
}

fn recipe(title: &str, art: &str, need: &str, makes: &str) -> RawRecipe {
    RawRecipe {
        title: title.to_string(),
        art: art.to_string(),
        explanation: "tasty".to_string(),
        destroys_plant: true,
        time: 0x4120_0000,
        needs: vec![(2, need.to_string())],
        makes: Evalput::Item(makes.to_string()),
    }
}

fn effect(description: &str, buff: Option<RawBuff>, transmogrification: Option<&str>) -> effect::RawConfig {
    effect::RawConfig {
        description: description.to_string(),
        buff,
        for_plants: RawFilter::All,
        duration: Some(0x3f80_0000),
        transmogrification: transmogrification.map(|s| s.to_string()),
    }
}

fn skill(title: &str, conf: u128, effects: Vec<effect::RawConfig>, unlocks: &[&str]) -> RawSkill {
    RawSkill {
        title: title.to_string(),
        unlocks: unlocks.iter().map(|s| SkillNameOrRawUnlock::from_skill_name(s)).collect(),
        effects,
        conf,
    }
}

fn plant(name: &str, skills: Vec<RawSkill>) -> FromFile<plant::RawConfig> {
    FromFile::new(
        plant::RawConfig {
            name: name.to_string(),
            skillpoint_unlock_xps: vec![10, 20],
            base_yield_duration: Some(0x4000_0000),
            skills: FromFile::new(skills, format!("{}_skills.yml", name)),
        },
        format!("{}.yml", name),
    )
}

fn item(name: &str, conf: u128) -> FromFile<item::RawConfig> {
    FromFile::new(
        item::RawConfig {
            name: name.to_string(),
            description: format!("a {}", name),
            conf: item::Conf(conf),
            gotchi: None,
            grows_into: None,
            unlocks_land: None,
            welcome_gift: true,
            passive_plant_effects: vec![],
            plant_rub_effects: vec![],
            hatch_table: None,
        },
        "items.yml".to_string(),
    )
}

fn config(plants: Vec<FromFile<plant::RawConfig>>, items: Vec<FromFile<item::RawConfig>>) -> RawConfig {
    RawConfig {
        plants,
        items,
        hackstead: FromFile::new(
            hackstead::Config {
                advancements: vec![ConfigAdvancement {
                    advancement_title: "Start".to_string(),
                    description: "a plot".to_string(),
                    achiever_title: "Newbie".to_string(),
                    xp: 0,
                    land_pieces: 1,
                }],
            },
            "hackstead.yml".to_string(),
        ),
    }
}

fn small_config() -> RawConfig {
    config(
        vec![
            plant("bractus", vec![skill("Grow", 1, vec![], &["Bloom"]), skill("Bloom", 2, vec![], &[])]),
            plant("coffea", vec![]),
        ],
        vec![item("bread", 6), item("nest egg", 5), item("cake", 7)],
    )
}

#[test]
fn recipes_resolve_what_they_need_and_make() {
    let raw = small_config();
    let r = recipe("Bake", "cake", "bread", "nest egg").verify_with(&raw, &accept_all).unwrap();
    assert_eq!(r.title, "Bake");
    assert_eq!(r.art, item::Conf(7));
    assert_eq!(r.needs, vec![(2, item::Conf(6))]);
    assert!(r.destroys_plant);
    assert_eq!(r.time, 0x4120_0000);
    assert!(matches!(r.makes, Evalput::Item(item::Conf(5))));
}

#[test]
fn recipe_errors_say_where_they_were_found() {
    let raw = small_config();
    let e = recipe("Bake", "cake", "flour", "nest egg").verify_with(&raw, &accept_all).unwrap_err();
    assert!(matches!(&e.kind, VerifErrorKind::UnknownItem(n) if n == "flour"));
    assert_eq!(trail(&e), vec!["in what the recipe needs", "in a recipe named \"Bake\""]);

    let e = recipe("Bake", "pie", "bread", "nest egg").verify_with(&raw, &accept_all).unwrap_err();
    assert!(matches!(&e.kind, VerifErrorKind::UnknownItem(n) if n == "pie"));
    assert_eq!(trail(&e), vec!["in the art field", "in a recipe named \"Bake\""]);

    let e = recipe("Bake", "cake", "bread", "pie").verify_with(&raw, &accept_all).unwrap_err();
    assert_eq!(
        trail(&e),
        vec!["in an evalput's Item node", "in what the recipe makes", "in a recipe named \"Bake\""]
    );
}

#[test]
fn buff_notes_name_their_kind() {
    assert_eq!(RawBuff::ExtraTimeTicks(3).context(), "in an extra time ticks buff");
    assert_eq!(RawBuff::Xp(0).context(), "in a xp buff");
    assert_eq!(RawBuff::YieldSizeMultiplier(0).context(), "in a yield size multipler buff");
    assert_eq!(RawBuff::CraftOutputDoubleChance(0).context(), "in a craft otuput double chance buff");
    assert_eq!(
        RawBuff::Art { file: "a.png".to_string(), precedence: 1 }.context(),
        "in an art buff"
    );
    assert_eq!(RawBuff::Neighbor(Box::new(RawBuff::Xp(0))).context(), "in a neighbor buff");
}

#[test]
fn buffs_keep_their_values_and_check_what_they_hold() {
    let raw = small_config();
    match RawBuff::Neighbor(Box::new(RawBuff::Xp(0x3f00_0000))).verify_with(&raw, &accept_all).unwrap() {
        Buff::Neighbor(b) => assert!(matches!(*b, Buff::Xp(0x3f00_0000))),
        other => panic!("unexpected {:?}", other),
    }
    match RawBuff::Craft(vec![recipe("Bake", "cake", "bread", "nest egg")]).verify_with(&raw, &accept_all).unwrap() {
        Buff::Craft(rs) => assert_eq!(rs[0].art, item::Conf(7)),
        other => panic!("unexpected {:?}", other),
    }

    let nested = RawBuff::Neighbor(Box::new(RawBuff::Craft(vec![
        recipe("Bake", "cake", "bread", "nest egg"),
        recipe("Brew", "cake", "tea", "nest egg"),
    ])));
    let e = nested.verify_with(&raw, &accept_all).unwrap_err();
    assert!(matches!(&e.kind, VerifErrorKind::UnknownItem(n) if n == "tea"));
    assert_eq!(
        trail(&e),
        vec!["in what the recipe needs", "in a recipe named \"Brew\"", "in a craft buff", "in a neighbor buff"]
    );

    let e = RawBuff::Yield(Evalput::Xp(hcor::config::evalput::Repeats::Exactly(1)))
        .verify_with(&raw, &refuse_xp)
        .unwrap_err();
    assert_eq!(trail(&e), vec!["in an evalput's Xp node", "in a yield buff"]);
}

#[test]
fn effect_notes_show_the_start_of_the_description() {
    assert_eq!(effect("short", None, None).context(), "in an effect described \"short...\"");
    assert_eq!(
        effect("a description longer than twenty bytes", None, None).context(),
        "in an effect described \"a description longer...\""
    );
    // Ten two-byte characters fill the twenty bytes exactly.
    assert_eq!(
        effect("éééééééééééé", None, None).context(),
        "in an effect described \"éééééééééé...\""
    );
}

#[test]
fn effects_either_buff_or_transmogrify() {
    let raw = small_config();
    let c = effect("grows faster", Some(RawBuff::ExtraTimeTicks(4)), None).verify_with(&raw, &accept_all).unwrap();
    assert!(matches!(c.kind, ConfigKind::Buff(Buff::ExtraTimeTicks(4))));
    assert_eq!(c.description, "grows faster");
    assert_eq!(c.duration, Some(0x3f80_0000));
    assert!(matches!(c.for_plants, Filter::All));

    let c = effect("turns to coffee", None, Some("coffea")).verify_with(&raw, &accept_all).unwrap();
    assert!(matches!(c.kind, ConfigKind::Transmogrification(plant::Conf(1))));

    let e = effect("nothing at all", None, None).verify_with(&raw, &accept_all).unwrap_err();
    assert!(matches!(&e.kind, VerifErrorKind::Custom(s) if s == "an effect should either transmog OR buff"));
    assert_eq!(trail(&e), vec!["in an effect described \"nothing at all...\""]);

    let e = effect("both", Some(RawBuff::Xp(0)), Some("coffea")).verify_with(&raw, &accept_all).unwrap_err();
    assert!(matches!(&e.kind, VerifErrorKind::Custom(s) if s == "a single effect should not transmog AND buff"));

    let e = effect("to cactus", Some(RawBuff::Xp(0)), Some("cactus")).verify_with(&raw, &accept_all).unwrap_err();
    assert!(matches!(&e.kind, VerifErrorKind::UnknownPlant(n) if n == "cactus"));
    assert_eq!(trail(&e), vec!["in the transmogrification field", "in an effect described \"to cactus...\""]);

    let mut picky = effect("only aloe", Some(RawBuff::Xp(0)), None);
    picky.for_plants = RawFilter::Only(vec!["aloe".to_string()]);
    let e = picky.verify_with(&raw, &accept_all).unwrap_err();
    assert!(matches!(&e.kind, VerifErrorKind::UnknownPlant(n) if n == "aloe"));
    assert_eq!(trail(&e), vec!["in a only filter", "in an effect described \"only aloe...\""]);
}

#[test]
fn skills_check_their_effects_then_their_unlocks() {
    let raw = small_config();
    let s = skill("Grow", 1, vec![effect("x", Some(RawBuff::Xp(1)), None)], &["Bloom", "Grow"])
        .verify_with(plant::Conf(0), &raw, &accept_all)
        .unwrap();
    assert_eq!(s.title, "Grow");
    assert_eq!(s.effects.len(), 1);
    assert_eq!(s.unlocks.len(), 2);
    assert_eq!(s.unlocks[1].index, 1);
    assert_eq!(s.unlocks[0].skill, hcor::hackstead::plant::skill::Conf(plant::Conf(0), 2));

    let e = skill("Grow", 1, vec![], &["Bloom", "Wilt"]).verify_with(plant::Conf(0), &raw, &accept_all).unwrap_err();
    assert!(matches!(&e.kind, VerifErrorKind::UnknownPlantSkill(c, n) if *c == plant::Conf(0) && n == "Wilt"));
    assert_eq!(trail(&e), vec!["in an unlock for Wilt", "in a skill titled Grow"]);

    let mut costly = skill("Grow", 1, vec![], &[]);
    costly.unlocks.push(SkillNameOrRawUnlock(RawUnlock {
        skill: "Bloom".to_string(),
        costs: RawCost { points: 1, items: vec![(1, "pie".to_string())], skills: vec![] },
        hide_until: RawCost::empty(),
    }));
    let e = costly.verify_with(plant::Conf(0), &raw, &accept_all).unwrap_err();
    assert!(matches!(&e.kind, VerifErrorKind::UnknownItem(n) if n == "pie"));
    assert_eq!(
        trail(&e),
        vec!["in one of an unlock's costs", "in an unlock for Bloom", "in a skill titled Grow"]
    );
}

#[test]
fn plants_and_items_check_their_parts() {
    let raw = small_config();
    let p = raw.plants[0].inner.verify_with(&raw, &accept_all).unwrap();
    assert_eq!(p.name, "bractus");
    assert_eq!(p.skillpoint_unlock_xps, vec![10, 20]);
    assert_eq!(p.base_yield_duration, Some(0x4000_0000));
    assert_eq!(p.skills.len(), 2);

    let stray = plant("aloe", vec![]);
    let e = stray.inner.verify_with(&raw, &accept_all).unwrap_err();
    assert!(matches!(&e.kind, VerifErrorKind::UnknownPlant(n) if n == "aloe"));
    assert_eq!(trail(&e), vec!["in a plant named aloe"]);

    let broken = plant("bractus", vec![skill("Grow", 1, vec![], &["Wilt"])]);
    let e = broken.inner.verify_with(&raw, &accept_all).unwrap_err();
    assert_eq!(
        trail(&e),
        vec!["in an unlock for Wilt", "in a skill titled Grow", "from a file bractus_skills.yml", "in a plant named bractus"]
    );

    let mut seed = item("seed", 9).inner;
    seed.grows_into = Some("coffea".to_string());
    seed.hatch_table = Some(Evalput::Item("bread".to_string()));
    seed.plant_rub_effects = vec![effect("speedy", Some(RawBuff::Xp(2)), None)];
    let i = seed.verify_with(&raw, &accept_all).unwrap();
    assert_eq!(i.grows_into, Some(plant::Conf(1)));
    assert!(matches!(i.hatch_table, Some(Evalput::Item(item::Conf(6)))));
    assert_eq!(i.plant_rub_effects.len(), 1);
    assert_eq!(i.description, "a seed");
    assert!(i.welcome_gift);

    seed.grows_into = Some("cactus".to_string());
    let e = seed.verify_with(&raw, &accept_all).unwrap_err();
    assert!(matches!(&e.kind, VerifErrorKind::UnknownPlant(n) if n == "cactus"));
    assert_eq!(trail(&e), vec!["in the item named seed"]);
}

#[test]
fn whole_configs_key_plants_by_place_and_items_by_conf() {
    let mut raw = small_config();
    raw.items.push(item("brioche", 6));
    let c = raw.verify_with(&accept_all).unwrap();
    assert_eq!(c.plants.len(), 2);
    assert_eq!(c.plants[&0].name, "bractus");
    assert_eq!(c.plants[&1].name, "coffea");
    assert_eq!(c.items.len(), 3);
    assert_eq!(c.items[&6].name, "brioche");
    assert_eq!(c.items[&5].name, "nest egg");
    assert_eq!(c.hackstead.advancements.len(), 1);
    assert_eq!(c.hackstead.advancements[0].achiever_title, "Newbie");

    let mut broken = small_config();
    broken.items[1].inner.hatch_table = Some(Evalput::Item("pie".to_string()));
    let e = broken.verify_with(&accept_all).unwrap_err();
    assert!(matches!(&e.kind, VerifErrorKind::UnknownItem(n) if n == "pie"));
    assert_eq!(
        trail(&e),
        vec!["in an evalput's Item node", "in the item named nest egg", "from a file items.yml"]
    );

    let mut broken = small_config();
    broken.plants[1].inner.skills.inner.push(skill("Brew", 3, vec![], &["Roast"]));
    let e = broken.verify_with(&accept_all).unwrap_err();
    assert_eq!(
        trail(&e),
        vec![
            "in an unlock for Roast",
            "in a skill titled Brew",
            "from a file coffea_skills.yml",
            "in a plant named coffea",
            "from a file coffea.yml"
        ]
    );
}

// The `f64` checks of a `OneOf` node, as the application makes them: the
// chances must add up to one.
fn one_of_chances_add_up(e: &RawEvalput) -> VerifResult<()> {
    match e {
        Evalput::OneOf(rows) => {
            let sum: f64 = rows.iter().filter_map(|r| r.0.chance()).map(f64::from_bits).sum();
            if sum == 1.0 {
                Ok(())
            } else {
                Err(VerifError::custom("OneOf chances must add up to 1.0 or contain Rest"))
            }
        }
        _ => Ok(()),
    }
}

fn pig_row(chance: f64) -> OneOfRow<String> {
    OneOfRow(OneOfChance::Chance(chance.to_bits()), Evalput::Item("pig".to_string()))
}

#[test]
fn test_one_of_verification() {
    let raw = config(vec![], vec![item("pig", 7)]);
    let lonely: RawEvalput = Evalput::OneOf(vec![pig_row(0.1)]);
    assert!(verify_with(&lonely, &raw, &one_of_chances_add_up).is_err());
    let halves: RawEvalput = Evalput::OneOf(vec![pig_row(0.5), pig_row(0.5)]);
    assert!(verify_with(&halves, &raw, &one_of_chances_add_up).is_ok());
}

// A check that refuses chances above one, as the application's does.
fn chances_at_most_one(e: &RawEvalput) -> VerifResult<()> {
    match e {
        Evalput::Chance(c, _) if f64::from_bits(*c) > 1.0 => {
            Err(VerifError::custom("It's impossible to have a greater than 100% chance like this."))
        }
        _ => Ok(()),
    }
}

#[test]
fn a_refused_node_fails_with_the_check_error_and_its_path() {
    let raw = config(vec![], vec![item("pig", 7)]);
    let fine: RawEvalput = Evalput::All(vec![
        Evalput::Item("pig".to_string()),
        Evalput::Chance(0.5f64.to_bits(), Box::new(Evalput::Item("pig".to_string()))),
    ]);
    assert!(verify_with(&fine, &raw, &chances_at_most_one).is_ok());
    let bad: RawEvalput = Evalput::All(vec![
        Evalput::Item("pig".to_string()),
        Evalput::Chance(1.5f64.to_bits(), Box::new(Evalput::Item("cow".to_string()))),
    ]);
    let e = verify_with(&bad, &raw, &chances_at_most_one).unwrap_err();
    assert!(matches!(&e.kind, VerifErrorKind::Custom(m) if m == "It's impossible to have a greater than 100% chance like this."));
    assert_eq!(e.source, vec!["in an evalput's Chance node".to_string(), "in an evalput's All node".to_string()]);
}
