use hcor::config::evalput::{verify_with, Evalput, OneOfChance, OneOfRow, RawEvalput, Repeats};
use hcor::config::verify::{FromFile, RawConfig, VerifError, VerifErrorKind, VerifNote, VerifResult, Verify};
use hcor::hackstead::plant::skill::{self, RawCost, RawSkill, RawUnlock, RawUnlockVerifyWrapper, SkillNameOrRawUnlock};
use hcor::hackstead::plant::{self, Filter, RawFilter};
use hcor::hackstead::{self, item};

fn raw_skill(title: &str, conf: u128) -> RawSkill {
    RawSkill { title: title.to_string(), unlocks: vec![], effects: vec![], conf }
}

fn raw_plant(name: &str, skills: Vec<RawSkill>) -> FromFile<plant::RawConfig> {
    FromFile::new(
        plant::RawConfig {
            name: name.to_string(),
            skillpoint_unlock_xps: vec![],
            base_yield_duration: None,
            skills: FromFile::new(skills, format!("{}_skills.yml", name)),
        },
        format!("{}.yml", name),
    )
}

fn raw_item(name: &str, conf: u128) -> FromFile<item::RawConfig> {
    FromFile::new(
        item::RawConfig {
            name: name.to_string(),
            description: String::new(),
            conf: item::Conf(conf),
            gotchi: None,
            grows_into: None,
            unlocks_land: None,
            welcome_gift: false,
            passive_plant_effects: vec![],
            plant_rub_effects: vec![],
            hatch_table: None,
        },
        "items.yml".to_string(),
    )
}

fn raw_config() -> RawConfig {
    RawConfig {
        plants: vec![
            raw_plant("bractus", vec![raw_skill("Grow", 1), raw_skill("Bloom", 2)]),
            raw_plant("coffea", vec![raw_skill("Brew", 3)]),
            raw_plant("bractus", vec![]),
        ],
        items: vec![raw_item("nest egg", 5), raw_item("bread", 6), raw_item("nest egg", 7)],
        hackstead: FromFile::new(hackstead::Config { advancements: vec![] }, "hackstead.yml".to_string()),
    }
}

fn names(ns: &[&str]) -> Vec<String> {
    ns.iter().map(|s| s.to_string()).collect()
}

fn trail(e: &VerifError) -> Vec<&str> {
    e.source.iter().map(|s| s.as_str()).collect()
}

#[test]
fn names_resolve_to_their_first_definition() {
    let raw = raw_config();
    assert_eq!(raw.item_conf("nest egg").unwrap(), item::Conf(5));
    assert_eq!(raw.item_conf("bread").unwrap(), item::Conf(6));
    assert_eq!(raw.plant_conf("bractus").unwrap(), plant::Conf(0));
    assert_eq!(raw.plant_conf("coffea").unwrap(), plant::Conf(1));
    assert_eq!(raw.plant(plant::Conf(1)).name, "coffea");
    assert_eq!(raw.plant_skill_conf(plant::Conf(0), "Bloom").unwrap(), skill::Conf(plant::Conf(0), 2));
    assert_eq!(raw.plant_skill_conf(plant::Conf(1), "Brew").unwrap(), skill::Conf(plant::Conf(1), 3));
}

#[test]
fn unknown_names_are_errors() {
    let raw = raw_config();
    let e = raw.item_conf("cake").unwrap_err();
    assert!(matches!(&e.kind, VerifErrorKind::UnknownItem(n) if n == "cake"));
    assert!(e.source.is_empty());
    let e = raw.plant_conf("cactus").unwrap_err();
    assert!(matches!(&e.kind, VerifErrorKind::UnknownPlant(n) if n == "cactus"));
    let e = raw.plant_skill_conf(plant::Conf(1), "Grow").unwrap_err();
    assert!(matches!(&e.kind, VerifErrorKind::UnknownPlantSkill(c, n) if *c == plant::Conf(1) && n == "Grow"));
}

#[test]
fn notes_pile_up_on_errors_only() {
    let ok: Result<u8, VerifError> = Ok(3);
    assert_eq!(ok.note("in a thing").unwrap(), 3);
    let err: Result<u8, VerifError> = Err(VerifError::custom("broken"));
    let e = err.note("in a thing").note("in a file").unwrap_err();
    assert!(matches!(&e.kind, VerifErrorKind::Custom(s) if s == "broken"));
    assert_eq!(trail(&e), vec!["in a thing", "in a file"]);
}

#[test]
fn files_keep_their_name_through_map() {
    let f = FromFile::new(4u32, "four.yml".to_string());
    assert_eq!(*f, 4);
    let g = f.map(|x| x * 2);
    assert_eq!(g.inner, 8);
    assert_eq!(g.file, "four.yml");
}

#[test]
fn filters_resolve_plant_names() {
    let raw = raw_config();
    match RawFilter::Only(names(&["coffea", "bractus"])).verify(&raw).unwrap() {
        Filter::Only(cs) => assert_eq!(cs, vec![plant::Conf(1), plant::Conf(0)]),
        other => panic!("unexpected {:?}", other),
    }
    match RawFilter::Not(names(&["coffea"])).verify(&raw).unwrap() {
        Filter::Not(cs) => assert_eq!(cs, vec![plant::Conf(1)]),
        other => panic!("unexpected {:?}", other),
    }
    assert!(matches!(RawFilter::All.verify(&raw).unwrap(), Filter::All));

    let e = RawFilter::Not(names(&["coffea", "cactus", "aloe"])).verify(&raw).unwrap_err();
    assert!(matches!(&e.kind, VerifErrorKind::UnknownPlant(n) if n == "cactus"));
    assert_eq!(trail(&e), vec!["in a not filter"]);
}

#[test]
fn lists_stop_at_the_first_error() {
    let raw = raw_config();
    let filters = vec![
        RawFilter::All,
        RawFilter::Only(names(&["aloe"])),
        RawFilter::Only(names(&["cactus"])),
    ];
    let e = FromFile::new(filters, "effects.yml".to_string()).verify(&raw).unwrap_err();
    assert!(matches!(&e.kind, VerifErrorKind::UnknownPlant(n) if n == "aloe"));
    assert_eq!(trail(&e), vec!["in a only filter", "from a file effects.yml"]);

    let fine = vec![RawFilter::All, RawFilter::Only(names(&["bractus"]))];
    assert_eq!(fine.verify(&raw).unwrap().len(), 2);
    assert!(None::<RawFilter>.verify(&raw).unwrap().is_none());
    assert!(Some(RawFilter::All).verify(&raw).unwrap().is_some());
}

fn cost(points: usize, items: &[(usize, &str)], skills: &[&str]) -> RawCost {
    RawCost {
        points,
        items: items.iter().map(|(n, s)| (*n, s.to_string())).collect(),
        skills: names(skills),
    }
}

#[test]
fn costs_resolve_skills_then_items() {
    let raw = raw_config();
    let c = (plant::Conf(0), cost(2, &[(3, "bread")], &["Bloom"])).verify(&raw).unwrap();
    assert_eq!(c.points, 2);
    assert_eq!(c.items, vec![(3, item::Conf(6))]);
    assert_eq!(c.skills, vec![skill::Conf(plant::Conf(0), 2)]);

    let e = (plant::Conf(0), cost(1, &[(1, "cake")], &["Wilt"])).verify(&raw).unwrap_err();
    assert!(matches!(&e.kind, VerifErrorKind::UnknownPlantSkill(_, n) if n == "Wilt"));
    assert_eq!(trail(&e), vec!["in one of an unlock's costs"]);

    let e = (plant::Conf(0), cost(1, &[(1, "cake")], &["Grow"])).verify(&raw).unwrap_err();
    assert!(matches!(&e.kind, VerifErrorKind::UnknownItem(n) if n == "cake"));
}

fn unlock(skill_name: &str, costs: RawCost, hide_until: RawCost) -> RawUnlockVerifyWrapper {
    RawUnlockVerifyWrapper {
        inner: RawUnlock { skill: skill_name.to_string(), costs, hide_until },
        source_skill: skill::Conf(plant::Conf(0), 1),
        plant_conf: plant::Conf(0),
        index: 4,
    }
}

#[test]
fn unlocks_resolve_their_skill_and_costs() {
    let raw = raw_config();
    let u = unlock("Bloom", RawCost::points(1), RawCost::empty()).verify(&raw).unwrap();
    assert_eq!(u.skill, skill::Conf(plant::Conf(0), 2));
    assert_eq!(u.source_skill, skill::Conf(plant::Conf(0), 1));
    assert_eq!(u.index, 4);
    assert_eq!(u.costs.points, 1);
    assert_eq!(u.hide_until.points, 0);

    let e = unlock("Wilt", RawCost::points(1), RawCost::empty()).verify(&raw).unwrap_err();
    assert!(matches!(&e.kind, VerifErrorKind::UnknownPlantSkill(_, n) if n == "Wilt"));
    assert_eq!(trail(&e), vec!["in an unlock for Wilt"]);

    let e = unlock("Bloom", cost(1, &[(1, "cake")], &[]), cost(0, &[], &["Wilt"]))
        .verify(&raw)
        .unwrap_err();
    assert!(matches!(&e.kind, VerifErrorKind::UnknownPlantSkill(_, n) if n == "Wilt"));
    assert_eq!(trail(&e), vec!["in one of an unlock's costs", "in an unlock for Bloom"]);

    let e = unlock("Bloom", cost(1, &[(1, "cake")], &[]), RawCost::empty()).verify(&raw).unwrap_err();
    assert!(matches!(&e.kind, VerifErrorKind::UnknownItem(n) if n == "cake"));
}

#[test]
fn bare_skill_names_cost_one_point() {
    let u = SkillNameOrRawUnlock::from_skill_name("Grow");
    assert_eq!(u.0.skill, "Grow");
    assert_eq!(u.0.costs.points, 1);
    assert!(u.0.costs.items.is_empty() && u.0.costs.skills.is_empty());
    assert_eq!(u.0.hide_until.points, 0);
}

fn accept_all(_: &RawEvalput) -> VerifResult<()> {
    Ok(())
}

fn refuse_xp(e: &RawEvalput) -> VerifResult<()> {
    match e {
        Evalput::Xp(_) => Err(VerifError::custom("no xp here")),
        _ => Ok(()),
    }
}

fn evalput(item: &str) -> RawEvalput {
    Evalput::All(vec![
        Evalput::Item("bread".to_string()),
        Evalput::OneOf(vec![
            OneOfRow(OneOfChance::Chance(0x3fe0_0000_0000_0000), Evalput::Xp(Repeats::Exactly(2))),
            OneOfRow(OneOfChance::Rest, Evalput::Item(item.to_string())),
        ]),
    ])
}

#[test]
fn evalputs_resolve_their_items_node_by_node() {
    let raw = raw_config();
    match verify_with(&evalput("nest egg"), &raw, &accept_all).unwrap() {
        Evalput::All(xs) => {
            assert!(matches!(xs[0], Evalput::Item(item::Conf(6))));
            match &xs[1] {
                Evalput::OneOf(rows) => {
                    assert_eq!(rows[0].0, OneOfChance::Chance(0x3fe0_0000_0000_0000));
                    assert!(matches!(rows[1].1, Evalput::Item(item::Conf(5))));
                }
                other => panic!("unexpected {:?}", other),
            }
        }
        other => panic!("unexpected {:?}", other),
    }

    let e = verify_with(&evalput("cake"), &raw, &accept_all).unwrap_err();
    assert!(matches!(&e.kind, VerifErrorKind::UnknownItem(n) if n == "cake"));
    assert_eq!(
        trail(&e),
        vec!["in an evalput's Item node", "in an evalput's OneOf node", "in an evalput's All node"]
    );

    let e = verify_with(&evalput("nest egg"), &raw, &refuse_xp).unwrap_err();
    assert!(matches!(&e.kind, VerifErrorKind::Custom(s) if s == "no xp here"));
    assert_eq!(
        trail(&e),
        vec!["in an evalput's Xp node", "in an evalput's OneOf node", "in an evalput's All node"]
    );

    let single = Evalput::OneOf(vec![OneOfRow(OneOfChance::Rest, Evalput::Nothing)]);
    let e = verify_with(&single, &raw, &accept_all).unwrap_err();
    assert!(matches!(&e.kind, VerifErrorKind::Custom(s) if s.contains("only one option")));
    assert_eq!(trail(&e), vec!["in an evalput's OneOf node"]);
}
