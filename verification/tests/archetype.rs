use hcor::archetype::recipe::{repeated, spawned};
use hcor::archetype::check::{check_archetype_name_matches, ArchetypeNameError};
use hcor::archetype::plant_sums::{PlantAdvancementParts, PlantAdvancementSum};
use hcor::archetype::ConfigError;
use hcor::archetype::{
    Advancement, AdvancementSet, Archetype, ArchetypeKind, Config, GotchiArchetype,
    HacksteadAdvancementKind, HacksteadAdvancementSum, KeepsakeArchetype, PlantAdvancementKind,
    PlantArchetype, ProfileArchetype, Recipe, RecipeMakes, SeedArchetype, SpawnRate,
};

fn adv<K>(kind: K, xp: u64, title: &str) -> Advancement<K> {
    Advancement {
        kind,
        xp,
        art: format!("{}.png", title),
        title: title.to_string(),
        description: format!("the {} stage", title),
        achiever_title: format!("{} grower", title),
    }
}

fn rate() -> SpawnRate {
    SpawnRate(0x3f80_0000, (0x3f80_0000, 0x4000_0000))
}

fn bractus() -> PlantArchetype {
    PlantArchetype {
        name: "bractus".to_string(),
        base_yield_duration: None,
        advancements: AdvancementSet {
            base: adv(PlantAdvancementKind::Xp(0x3f80_0000), 0, "Seedling"),
            rest: vec![
                adv(PlantAdvancementKind::Yield(vec![(rate(), "nest egg".to_string())]), 10, "Sprout"),
                adv(
                    PlantAdvancementKind::Craft(vec![Recipe {
                        needs: vec![(1, "nest egg".to_string())],
                        makes: RecipeMakes::Just(1, "bread".to_string()),
                        destroys_plant: false,
                        time: 0x4120_0000,
                    }]),
                    25,
                    "Stalk",
                ),
                adv(PlantAdvancementKind::YieldSpeed(0x3fc0_0000), 40, "Bloom"),
            ],
        },
    }
}

fn keepsake(name: &str) -> Archetype {
    Archetype {
        name: name.to_string(),
        description: format!("a {}", name),
        kind: ArchetypeKind::Keepsake(KeepsakeArchetype {
            unlocks_land: None,
            plant_effects: vec![],
            item_application: None,
        }),
    }
}

fn gotchi(hatches: &str, affects: &str) -> Archetype {
    Archetype {
        name: "adorpheus".to_string(),
        description: "a gotchi".to_string(),
        kind: ArchetypeKind::Gotchi(GotchiArchetype {
            base_happiness: 3,
            plant_effects: vec![(
                affects.to_string(),
                adv(PlantAdvancementKind::Xp(0x3f80_0000), 5, "Happy"),
            )],
            hatch_table: Some(vec![(rate(), hatches.to_string())]),
            welcome_gift: false,
        }),
    }
}

fn seed(grows_into: &str) -> Archetype {
    Archetype {
        name: "bractus seed".to_string(),
        description: "a seed".to_string(),
        kind: ArchetypeKind::Seed(SeedArchetype { grows_into: grows_into.to_string() }),
    }
}

fn land(pieces: u32, xp: u64, title: &str) -> Advancement<HacksteadAdvancementKind> {
    adv(HacksteadAdvancementKind::Land { pieces }, xp, title)
}

fn sample_config() -> Config {
    Config {
        special_users: vec![],
        profile_archetype: ProfileArchetype {
            advancements: AdvancementSet {
                base: land(3, 0, "Homesteader"),
                rest: vec![land(1, 100, "Farmer"), land(2, 200, "Rancher")],
            },
        },
        plant_archetypes: vec![bractus()],
        possession_archetypes: vec![
            keepsake("nest egg"),
            keepsake("bread"),
            seed("bractus"),
            gotchi("nest egg", "bractus"),
        ],
    }
}

fn upgrade_increase_holds(config: &Config) {
    for arch in config.plant_archetypes.iter() {
        let adv = &arch.advancements;
        let last = adv.rest.last().unwrap();
        for xp in 0..last.xp {
            assert!(
                adv.current(xp).xp <= xp,
                "when xp is {} for {} the current advancement has more xp({})",
                xp,
                arch.name,
                adv.current(xp).xp
            );
        }
    }
}

#[test]
fn config_upgrade_increase() {
    upgrade_increase_holds(&sample_config());
}

#[test]
fn test_upgrade_increase() {
    upgrade_increase_holds(&sample_config());
}

#[test]
fn config_archetype_name_matches() {
    check_archetype_name_matches(&sample_config()).unwrap_or_else(|e| panic!("{:?}", e));
}

#[test]
fn test_archetype_name_matches() {
    check_archetype_name_matches(&sample_config()).unwrap_or_else(|e| panic!("{:?}", e));
}

#[test]
fn current_position_follows_running_totals() {
    let set = bractus().advancements;
    assert_eq!(set.current_position(0), 0);
    assert_eq!(set.current_position(9), 0);
    assert_eq!(set.current_position(10), 1);
    assert_eq!(set.current_position(34), 1);
    assert_eq!(set.current_position(35), 2);
    assert_eq!(set.current_position(74), 2);
    assert_eq!(set.current_position(75), 3);
    assert_eq!(set.current_position(u64::MAX), 3);
    assert_eq!(set.current(34).title, "Sprout");
    assert_eq!(set.next(34).unwrap().title, "Stalk");
    assert!(set.next(75).is_none());
    assert_eq!(set.unlocked(35).len(), 3);
    assert_eq!(set.all().len(), 4);
    assert_eq!(set.get(0).unwrap().title, "Seedling");
    assert_eq!(set.get(3).unwrap().title, "Bloom");
    assert!(set.get(4).is_none());
}

#[test]
fn base_with_xp_is_current_below_its_xp() {
    let set = AdvancementSet {
        base: adv(PlantAdvancementKind::Xp(0), 5, "Start"),
        rest: vec![adv(PlantAdvancementKind::Xp(0), 5, "Next")],
    };
    assert_eq!(set.current_position(0), 0);
    assert_eq!(set.current_position(9), 0);
    assert_eq!(set.current_position(10), 1);
}

#[test]
fn position_never_falls_as_xp_grows() {
    let set = bractus().advancements;
    let mut last = 0;
    for xp in 0..200u64 {
        let p = set.current_position(xp);
        assert!(p >= last);
        last = p;
    }
}

#[test]
fn increase_xp_reports_the_advancement_unlocked() {
    let set = bractus().advancements;
    let mut xp = 9u64;
    let unlocked = set.increase_xp(&mut xp, 1);
    assert_eq!(xp, 10);
    assert_eq!(unlocked.unwrap().title, "Sprout");

    let mut xp = 5u64;
    assert!(set.increase_xp(&mut xp, 10).is_none());
    assert_eq!(xp, 15);

    let mut xp = 74u64;
    assert!(set.increase_xp(&mut xp, 1).is_none());
    assert_eq!(xp, 75);
}

#[test]
fn hackstead_sums_add_up_land_and_xp() {
    let config = sample_config();
    let set = &config.profile_archetype.advancements;
    assert_eq!(set.raw_sum(0), HacksteadAdvancementSum { land: 3, xp: 0 });
    assert_eq!(set.raw_sum(150), HacksteadAdvancementSum { land: 4, xp: 100 });
    assert_eq!(set.raw_sum(300), HacksteadAdvancementSum { land: 6, xp: 300 });
    let extra = land(5, 7, "Gift");
    assert_eq!(set.sum(150, &[&extra]), HacksteadAdvancementSum { land: 9, xp: 107 });
    assert_eq!(set.max(&[&extra]), HacksteadAdvancementSum { land: 11, xp: 307 });
    assert_eq!(set.max(&[]), HacksteadAdvancementSum { land: 6, xp: 300 });
}

#[test]
fn finds_first_archetype_with_a_name() {
    let mut config = sample_config();
    config.possession_archetypes.push(keepsake("bread"));
    assert_eq!(config.find_possession_handle("bread").unwrap(), 1);
    assert_eq!(config.find_plant_handle("bractus").unwrap(), 0);
    assert!(config.find_plant_handle("cactus").is_err());
    assert_eq!(config.find_possession("nest egg").unwrap().name, "nest egg");
}

#[test]
fn unknown_seed_target_is_reported() {
    let mut config = sample_config();
    config.possession_archetypes[2] = seed("cactus");
    match check_archetype_name_matches(&config) {
        Err(ArchetypeNameError::SeedGrowsIntoUnknownPlant { seed, plant }) => {
            assert_eq!(seed, "bractus seed");
            assert_eq!(plant, "cactus");
        }
        other => panic!("unexpected {:?}", other),
    }
}

#[test]
fn unknown_hatch_is_reported() {
    let mut config = sample_config();
    config.possession_archetypes[3] = gotchi("golden egg", "bractus");
    match check_archetype_name_matches(&config) {
        Err(ArchetypeNameError::GotchiHatchesIntoUnknownPossession { gotchi, possession }) => {
            assert_eq!(gotchi, "adorpheus");
            assert_eq!(possession, "golden egg");
        }
        other => panic!("unexpected {:?}", other),
    }
}

#[test]
fn unknown_affected_plant_is_reported() {
    let mut config = sample_config();
    config.possession_archetypes[3] = gotchi("nest egg", "cactus");
    match check_archetype_name_matches(&config) {
        Err(ArchetypeNameError::GotchiAffectsUnknownPlant { gotchi, plant }) => {
            assert_eq!(gotchi, "adorpheus");
            assert_eq!(plant, "cactus");
        }
        other => panic!("unexpected {:?}", other),
    }
}

#[test]
fn unknown_yield_is_reported() {
    let mut config = sample_config();
    config.possession_archetypes.remove(0);
    config.possession_archetypes[2] = gotchi("bread", "bractus");
    match check_archetype_name_matches(&config) {
        Err(ArchetypeNameError::YieldIncludesUnknownResource { advancement, plant, resource }) => {
            assert_eq!(advancement, "Sprout");
            assert_eq!(plant, "bractus");
            assert_eq!(resource, "nest egg");
        }
        other => panic!("unexpected {:?}", other),
    }
}

#[test]
fn unknown_craft_output_is_reported() {
    let mut config = sample_config();
    config.possession_archetypes.remove(1);
    match check_archetype_name_matches(&config) {
        Err(ArchetypeNameError::CraftProducesUnknownResource { advancement, plant, resource }) => {
            assert_eq!(advancement, "Stalk");
            assert_eq!(plant, "bractus");
            assert_eq!(resource, "bread");
        }
        other => panic!("unexpected {:?}", other),
    }
}

#[test]
fn unknown_craft_input_is_reported() {
    let mut config = sample_config();
    if let PlantAdvancementKind::Craft(recipes) = &mut config.plant_archetypes[0].advancements.rest[1].kind {
        recipes[0].needs = vec![(2, "flour".to_string())];
    }
    match check_archetype_name_matches(&config) {
        Err(ArchetypeNameError::CraftUsesUnknownResource { advancement, plant, resource, .. }) => {
            assert_eq!(advancement, "Stalk");
            assert_eq!(plant, "bractus");
            assert_eq!(resource, "flour");
        }
        other => panic!("unexpected {:?}", other),
    }
}

#[test]
fn plant_advancement_parts_resolve_names_in_order() {
    let config = sample_config();
    let set = &config.plant_archetypes[0].advancements;
    let all = set.all();
    let parts = PlantAdvancementParts::new(&config, &all);
    assert_eq!(parts.xp, 75);
    assert_eq!(parts.xp_gains, vec![0x3f80_0000]);
    assert_eq!(parts.yield_speed_multipliers, vec![0x3fc0_0000]);
    assert!(parts.yield_size_multipliers.is_empty());
    assert_eq!(parts.yields, vec![(rate(), 0)]);
    assert_eq!(parts.recipes.len(), 1);
    assert_eq!(parts.recipes[0].needs, vec![(1, 0)]);
    assert_eq!(parts.recipes[0].makes, RecipeMakes::Just(1, 1));
    assert_eq!(parts.recipes[0].time, 0x4120_0000);

    let unlocked = set.unlocked(10);
    let parts = PlantAdvancementParts::new(&config, &unlocked);
    assert_eq!(parts.xp, 10);
    assert!(parts.recipes.is_empty());
}

#[test]
fn neighbor_upgrades_act_as_what_they_hold() {
    let config = sample_config();
    let neighbor = adv(
        PlantAdvancementKind::Neighbor(Box::new(PlantAdvancementKind::YieldSize(0x4000_0000))),
        3,
        "Shade",
    );
    assert!(!PlantAdvancementSum::filter_base(&neighbor));
    assert!(PlantAdvancementSum::filter_base(&config.plant_archetypes[0].advancements.base));
    let parts = PlantAdvancementParts::new(&config, &[&neighbor]);
    assert_eq!(parts.yield_size_multipliers, vec![0x4000_0000]);
    assert_eq!(parts.xp, 3);
}

#[test]
fn the_first_unknown_name_stops_the_sum() {
    let mut config = sample_config();
    config.possession_archetypes.remove(1);
    let set = &config.plant_archetypes[0].advancements;
    let all = set.all();
    match PlantAdvancementParts::try_new(&config, &all) {
        Err(ConfigError::UnknownArchetypeName(n)) => assert_eq!(n, "bread"),
        other => panic!("unexpected {:?}", other.map(|p| p.xp)),
    }
}

#[test]
fn rows_repeat_their_handles_by_count() {
    assert_eq!(repeated(&[(2, "egg"), (0, "pie"), (3, "bun")]), vec!["egg", "egg", "bun", "bun", "bun"]);
    assert!(repeated::<u8>(&[]).is_empty());
    let rate = SpawnRate(0x3f80_0000, (0, 0x4000_0000));
    let table = [(rate, 7usize), (rate, 9usize)];
    assert_eq!(spawned(&table, &[1, 2]), vec![7, 9, 9]);
    assert!(spawned(&table, &[0, 0]).is_empty());
}

#[test]
fn found_handles_look_up_to_archetypes_of_the_same_names() {
    let config = sample_config();
    let makes = RecipeMakes::AllOf(vec![(2, "bread".to_string()), (1, "nest egg".to_string())]);
    let handles = makes.find_handles(&config).unwrap();
    match handles.clone().lookup_handles(&config).unwrap() {
        RecipeMakes::AllOf(found) => {
            assert_eq!(found.len(), 2);
            assert_eq!(found[0].0, 2);
            assert_eq!(found[0].1.name, "bread");
            assert_eq!(found[1].0, 1);
            assert_eq!(found[1].1.name, "nest egg");
        }
        _ => panic!("expected AllOf"),
    }
    let one = RecipeMakes::Just(3, "bread".to_string()).find_handles(&config).unwrap();
    match one.lookup_handles(&config).unwrap() {
        RecipeMakes::Just(n, a) => {
            assert_eq!(n, 3);
            assert_eq!(a.name, "bread");
        }
        _ => panic!("expected Just"),
    }
}

#[test]
fn recipe_texts_name_counts_and_emoji() {
    let bread = keepsake("bread");
    let nest = keepsake("nest egg");
    assert_eq!(hcor::frontend::just_text(1, &bread.name), "a :bread: _bread_");
    assert_eq!(hcor::frontend::just_text(12, &nest.name), "*12* :nest_egg: _nest egg_");
    assert_eq!(
        hcor::frontend::all_of_text(&vec![(2, &bread), (30, &nest)]),
        "all of the following:\n*:bread:* bread _2_\n*:nest_egg:* nest egg _30_"
    );
    assert_eq!(hcor::frontend::all_of_text(&vec![]), "all of the following:\n");
}

#[test]
fn leading_rates_are_those_of_rows_that_spawned() {
    let table = vec![
        (SpawnRate(0x3f00_0000, (0, 0)), "egg"),
        (SpawnRate(0x3e80_0000, (0, 0)), "pie"),
        (SpawnRate(0x3f80_0000, (0, 0)), "bun"),
    ];
    assert_eq!(
        hcor::archetype::recipe::leading_rates(&table, &[2, 0, 1]),
        vec![0x3f00_0000, 0x3f80_0000]
    );
    assert!(hcor::archetype::recipe::leading_rates(&table, &[0, 0, 0]).is_empty());
}
