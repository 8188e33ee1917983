use hcor::archetype::Category;
use hcor::archetype::{
    AdvancementSet, Advancement, Archetype, ArchetypeKind, Config, GotchiArchetype,
    HacksteadAdvancementKind, KeepsakeArchetype, ProfileArchetype, SeedArchetype,
};
use hcor::config::{max_level_index, max_level_info};
use hcor::config::evalput::{OneOfChance, Output};
use hcor::config::complex::CompiledOutput;
use hcor::item::{self, Acquisition, ItemBase, LoggedOwner};
use hcor::possess::{self, Gotchi, Keepsake, Owner, Possessed, Possession, Seed};

fn archetype(name: &str, kind: ArchetypeKind) -> Archetype {
    Archetype { name: name.to_string(), description: String::new(), kind }
}

fn config() -> Config {
    let base = Advancement {
        kind: HacksteadAdvancementKind::Land { pieces: 1 },
        xp: 0,
        art: String::new(),
        title: "start".to_string(),
        description: String::new(),
        achiever_title: String::new(),
    };
    Config {
        special_users: vec![],
        profile_archetype: ProfileArchetype { advancements: AdvancementSet { base, rest: vec![] } },
        plant_archetypes: vec![],
        possession_archetypes: vec![
            archetype(
                "adorpheus",
                ArchetypeKind::Gotchi(GotchiArchetype {
                    base_happiness: 1,
                    plant_effects: vec![],
                    hatch_table: None,
                    welcome_gift: true,
                }),
            ),
            archetype("bractus seed", ArchetypeKind::Seed(SeedArchetype { grows_into: "bractus".to_string() })),
            archetype(
                "nest egg",
                ArchetypeKind::Keepsake(KeepsakeArchetype {
                    unlocks_land: None,
                    plant_effects: vec![],
                    item_application: None,
                }),
            ),
        ],
    }
}

#[test]
fn possessions_take_the_kind_of_their_archetype() {
    let config = config();
    let g = Possession::new(&config, 0, Owner::hatcher("U1".to_string()));
    assert_eq!(g.steader, "U1");
    assert_eq!(g.ownership_log.len(), 1);
    assert_eq!(g.ownership_log[0].acquisition, possess::Acquisition::Hatched);
    assert!(g.sale.is_none());
    assert!(g.kind.is_gotchi());
    assert_eq!(g.nickname(&config), "adorpheus");
    assert_eq!(g.kind.gotchi().unwrap().harvest_log[0].id, "U1");

    let s = Possession::new(&config, 1, Owner::farmer("U2".to_string()));
    assert!(s.kind.is_seed());
    assert_eq!(s.kind.seed().unwrap().pedigree[0].id, "U2");
    assert_eq!(s.nickname(&config), "bractus seed");
    assert_eq!(s.archetype(&config).name, "bractus seed");

    let k = Possession::new(&config, 2, Owner::crafter("U3".to_string()));
    assert!(k.kind.is_keepsake());
    assert_eq!(k.ownership_log[0].acquisition, possess::Acquisition::Crafted);
    assert_eq!(possess::Acquisition::spawned(), possess::Acquisition::Trade);
}

#[test]
fn typed_possessions_round_trip() {
    let config = config();
    let g = Possession::new(&config, 0, Owner::hatcher("U1".to_string()));
    let id = g.id;
    let typed: Possessed<Gotchi> = Possessed::from_possession(g.clone()).unwrap();
    assert_eq!(typed.inner.nickname, "adorpheus");
    assert_eq!(typed.archetype(&config).name, "adorpheus");
    assert!(Possessed::<Seed>::from_possession(g).is_none());
    let back = typed.into_possession();
    assert_eq!(back.id, id);
    assert!(back.kind.is_gotchi());
    assert!(Possessed::<Keepsake>::from_possession(back).is_none());
}

#[test]
fn gotchi_and_seed_archetypes_are_found() {
    let config = config();
    let g = Gotchi::new(&config, 0, "U1");
    assert_eq!(g.archetype(&config).base_happiness, 1);
    let s = Seed::new(1, "U2");
    assert_eq!(s.archetype(&config).grows_into, "bractus");
    let s = hcor::item::Seed::new(1, "U3");
    assert_eq!(s.pedigree.len(), 1);
    assert_eq!(s.pedigree[0].id, "U3");
    assert_eq!(s.pedigree[0].generations, 0);
    assert_eq!(s.archetype(&config).grows_into, "bractus");
    let grower = hcor::item::SeedGrower::new("U4".to_string(), 3);
    assert_eq!(grower.generations, 3);
}

#[test]
fn item_store_acquisitions_come_from_their_numbers() {
    assert_eq!(Acquisition::try_from_i32(0), Some(Acquisition::Trade));
    assert_eq!(Acquisition::try_from_i32(1), Some(Acquisition::Farmed));
    assert_eq!(Acquisition::try_from_i32(2), Some(Acquisition::Crafted));
    assert_eq!(Acquisition::try_from_i32(3), Some(Acquisition::Hatched));
    assert_eq!(Acquisition::try_from_i32(4), None);
    assert_eq!(Acquisition::try_from_i32(-1), None);
    assert_eq!(Acquisition::spawned(), Acquisition::Trade);
    assert_eq!(Acquisition::Crafted.name(), "Crafted");
    let log = LoggedOwner { item_id: 1, logged_owner_id: 2, acquisition: Acquisition::Farmed, owner_index: 0 };
    assert_eq!(log.acquisition.name(), "Farmed");
    let base = ItemBase { archetype_handle: 2, item_id: 1, owner_id: 2 };
    assert_eq!(base, item::ItemBase { archetype_handle: 2, item_id: 1, owner_id: 2 });
}

#[test]
fn level_info_spends_xp_level_by_level() {
    let levels = [10usize, 20, 30];
    let info = max_level_info(0, &levels);
    assert_eq!((info.xp_so_far, info.xp_to_go, info.total_level_xp, info.last_unlocked_index), (10, 0, 10, 0));
    let info = max_level_info(15, &levels);
    assert_eq!((info.xp_so_far, info.xp_to_go, info.total_level_xp, info.last_unlocked_index), (15, 5, 20, 1));
    assert_eq!(info.xp_so_far + info.xp_to_go, info.total_level_xp);
    let info = max_level_info(30, &levels);
    assert_eq!(info.last_unlocked_index, 2);
    assert_eq!(info.xp_to_go, 0);
    let info = max_level_info(60, &levels);
    assert_eq!((info.xp_so_far, info.xp_to_go, info.total_level_xp, info.last_unlocked_index), (0, 0, 0, 3));
    assert_eq!(max_level_index(29, &levels), 1);
    assert_eq!(max_level_index(1000, &levels), 3);
    assert_eq!(max_level_index(5, &[]), 0);
}

#[test]
fn outputs_start_empty() {
    let o: Output<u32> = Output::new();
    assert_eq!(o.xp, 0);
    assert!(o.items.is_empty());
    let c: CompiledOutput<u32> = CompiledOutput::new();
    assert_eq!(c.xp, 0);
    assert!(c.items.is_empty());
    assert!(OneOfChance::Rest.is_rest());
    assert_eq!(OneOfChance::Rest.chance(), None);
    assert_eq!(OneOfChance::Chance(0x3fe0_0000_0000_0000).chance(), Some(0x3fe0_0000_0000_0000));
}

#[test]
fn gotchis_have_a_category_of_their_own() {
    let config = config();
    assert_eq!(config.possession_archetypes[0].kind.category(), Category::Gotchi);
    assert_eq!(config.possession_archetypes[1].kind.category(), Category::Misc);
    assert_eq!(config.possession_archetypes[2].kind.category(), Category::Misc);
    assert!(config.possession_archetypes[2].kind.keepsake().is_some());
    assert!(config.possession_archetypes[0].kind.gotchi().is_some());
}

#[test]
fn more_possessions_never_unsatisfy_a_recipe() {
    let config = config();
    let recipe = hcor::archetype::Recipe {
        needs: vec![(2, 2)],
        makes: hcor::archetype::RecipeMakes::Just(1, 0),
        destroys_plant: false,
        time: 0,
    };
    let one = vec![Possession::new(&config, 2, Owner::crafter("U3".to_string()))];
    assert!(!recipe.satisfies(&one));
    let mut two = vec![
        Possession::new(&config, 2, Owner::crafter("U3".to_string())),
        Possession::new(&config, 0, Owner::hatcher("U1".to_string())),
        Possession::new(&config, 2, Owner::crafter("U3".to_string())),
    ];
    assert!(recipe.satisfies(&two));
    two.push(Possession::new(&config, 1, Owner::farmer("U2".to_string())));
    two.push(Possession::new(&config, 2, Owner::crafter("U3".to_string())));
    assert!(recipe.satisfies(&two));
}
