use hcor::hackstead::item::{self, Acquisition, Gotchi};
use hcor::hackstead::plant::{self, skill, RubEffect};
use hcor::hackstead::{Hackstead, Item, Plant};
use hcor::id::{ItemId, SteaderId, TileId};
use hcor::wormhole::{Ask, AskedNote, ItemAsk, PlantAsk};

fn a_plant() -> Plant {
    let cfg = plant::Config {
        name: "bractus".to_string(),
        base_yield_duration: None,
        skillpoint_unlock_xps: vec![],
        skills: vec![],
    };
    Plant::from_conf(SteaderId(1), TileId(5), plant::Conf(0), &cfg)
}

fn an_item() -> Item {
    let cfg = item::Config {
        name: "egg".to_string(),
        description: String::new(),
        conf: item::Conf(3),
        gotchi: None,
        grows_into: None,
        unlocks_land: None,
        welcome_gift: false,
        passive_plant_effects: vec![],
        plant_rub_effects: vec![],
        hatch_table: None,
    };
    Item::from_conf(&cfg, SteaderId(1), Acquisition::Trade)
}

#[test]
fn item_asks_name_the_item() {
    let it = an_item();
    assert!(matches!(it.redeem_for_tile_ask(), Ask::TileSummon { tile_redeemable_item_id } if tile_redeemable_item_id == it.item_id));
    assert!(matches!(it.hatch_ask(), Ask::Item(ItemAsk::Hatch { hatchable_item_id }) if hatchable_item_id == it.item_id));
    match it.throw_at_ask(SteaderId(9)) {
        Ask::Item(ItemAsk::Throw { receiver_id, item_ids }) => {
            assert_eq!(receiver_id, SteaderId(9));
            assert_eq!(item_ids, vec![it.item_id]);
        }
        other => panic!("unexpected {:?}", other),
    }
}

#[test]
fn hackstead_asks_carry_their_arguments() {
    let hs = Hackstead::empty(None);
    match hs.throw_items_ask(SteaderId(4), &[ItemId(1), ItemId(2), ItemId(3)]) {
        Ask::Item(ItemAsk::Throw { receiver_id, item_ids }) => {
            assert_eq!(receiver_id, SteaderId(4));
            assert_eq!(item_ids, vec![ItemId(1), ItemId(2), ItemId(3)]);
        }
        other => panic!("unexpected {:?}", other),
    }
    assert!(matches!(
        hs.spawn_items_ask(item::Conf(7), 2),
        Ask::Item(ItemAsk::Spawn { item_conf: item::Conf(7), amount: 2 })
    ));
    assert!(matches!(hs.knowledge_snort_ask(40), Ask::KnowledgeSnort { xp: 40 }));
    assert!(matches!(
        hs.unlock_tile_with_ask(ItemId(8)),
        Ask::TileSummon { tile_redeemable_item_id: ItemId(8) }
    ));
}

#[test]
fn plant_and_gotchi_asks_name_their_tile_or_item() {
    let p = a_plant();
    assert!(matches!(p.slaughter_ask(), Ask::Plant(PlantAsk::Slaughter { tile_id: TileId(5) })));
    assert!(matches!(
        p.rub_with_ask(ItemId(6)),
        Ask::Plant(PlantAsk::Rub { tile_id: TileId(5), rub_item_id: ItemId(6) })
    ));
    match p.rename_ask("Bob".to_string()) {
        Ask::Plant(PlantAsk::Nickname { tile_id, new_name }) => {
            assert_eq!(tile_id, TileId(5));
            assert_eq!(new_name, "Bob");
        }
        other => panic!("unexpected {:?}", other),
    }
    let g = Gotchi { nickname: "adorpheus".to_string(), item_id: ItemId(2) };
    match g.rename_ask("dorp".to_string()) {
        Ask::Item(ItemAsk::GotchiNickname { item_id, new_name }) => {
            assert_eq!(item_id, ItemId(2));
            assert_eq!(new_name, "dorp");
        }
        other => panic!("unexpected {:?}", other),
    }
    let u = skill::Unlock {
        skill: skill::Conf(plant::Conf(0), 1),
        hide_until: skill::Cost { points: 0, items: vec![], skills: vec![] },
        costs: skill::Cost { points: 1, items: vec![], skills: vec![] },
        source_skill: skill::Conf(plant::Conf(0), 2),
        index: 3,
    };
    match u.unlock_for_ask(&p) {
        Ask::Plant(PlantAsk::SkillUnlock { tile_id, source_skill_conf, unlock_index }) => {
            assert_eq!(tile_id, TileId(5));
            assert_eq!(source_skill_conf, skill::Conf(plant::Conf(0), 2));
            assert_eq!(unlock_index, 3);
        }
        other => panic!("unexpected {:?}", other),
    }
}

#[test]
fn each_ask_is_answered_by_its_own_kind_of_note() {
    let p = a_plant();
    let thrown = AskedNote::ItemThrowResult(Ok(vec![]));
    let renamed = AskedNote::PlantNicknameResult(Ok("Bob".to_string()));
    let rubbed: AskedNote = AskedNote::PlantRubStartResult(Ok(Vec::<RubEffect>::new()));
    assert!(an_item().throw_at_ask(SteaderId(1)).answered_by(&thrown));
    assert!(!an_item().throw_at_ask(SteaderId(1)).answered_by(&renamed));
    assert!(p.rename_ask("Bob".to_string()).answered_by(&renamed));
    assert!(p.rub_with_ask(ItemId(1)).answered_by(&rubbed));
    assert!(!p.slaughter_ask().answered_by(&rubbed));
    assert!(Hackstead::empty(None).knowledge_snort_ask(1).answered_by(&AskedNote::KnowledgeSnortResult(Ok(1))));
    assert!(!Ask::Plant(PlantAsk::KnowledgeSnort { tile_id: TileId(5), xp: 1 })
        .answered_by(&AskedNote::KnowledgeSnortResult(Ok(1))));
}
