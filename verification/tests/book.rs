use hcor::config::evalput::Evalput;
use hcor::hackstead::item;
use hcor::hackstead::plant::book::{any_neighbor_buffs, spread_neighbors, spread_round, PlantPage};
use hcor::hackstead::plant::buff::{Buff, Source};
use hcor::id::TileId;

fn xp(b: &Buff) -> Option<u32> {
    match b {
        Buff::Xp(x) => Some(*x),
        _ => None,
    }
}

fn passive(n: u128) -> Source {
    Source::PassiveItemEffect(item::Conf(n))
}

fn passive_of(s: &Source) -> Option<u128> {
    match s {
        Source::PassiveItemEffect(item::Conf(n)) => Some(*n),
        _ => None,
    }
}

#[test]
fn lent_buffs_go_to_the_other_plants() {
    let own = Buff::Xp(1);
    let lent = Buff::Neighbor(Box::new(Buff::Xp(5)));
    let other = Buff::Xp(7);
    let pages = vec![
        PlantPage { tile: TileId(1), buffs: vec![(&own, passive(1)), (&lent, passive(2))] },
        PlantPage { tile: TileId(2), buffs: vec![(&other, passive(3))] },
    ];
    assert!(any_neighbor_buffs(&pages));
    let r = spread_neighbors(pages);
    assert_eq!(r.len(), 2);
    assert_eq!(r[0].tile, TileId(1));
    assert_eq!(r[0].buffs.len(), 1);
    assert_eq!(xp(r[0].buffs[0].0), Some(1));
    assert_eq!(r[1].buffs.len(), 2);
    assert_eq!(xp(r[1].buffs[0].0), Some(7));
    assert_eq!(xp(r[1].buffs[1].0), Some(5));
    match &r[1].buffs[1].1 {
        Source::Neighbor(s) => assert_eq!(passive_of(s), Some(2)),
        _ => panic!("a lent buff comes from its neighbor"),
    }
    assert!(!any_neighbor_buffs(&r));
}

#[test]
fn a_buff_lent_twice_over_travels_on() {
    let deep = Buff::Neighbor(Box::new(Buff::Neighbor(Box::new(Buff::Xp(9)))));
    let pages = vec![
        PlantPage { tile: TileId(1), buffs: vec![(&deep, passive(4))] },
        PlantPage { tile: TileId(2), buffs: vec![] },
        PlantPage { tile: TileId(3), buffs: vec![] },
    ];
    let once = spread_round(&pages);
    assert_eq!(once[0].buffs.len(), 0);
    assert_eq!(once[1].buffs.len(), 1);
    assert_eq!(once[2].buffs.len(), 1);
    let r = spread_neighbors(pages);
    assert_eq!(r[0].buffs.len(), 2);
    assert_eq!(r[1].buffs.len(), 1);
    assert_eq!(r[2].buffs.len(), 1);
    assert!(r.iter().all(|p| p.buffs.iter().all(|(b, _)| xp(b) == Some(9))));
    match &r[0].buffs[0].1 {
        Source::Neighbor(s) => match &**s {
            Source::Neighbor(s) => assert_eq!(passive_of(s), Some(4)),
            _ => panic!("lent twice over"),
        },
        _ => panic!("lent"),
    }
}

#[test]
fn a_book_without_lent_buffs_is_unchanged() {
    let a = Buff::Xp(2);
    let pages = vec![PlantPage { tile: TileId(8), buffs: vec![(&a, passive(1))] }];
    let r = spread_neighbors(pages);
    assert_eq!(r.len(), 1);
    assert_eq!(r[0].buffs.len(), 1);
    assert_eq!(xp(r[0].buffs[0].0), Some(2));
}

#[test]
fn yields_and_recipes_are_gathered_in_order() {
    let a = Buff::Xp(1);
    let b = Buff::Yield(Evalput::Item(item::Conf(4)));
    let c = Buff::Craft(vec![]);
    let d = Buff::Yield(Evalput::Nothing);
    let buffs = vec![&a, &b, &c, &d];
    let (yields, recipes) = hcor::hackstead::plant::buff::gathered(&buffs);
    assert_eq!(yields.len(), 2);
    assert!(matches!(yields[0], Evalput::Item(item::Conf(4))));
    assert!(matches!(yields[1], Evalput::Nothing));
    assert!(recipes.is_empty());
}
