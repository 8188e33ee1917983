use hcor::id::{
    ItemId, NoSuch, NoSuchGotchiOnItem, NoSuchItem, NoSuchPlantOnTile, NoSuchRubEffectOnPlant, NoSuchTile,
    RubEffectId, SteaderId, TileId,
};

const STEADER: u128 = 0x67e5_5044_10b1_426f_9247_bb68_0e5f_e0c8;

#[test]
fn ids_are_written_as_hyphenated_uuids() {
    assert_eq!(SteaderId(STEADER).text(), "67e55044-10b1-426f-9247-bb680e5fe0c8");
    assert_eq!(TileId(1).text(), "00000000-0000-0000-0000-000000000001");
    assert_eq!(ItemId(u128::MAX).text(), "ffffffff-ffff-ffff-ffff-ffffffffffff");
    assert_eq!(RubEffectId(0xabc << 100).text(), "0000abc0-0000-0000-0000-000000000000");
}

#[test]
fn failed_lookups_say_what_is_missing() {
    let s = SteaderId(STEADER);
    let steader = "67e55044-10b1-426f-9247-bb680e5fe0c8";
    let one = "00000000-0000-0000-0000-000000000001";
    let two = "00000000-0000-0000-0000-000000000002";
    assert_eq!(
        NoSuch::Item(NoSuchItem(s, ItemId(1))).text(),
        format!("steader {} has no such item {}", steader, one)
    );
    assert_eq!(
        NoSuch::Tile(NoSuchTile(s, TileId(1))).text(),
        format!("steader {} has no such tile {}", steader, one)
    );
    assert_eq!(
        NoSuch::Plant(NoSuchPlantOnTile(s, TileId(1))).text(),
        format!("steader {} has tile {}, but it's not occupied by a plant.", steader, one)
    );
    assert_eq!(
        NoSuch::Effect(NoSuchRubEffectOnPlant(s, TileId(1), RubEffectId(2))).text(),
        format!(
            "steader {} has a tile {} with a plant on it, but that plant is missing the effect {}.",
            steader, one, two
        )
    );
    assert_eq!(
        NoSuch::Gotchi(NoSuchGotchiOnItem(s, ItemId(2))).text(),
        format!("steader {} has an item {} with no gotchi", steader, two)
    );
}
