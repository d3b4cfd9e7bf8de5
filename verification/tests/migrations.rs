use mud_domain::game::loader::migrations::{
    ItemFlagsData, ItemMigrationData, MigrationObjData, MigrationV3FixItemsWithoutPrice, MigrationV4AddTags,
    MigrationV5CleanRandomRooms, PriceData,
};
use mud_domain::game::loader::TagsData;
use mud_domain::ids::StaticId;

fn obj(id: u32) -> MigrationObjData {
    MigrationObjData {
        id: Some(StaticId(id)),
        label: None,
        tags: None,
        price: None,
        item: None,
        is_room: false,
        has_random_rooms: false,
        parent: None,
    }
}

fn tags(values: &[&str]) -> Option<TagsData> {
    Some(TagsData { values: values.iter().map(|s| s.to_string()).collect() })
}

#[test]
fn goods_without_price_are_priced() {
    let m = MigrationV3FixItemsWithoutPrice;
    assert_eq!(m.version(), 3);
    let mut goods = obj(1);
    goods.tags = tags(&["item", "goods"]);
    m.migrate_obj_or_prefab(&mut goods);
    assert_eq!(goods.price, Some(PriceData { price: Some(500), buy: None, sell: None }));

    let mut priced = obj(2);
    priced.tags = tags(&["goods"]);
    priced.price = Some(PriceData::new(3));
    m.migrate_obj_or_prefab(&mut priced);
    assert_eq!(priced.price, Some(PriceData::new(3)));

    let mut other = obj(3);
    other.tags = tags(&["item"]);
    m.migrate_obj_or_prefab(&mut other);
    assert_eq!(other.price, None);
}

#[test]
fn items_without_tags_are_tagged() {
    let m = MigrationV4AddTags;
    assert_eq!(m.version(), 4);
    let mut money = obj(1);
    money.item = Some(ItemMigrationData {
        flags: Some(ItemFlagsData { money: Some(true), inventory: None, stuck: None, body: None }),
        has_armor: false,
        has_weapon: false,
    });
    m.migrate_obj_or_prefab(&mut money);
    assert_eq!(money.tags.unwrap().values, vec!["money".to_string()]);

    let mut sword = obj(2);
    sword.item = Some(ItemMigrationData { flags: None, has_armor: true, has_weapon: true });
    m.migrate_obj_or_prefab(&mut sword);
    assert_eq!(sword.tags.unwrap().values, vec!["item".to_string(), "armor".to_string(), "weapon".to_string()]);

    let mut tagged = obj(3);
    tagged.item = Some(ItemMigrationData { flags: None, has_armor: false, has_weapon: false });
    tagged.tags = tags(&["special"]);
    m.migrate_obj_or_prefab(&mut tagged);
    assert_eq!(tagged.tags.unwrap().values, vec!["special".to_string()]);

    let mut room = obj(4);
    m.migrate_obj_or_prefab(&mut room);
    assert!(room.tags.is_none());
}

#[test]
fn random_rooms_move_into_the_first_random_zone() {
    let m = MigrationV5CleanRandomRooms;
    assert_eq!(m.version(), 5);
    let mut zone1 = obj(2);
    zone1.has_random_rooms = true;
    let mut zone2 = obj(3);
    zone2.has_random_rooms = true;
    let mut random = obj(4);
    random.is_room = true;
    random.label = Some("Random room 1".to_string());
    let mut plain = obj(5);
    plain.is_room = true;
    plain.label = Some("Hall".to_string());
    let mut objects = vec![(StaticId(1), obj(1)), (StaticId(2), zone1), (StaticId(3), zone2), (StaticId(4), random), (StaticId(5), plain)];
    m.migrate(&mut objects);
    assert_eq!(objects[3].1.parent, Some(StaticId(2)));
    assert_eq!(objects[4].1.parent, None);

    let mut random = obj(6);
    random.is_room = true;
    random.label = Some("Random room 2".to_string());
    let mut without_zone = vec![(StaticId(6), random)];
    m.migrate(&mut without_zone);
    assert_eq!(without_zone[0].1.parent, None);
}
