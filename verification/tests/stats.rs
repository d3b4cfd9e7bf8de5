use mud_domain::controller::view_main::show_stats;
use mud_domain::errors::Error;
use mud_domain::game::builder;
use mud_domain::game::comm::{show_inventory, InventoryDesc, InventoryItemDesc};
use mud_domain::game::container::Container;
use mud_domain::game::outputs::Output;
use mud_domain::ids::ObjId;

#[test]
fn an_inventory_lists_items_and_weight() {
    let inventory = InventoryDesc {
        max_weight: Some("10".to_string()),
        total_weight: "2.5".to_string(),
        items: vec![
            InventoryItemDesc { id: ObjId(1), label: "sword", amount: 1, equipped: true },
            InventoryItemDesc { id: ObjId(2), label: "coin", amount: 3, equipped: false },
        ],
    };
    assert_eq!(show_inventory(&inventory), "Inventory:\n- sword(equipped)\n- coin x3\nweight 2.5/10");
    let empty = InventoryDesc { max_weight: None, total_weight: "0".to_string(), items: vec![] };
    assert_eq!(show_inventory(&empty), "Inventory:\nweight 0");
}

#[test]
fn stats_show_attributes_and_inventory() {
    let mut container = Container::new();
    let room_id = builder::add_room(&mut container, "room");
    let mob_id = builder::add_mob(&mut container, "hero", room_id);
    let _ = builder::add_item(&mut container, "apple", mob_id);
    let mut mob = container.mobs.get(mob_id).unwrap().clone();
    mob.attributes.attack = 3;
    mob.attributes.pv.current = -2;
    mob.xp = 7;
    container.mobs.update(mob);

    assert!(show_stats(&mut container, mob_id, "1".to_string(), None).is_ok());
    match container.outputs.take().pop() {
        Some(Output::Private { msg, .. }) => assert_eq!(
            msg,
            "Stats: \nattack:  3\ndefense: 0\ndamage:  0-0\npv:      -2-1\nxp:      7\nInventory:\n- apple\nweight 1\n"
        ),
        other => panic!("unexpected {:?}", other),
    }
    assert!(matches!(show_stats(&mut container, ObjId(99), "0".to_string(), None), Err(Error::NotFoundFailure)));
}
