use mud_domain::controller::input_handle_items::{drop, equip, pickup, strip};
use mud_domain::errors::Error;
use mud_domain::game::actions_items::{do_drop, do_equip, do_pickup, do_strip, PickUpError};
use mud_domain::game::builder;
use mud_domain::game::container::Container;
use mud_domain::game::inventory_service;
use mud_domain::game::item::Weapon;
use mud_domain::game::outputs::Output;
use mud_domain::game::prices::Money;
use mud_domain::ids::ObjId;
use mud_domain::utils::strinput::StrInput;

struct TestScenery {
    container: Container,
    room_id: ObjId,
    container_id: ObjId,
    item1_id: ObjId,
    item2_id: ObjId,
    mob_id: ObjId,
}

fn setup() -> TestScenery {
    let mut container = Container::new();
    let room_id = builder::add_room(&mut container, "test_room");

    let container_id = builder::add_item(&mut container, "container1", room_id);
    {
        let mut item = container.items.remove(container_id).unwrap();
        item.flags.is_stuck = true;
        item.flags.is_inventory = true;
        container.items.add(item);
    }

    let item1_id = builder::add_item(&mut container, "item1", room_id);
    let item2_id = builder::add_item(&mut container, "item2", container_id);

    let mob_id = builder::add_mob(&mut container, "mob", room_id);

    TestScenery { container, room_id, container_id, item1_id, item2_id, mob_id }
}

fn private_messages(container: &mut Container) -> Vec<String> {
    container
        .outputs
        .take()
        .into_iter()
        .filter_map(|o| match o {
            Output::Private { msg, .. } => Some(msg),
            _ => None,
        })
        .collect()
}

#[test]
fn test_do_pickup_should_fail_if_inventory_is_not_inventory() {
    let mut scenery = setup();
    let result = do_pickup(&mut scenery.container, scenery.mob_id, scenery.container_id, None, true);

    match result {
        Err(PickUpError::Stuck) => {}
        other => panic!("not expected {:?}", other),
    }
}

#[test]
fn test_do_pickup_should_fail_if_item_is_stuck() {
    let mut scenery = setup();
    let result = do_pickup(
        &mut scenery.container,
        scenery.mob_id,
        scenery.item1_id,
        Some(scenery.item2_id),
        true,
    );

    match result {
        Err(PickUpError::NotInventory) => {}
        other => panic!("not expected {:?}", other),
    }
}

#[test]
fn pickup_from_the_floor_moves_the_item_to_the_mob() {
    let mut scenery = setup();
    let result = do_pickup(&mut scenery.container, scenery.mob_id, scenery.item1_id, None, true);
    assert!(result.is_ok());
    assert_eq!(scenery.container.locations.get(scenery.item1_id), Some(scenery.mob_id));
    let outputs = scenery.container.outputs.take();
    assert_eq!(outputs.len(), 2);
    match &outputs[0] {
        Output::Private { mob_id, msg } => {
            assert_eq!(*mob_id, scenery.mob_id);
            assert_eq!(msg, "you pick a item1 from the floor");
        }
        _ => panic!(),
    }
    match &outputs[1] {
        Output::Broadcast { exclude, location_id, recursive, msg } => {
            assert_eq!(*exclude, Some(scenery.mob_id));
            assert_eq!(*location_id, scenery.room_id);
            assert!(!*recursive);
            assert_eq!(msg, "mob pick a item1 from the floor");
        }
        _ => panic!(),
    }
}

#[test]
fn pickup_from_a_container() {
    let mut scenery = setup();
    let result = do_pickup(
        &mut scenery.container,
        scenery.mob_id,
        scenery.item2_id,
        Some(scenery.container_id),
        true,
    );
    assert!(result.is_ok());
    assert_eq!(scenery.container.locations.get(scenery.item2_id), Some(scenery.mob_id));
    assert_eq!(private_messages(&mut scenery.container), vec!["you pick a item2 from container1".to_string()]);
}

#[test]
fn pickup_that_does_not_fit_is_full() {
    let mut scenery = setup();
    let result = do_pickup(&mut scenery.container, scenery.mob_id, scenery.item1_id, None, false);
    assert!(matches!(result, Err(PickUpError::Full)));
    assert_eq!(scenery.container.locations.get(scenery.item1_id), Some(scenery.room_id));
    assert_eq!(
        private_messages(&mut scenery.container),
        vec!["you can not get it, item1 is not a storage".to_string()]
    );
}

#[test]
fn pickup_of_unknown_item_is_not_found() {
    let mut scenery = setup();
    let result = do_pickup(&mut scenery.container, scenery.mob_id, ObjId(99), None, true);
    assert!(matches!(result, Err(PickUpError::Other(Error::NotFoundException))));
    assert!(scenery.container.outputs.take().is_empty());
}

#[test]
fn picked_money_joins_the_money_of_the_mob() {
    let mut scenery = setup();
    let coins = builder::add_item(&mut scenery.container, "coins", scenery.mob_id);
    let more = builder::add_item(&mut scenery.container, "coins", scenery.room_id);
    for (id, amount) in [(coins, 5u32), (more, 7u32)] {
        let mut item = scenery.container.items.get(id).unwrap();
        item.flags.is_money = true;
        item.amount = amount;
        scenery.container.items.update(item);
    }
    assert_eq!(inventory_service::get_money(&scenery.container, scenery.mob_id).unwrap(), Money(5));
    let result = do_pickup(&mut scenery.container, scenery.mob_id, more, None, true);
    assert!(result.is_ok());
    assert!(!scenery.container.objects.exist(more));
    assert_eq!(inventory_service::get_money(&scenery.container, scenery.mob_id).unwrap(), Money(12));
}

#[test]
fn remove_money_takes_and_removes() {
    let mut scenery = setup();
    let coins = builder::add_item(&mut scenery.container, "coins", scenery.mob_id);
    let mut item = scenery.container.items.get(coins).unwrap();
    item.flags.is_money = true;
    item.amount = 10;
    scenery.container.items.update(item);

    assert!(matches!(
        inventory_service::remove_money(&mut scenery.container, scenery.mob_id, Money(11)),
        Err(Error::InvalidArgumentFailure)
    ));
    assert_eq!(inventory_service::remove_money(&mut scenery.container, scenery.mob_id, Money(4)).unwrap(), Money(6));
    assert_eq!(inventory_service::remove_money(&mut scenery.container, scenery.mob_id, Money(6)).unwrap(), Money(0));
    assert!(!scenery.container.items.exist(coins));
    assert!(matches!(
        inventory_service::remove_money(&mut scenery.container, scenery.mob_id, Money(1)),
        Err(Error::NotFoundFailure)
    ));
    assert_eq!(inventory_service::get_money(&scenery.container, scenery.mob_id).unwrap(), Money(0));
}

#[test]
fn add_money_without_money_item_asks_for_one() {
    let mut scenery = setup();
    let added = inventory_service::add_money(&mut scenery.container, scenery.mob_id, Money(3));
    assert_eq!(added, inventory_service::MoneyAdded::Missing);
}

#[test]
fn equip_needs_a_weapon_or_armor_carried_by_the_mob() {
    let mut scenery = setup();
    let sword = builder::add_item(&mut scenery.container, "sword", scenery.mob_id);

    assert!(matches!(do_equip(&mut scenery.container, scenery.mob_id, sword), Err(Error::InvalidArgumentFailure)));
    assert_eq!(private_messages(&mut scenery.container), vec!["you can not equip a sword\n".to_string()]);

    let mut item = scenery.container.items.get(sword).unwrap();
    item.weapon = Some(Weapon::new());
    scenery.container.items.update(item);
    assert!(do_equip(&mut scenery.container, scenery.mob_id, sword).is_ok());
    assert!(scenery.container.equips.has(scenery.mob_id, sword));
    assert_eq!(private_messages(&mut scenery.container), vec!["you equip a sword\n".to_string()]);

    assert!(matches!(
        do_equip(&mut scenery.container, scenery.mob_id, scenery.item1_id),
        Err(Error::NotFoundFailure)
    ));
    assert_eq!(private_messages(&mut scenery.container), vec!["what? what do you want to equip?".to_string()]);

    assert!(do_strip(&mut scenery.container, scenery.mob_id, sword).is_ok());
    assert!(!scenery.container.equips.has(scenery.mob_id, sword));
    assert_eq!(private_messages(&mut scenery.container), vec!["you stop to use sword\n".to_string()]);
}

#[test]
fn drop_puts_the_item_in_the_room() {
    let mut scenery = setup();
    let sword = builder::add_item(&mut scenery.container, "sword", scenery.mob_id);
    scenery.container.equips.add(scenery.mob_id, sword);
    assert!(do_drop(&mut scenery.container, scenery.mob_id, sword).is_ok());
    assert_eq!(scenery.container.locations.get(sword), Some(scenery.room_id));
    assert!(!scenery.container.equips.has(scenery.mob_id, sword));
    let outputs = scenery.container.outputs.take();
    match &outputs[1] {
        Output::Broadcast { msg, .. } => assert_eq!(msg, "mob drop a sword\n"),
        _ => panic!(),
    }
}

#[test]
fn commands_read_the_item_and_tell_the_mob() {
    let mut scenery = setup();
    assert!(pickup(&mut scenery.container, scenery.mob_id, StrInput("get item1"), |_| true).is_ok());
    assert_eq!(scenery.container.locations.get(scenery.item1_id), Some(scenery.mob_id));
    scenery.container.outputs.take();

    assert!(pickup(&mut scenery.container, scenery.mob_id, StrInput("get"), |_| true).is_ok());
    assert_eq!(private_messages(&mut scenery.container), vec!["get what?\n".to_string()]);

    assert!(pickup(&mut scenery.container, scenery.mob_id, StrInput("get nothing"), |_| true).is_ok());
    assert_eq!(
        private_messages(&mut scenery.container),
        vec!["there is no nothing here, what are you talking about?\n".to_string()]
    );

    assert!(matches!(
        equip(&mut scenery.container, scenery.mob_id, StrInput("equip")),
        Err(Error::InvalidArgumentFailure)
    ));
    assert_eq!(private_messages(&mut scenery.container), vec!["what? what do you want to equip?".to_string()]);

    assert!(matches!(
        strip(&mut scenery.container, scenery.mob_id, StrInput("remove hat")),
        Err(Error::InvalidArgumentFailure)
    ));
    assert_eq!(private_messages(&mut scenery.container), vec!["you can not find a hat to strip\n".to_string()]);

    assert!(drop(&mut scenery.container, scenery.mob_id, StrInput("drop item1")).is_ok());
    assert_eq!(scenery.container.locations.get(scenery.item1_id), Some(scenery.room_id));
    assert_eq!(private_messages(&mut scenery.container), vec!["you drop a item1\n".to_string()]);
}

#[test]
fn pickup_then_drop_puts_the_item_back() {
    let mut scenery = setup();
    assert_eq!(scenery.container.locations.get(scenery.item1_id), Some(scenery.room_id));
    assert!(do_pickup(&mut scenery.container, scenery.mob_id, scenery.item1_id, None, true).is_ok());
    assert_eq!(scenery.container.locations.get(scenery.item1_id), Some(scenery.mob_id));
    assert!(do_drop(&mut scenery.container, scenery.mob_id, scenery.item1_id).is_ok());
    assert_eq!(scenery.container.locations.get(scenery.item1_id), Some(scenery.room_id));
    assert_eq!(scenery.container.locations.get(scenery.mob_id), Some(scenery.room_id));
}

#[test]
fn equip_then_strip_leaves_the_equipment_as_it_was() {
    let mut scenery = setup();
    let shield = builder::add_item(&mut scenery.container, "shield", scenery.mob_id);
    let sword = builder::add_item(&mut scenery.container, "sword", scenery.mob_id);
    for id in [shield, sword] {
        let mut item = scenery.container.items.remove(id).unwrap();
        item.weapon = Some(Weapon::new());
        scenery.container.items.add(item);
    }
    assert!(do_equip(&mut scenery.container, scenery.mob_id, shield).is_ok());
    assert!(do_equip(&mut scenery.container, scenery.mob_id, sword).is_ok());
    assert!(do_strip(&mut scenery.container, scenery.mob_id, sword).is_ok());
    assert!(scenery.container.equips.has(scenery.mob_id, shield));
    assert!(!scenery.container.equips.has(scenery.mob_id, sword));
}

#[test]
fn add_then_remove_money_gives_back_the_amount() {
    let mut scenery = setup();
    let coins = builder::add_item(&mut scenery.container, "coins", scenery.mob_id);
    let mut item = scenery.container.items.remove(coins).unwrap();
    item.flags.is_money = true;
    item.amount = 9;
    scenery.container.items.add(item);
    assert_eq!(
        inventory_service::add_money(&mut scenery.container, scenery.mob_id, Money(4)),
        inventory_service::MoneyAdded::Updated
    );
    assert_eq!(inventory_service::get_money(&scenery.container, scenery.mob_id).unwrap(), Money(13));
    assert_eq!(inventory_service::remove_money(&mut scenery.container, scenery.mob_id, Money(4)).unwrap(), Money(9));
    assert_eq!(scenery.container.items.get(coins).unwrap().amount, 9);
}

#[test]
fn a_removed_object_is_gone_and_its_id_is_not_given_again() {
    let mut scenery = setup();
    scenery.container.remove(scenery.item1_id);
    assert!(!scenery.container.objects.exist(scenery.item1_id));
    assert!(scenery.container.labels.get(scenery.item1_id).is_none());
    assert!(scenery.container.locations.get(scenery.item1_id).is_none());
    assert!(!scenery.container.items.exist(scenery.item1_id));
    let created = scenery.container.objects.create();
    assert_ne!(created, scenery.item1_id);
}
