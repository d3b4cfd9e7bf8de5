use mud_domain::controller::input_handle_items as controller_items;
use mud_domain::game::builder;
use mud_domain::game::container::Container;
use mud_domain::game::input_handle_items::{parse_not_owned_item, parser_owned_item, ParseItemError};
use mud_domain::ids::ObjId;
use mud_domain::utils::strinput::StrInput;

struct TestScenery {
    container: Container,
    room_id: ObjId,
    container_id: ObjId,
    item1_id: ObjId,
    item2_id: ObjId,
    mob_id: ObjId,
}

fn setup() -> TestScenery {
    let mut container = Container::new();
    let room_id = builder::add_room(&mut container, "test_room");

    let container_id = builder::add_item(&mut container, "container1", room_id);
    {
        let mut item = container.items.remove(container_id).unwrap();
        item.flags.is_stuck = true;
        item.flags.is_inventory = true;
        container.items.add(item);
    }

    let item1_id = builder::add_item(&mut container, "item1", room_id);
    let item2_id = builder::add_item(&mut container, "item2", container_id);

    let mob_id = builder::add_mob(&mut container, "mob", room_id);

    TestScenery { container, room_id, container_id, item1_id, item2_id, mob_id }
}

#[test]
fn test_parse_not_owned_item_not_found_in_room() {
    let scenery = setup();
    let result = parse_not_owned_item(
        &scenery.container.labels,
        &scenery.container.locations,
        &scenery.container.items,
        scenery.room_id,
        vec!["get", "item3"],
    );
    match result {
        Err(ParseItemError::ItemNotFound { label }) => {
            assert_eq!(label.as_str(), "item3");
        }
        _ => panic!(),
    }
}

#[test]
fn test_parse_not_owned_item_should_find_item_in_the_floor() {
    let scenery = setup();
    let result = parse_not_owned_item(
        &scenery.container.labels,
        &scenery.container.locations,
        &scenery.container.items,
        scenery.room_id,
        vec!["get", "item1"],
    );
    match result {
        Ok((item_id, None)) => assert_eq!(item_id, scenery.item1_id),
        _ => panic!(),
    }
}

#[test]
fn test_parse_not_owned_item_not_found_in_container() {
    let scenery = setup();
    let result = parse_not_owned_item(
        &scenery.container.labels,
        &scenery.container.locations,
        &scenery.container.items,
        scenery.room_id,
        vec!["get", "item1", "in", "container1"],
    );
    match result {
        Err(ParseItemError::ItemNotFound { label }) => {
            assert_eq!(label.as_str(), "item1");
        }
        _ => panic!(),
    }
}

#[test]
fn test_parse_not_owned_item_should_find_item_in_the_container() {
    let scenery = setup();
    let result = parse_not_owned_item(
        &scenery.container.labels,
        &scenery.container.locations,
        &scenery.container.items,
        scenery.room_id,
        vec!["get", "item2", "in", "container1"],
    );
    match result {
        Ok((item_id, Some(container_id))) => {
            assert_eq!(item_id, scenery.item2_id);
            assert_eq!(container_id, scenery.container_id);
        }
        _ => panic!(),
    }
}

#[test]
fn input_handle_items_test_parse_not_owned_item_not_found_in_room() {
    let scenery = setup();
    let result = controller_items::parse_not_owned_item(
        &scenery.container.labels,
        &scenery.container.locations,
        &scenery.container.items,
        scenery.room_id,
        StrInput("get item3"),
    );
    match result {
        Err(controller_items::ParseItemError::ItemNotFound { label }) => {
            assert_eq!(label.as_str(), "item3");
        }
        _ => panic!(),
    }
}

#[test]
fn input_handle_items_test_parse_not_owned_item_should_find_item_in_the_floor() {
    let scenery = setup();
    let result = controller_items::parse_not_owned_item(
        &scenery.container.labels,
        &scenery.container.locations,
        &scenery.container.items,
        scenery.room_id,
        StrInput("get item1"),
    );
    match result {
        Ok((item_id, None)) => assert_eq!(item_id, scenery.item1_id),
        _ => panic!(),
    }
}

#[test]
fn input_handle_items_test_parse_not_owned_item_not_found_in_container() {
    let scenery = setup();
    let result = controller_items::parse_not_owned_item(
        &scenery.container.labels,
        &scenery.container.locations,
        &scenery.container.items,
        scenery.room_id,
        StrInput("get item1 in container1"),
    );
    match result {
        Err(controller_items::ParseItemError::ItemNotFound { label }) => {
            assert_eq!(label.as_str(), "item1");
        }
        _ => panic!(),
    }
}

#[test]
fn input_handle_items_test_parse_not_owned_item_should_find_item_in_the_container() {
    let scenery = setup();
    let result = controller_items::parse_not_owned_item(
        &scenery.container.labels,
        &scenery.container.locations,
        &scenery.container.items,
        scenery.room_id,
        StrInput("get item2 in container1"),
    );
    match result {
        Ok((item_id, Some(container_id))) => {
            assert_eq!(item_id, scenery.item2_id);
            assert_eq!(container_id, scenery.container_id);
        }
        _ => panic!(),
    }
}

#[test]
fn owned_item_is_found_in_the_mob_inventory() {
    let mut scenery = setup();
    let sword = builder::add_item(&mut scenery.container, "sword", scenery.mob_id);
    let result = parser_owned_item(
        &scenery.container.labels,
        &scenery.container.locations,
        &scenery.container.items,
        scenery.mob_id,
        vec!["drop", "sword"],
    );
    match result {
        Ok(id) => assert_eq!(id, sword),
        _ => panic!(),
    }
    let result = parser_owned_item(
        &scenery.container.labels,
        &scenery.container.locations,
        &scenery.container.items,
        scenery.mob_id,
        vec!["drop", "item1"],
    );
    match result {
        Err(ParseItemError::ItemNotFound { label }) => assert_eq!(label, "item1"),
        _ => panic!(),
    }
    let result = parser_owned_item(
        &scenery.container.labels,
        &scenery.container.locations,
        &scenery.container.items,
        scenery.mob_id,
        vec!["drop"],
    );
    assert!(matches!(result, Err(ParseItemError::ItemNotProvided)));
}

#[test]
fn not_owned_item_without_label_is_not_provided() {
    let scenery = setup();
    let result = parse_not_owned_item(
        &scenery.container.labels,
        &scenery.container.locations,
        &scenery.container.items,
        scenery.room_id,
        vec!["get"],
    );
    assert!(matches!(result, Err(ParseItemError::ItemNotProvided)));
    let result = controller_items::parse_not_owned_item(
        &scenery.container.labels,
        &scenery.container.locations,
        &scenery.container.items,
        scenery.room_id,
        StrInput("get"),
    );
    assert!(matches!(result, Err(controller_items::ParseItemError::ItemNotProvided)));
}

#[test]
fn container_remove_forgets_the_object() {
    let mut scenery = setup();
    let item1 = scenery.item1_id;
    scenery.container.remove(item1);
    assert!(!scenery.container.objects.exist(item1));
    assert!(scenery.container.labels.get(item1).is_none());
    assert!(scenery.container.locations.get(item1).is_none());
    assert!(!scenery.container.items.exist(item1));
    assert!(scenery.container.items.exist(scenery.item2_id));
}
