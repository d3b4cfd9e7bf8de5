use mud_domain::game::builder;
use mud_domain::game::container::Container;
use mud_domain::game::corpse::create_corpse;
use mud_domain::game::outputs::Output;

#[test]
fn a_corpse_takes_what_the_mob_carried() {
    let mut container = Container::new();
    let room_id = builder::add_room(&mut container, "room");
    let mob_id = builder::add_mob(&mut container, "goblin", room_id);
    let sword_id = builder::add_item(&mut container, "sword", mob_id);

    let corpse_id = create_corpse(&mut container, mob_id);

    assert_eq!(container.locations.get(corpse_id), Some(room_id));
    assert_eq!(container.locations.get(sword_id), Some(corpse_id));
    assert_eq!(container.labels.get_label(corpse_id), Some("goblin corpse"));
    assert_eq!(container.labels.get(corpse_id).unwrap().desc, "The corpse of goblin laying in the ground");
    let corpse = container.items.get(corpse_id).unwrap();
    assert!(corpse.flags.is_corpse);
    assert!(corpse.flags.is_inventory);
    match container.outputs.take().pop() {
        Some(Output::Broadcast { exclude: None, location_id, msg, .. }) => {
            assert_eq!(location_id, room_id);
            assert_eq!(msg, mud_domain::game::comm::item_corpse_appears_in_room("goblin corpse"));
        }
        other => panic!("unexpected {:?}", other),
    }
}
