use mud_domain::errors::Error;
use mud_domain::game::actions_vendor::buy;
use mud_domain::game::builder;
use mud_domain::game::container::Container;
use mud_domain::game::inventory_service;
use mud_domain::game::loader::apply::{ItemLoad, ObjLoad};
use mud_domain::game::outputs::Output;
use mud_domain::game::prices::Money;
use mud_domain::ids::ObjId;

fn potion() -> ObjLoad {
    ObjLoad {
        id: 40,
        parent: None,
        label: Some("potion".to_string()),
        desc: None,
        mob: None,
        room: None,
        item: Some(ItemLoad { flags: None, amount: None, weapon: None, armor: None }),
        player: None,
        ai: None,
        astro_body: None,
    }
}

fn setup(money: u32) -> (Container, ObjId, ObjId) {
    let mut container = Container::new();
    let room = builder::add_room(&mut container, "Shop");
    let mob = builder::add_mob(&mut container, "buyer", room);
    let coins = builder::add_item(&mut container, "coins", mob);
    let mut item = container.items.get(coins).unwrap();
    item.flags.is_money = true;
    item.amount = money;
    container.items.update(item);
    (container, room, mob)
}

fn messages(container: &mut Container) -> Vec<String> {
    container
        .outputs
        .take()
        .into_iter()
        .map(|o| match o {
            Output::Private { msg, .. } => msg,
            Output::Broadcast { msg, .. } => format!("others: {}", msg),
        })
        .collect()
}

#[test]
fn buying_takes_the_money_and_gives_the_item() {
    let (mut container, room, mob) = setup(10);
    let item = buy(&mut container, mob, Some(&potion()), Some(Money(4)), true, "0.5", "10").unwrap();
    assert_eq!(container.locations.get(item), Some(mob));
    assert_eq!(container.labels.get_label(item), Some("potion"));
    assert_eq!(inventory_service::get_money(&container, mob).unwrap(), Money(6));
    assert_eq!(
        messages(&mut container),
        vec!["you bought a potion for 4, you have now 6 of money".to_string(), "others: buyer bought a potion".to_string()]
    );
    let _ = room;
}

#[test]
fn an_item_too_heavy_is_left_on_the_floor() {
    let (mut container, room, mob) = setup(4);
    let item = buy(&mut container, mob, Some(&potion()), Some(Money(4)), false, "12", "3").unwrap();
    assert_eq!(container.locations.get(item), Some(room));
    assert_eq!(inventory_service::get_money(&container, mob).unwrap(), Money(0));
    assert_eq!(
        messages(&mut container),
        vec![
            "you bought a potion for 4, you have now 0 of money, it's weight 12 but you can only take 3, it was drop in the floor, "
                .to_string(),
            "others: buyer bought a potion and drop in the floor".to_string(),
        ]
    );
}

#[test]
fn buying_fails_without_enough_money_or_offer() {
    let (mut container, _room, mob) = setup(3);
    assert!(matches!(
        buy(&mut container, mob, Some(&potion()), Some(Money(4)), true, "1", "1"),
        Err(Error::InvalidArgumentFailure)
    ));
    assert_eq!(messages(&mut container), vec!["not enough money, it cost 4 and you have only 3".to_string()]);
    assert!(matches!(buy(&mut container, mob, Some(&potion()), None, true, "1", "1"), Err(Error::InvalidStateFailure)));
    assert_eq!(messages(&mut container), vec!["seller don't have a 'potion'".to_string()]);
    assert!(matches!(buy(&mut container, mob, None, Some(Money(1)), true, "1", "1"), Err(Error::NotFoundException)));
    assert_eq!(messages(&mut container), vec!["buy item fail".to_string()]);
    assert_eq!(inventory_service::get_money(&container, mob).unwrap(), Money(3));
}

#[test]
fn buying_fails_for_a_mob_that_is_nowhere() {
    let mut container = Container::new();
    let room = builder::add_room(&mut container, "Shop");
    let mob = builder::add_mob(&mut container, "buyer", room);
    container.locations.remove(mob);
    assert!(matches!(
        buy(&mut container, mob, Some(&potion()), Some(Money(0)), true, "1", "1"),
        Err(Error::InvalidStateFailure)
    ));
    assert_eq!(messages(&mut container), vec!["buy item fail".to_string()]);
}

#[test]
fn an_item_without_a_label_can_be_bought() {
    let (mut container, _room, mob) = setup(10);
    let mut plain = potion();
    plain.label = None;
    plain.item = Some(ItemLoad { flags: None, amount: Some(0), weapon: None, armor: None });
    let item = buy(&mut container, mob, Some(&plain), Some(Money(4)), true, "1", "1").unwrap();
    assert_eq!(container.locations.get(item), Some(mob));
    assert!(container.labels.get_label(item).is_none());
    assert_eq!(container.items.get(item).unwrap().amount, 0);
    assert_eq!(inventory_service::get_money(&container, mob).unwrap(), Money(6));
    assert_eq!(
        messages(&mut container),
        vec!["you bought a ??? for 4, you have now 6 of money".to_string(), "others: buyer bought a ???".to_string()]
    );
}

#[test]
fn an_item_whose_parent_is_unknown_fails_after_the_money_is_taken() {
    let (mut container, _room, mob) = setup(10);
    let mut lost = potion();
    lost.parent = Some(900);
    let r = buy(&mut container, mob, Some(&lost), Some(Money(4)), true, "1", "1");
    match r {
        Err(Error::Failure(msg)) => assert_eq!(msg, "Static id StaticId(900) can not be resolved"),
        _ => panic!(),
    }
    assert_eq!(inventory_service::get_money(&container, mob).unwrap(), Money(6));
    assert_eq!(messages(&mut container), vec!["buy item fail".to_string()]);
}
