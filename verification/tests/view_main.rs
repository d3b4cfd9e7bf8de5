use mud_domain::controller::view_main::{handle, parse_command, MainCommand, MainOutcome};
use mud_domain::controller::{ConnectionView, ConnectionViewAction};
use mud_domain::errors::Error;
use mud_domain::game::builder;
use mud_domain::game::comm;
use mud_domain::game::container::Container;
use mud_domain::game::domain::Dir;
use mud_domain::game::outputs::Output;
use mud_domain::ids::ObjId;

fn messages(container: &mut Container) -> Vec<String> {
    container
        .outputs
        .take()
        .into_iter()
        .filter_map(|o| match o {
            Output::Private { msg, .. } => Some(msg),
            _ => None,
        })
        .collect()
}

fn world() -> (Container, ObjId, ObjId, ObjId) {
    let mut container = Container::new();
    let room1 = builder::add_room(&mut container, "Room One");
    let room2 = builder::add_room(&mut container, "Room Two");
    builder::add_portal(&mut container, room1, room2, Dir::N);
    let mob = builder::add_mob(&mut container, "hero", room1);
    (container, room1, room2, mob)
}

#[test]
fn commands_are_read_from_the_line() {
    assert_eq!(parse_command("look"), MainCommand::Look);
    assert_eq!(parse_command("l"), MainCommand::Look);
    assert_eq!(parse_command("n"), MainCommand::Move(Dir::N));
    assert_eq!(parse_command("w"), MainCommand::Move(Dir::W));
    assert_eq!(parse_command("get sword"), MainCommand::Pickup);
    assert_eq!(parse_command("pick sword in box"), MainCommand::Pickup);
    assert_eq!(parse_command("drop sword"), MainCommand::Drop);
    assert_eq!(parse_command("remove sword"), MainCommand::Remove);
    assert_eq!(parse_command("equip sword"), MainCommand::Equip);
    assert_eq!(parse_command("examine sword"), MainCommand::Examine);
    assert_eq!(parse_command("kill rat"), MainCommand::Kill);
    assert_eq!(parse_command("k rat"), MainCommand::Kill);
    assert_eq!(parse_command("say hello"), MainCommand::Say);
    assert_eq!(parse_command("admin"), MainCommand::SwitchAdmin);
    assert_eq!(parse_command("admin suicide"), MainCommand::SwitchAdmin);
    assert_eq!(parse_command("logout"), MainCommand::Logout);
    assert_eq!(parse_command("help"), MainCommand::Help);
    assert_eq!(parse_command("h"), MainCommand::Help);
    assert_eq!(parse_command("jump"), MainCommand::Jump);
    assert_eq!(parse_command("uptime"), MainCommand::Uptime);
    assert_eq!(parse_command("enter"), MainCommand::Enter);
    assert_eq!(parse_command("enter ship"), MainCommand::Enter);
    assert_eq!(parse_command("exit"), MainCommand::Out);
    assert_eq!(parse_command("out"), MainCommand::Out);
    assert_eq!(parse_command("rest"), MainCommand::Rest);
    assert_eq!(parse_command("stand"), MainCommand::Stand);
    assert_eq!(parse_command("inv"), MainCommand::Stats);
    assert_eq!(parse_command("map"), MainCommand::ShowMap);
    assert_eq!(parse_command("sm"), MainCommand::ShowStartree);
    assert_eq!(parse_command("move"), MainCommand::MoveList);
    assert_eq!(parse_command("move 2"), MainCommand::MoveTo);
    assert_eq!(parse_command("land"), MainCommand::LandList);
    assert_eq!(parse_command("land 1"), MainCommand::LandAt);
    assert_eq!(parse_command("launch"), MainCommand::Launch);
    assert_eq!(parse_command("buy sword"), MainCommand::Buy);
    assert_eq!(parse_command("sell sword"), MainCommand::Sell);
    assert_eq!(parse_command("hire"), MainCommand::Hire);
    assert_eq!(parse_command("extract rock"), MainCommand::Extract);
    assert_eq!(parse_command("look around"), MainCommand::Unknown);
    assert_eq!(parse_command("u"), MainCommand::Unknown);
    assert_eq!(parse_command("dance"), MainCommand::Unknown);
}

#[test]
fn handle_carries_out_the_library_commands() {
    let (mut container, room1, _room2, mob) = world();

    let r = handle(&mut container, mob, "look", |_| true);
    assert_eq!(r.unwrap(), MainOutcome::Action(ConnectionViewAction::NoAction));
    assert_eq!(messages(&mut container), vec!["[Room One] - n\nRoom One".to_string()]);

    let r = handle(&mut container, mob, "help", |_| true);
    assert!(r.is_ok());
    assert_eq!(messages(&mut container), vec![comm::help()]);

    let r = handle(&mut container, mob, "admin", |_| true);
    assert_eq!(r.unwrap(), MainOutcome::Action(ConnectionViewAction::SwitchView(ConnectionView::Admin)));

    let r = handle(&mut container, mob, "logout", |_| true);
    assert_eq!(r.unwrap(), MainOutcome::Action(ConnectionViewAction::Logout));

    let r = handle(&mut container, mob, "dance", |_| true);
    assert!(matches!(r, Err(Error::InvalidArgumentFailure)));
    assert_eq!(messages(&mut container), vec!["unknown command 'dance'".to_string()]);

    let r = handle(&mut container, mob, "rest", |_| true);
    assert_eq!(r.unwrap(), MainOutcome::Pending(MainCommand::Rest));
    assert_eq!(container.locations.get(mob), Some(room1));

    let r = handle(&mut container, mob, "hire", |_| true);
    assert_eq!(r.unwrap(), MainOutcome::Action(ConnectionViewAction::NoAction));
    assert_eq!(messages(&mut container), vec!["You can hire the following:\n".to_string()]);

    builder::add_item(&mut container, "sword", room1);
    let r = handle(&mut container, mob, "get sword", |_| true);
    assert!(r.is_ok());
    assert_eq!(messages(&mut container), vec!["you pick a sword from the floor".to_string()]);
}

#[test]
fn moving_takes_the_followers_along() {
    let (mut container, room1, room2, mob) = world();
    let dog = builder::add_mob(&mut container, "dog", room1);
    container.mobs.add_follower(mob, dog);

    let r = handle(&mut container, mob, "s", |_| true);
    assert!(matches!(r, Err(Error::InvalidArgumentFailure)));
    assert_eq!(messages(&mut container), vec!["not possible to move to s!".to_string()]);

    let r = handle(&mut container, mob, "n", |_| true);
    assert!(r.is_ok());
    assert_eq!(container.locations.get(mob), Some(room2));
    assert_eq!(container.locations.get(dog), Some(room2));
    let outputs = container.outputs.take();
    assert_eq!(outputs.len(), 6);
    match &outputs[0] {
        Output::Private { mob_id, msg } => {
            assert_eq!(*mob_id, mob);
            assert_eq!(msg, "you move to n!\n\n[Room Two] - s\nRoom Two");
        }
        _ => panic!(),
    }
    match &outputs[1] {
        Output::Broadcast { location_id, msg, .. } => {
            assert_eq!(*location_id, room1);
            assert_eq!(msg, "hero goes to n.");
        }
        _ => panic!(),
    }
    match &outputs[2] {
        Output::Broadcast { location_id, msg, .. } => {
            assert_eq!(*location_id, room2);
            assert_eq!(msg, "hero comes from s.");
        }
        _ => panic!(),
    }
    match &outputs[3] {
        Output::Private { mob_id, msg } => {
            assert_eq!(*mob_id, dog);
            assert_eq!(msg, "you move to n!\n\n[Room Two] - s\nRoom Two\n- hero");
        }
        _ => panic!(),
    }
}

#[test]
fn look_lists_what_is_visible() {
    let (mut container, room1, _room2, mob) = world();
    builder::add_mob(&mut container, "rat", room1);
    let r = handle(&mut container, mob, "l", |_| true);
    assert!(r.is_ok());
    assert_eq!(messages(&mut container), vec!["[Room One] - n\nRoom One\n- rat".to_string()]);
}

#[test]
fn map_shows_the_rooms_around() {
    let (mut container, _room1, _room2, mob) = world();
    let r = handle(&mut container, mob, "map", |_| true);
    assert!(r.is_ok());
    assert_eq!(
        messages(&mut container),
        vec!["Map\n00\n||\n**\nlabels:\n00 - Room Two\n** - Room One\n".to_string()]
    );
}
