use mud_domain::controller::view_login::{handle as login_handle, handle_welcome, on_login_success, LoginResult};
use mud_domain::controller::view_main::MainCommand;
use mud_domain::controller::{ConnectionController, ConnectionViewAction, InputOutcome};
use mud_domain::game::avatars::{create_player, find_players_in, on_player_login};
use mud_domain::game::builder;
use mud_domain::game::container::Container;
use mud_domain::game::loader::apply::{ItemLoad, MobLoad, ObjLoad};
use mud_domain::ids::{ConnectionId, ObjId};

fn texts(outputs: Vec<(ConnectionId, String)>) -> Vec<(u32, String)> {
    outputs.into_iter().map(|(c, t)| (c.0, t)).collect()
}

#[test]
fn login_result_needs_more_than_three_bytes() {
    match login_handle("bob") {
        LoginResult::Msg { msg } => assert_eq!(msg, "invalid login bob\n\nlogin: "),
        _ => panic!(),
    }
    match login_handle("robert") {
        LoginResult::Login { login } => assert_eq!(login, "robert"),
        _ => panic!(),
    }
    assert_eq!(on_login_success("robert"), "login success, welcome back robert\n\n");
    assert_eq!(handle_welcome(), "Welcome to MUD\n--------------\n\nlogin: ");
}

#[test]
fn a_connection_logs_in_plays_and_logs_out() {
    let mut container = Container::new();
    let room = builder::add_room(&mut container, "Hall");
    let mut controller = ConnectionController::new();
    let conn = ConnectionId(7);

    controller.add_connection(&mut container, conn);
    assert_eq!(
        texts(controller.flush_outputs(&mut container)),
        vec![(7, "Welcome to MUD\n--------------\n\nlogin: ".to_string())]
    );

    match controller.handle_input(&mut container, conn, "ab", |_| true) {
        InputOutcome::Handled => {}
        _ => panic!(),
    }
    assert_eq!(
        texts(controller.flush_outputs(&mut container)),
        vec![(7, "invalid login ab\n\nlogin: ".to_string())]
    );

    let login = match controller.handle_input(&mut container, conn, "alice", |_| true) {
        InputOutcome::NewPlayer { login } => login,
        _ => panic!(),
    };
    assert_eq!(login, "alice");
    assert!(on_player_login(&container, "alice").is_none());

    let avatar = builder::add_mob(&mut container, "avatar", room);
    let player_id = container.objects.create();
    let created = create_player(&mut container, player_id, &login, avatar).unwrap();
    assert_eq!(created, player_id);
    assert_eq!(on_player_login(&container, "alice"), Some(player_id));
    assert!(container.mobs.is_avatar(avatar));
    assert_eq!(container.labels.get_label(avatar), Some("alice"));
    assert_eq!(find_players_in(&container, room), vec![player_id]);

    assert!(controller.apply_action(&mut container, conn, ConnectionViewAction::Login(player_id)).is_ok());
    assert_eq!(controller.connection_id_from_player_id(player_id), Some(conn));
    assert_eq!(controller.player_id_from_connection_id(conn), Some(player_id));
    assert_eq!(
        texts(controller.flush_outputs(&mut container)),
        vec![
            (7, "login success, welcome back alice\n\n".to_string()),
            (7, "[Hall] - \nHall\n".to_string()),
        ]
    );

    match controller.handle_input(&mut container, conn, "rest", |_| true) {
        InputOutcome::Game(MainCommand::Rest) => {}
        _ => panic!(),
    }

    match controller.handle_input(&mut container, conn, "look", |_| true) {
        InputOutcome::Handled => {}
        _ => panic!(),
    }
    assert_eq!(texts(controller.flush_outputs(&mut container)), vec![(7, "[Hall] - \nHall\n".to_string())]);

    match controller.handle_input(&mut container, conn, "logout", |_| true) {
        InputOutcome::Handled => {}
        _ => panic!(),
    }
    assert_eq!(controller.player_id_from_connection_id(conn), None);
    assert_eq!(controller.connection_id_from_player_id(player_id), None);
    assert_eq!(
        texts(controller.flush_outputs(&mut container)),
        vec![(7, "Welcome to MUD\n--------------\n\nlogin: ".to_string())]
    );

    controller.disconnect(&mut container, conn);
    assert_eq!(controller.player_id_from_connection_id(conn), None);
}

#[test]
fn messages_without_input_start_with_a_new_line() {
    let mut container = Container::new();
    let room = builder::add_room(&mut container, "Hall");
    let mut controller = ConnectionController::new();
    let conn = ConnectionId(1);
    controller.add_connection(&mut container, conn);
    let avatar = builder::add_mob(&mut container, "avatar", room);
    let player_id = container.objects.create();
    create_player(&mut container, player_id, "carol", avatar).unwrap();
    controller.apply_action(&mut container, conn, ConnectionViewAction::Login(player_id)).unwrap();
    controller.flush_outputs(&mut container);

    container.outputs.private(avatar, "hello".to_string());
    container.outputs.broadcast(None, room, "all".to_string());
    container.outputs.broadcast(Some(avatar), room, "others".to_string());
    assert_eq!(
        texts(controller.flush_outputs(&mut container)),
        vec![(1, "\n".to_string()), (1, "hello\n".to_string()), (1, "all\n".to_string())]
    );
}

#[test]
fn admin_outputs_are_followed_by_empty_lines() {
    let mut container = Container::new();
    let mut controller = ConnectionController::new();
    let conn = ConnectionId(3);
    controller.add_connection(&mut container, conn);
    controller.flush_outputs(&mut container);
    controller.add_admin_outputs(conn, vec!["a".to_string(), "b".to_string()]);
    assert_eq!(
        texts(controller.flush_outputs(&mut container)),
        vec![(3, "a".to_string()), (3, "\n".to_string()), (3, "b".to_string()), (3, "\n".to_string())]
    );
}

#[test]
fn a_connection_that_leaves_is_forgotten() {
    let mut container = Container::new();
    let mut controller = ConnectionController::new();
    controller.add_connection(&mut container, ConnectionId(7));
    assert!(controller.player_id_from_connection_id(ConnectionId(7)).is_none());
    controller.disconnect(&mut container, ConnectionId(7));
    controller.add_connection(&mut container, ConnectionId(8));
    let outputs = texts(controller.flush_outputs(&mut container));
    assert!(outputs.iter().all(|(id, _)| *id == 7 || *id == 8));
}

#[test]
fn a_new_login_gets_a_player_and_an_avatar_in_the_initial_room() {
    let mut container = Container::new();
    let room = builder::add_room(&mut container, "Hall");
    container.config.initial_room = Some(room);
    container.config.avatar = Some(ObjLoad {
        id: 8,
        parent: None,
        label: Some("avatar".to_string()),
        desc: None,
        mob: Some(MobLoad {
            attack: 12,
            defense: 11,
            damage_min: 1,
            damage_max: 4,
            pv: 9,
            pv_max: 10,
            xp: 0,
            hire_cost: None,
        }),
        room: None,
        item: None,
        player: None,
        ai: None,
        astro_body: None,
    });
    let mut controller = ConnectionController::new();
    let conn = ConnectionId(3);
    controller.add_connection(&mut container, conn);
    controller.flush_outputs(&mut container);

    match controller.handle_input(&mut container, conn, "dave", |_| true) {
        InputOutcome::Handled => {}
        _ => panic!(),
    }
    let player_id = on_player_login(&container, "dave").unwrap();
    assert_eq!(player_id, ObjId(1));
    assert_eq!(controller.player_id_from_connection_id(conn), Some(player_id));
    assert_eq!(controller.connection_id_from_player_id(player_id), Some(conn));
    let avatar = ObjId(2);
    assert!(container.mobs.is_avatar(avatar));
    assert_eq!(container.mobs.get(avatar).unwrap().attributes.attack, 12);
    assert_eq!(container.labels.get_label(avatar), Some("dave"));
    assert_eq!(container.locations.get(avatar), Some(room));
    assert_eq!(find_players_in(&container, room), vec![player_id]);
    assert_eq!(
        texts(controller.flush_outputs(&mut container)),
        vec![
            (3, "login success, welcome back dave\n\n".to_string()),
            (3, "[Hall] - \nHall\n".to_string()),
        ]
    );
}

#[test]
fn a_new_login_spawns_an_avatar_prefab_with_a_parent_and_an_empty_item() {
    let mut container = Container::new();
    let room = builder::add_room(&mut container, "Hall");
    container.config.initial_room = Some(room);
    container.config.avatar = Some(ObjLoad {
        id: 8,
        parent: Some(room.0),
        label: Some("avatar".to_string()),
        desc: None,
        mob: Some(MobLoad {
            attack: 1,
            defense: 1,
            damage_min: 1,
            damage_max: 2,
            pv: 5,
            pv_max: 5,
            xp: 0,
            hire_cost: None,
        }),
        room: None,
        item: Some(ItemLoad { flags: None, amount: Some(0), weapon: None, armor: None }),
        player: None,
        ai: None,
        astro_body: None,
    });
    let mut controller = ConnectionController::new();
    let conn = ConnectionId(4);
    controller.add_connection(&mut container, conn);
    controller.flush_outputs(&mut container);
    match controller.handle_input(&mut container, conn, "erin", |_| true) {
        InputOutcome::Handled => {}
        _ => panic!(),
    }
    let player_id = on_player_login(&container, "erin").unwrap();
    assert_eq!(controller.player_id_from_connection_id(conn), Some(player_id));
    assert_eq!(container.locations.get(ObjId(2)), Some(room));
    assert_eq!(container.labels.get_label(ObjId(2)), Some("erin"));
}
