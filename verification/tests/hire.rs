use mud_domain::controller::input_handle_hire;
use mud_domain::errors::Error;
use mud_domain::game::actions_command::{list_commands_for, set_command_follow, RequestCommand};
use mud_domain::game::actions_hire;
use mud_domain::game::ai::{parse_ai, serialize_ai, Ai, AiCommand, AiCommandHaulData, AiData, AiRepo};
use mud_domain::game::builder;
use mud_domain::game::container::Container;
use mud_domain::game::extractable::{Extractable, Extractables};
use mud_domain::game::hire::{Hire, Hires};
use mud_domain::game::outputs::Output;
use mud_domain::game::prices::Money;
use mud_domain::ids::{ObjId, StaticId};
use mud_domain::utils::strinput::StrInput;

fn private_messages(container: &mut Container) -> Vec<String> {
    container
        .outputs
        .take()
        .into_iter()
        .filter_map(|o| match o {
            Output::Private { msg, .. } => Some(msg),
            _ => None,
        })
        .collect()
}

struct Scenery {
    container: Container,
    mob_id: ObjId,
    guard_id: ObjId,
}

fn setup() -> Scenery {
    let mut container = Container::new();
    let room_id = builder::add_room(&mut container, "room");
    let mob_id = builder::add_mob(&mut container, "player", room_id);
    let guard_id = builder::add_mob(&mut container, "guard", room_id);
    let _ = builder::add_mob(&mut container, "cat", room_id);
    container.hires.add(Hire { id: guard_id, cost: Money(10) }).unwrap();
    Scenery { container, mob_id, guard_id }
}

#[test]
fn hires_refuse_a_second_hire_of_the_same_mob() {
    let mut hires = Hires::new();
    assert!(hires.add(Hire::new(ObjId(3))).is_ok());
    assert!(matches!(hires.add(Hire::new(ObjId(3))), Err(Error::ConflictException)));
    assert!(hires.exist(ObjId(3)));
    assert_eq!(hires.list(), vec![ObjId(3)]);
    assert_eq!(hires.remove(ObjId(3)).map(|h| h.cost), Some(Money(0)));
    assert!(!hires.exist(ObjId(3)));
}

#[test]
fn extractables_refuse_a_second_entry_for_an_object() {
    let mut extractables = Extractables::new();
    let e = Extractable { id: ObjId(1), prefab_id: StaticId(7) };
    assert!(extractables.add(e).is_ok());
    assert!(matches!(extractables.add(e), Err(Error::ConflictException)));
    assert_eq!(extractables.get(ObjId(1)).map(|e| e.prefab_id), Some(StaticId(7)));
    assert_eq!(extractables.list_ids(), vec![ObjId(1)]);
}

#[test]
fn hiring_makes_the_hired_mob_follow() {
    let mut scenery = setup();
    assert!(actions_hire::hire(&mut scenery.container, scenery.mob_id, scenery.guard_id).is_ok());
    assert_eq!(scenery.container.mobs.get(scenery.mob_id).unwrap().followers, vec![scenery.guard_id]);
    let outputs = scenery.container.outputs.take();
    assert_eq!(outputs.len(), 2);
    match &outputs[0] {
        Output::Private { msg, .. } => assert_eq!(msg, "guard hired"),
        other => panic!("unexpected {:?}", other),
    }
    match &outputs[1] {
        Output::Broadcast { msg, .. } => assert_eq!(msg, "player hired guard"),
        other => panic!("unexpected {:?}", other),
    }
}

#[test]
fn hiring_from_nowhere_fails() {
    let mut container = Container::new();
    let mob_id = container.objects.create();
    assert!(matches!(actions_hire::hire(&mut container, mob_id, ObjId(99)), Err(Error::InvalidStateFailure)));
    assert_eq!(private_messages(&mut container), vec!["you can not hire now".to_string()]);
}

#[test]
fn hire_command_lists_finds_and_refuses() {
    let mut scenery = setup();
    assert!(input_handle_hire::hire(&mut scenery.container, scenery.mob_id, StrInput("hire")).is_ok());
    assert_eq!(private_messages(&mut scenery.container), vec!["You can hire the following:\n - guard\n".to_string()]);

    assert!(matches!(
        input_handle_hire::hire(&mut scenery.container, scenery.mob_id, StrInput("hire cat")),
        Err(Error::NotFoundFailure)
    ));
    assert_eq!(
        private_messages(&mut scenery.container),
        vec!["you can not hire cat".to_string(), "You can hire the following:\n - guard\n".to_string()]
    );

    assert!(input_handle_hire::hire(&mut scenery.container, scenery.mob_id, StrInput("hire gua")).is_ok());
    assert_eq!(scenery.container.mobs.get(scenery.mob_id).unwrap().followers, vec![scenery.guard_id]);
}

#[test]
fn ai_written_down_reads_back_the_same() {
    let commands = vec![
        AiCommand::Idle,
        AiCommand::Aggressive,
        AiCommand::AggressivePatrolHome { distance: 3 },
        AiCommand::FollowAndProtect { target_id: ObjId(4) },
        AiCommand::Hauler { from: ObjId(1), to: ObjId(2), wares: vec![ObjId(5), ObjId(6)] },
    ];
    for command in commands {
        let ai = Ai { id: ObjId(9), command, commandable: true };
        let data = serialize_ai(&ai);
        assert_eq!(parse_ai(ObjId(9), &data), ai);
    }
    let passive = Ai { id: ObjId(9), command: AiCommand::Passive, commandable: false };
    assert_eq!(parse_ai(ObjId(9), &serialize_ai(&passive)).command, AiCommand::Idle);
}

#[test]
fn ai_data_takes_the_first_command_set() {
    let data = AiData {
        command_aggressive: Some(false),
        command_follow_and_protect: None,
        command_haul: Some(AiCommandHaulData { from_id: ObjId(1), to_id: ObjId(2), targets: vec![] }),
        command_aggressive_patrol_home: None,
        commandable: Some(false),
    };
    let ai = parse_ai(ObjId(3), &data);
    assert_eq!(ai.command, AiCommand::Hauler { from: ObjId(1), to: ObjId(2), wares: vec![] });
    assert!(!ai.commandable);

    let mut repo = AiRepo::new();
    assert!(repo.add_or_update(ai.clone()).is_ok());
    assert!(matches!(repo.add_or_update(ai), Err(Error::ConflictException)));
    assert!(repo.set_command(ObjId(3), AiCommand::Aggressive).is_ok());
    assert_eq!(repo.get(ObjId(3)).unwrap().command, AiCommand::Aggressive);
    assert!(matches!(repo.set_command(ObjId(4), AiCommand::Idle), Err(Error::NotFoundFailure)));
}

#[test]
fn mob_and_player_contexts() {
    let scenery = setup();
    let ctx = scenery.container.get_mob_ctx(scenery.mob_id).unwrap();
    assert_eq!(ctx.mob.id, scenery.mob_id);
    assert!(scenery.container.get_mob_ctx(ObjId(999)).is_none());
    assert!(scenery.container.get_player_ctx(ObjId(999)).is_none());
}

#[test]
fn commands_follow_and_list() {
    let mut scenery = setup();
    assert_eq!(
        list_commands_for(&scenery.container, scenery.guard_id).unwrap(),
        vec![RequestCommand::Idle, RequestCommand::FollowMe, RequestCommand::Extract]
    );
    match set_command_follow(&mut scenery.container, scenery.guard_id, scenery.mob_id) {
        Err(Error::Failure(msg)) => assert_eq!(msg, "target object expected to have AI"),
        other => panic!("unexpected {:?}", other),
    }
    scenery.container.ai.add_or_update(Ai::new(scenery.guard_id)).unwrap();
    assert!(set_command_follow(&mut scenery.container, scenery.guard_id, scenery.mob_id).is_ok());
    assert_eq!(
        scenery.container.ai.get(scenery.guard_id).unwrap().command,
        AiCommand::FollowAndProtect { target_id: scenery.mob_id }
    );
    assert_eq!(scenery.container.mobs.get(scenery.mob_id).unwrap().followers, vec![scenery.guard_id]);
}
