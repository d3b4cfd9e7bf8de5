use mud_domain::controller::view_admin::{
    add_request, get_request, spawn_request, GetTarget,
    handle, handle_list, parse_u32, print_one, AdminCommand, AdminOutcome, ObjSummary, VecStringFilter,
};
use mud_domain::controller::{ConnectionController, ConnectionView, ConnectionViewAction, InputOutcome};
use mud_domain::game::builder;
use mud_domain::game::container::Container;
use mud_domain::ids::{ConnectionId, ObjId, StaticId};
use mud_domain::utils::strinput::StrInput;

fn entry(id: u32, label: &str, parent: Option<u32>) -> ObjSummary {
    ObjSummary {
        id,
        label: Some(label.to_string()),
        parent,
        children: None,
        is_room: false,
        is_mob: false,
        is_item: false,
    }
}

#[test]
fn numbers_are_read_as_from_str_reads_them() {
    assert_eq!(parse_u32("0"), Some(0));
    assert_eq!(parse_u32("42"), Some(42));
    assert_eq!(parse_u32("+7"), Some(7));
    assert_eq!(parse_u32("4294967295"), Some(4294967295));
    assert_eq!(parse_u32("4294967296"), None);
    assert_eq!(parse_u32(""), None);
    assert_eq!(parse_u32("+"), None);
    assert_eq!(parse_u32("-1"), None);
    assert_eq!(parse_u32("1a"), None);
    for s in ["0", "12", "+3", "99999999999", "x"] {
        assert_eq!(parse_u32(s), s.parse::<u32>().ok());
    }
}

#[test]
fn filter_takes_the_kinds_out_of_the_words() {
    let f = VecStringFilter::new(vec!["room".to_string(), "big".to_string(), "mob".to_string(), "room".to_string()]);
    assert_eq!(f.labels, vec!["big".to_string(), "room".to_string()]);
    assert_eq!(f.is_mob, Some(true));
    assert_eq!(f.is_room, Some(true));
    assert_eq!(f.is_item, None);

    let mut d = entry(12, "big hall", None);
    assert!(!f.is_visible(&d));
    d.is_room = true;
    d.is_mob = true;
    assert!(!f.is_visible(&d));
    d.label = Some("big room".to_string());
    assert!(f.is_visible(&d));

    let by_id = VecStringFilter::new(vec!["2".to_string()]);
    assert!(by_id.is_visible(&entry(12, "x", None)));
    assert!(!by_id.is_visible(&entry(13, "x", None)));
}

#[test]
fn one_line_per_object() {
    let mut d = entry(5, "box", None);
    assert_eq!(print_one(0, &d), "5) box");
    d.children = Some(vec![9, 3, 7]);
    assert_eq!(print_one(2, &d), "    5) box - [3, 7, 9]");
    d.label = None;
    d.children = Some(vec![]);
    assert_eq!(print_one(1, &d), "  5) undefined - []");
}

#[test]
fn listing_shows_the_tree() {
    let objects = vec![entry(3, "room", None), entry(1, "world", None), entry(4, "chair", Some(3)), entry(2, "table", Some(3))];
    let prefabs = vec![entry(10, "sword", None)];
    let mut outputs = vec![];
    handle_list(objects.clone(), prefabs.clone(), &mut outputs, StrInput("list")).unwrap();
    assert_eq!(
        outputs,
        vec!["", "Prefabs:", "10) sword", "", "Objects:", "1) world", "3) room", "  2) table", "  4) chair"]
    );

    let mut outputs = vec![];
    handle_list(objects.clone(), prefabs.clone(), &mut outputs, StrInput("ls o ta")).unwrap();
    assert_eq!(outputs, vec!["", "Objects:", "  2) table"]);

    let mut outputs = vec![];
    handle_list(objects, prefabs, &mut outputs, StrInput("ls p")).unwrap();
    assert_eq!(outputs, vec!["", "Prefabs:", "10) sword"]);
}

#[test]
fn admin_commands() {
    let mut container = Container::new();
    let room = builder::add_room(&mut container, "room");
    let item = builder::add_item(&mut container, "item", room);
    let mut outputs = vec![];

    assert_eq!(
        handle(&mut container, &mut outputs, "help").unwrap(),
        AdminOutcome::Action(ConnectionViewAction::NoAction)
    );
    assert_eq!(outputs, vec!["Available commands:", "list get update remove spawn exit", ""]);

    let mut outputs = vec![];
    assert_eq!(handle(&mut container, &mut outputs, "ls").unwrap(), AdminOutcome::Pending(AdminCommand::List));
    assert_eq!(handle(&mut container, &mut outputs, "g p 1").unwrap(), AdminOutcome::Pending(AdminCommand::Get));
    assert_eq!(
        handle(&mut container, &mut outputs, "exit").unwrap(),
        AdminOutcome::Action(ConnectionViewAction::SwitchView(ConnectionView::Game))
    );
    assert!(outputs.is_empty());

    handle(&mut container, &mut outputs, "remove x").unwrap();
    handle(&mut container, &mut outputs, "remove 0").unwrap();
    assert!(container.objects.exist(room));
    handle(&mut container, &mut outputs, &format!("remove {}", item.0)).unwrap();
    assert!(!container.objects.exist(item));
    handle(&mut container, &mut outputs, "fly").unwrap();
    assert_eq!(
        outputs,
        vec![
            "invalid number argument".to_string(),
            "could not remove object with children".to_string(),
            format!("object {} removed", item.0),
            "unknown command [fly]".to_string(),
        ]
    );
}

#[test]
fn admin_view_answers_through_the_connection() {
    let mut container = Container::new();
    let mut controller = ConnectionController::new();
    let conn = ConnectionId(2);
    controller.add_connection(&mut container, conn);
    controller.apply_action(&mut container, conn, ConnectionViewAction::SwitchView(ConnectionView::Admin)).unwrap();
    controller.flush_outputs(&mut container);
    match controller.handle_input(&mut container, conn, "help", |_| true) {
        InputOutcome::Handled => {}
        _ => panic!(),
    }
    match controller.handle_input(&mut container, conn, "list", |_| true) {
        InputOutcome::Admin(AdminCommand::List) => {}
        _ => panic!(),
    }
    let out: Vec<String> = controller.flush_outputs(&mut container).into_iter().map(|(_, t)| t).collect();
    assert_eq!(
        out,
        vec!["Available commands:", "\n", "list get update remove spawn exit", "\n", "", "\n"]
    );
}

#[test]
fn get_reads_the_kind_and_the_id() {
    let mut outputs: Vec<String> = vec![];
    assert_eq!(get_request(&mut outputs, StrInput("get p 12")), Some(GetTarget::Prefab(StaticId(12))));
    assert_eq!(get_request(&mut outputs, StrInput("g o 3")), Some(GetTarget::Object(ObjId(3))));
    assert!(outputs.is_empty());
    assert_eq!(get_request(&mut outputs, StrInput("get p")), None);
    assert_eq!(get_request(&mut outputs, StrInput("get p x1")), None);
    assert_eq!(get_request(&mut outputs, StrInput("get q 1")), None);
    assert_eq!(
        outputs,
        vec![
            "invalid number argument".to_string(),
            "invalid id \"x1\"".to_string(),
            "invalid type \"q\", only p (prefab) and o (object) are supported".to_string(),
        ]
    );
}

#[test]
fn spawn_reads_the_prefab_and_the_parent() {
    let mut outputs: Vec<String> = vec![];
    assert_eq!(spawn_request(&mut outputs, StrInput("spawn 5 7")), Some((StaticId(5), ObjId(7))));
    assert!(outputs.is_empty());
    assert_eq!(spawn_request(&mut outputs, StrInput("spawn 5")), None);
    assert_eq!(
        outputs,
        vec!["invalid arguments [\"5\"]".to_string(), "spawn <static_id> <parent_obj_id>".to_string()]
    );
}

#[test]
fn add_needs_the_kind_before_the_data() {
    let mut outputs: Vec<String> = vec![];
    assert_eq!(add_request(&mut outputs, StrInput("add p {\"label\": \"x\"}")), Some((true, "{\"label\": \"x\"}")));
    assert_eq!(add_request(&mut outputs, StrInput("add o {}")), Some((false, "{}")));
    assert!(outputs.is_empty());
    assert_eq!(add_request(&mut outputs, StrInput("add {}")), None);
    assert_eq!(outputs, vec!["you need to specific p or o as first argument".to_string()]);
}

#[test]
fn written_ids_read_back() {
    for n in [0u32, 7, 10, 99, 12345, u32::MAX] {
        assert_eq!(parse_u32(&n.to_string()), Some(n));
    }
}
