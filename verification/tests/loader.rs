use mud_domain::game::ai::{AiCommand, AiData, AiRepo};
use mud_domain::errors::Error;
use mud_domain::game::loader::extend::{extend_conflict, ExtendConflict};
use mud_domain::game::loader::report::{config_report, tree_listing};
use mud_domain::game::loader::{validate_and_normalize, Loader, PrefabSummary, TagsData, ValidationResult};
use mud_domain::game::builder;
use mud_domain::game::container::Container;
use mud_domain::game::domain::Dir;
use mud_domain::game::astro_bodies::AstroBodyKind;
use mud_domain::game::loader::apply::{AstroBodyLoad, ExitLoad, ItemFlagsLoad, ItemLoad, MobLoad, ObjLoad, RoomLoad, WeaponLoad};
use mud_domain::ids::{ObjId, StaticId};
use std::collections::HashMap;

fn prefab(id: u32, parent: Option<u32>) -> PrefabSummary {
    let mut data = PrefabSummary::new(StaticId(id));
    data.parent = parent.map(StaticId);
    data
}

fn sorted(mut v: Vec<StaticId>) -> Vec<StaticId> {
    v.sort();
    v
}

#[test]
fn test_find_prefab_by_tags_or() {
    let mut loader = Loader::new();

    let mut data1 = PrefabSummary::new(StaticId(0));
    data1.tags = Some(TagsData { values: vec!["tag_a".to_string()] });
    loader.add_prefab(data1);

    let mut data2 = PrefabSummary::new(StaticId(1));
    data2.tags = Some(TagsData { values: vec!["tag_b".to_string()] });
    loader.add_prefab(data2);

    let search_tags = vec!["tag_a"];
    let result = loader.find_prefabs_by_tags_or(&search_tags);
    let mut result = result.into_iter();
    assert!(result.next().is_some());
    assert!(result.next().is_none());
}

#[test]
fn prefabs_are_found_by_parent_and_below() {
    let mut loader = Loader::new();
    loader.add_prefab(prefab(1, None));
    loader.add_prefab(prefab(2, Some(1)));
    loader.add_prefab(prefab(3, Some(1)));
    loader.add_prefab(prefab(4, Some(3)));
    loader.add_prefab(prefab(5, None));
    assert_eq!(sorted(loader.find_prefabs_by_parent(StaticId(1))), vec![StaticId(2), StaticId(3)]);
    assert_eq!(
        sorted(loader.find_deep_prefabs_by_parents(StaticId(1))),
        vec![StaticId(2), StaticId(3), StaticId(4)]
    );
    assert!(loader.find_deep_prefabs_by_parents(StaticId(5)).is_empty());
    assert_eq!(sorted(loader.list_prefabs()).len(), 5);
}

#[test]
fn prefab_labels() {
    let mut loader = Loader::new();
    let mut data = prefab(7, None);
    data.label = Some("sword".to_string());
    loader.add_prefab(data);
    loader.add_prefab(prefab(8, None));
    assert_eq!(loader.get_prefab_label(StaticId(7)), Some("sword"));
    assert_eq!(loader.get_prefab_label(StaticId(8)), None);
    assert_eq!(loader.get_prefab_label(StaticId(9)), None);
}

#[test]
fn ai_data_is_applied_once() {
    let mut repo = AiRepo::new();
    let data = AiData {
        command_aggressive: Some(true),
        command_follow_and_protect: None,
        command_haul: None,
        command_aggressive_patrol_home: None,
        commandable: None,
    };
    assert!(Loader::apply_ai_data(&mut repo, ObjId(2), &data).is_ok());
    assert_eq!(repo.get(ObjId(2)).unwrap().command, AiCommand::Aggressive);
    let idle = AiData { command_aggressive: None, ..data };
    assert!(Loader::apply_ai_data(&mut repo, ObjId(2), &idle).is_ok());
    assert_eq!(repo.get(ObjId(2)).unwrap().command, AiCommand::Aggressive);
}

#[test]
fn ids_are_normalized_and_checked() {
    let mut objects = vec![(StaticId(1), None), (StaticId(2), Some(StaticId(2))), (StaticId(3), Some(StaticId(9)))];
    let mut prefabs = vec![(StaticId(4), Some(StaticId(1))), (StaticId(5), None)];
    let result = validate_and_normalize(&mut objects, &mut prefabs);
    assert_eq!(objects, vec![(StaticId(1), Some(StaticId(1))), (StaticId(2), Some(StaticId(2))), (StaticId(3), Some(StaticId(9)))]);
    assert_eq!(prefabs, vec![(StaticId(4), Some(StaticId(1))), (StaticId(5), Some(StaticId(5)))]);
    assert_eq!(result.mismatch_ids, vec![(StaticId(3), StaticId(9)), (StaticId(4), StaticId(1))]);
    assert_eq!(result.duplicate_ids, vec![StaticId(4)]);
    match result.assert_valid() {
        Err(Error::Error(msg)) => assert_eq!(msg, "conflict object id StaticId(3) and StaticId(9)"),
        other => panic!("unexpected {:?}", other),
    }
}

#[test]
fn duplicates_alone_are_reported() {
    let mut objects = vec![(StaticId(1), None)];
    let mut prefabs = vec![(StaticId(1), None)];
    let result = validate_and_normalize(&mut objects, &mut prefabs);
    assert!(result.mismatch_ids.is_empty());
    match result.assert_valid() {
        Err(Error::Error(msg)) => assert_eq!(msg, format!("duplicate prefab id {:?}", StaticId(1))),
        other => panic!("unexpected {:?}", other),
    }
    let mut objects = vec![(StaticId(1), None)];
    let mut prefabs = vec![(StaticId(2), None)];
    assert!(validate_and_normalize(&mut objects, &mut prefabs).assert_valid().is_ok());
}

#[test]
fn checking_twice_finds_the_same() {
    let mut objects = vec![(StaticId(1), None), (StaticId(3), Some(StaticId(9)))];
    let mut prefabs = vec![(StaticId(4), Some(StaticId(1)))];
    let first = validate_and_normalize(&mut objects, &mut prefabs);
    let (o1, p1) = (objects.clone(), prefabs.clone());
    let second = validate_and_normalize(&mut objects, &mut prefabs);
    assert_eq!(objects, o1);
    assert_eq!(prefabs, p1);
    assert_eq!(first.mismatch_ids, second.mismatch_ids);
    assert_eq!(first.duplicate_ids, second.duplicate_ids);
}

#[test]
fn config_report_gives_next_free_and_broken_ids() {
    let objects = vec![(3, None), (7, Some(3)), (5, Some(3))];
    let prefabs = vec![(0, None), (2, Some(0)), (5, None)];
    let validation = ValidationResult {
        duplicate_ids: vec![StaticId(7), StaticId(2)],
        mismatch_ids: vec![(StaticId(1), StaticId(4)), (StaticId(4), StaticId(7))],
    };
    let report = config_report(&objects, &prefabs, &validation);
    assert_eq!(report.next_id, 8);
    assert_eq!(report.next_prefab_id, 6);
    assert_eq!(report.free_prefab_ids, vec![1, 3, 4]);
    let mut broken = report.broken_ids.clone();
    broken.sort();
    assert_eq!(broken, vec![1, 2, 4, 7]);
    assert_eq!(report.broken_ids.len(), 4);

    let empty = config_report(&vec![], &vec![], &ValidationResult { duplicate_ids: vec![], mismatch_ids: vec![] });
    assert_eq!(empty.next_id, 1);
    assert_eq!(empty.next_prefab_id, 1);
    assert!(empty.free_prefab_ids.is_empty());
    assert!(empty.broken_ids.is_empty());
}

fn sword(parent: Option<u32>) -> ObjLoad {
    ObjLoad {
        id: 5,
        parent,
        label: Some("sword".to_string()),
        desc: None,
        mob: None,
        room: None,
        item: Some(ItemLoad {
            flags: Some(ItemFlagsLoad { money: None, inventory: None, stuck: Some(true), body: None }),
            amount: None,
            weapon: Some(WeaponLoad { min: 2, max: 6, attack: 1 }),
            armor: None,
        }),
        player: None,
        ai: None,
        astro_body: None,
    }
}

#[test]
fn apply_data_gives_the_object_what_its_data_says() {
    let mut container = Container::new();
    let hall = builder::add_room(&mut container, "Hall");
    let obj = container.objects.create();
    let refs: HashMap<u32, ObjId> = HashMap::new();
    assert!(Loader::apply_data(&mut container, obj, &sword(Some(hall.0)), &refs).is_ok());
    assert_eq!(container.labels.get_label(obj), Some("sword"));
    assert_eq!(container.locations.get(obj), Some(hall));
    let item = container.items.get(obj).unwrap();
    assert_eq!(item.amount, 1);
    assert!(item.flags.is_stuck && !item.flags.is_money);
    assert_eq!(item.weapon.unwrap().damage.max, 6);

    let room = container.objects.create();
    let mut refs = HashMap::new();
    refs.insert(70, hall);
    let data = ObjLoad {
        id: 71,
        parent: None,
        label: Some("Yard".to_string()),
        desc: Some("a yard".to_string()),
        mob: None,
        room: Some(RoomLoad { can_exit: Some(true), exits: Some(vec![ExitLoad { dir: "n".to_string(), to: 70 }]) }),
        item: None,
        player: None,
        ai: None,
        astro_body: None,
    };
    assert!(Loader::apply_data(&mut container, room, &data, &refs).is_ok());
    assert_eq!(*container.rooms.get_portals(room).unwrap(), vec![(Dir::N, hall)]);
}

#[test]
fn apply_data_fails_on_an_unknown_static_id() {
    let mut container = Container::new();
    let obj = container.objects.create();
    let refs: HashMap<u32, ObjId> = HashMap::new();
    match Loader::apply_data(&mut container, obj, &sword(Some(99)), &refs) {
        Err(Error::Failure(msg)) => assert_eq!(msg, "Static id StaticId(99) can not be resolved"),
        _ => panic!(),
    }
    assert!(container.labels.get_label(obj).is_none());
    assert!(container.items.get(obj).is_none());
}

#[test]
fn snapshot_writes_down_what_was_loaded() {
    let mut container = Container::new();
    let hall = builder::add_room(&mut container, "Hall");
    let obj = container.objects.create();
    let refs: HashMap<u32, ObjId> = HashMap::new();
    let mut data = sword(Some(hall.0));
    data.id = obj.0;
    Loader::apply_data(&mut container, obj, &data, &refs).unwrap();
    let snap = Loader::snapshot_obj(&container, obj).unwrap();
    assert_eq!(snap.id, obj.0);
    assert_eq!(snap.parent, Some(hall.0));
    assert_eq!(snap.label, Some("sword".to_string()));
    assert_eq!(snap.desc, None);
    let item = snap.item.unwrap();
    assert_eq!(item.amount, None);
    let flags = item.flags.unwrap();
    assert_eq!((flags.money, flags.inventory, flags.stuck, flags.body), (None, None, Some(true), None));
    let weapon = item.weapon.unwrap();
    assert_eq!((weapon.min, weapon.max, weapon.attack), (2, 6, 1));
    assert!(snap.mob.is_none() && snap.room.is_none() && snap.player.is_none() && snap.ai.is_none());

    let hall_snap = Loader::snapshot_obj(&container, hall).unwrap();
    assert_eq!(hall_snap.label, Some("Hall".to_string()));
    assert_eq!(hall_snap.desc, Some("Hall".to_string()));
    let room = hall_snap.room.unwrap();
    assert_eq!(room.can_exit, None);
    assert!(room.exits.unwrap().is_empty());
}

#[test]
fn joining_data_finds_the_first_conflict() {
    let none: Vec<u32> = vec![];
    assert_eq!(extend_conflict(1, 2, false, false, &none, &none, &none, &none), Some(ExtendConflict::VersionMismatch));
    assert_eq!(extend_conflict(5, 5, true, true, &none, &none, &none, &none), Some(ExtendConflict::CfgTwice));
    assert_eq!(
        extend_conflict(5, 5, true, false, &vec![1, 2, 3], &vec![9, 3, 2], &vec![4], &vec![4]),
        Some(ExtendConflict::Prefab(3))
    );
    assert_eq!(extend_conflict(5, 5, false, true, &vec![1], &vec![2], &vec![4, 6], &vec![7, 6]), Some(ExtendConflict::Object(6)));
    assert_eq!(extend_conflict(5, 5, false, true, &vec![1], &vec![2], &vec![4], &vec![7]), None);
}

#[test]
fn tree_listing_goes_down_each_root_in_increasing_order() {
    let es = vec![
        (5, Some(1)),
        (3, None),
        (1, None),
        (4, Some(1)),
        (7, Some(4)),
        (2, Some(3)),
    ];
    assert_eq!(tree_listing(&es), vec![(0, 1), (1, 4), (2, 7), (1, 5), (0, 3), (1, 2)]);
}

#[test]
fn tree_listing_skips_entries_under_a_missing_parent() {
    let es = vec![(1, None), (2, Some(9)), (3, Some(2))];
    assert_eq!(tree_listing(&es), vec![(0, 1)]);
}

#[test]
fn tree_listing_of_nothing_is_empty() {
    assert_eq!(tree_listing(&vec![]), vec![]);
}

#[test]
fn tree_listing_lists_a_repeated_child_once() {
    let es = vec![(1, None), (2, Some(1)), (2, Some(1))];
    assert_eq!(tree_listing(&es), vec![(0, 1), (1, 2)]);
}

#[test]
fn apply_data_loads_an_unlabelled_item_of_no_amount_under_a_parent() {
    let mut container = Container::new();
    let hall = builder::add_room(&mut container, "Hall");
    let obj = container.objects.create();
    let refs: HashMap<u32, ObjId> = HashMap::new();
    let mut data = sword(Some(hall.0));
    data.label = None;
    data.item.as_mut().unwrap().amount = Some(0);
    assert!(Loader::apply_data(&mut container, obj, &data, &refs).is_ok());
    assert!(container.labels.get_label(obj).is_none());
    assert_eq!(container.locations.get(obj), Some(hall));
    assert_eq!(container.items.get(obj).unwrap().amount, 0);
}

#[test]
fn apply_data_stopped_by_an_exit_keeps_what_came_before() {
    let mut container = Container::new();
    let hall = builder::add_room(&mut container, "Hall");
    let obj = container.objects.create();
    let refs: HashMap<u32, ObjId> = HashMap::new();
    let data = ObjLoad {
        id: 71,
        parent: Some(hall.0),
        label: Some("Yard".to_string()),
        desc: None,
        mob: None,
        room: Some(RoomLoad { can_exit: None, exits: Some(vec![ExitLoad { dir: "n".to_string(), to: 99 }]) }),
        item: None,
        player: None,
        ai: None,
        astro_body: None,
    };
    match Loader::apply_data(&mut container, obj, &data, &refs) {
        Err(Error::Failure(msg)) => assert_eq!(msg, "Static id StaticId(99) can not be resolved"),
        _ => panic!(),
    }
    assert_eq!(container.labels.get_label(obj), Some("Yard"));
    assert_eq!(container.locations.get(obj), Some(hall));
    assert!(container.rooms.get(obj).is_none());
}

fn body(id: u32, parent: Option<u32>, kind: &str, jump_target: Option<u32>) -> ObjLoad {
    ObjLoad {
        id,
        parent,
        label: Some("Gate".to_string()),
        desc: None,
        mob: Some(MobLoad { attack: 1, defense: 2, damage_min: 1, damage_max: 2, pv: 3, pv_max: 3, xp: 0, hire_cost: None }),
        room: None,
        item: None,
        player: None,
        ai: None,
        astro_body: Some(AstroBodyLoad { kind: kind.to_string(), jump_target }),
    }
}

#[test]
fn apply_data_gives_a_jump_gate_where_it_leads() {
    let mut container = Container::new();
    let hall = builder::add_room(&mut container, "Hall");
    let obj = container.objects.create();
    let refs: HashMap<u32, ObjId> = HashMap::new();
    assert!(Loader::apply_data(&mut container, obj, &body(obj.0, Some(hall.0), "jump_gate", Some(hall.0)), &refs).is_ok());
    let b = container.astro_bodies.get(obj).unwrap();
    assert_eq!(b.kind, AstroBodyKind::JumpGate);
    assert_eq!(b.jump_target_id, Some(hall));
    let snap = Loader::snapshot_obj(&container, obj).unwrap();
    let ab = snap.astro_body.unwrap();
    assert_eq!(ab.kind, "jump_gate");
    assert_eq!(ab.jump_target, Some(hall.0));
}

#[test]
fn apply_data_does_not_read_where_another_body_leads() {
    let mut container = Container::new();
    let obj = container.objects.create();
    let refs: HashMap<u32, ObjId> = HashMap::new();
    assert!(Loader::apply_data(&mut container, obj, &body(obj.0, None, "planet", Some(99)), &refs).is_ok());
    let b = container.astro_bodies.get(obj).unwrap();
    assert_eq!(b.kind, AstroBodyKind::Planet);
    assert_eq!(b.jump_target_id, None);
}

#[test]
fn apply_data_stopped_by_a_jump_target_keeps_location_and_label_only() {
    let mut container = Container::new();
    let hall = builder::add_room(&mut container, "Hall");
    let obj = container.objects.create();
    let refs: HashMap<u32, ObjId> = HashMap::new();
    match Loader::apply_data(&mut container, obj, &body(obj.0, Some(hall.0), "jump_gate", Some(99)), &refs) {
        Err(Error::Failure(msg)) => assert_eq!(msg, "Static id StaticId(99) can not be resolved"),
        _ => panic!(),
    }
    assert_eq!(container.labels.get_label(obj), Some("Gate"));
    assert_eq!(container.locations.get(obj), Some(hall));
    assert!(container.astro_bodies.get(obj).is_none());
    assert!(container.mobs.get(obj).is_none());
}
