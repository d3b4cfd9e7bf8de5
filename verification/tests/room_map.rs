use mud_domain::game::actions::{generate_room_maps, move_is_allowed, out_is_allowed};
use mud_domain::game::builder;
use mud_domain::game::container::Container;
use mud_domain::game::comm::RoomMapCell;
use mud_domain::game::domain::Dir;
use mud_domain::game::room::{Room, RoomRepository};
use mud_domain::ids::ObjId;

fn rooms_scenery() -> RoomRepository {
    /*
        0 1-2
        | | |
        3-4-5
    */

    let mut rooms = RoomRepository::new();
    rooms.add(Room::new(ObjId(0)));
    rooms.add(Room::new(ObjId(1)));
    rooms.add(Room::new(ObjId(2)));
    rooms.add(Room::new(ObjId(3)));
    rooms.add(Room::new(ObjId(4)));
    rooms.add(Room::new(ObjId(5)));

    rooms.add_portal(ObjId(0), ObjId(3), Dir::S);
    rooms.add_portal(ObjId(1), ObjId(2), Dir::E);
    rooms.add_portal(ObjId(1), ObjId(4), Dir::S);
    rooms.add_portal(ObjId(2), ObjId(5), Dir::S);
    rooms.add_portal(ObjId(3), ObjId(4), Dir::E);
    rooms.add_portal(ObjId(4), ObjId(5), Dir::E);
    rooms
}

#[test]
fn test_generate_room_maps() {
    let rooms = rooms_scenery();

    // 0 1
    // | |
    // 3-4
    let room_map = generate_room_maps(ObjId(0), 1, &rooms).unwrap();

    assert_eq!(room_map.width, 3);
    assert_eq!(room_map.height, 3);

    let expected = vec![
        RoomMapCell::Room(ObjId(0)),
        RoomMapCell::Empty,
        RoomMapCell::Room(ObjId(1)),
        RoomMapCell::DoorVer,
        RoomMapCell::Empty,
        RoomMapCell::DoorVer,
        RoomMapCell::Room(ObjId(3)),
        RoomMapCell::DoorHor,
        RoomMapCell::Room(ObjId(4)),
    ];

    assert_eq!(room_map.cells, expected);

    // 0 1-2
    // | | |
    // 3-4-5
    let room_map = generate_room_maps(ObjId(0), 2, &rooms).unwrap();

    assert_eq!(room_map.width, 5);
    assert_eq!(room_map.height, 3);

    let expected = vec![
        RoomMapCell::Room(ObjId(0)),
        RoomMapCell::Empty,
        RoomMapCell::Room(ObjId(1)),
        RoomMapCell::DoorHor,
        RoomMapCell::Room(ObjId(2)),
        RoomMapCell::DoorVer,
        RoomMapCell::Empty,
        RoomMapCell::DoorVer,
        RoomMapCell::Empty,
        RoomMapCell::DoorVer,
        RoomMapCell::Room(ObjId(3)),
        RoomMapCell::DoorHor,
        RoomMapCell::Room(ObjId(4)),
        RoomMapCell::DoorHor,
        RoomMapCell::Room(ObjId(5)),
    ];

    assert_eq!(room_map.cells, expected);
}

#[test]
fn room_map_of_a_single_room_is_one_cell() {
    let mut rooms = RoomRepository::new();
    rooms.add(Room::new(ObjId(7)));
    let map = generate_room_maps(ObjId(7), 3, &rooms).unwrap();
    assert_eq!((map.width, map.height), (1, 1));
    assert_eq!(map.cells, vec![RoomMapCell::Room(ObjId(7))]);
}

#[test]
fn room_map_fails_on_missing_room() {
    let rooms = RoomRepository::new();
    assert!(generate_room_maps(ObjId(1), 3, &rooms).is_err());
}

#[test]
fn room_exit_lookup_finds_first_in_direction() {
    let rooms = rooms_scenery();
    let room = rooms.get(ObjId(4)).unwrap();
    assert_eq!(room.get_exit(&Dir::N), Some(ObjId(1)));
    assert_eq!(room.get_exit(&Dir::W), None);
    // the way back of an east exit is east again: `Dir::inv` keeps east and west
    assert_eq!(room.get_exit(&Dir::E), Some(ObjId(3)));
}

#[test]
fn a_portal_leads_both_ways() {
    let mut rooms = RoomRepository::new();
    rooms.add(Room::new(ObjId(0)));
    rooms.add(Room::new(ObjId(1)));
    rooms.add_portal(ObjId(0), ObjId(1), Dir::N);
    assert_eq!(rooms.get(ObjId(0)).unwrap().get_exit(&Dir::N), Some(ObjId(1)));
    assert_eq!(rooms.get(ObjId(1)).unwrap().get_exit(&Dir::N.inv()), Some(ObjId(0)));
}

#[test]
fn directions_read_back_and_invert_twice() {
    for d in [Dir::N, Dir::S, Dir::E, Dir::W] {
        assert_eq!(Dir::parse(d.as_str()).ok(), Some(d));
        assert_eq!(d.inv().inv(), d);
    }
    assert_eq!(Dir::N.inv(), Dir::S);
}

#[test]
fn moves_and_exits_are_checked_before_they_are_tried() {
    let mut container = Container::new();
    let hall = builder::add_room(&mut container, "Hall");
    let mob = builder::add_mob(&mut container, "walker", hall);
    assert!(move_is_allowed(&container, mob, Dir::N));
    assert!(out_is_allowed(&container, mob));

    let attic = container.objects.create();
    container.rooms.add(Room::new(attic));
    builder::add_portal(&mut container, hall, attic, Dir::N);
    assert!(!move_is_allowed(&container, mob, Dir::N));
    assert!(move_is_allowed(&container, mob, Dir::S));

    let yard = builder::add_room(&mut container, "Yard");
    builder::add_portal(&mut container, hall, yard, Dir::S);
    assert!(move_is_allowed(&container, mob, Dir::S));
}
