use mud_domain::game::astro_bodies::{find_start_of, travel_reference, AstroBodies, AstroBody, AstroBodyKind};
use mud_domain::game::location::Locations;
use mud_domain::game::actions_ships::do_jump;
use mud_domain::game::builder;
use mud_domain::game::container::Container;
use mud_domain::ids::ObjId;

///     0 - star
///         1 - planet 1
///             2 - moon 1
///                 3 - ship
///             6 - moon 2
///         4 - planet 2
///             5 - station
fn scenery_1(locations: &mut Locations, astros: &mut AstroBodies) {
    locations.set(ObjId(1), ObjId(0));
    locations.set(ObjId(2), ObjId(1));
    locations.set(ObjId(3), ObjId(2));
    locations.set(ObjId(6), ObjId(1));
    locations.set(ObjId(4), ObjId(0));
    locations.set(ObjId(5), ObjId(4));
    astros.upsert(AstroBody::new(ObjId(0), AstroBodyKind::Star));
    astros.upsert(AstroBody::new(ObjId(1), AstroBodyKind::Planet));
    astros.upsert(AstroBody::new(ObjId(2), AstroBodyKind::Moon));
    astros.upsert(AstroBody::new(ObjId(3), AstroBodyKind::Ship));
    astros.upsert(AstroBody::new(ObjId(4), AstroBodyKind::Planet));
    astros.upsert(AstroBody::new(ObjId(5), AstroBodyKind::Station));
    astros.upsert(AstroBody::new(ObjId(6), AstroBodyKind::Moon));
}

fn ids(v: &Vec<ObjId>) -> Vec<u32> {
    v.iter().map(|i| i.0).collect()
}

#[test]
fn travel_goes_through_the_nearest_common_body() {
    let mut locations = Locations::new();
    let mut astros = AstroBodies::new();
    scenery_1(&mut locations, &mut astros);

    let plan = travel_reference(&locations, &astros, ObjId(3), ObjId(5)).unwrap();
    assert_eq!(plan.root_body_id, ObjId(0));
    assert_eq!(plan.reference_body_id, ObjId(0));
    assert_eq!(ids(&plan.ship_parents), vec![3, 2, 1, 0]);
    assert_eq!(ids(&plan.target_parents), vec![5, 4, 0]);
    assert_eq!((plan.ship_index, plan.target_index), (3, 2));

    let plan = travel_reference(&locations, &astros, ObjId(3), ObjId(6)).unwrap();
    assert_eq!(plan.reference_body_id, ObjId(1));
    assert_eq!((plan.ship_index, plan.target_index), (2, 1));

    let plan = travel_reference(&locations, &astros, ObjId(3), ObjId(1)).unwrap();
    assert_eq!(plan.reference_body_id, ObjId(1));
    assert_eq!((plan.ship_index, plan.target_index), (2, 0));
}

#[test]
fn travel_with_a_sector_above() {
    let mut locations = Locations::new();
    let mut astros = AstroBodies::new();
    scenery_1(&mut locations, &mut astros);
    locations.set(ObjId(0), ObjId(99));
    let plan = travel_reference(&locations, &astros, ObjId(3), ObjId(5)).unwrap();
    assert_eq!(plan.root_body_id, ObjId(0));
    assert_eq!(plan.reference_body_id, ObjId(0));
}

#[test]
fn no_common_body_is_not_found() {
    let mut locations = Locations::new();
    let mut astros = AstroBodies::new();
    scenery_1(&mut locations, &mut astros);
    astros.upsert(AstroBody::new(ObjId(50), AstroBodyKind::Star));
    assert!(travel_reference(&locations, &astros, ObjId(3), ObjId(50)).is_err());
}

#[test]
fn the_start_of_a_ship_is_its_star() {
    let mut locations = Locations::new();
    let mut astros = AstroBodies::new();
    scenery_1(&mut locations, &mut astros);
    assert_eq!(find_start_of(&locations, &astros, ObjId(3)), Some(ObjId(0)));
    assert_eq!(find_start_of(&locations, &astros, ObjId(0)), None);
    assert_eq!(AstroBodyKind::AsteroidField.as_str(), "asteroid_field");
    assert_eq!(AstroBodyKind::JumpGate.as_str(), "jump_gate");
    assert!(astros.exist(ObjId(2)));
    assert_eq!(astros.remove(ObjId(2)), Some(AstroBody::new(ObjId(2), AstroBodyKind::Moon)));
    assert!(!astros.exist(ObjId(2)));
}

#[test]
fn a_ship_jumps_through_a_gate_only() {
    let mut container = Container::new();
    let gate = builder::add_room(&mut container, "gate");
    let target = builder::add_room(&mut container, "target");
    let planet = builder::add_room(&mut container, "planet");
    let ship = builder::add_item(&mut container, "ship", gate);
    let pilot = builder::add_mob(&mut container, "pilot", ship);
    let mut body = AstroBody::new(gate, AstroBodyKind::JumpGate);
    body.jump_target_id = Some(target);
    container.astro_bodies.upsert(body);
    container.astro_bodies.upsert(AstroBody::new(planet, AstroBodyKind::Planet));

    assert!(do_jump(&mut container, pilot, ship).is_ok());
    assert_eq!(container.locations.get(ship), Some(target));

    container.locations.set(ship, planet);
    assert!(do_jump(&mut container, pilot, ship).is_err());
    assert_eq!(container.locations.get(ship), Some(planet));
}
