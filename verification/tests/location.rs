use mud_domain::game::labels::{Label, Labels};
use mud_domain::game::location::{search_at, Locations};
use mud_domain::ids::ObjId;
use std::collections::HashSet;

fn create_scenery() -> Locations {
    let mut locations = Locations::new();
    /*

    0
    - 1
    - 2
     - 4
     - 5
      - 6
    - 3

    */
    locations.set(ObjId(1), ObjId(0));
    locations.set(ObjId(2), ObjId(0));
    locations.set(ObjId(3), ObjId(0));
    locations.set(ObjId(4), ObjId(2));
    locations.set(ObjId(5), ObjId(2));
    locations.set(ObjId(6), ObjId(5));
    locations
}

fn assert_same(a: Vec<ObjId>, b: Vec<ObjId>) {
    let sa = a.into_iter().collect::<HashSet<_>>();
    let sb = b.into_iter().collect::<HashSet<_>>();

    assert_eq!(sa, sb);
}

#[test]
fn test_list_deep_at() {
    let locations = create_scenery();

    assert_same(
        locations.list_deep_at(ObjId(0)),
        vec![ObjId(1), ObjId(2), ObjId(3), ObjId(4), ObjId(5), ObjId(6)],
    );

    assert_same(locations.list_deep_at(ObjId(2)), vec![ObjId(4), ObjId(5), ObjId(6)]);

    assert_same(locations.list_deep_at(ObjId(5)), vec![ObjId(6)]);
    assert_same(locations.list_deep_at(ObjId(6)), vec![]);
}

#[test]
fn test_list_parents() {
    let locations = create_scenery();

    assert_same(locations.list_parents(ObjId(5)), vec![ObjId(2), ObjId(0)]);
}

#[test]
fn locations_parents_are_nearest_first() {
    let locations = create_scenery();
    assert_eq!(locations.list_parents(ObjId(6)), vec![ObjId(5), ObjId(2), ObjId(0)]);
    assert_eq!(
        locations.list_parents_inclusive(ObjId(6)),
        vec![ObjId(6), ObjId(5), ObjId(2), ObjId(0)]
    );
    assert_eq!(locations.list_parents(ObjId(0)), vec![]);
}

#[test]
fn locations_set_moves_and_remove_forgets() {
    let mut locations = create_scenery();
    assert_eq!(locations.get(ObjId(6)), Some(ObjId(5)));
    locations.set(ObjId(6), ObjId(3));
    assert_eq!(locations.get(ObjId(6)), Some(ObjId(3)));
    assert!(locations.is_same_location(ObjId(4), ObjId(5)));
    assert!(!locations.is_same_location(ObjId(4), ObjId(6)));
    assert_same(locations.list_at(ObjId(3)), vec![ObjId(6)]);
    locations.remove(ObjId(6));
    assert_eq!(locations.get(ObjId(6)), None);
    assert_same(locations.list_at(ObjId(3)), vec![]);
}

#[test]
fn locations_deep_listing_stops_on_cycles() {
    let mut locations = Locations::new();
    locations.set(ObjId(1), ObjId(2));
    locations.set(ObjId(2), ObjId(1));
    assert_same(locations.list_deep_at(ObjId(1)), vec![ObjId(1), ObjId(2)]);
    assert_eq!(locations.list_parents(ObjId(1)), vec![ObjId(2), ObjId(1)]);
}

#[test]
fn search_at_finds_by_label_at_location() {
    let locations = create_scenery();
    let mut labels = Labels::new();
    labels.add(Label::new(ObjId(4), "red box"));
    labels.add(Label::new(ObjId(5), "blue box"));
    assert_eq!(search_at(&labels, &locations, ObjId(2), "blue"), vec![ObjId(5)]);
    assert_eq!(search_at(&labels, &locations, ObjId(2), "box"), Vec::<ObjId>::new());
}

#[test]
fn a_moved_object_is_listed_at_its_new_location_only() {
    let mut locations = Locations::new();
    locations.set(ObjId(1), ObjId(10));
    locations.set(ObjId(2), ObjId(10));
    assert_eq!(locations.list_at(ObjId(10)).len(), 2);
    locations.set(ObjId(1), ObjId(20));
    assert_eq!(locations.list_at(ObjId(10)), vec![ObjId(2)]);
    assert_eq!(locations.list_at(ObjId(20)), vec![ObjId(1)]);
}
