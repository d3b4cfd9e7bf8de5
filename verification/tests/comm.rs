use mud_domain::game::astro_bodies::AstroBodyKind;
use mud_domain::game::comm::{show_sectortree, space_land_list, ShowSectorTreeBody};
use mud_domain::ids::ObjId;

fn body(id: u32, label: &'static str, orbit_id: u32, orbit_distance: f32, kind: AstroBodyKind, is_self: bool) -> ShowSectorTreeBody<'static> {
    ShowSectorTreeBody {
        id: ObjId(id),
        label,
        orbit_id: ObjId(orbit_id),
        orbit_distance: format!("{:.2}", orbit_distance),
        kind: kind.into(),
        is_self,
    }
}

#[test]
fn test_show_sectortree() {
    let bodies = vec![
        body(1, "Sun", 0, 0.0, AstroBodyKind::Star, false),
        body(2, "Earth", 1, 2.0, AstroBodyKind::Planet, false),
        body(3, "Moon", 2, 0.4, AstroBodyKind::Planet, false),
        body(4, "Asteroids", 1, 80.0, AstroBodyKind::AsteroidField, false),
        body(5, "Ring", 3, 0.05, AstroBodyKind::Station, false),
        body(6, "Light Cargo", 3, 0.01, AstroBodyKind::Ship, true),
    ];

    let sector_label = "Sector 1";
    let result = show_sectortree(ObjId(0), sector_label, &bodies);
    assert_eq!(
        result.as_str(),
        r##"[Sector 1]
Sun 0.00
- Earth 2.00
  - Moon 0.40
    - Ring 0.05
    - Light Cargo 0.01 <
- Asteroids 80.00
"##
    );
}

#[test]
fn landing_sites_are_listed_one_a_line() {
    assert_eq!(space_land_list(&vec!["Pad", "Dock"]), "Landing locations:\n- Pad\n- Dock");
    assert_eq!(space_land_list(&vec![]), "Landing locations:");
}

#[test]
fn help_test() {
    let result = mud_domain::game::comm::help();
    assert!(result.len() > 0);
}
