use niri_input_portal::coord::Coord;
use niri_input_portal::niri::{outputs, Logical, Output, Zone};
use niri_input_portal::portal::ZoneTuple;

fn output(name: &str, place: Option<(i32, i32, u32, u32)>) -> Output {
    Output {
        name: name.to_owned(),
        logical: place.map(|(x, y, width, height)| Logical {
            x,
            y,
            width,
            height,
            scale: 1.25f64.to_bits(),
            transform: "Normal".to_owned(),
        }),
    }
}

fn at(v: f64) -> Coord {
    let scaled = v * 256.0;
    Coord::At { steps: scaled.floor() as i64, exact: scaled.floor() == scaled }
}

#[test]
fn disabled_outputs_are_skipped() {
    let zones = outputs(vec![output("a", None), output("b", Some((0, 0, 10, 20)))]);
    assert_eq!(zones.len(), 1);
    assert_eq!(zones[0].name, "b");
    assert_eq!(zones[0].zone, Zone { width: 10, height: 20, x: 0, y: 0 });
    assert_eq!(f64::from_bits(zones[0].scale), 1.25);
    assert_eq!(zones[0].transform, "Normal");
    assert!(outputs(Vec::new()).is_empty());
}

#[test]
fn zones_are_ordered_by_place_and_name() {
    let zones = outputs(vec![
        output("z", Some((100, 0, 1, 1))),
        output("b", Some((0, 50, 1, 1))),
        output("a", Some((0, 50, 1, 1))),
        output("m", Some((0, -50, 1, 1))),
        output("n", Some((-7, 90, 1, 1))),
    ]);
    let names: Vec<&str> = zones.iter().map(|z| z.name.as_str()).collect();
    assert_eq!(names, vec!["n", "m", "a", "b", "z"]);
}

#[test]
fn zones_do_not_depend_on_report_order() {
    let there = outputs(vec![
        output("eDP-2", Some((298, 1728, 1706, 1066))),
        output("HDMI-A-1", Some((0, 0, 3072, 1728))),
        output("HDMI-A-10", Some((0, 0, 800, 600))),
    ]);
    let back = outputs(vec![
        output("HDMI-A-10", Some((0, 0, 800, 600))),
        output("HDMI-A-1", Some((0, 0, 3072, 1728))),
        output("eDP-2", Some((298, 1728, 1706, 1066))),
    ]);
    let names = |zones: &Vec<niri_input_portal::niri::OutputZone>| {
        zones.iter().map(|z| z.name.clone()).collect::<Vec<String>>()
    };
    assert_eq!(names(&there), vec!["HDMI-A-1", "HDMI-A-10", "eDP-2"]);
    assert_eq!(names(&there), names(&back));
}

#[test]
fn names_are_ordered_as_text() {
    let zones = outputs(vec![
        output("é", Some((0, 0, 1, 1))),
        output("z", Some((0, 0, 1, 1))),
        output("", Some((0, 0, 1, 1))),
        output("Z", Some((0, 0, 1, 1))),
    ]);
    let names: Vec<&str> = zones.iter().map(|z| z.name.as_str()).collect();
    let mut sorted = names.clone();
    sorted.sort();
    assert_eq!(names, sorted);
    assert_eq!(names, vec!["", "Z", "z", "é"]);
}

#[test]
fn a_zone_holds_its_near_edges_only() {
    let zone = Zone { width: 100, height: 50, x: -10, y: 20 };
    assert!(zone.contains(at(-10.0), at(20.0)));
    assert!(zone.contains(at(89.99), at(69.99)));
    assert!(!zone.contains(at(90.0), at(30.0)));
    assert!(!zone.contains(at(0.0), at(70.0)));
    assert!(!zone.contains(at(-10.01), at(30.0)));
    assert!(!zone.contains(Coord::NotANumber, at(30.0)));
}

#[test]
fn wire_zones_lead_with_the_size() {
    let tuple = ZoneTuple::from(Zone { width: 1, height: 2, x: -3, y: 4 });
    assert_eq!(tuple, ZoneTuple { width: 1, height: 2, x: -3, y: 4 });
}
