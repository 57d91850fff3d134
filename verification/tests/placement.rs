use niri_input_portal::coord::Coord;
use niri_input_portal::portal::Barrier;
use niri_input_portal::wayland::{
    corners_fit, place, place_one, Edge, BARRIER_DEPTH, RELEASE_INSET,
};

fn outputs() -> Vec<(String, (i32, i32), (i32, i32))> {
    // A real layout: a 4K monitor with the laptop panel below it and offset to
    // the right.
    vec![
        ("HDMI-A-1".into(), (0, 0), (3072, 1728)),
        ("eDP-2".into(), (298, 1728), (1706, 1066)),
    ]
}

fn at(v: f64) -> Coord {
    let scaled = v * 256.0;
    Coord::At { steps: scaled.floor() as i64, exact: scaled.floor() == scaled }
}

fn value(c: Coord) -> f64 {
    match c {
        Coord::At { steps, .. } => steps as f64 / 256.0,
        Coord::NotANumber => f64::NAN,
    }
}

#[test]
fn places_a_full_height_right_edge_barrier() {
    let b = Barrier { id: 1, x1: 3072, y1: 0, x2: 3072, y2: 1728 };
    let (placed, rejected) = place(&[b], &outputs());
    assert!(rejected.is_empty());
    assert_eq!(placed.len(), 1);
    let p = &placed[0];
    assert_eq!(p.edge, Edge::Right);
    assert_eq!(p.output, "HDMI-A-1");
    assert_eq!(p.size, (BARRIER_DEPTH, 1728));
    // The surface reaches inward, so it starts BARRIER_DEPTH short of 3072.
    assert_eq!(p.origin, (3072 - BARRIER_DEPTH as i32, 0));
}

#[test]
fn places_a_left_edge_barrier_on_the_offset_output() {
    let b = Barrier { id: 2, x1: 298, y1: 1728, x2: 298, y2: 2794 };
    let (placed, _) = place(&[b], &outputs());
    assert_eq!(placed.len(), 1);
    assert_eq!(placed[0].edge, Edge::Left);
    assert_eq!(placed[0].output, "eDP-2");
    assert_eq!(placed[0].origin, (298, 1728));
}

#[test]
fn clips_a_barrier_that_overhangs_the_output() {
    // A client may describe an edge spanning the whole desktop height even
    // though the output is shorter.
    let b = Barrier { id: 3, x1: 3072, y1: -500, x2: 3072, y2: 9000 };
    let (placed, _) = place(&[b], &outputs());
    assert_eq!(placed[0].size, (BARRIER_DEPTH, 1728));
    assert_eq!(placed[0].margin, (0, 0));
}

#[test]
fn input_strip_hugs_the_outer_edge_only() {
    let right = Barrier { id: 1, x1: 3072, y1: 0, x2: 3072, y2: 1728 };
    let (placed, _) = place(&[right], &outputs());
    // Rightmost column of the surface, one pixel wide, full height.
    assert_eq!(placed[0].input_strip(), (BARRIER_DEPTH as i32 - 1, 0, 1, 1728));

    let left = Barrier { id: 2, x1: 298, y1: 1728, x2: 298, y2: 2794 };
    let (placed, _) = place(&[left], &outputs());
    assert_eq!(placed[0].input_strip(), (0, 0, 1, 1066));
}

#[test]
fn release_hint_lands_inside_the_screen_clear_of_the_strip() {
    let right = Barrier { id: 1, x1: 3072, y1: 0, x2: 3072, y2: 1728 };
    let (placed, _) = place(&[right], &outputs());
    let p = &placed[0];
    let (x, y) = p.release_hint(at(900.0));
    let (x, y) = (value(x), value(y));

    // Inward of the input strip, so returning cannot immediately retrigger.
    let strip_x = f64::from(p.input_strip().0);
    assert!(x < strip_x - 1.0, "hint x {x} must be clear of strip at {strip_x}");
    assert!(x > 0.0);
    // The position along the edge is preserved.
    assert_eq!(y, 900.0);
}

#[test]
fn release_hint_is_clamped_to_the_surface() {
    let left = Barrier { id: 2, x1: 298, y1: 1728, x2: 298, y2: 2794 };
    let (placed, _) = place(&[left], &outputs());
    let p = &placed[0];
    assert_eq!(value(p.release_hint(at(-5000.0)).1), 0.0);
    assert_eq!(value(p.release_hint(at(99999.0)).1), 1065.0);
}

#[test]
fn rejects_a_barrier_that_is_not_on_any_edge() {
    let b = Barrier { id: 4, x1: 1500, y1: 0, x2: 1500, y2: 1728 };
    let (placed, rejected) = place(&[b], &outputs());
    assert!(placed.is_empty());
    assert_eq!(rejected, vec![4]);
}

#[test]
fn places_top_and_bottom_barriers() {
    // Given right to left, and shorter than the edge.
    let top = Barrier { id: 5, x1: 1000, y1: 0, x2: 400, y2: 0 };
    let bottom = Barrier { id: 6, x1: 298, y1: 2794, x2: 2004, y2: 2794 };
    let (placed, rejected) = place(&[top, bottom], &outputs());
    assert!(rejected.is_empty());
    assert_eq!(placed[0].edge, Edge::Top);
    assert_eq!(placed[0].size, (600, BARRIER_DEPTH));
    assert_eq!(placed[0].margin, (0, 400));
    assert_eq!(placed[0].origin, (400, 0));
    assert_eq!(placed[0].input_strip(), (0, 0, 600, 1));
    assert_eq!(placed[1].edge, Edge::Bottom);
    assert_eq!(placed[1].output, "eDP-2");
    assert_eq!(placed[1].origin, (298, 2794 - BARRIER_DEPTH as i32));
    assert_eq!(placed[1].input_strip(), (0, BARRIER_DEPTH as i32 - 1, 1706, 1));
}

#[test]
fn the_first_output_with_the_edge_hosts_a_barrier() {
    // The line between the screens is the bottom of the one and the top of the
    // other.
    let b = Barrier { id: 7, x1: 298, y1: 1728, x2: 2004, y2: 1728 };
    let (placed, _) = place(&[b], &outputs());
    assert_eq!(placed.len(), 1);
    assert_eq!(placed[0].edge, Edge::Bottom);
    assert_eq!(placed[0].output, "HDMI-A-1");
    assert_eq!(placed[0].origin, (298, 1728 - BARRIER_DEPTH as i32));
}

#[test]
fn an_edge_that_only_touches_a_span_does_not_count() {
    let b = Barrier { id: 8, x1: 3072, y1: 1728, x2: 3072, y2: 2794 };
    assert!(place_one(&b, &outputs()).is_none());
    let slanted = Barrier { id: 9, x1: 0, y1: 0, x2: 3072, y2: 1728 };
    assert!(place_one(&slanted, &outputs()).is_none());
}

#[test]
fn a_point_lies_on_no_edge() {
    let b = Barrier { id: 10, x1: 3072, y1: 5, x2: 3072, y2: 5 };
    assert!(place_one(&b, &outputs()).is_none());
}

#[test]
fn every_barrier_is_placed_or_reported() {
    let list = [
        Barrier { id: 1, x1: 3072, y1: 0, x2: 3072, y2: 1728 },
        Barrier { id: 2, x1: 17, y1: 0, x2: 17, y2: 1728 },
        Barrier { id: 3, x1: 0, y1: 0, x2: 0, y2: 1728 },
        Barrier { id: 4, x1: 0, y1: 3, x2: 90, y2: 4 },
    ];
    let (placed, rejected) = place(&list, &outputs());
    assert_eq!(placed.iter().map(|p| p.id).collect::<Vec<u32>>(), vec![1, 3]);
    assert_eq!(rejected, vec![2, 4]);
}

#[test]
fn the_strip_is_the_outermost_pixel_of_each_edge() {
    let list = [
        Barrier { id: 1, x1: 298, y1: 1728, x2: 298, y2: 2794 },
        Barrier { id: 2, x1: 2004, y1: 1728, x2: 2004, y2: 2794 },
        Barrier { id: 3, x1: 0, y1: 0, x2: 3072, y2: 0 },
        Barrier { id: 4, x1: 298, y1: 2794, x2: 2004, y2: 2794 },
    ];
    let (placed, _) = place(&list, &outputs());
    let strips: Vec<(i32, i32, i32, i32)> = placed
        .iter()
        .map(|p| {
            let (x, y, w, h) = p.input_strip();
            (p.origin.0 + x, p.origin.1 + y, w, h)
        })
        .collect();
    assert_eq!(
        strips,
        vec![
            (298, 1728, 1, 1066),
            (2003, 1728, 1, 1066),
            (0, 0, 3072, 1),
            (298, 2793, 1706, 1),
        ]
    );
}

#[test]
fn the_cursor_comes_back_a_fixed_way_from_the_strip() {
    let list = [
        Barrier { id: 1, x1: 298, y1: 1728, x2: 298, y2: 2794 },
        Barrier { id: 2, x1: 2004, y1: 1728, x2: 2004, y2: 2794 },
        Barrier { id: 3, x1: 0, y1: 0, x2: 3072, y2: 0 },
        Barrier { id: 4, x1: 298, y1: 2794, x2: 2004, y2: 2794 },
    ];
    let (placed, _) = place(&list, &outputs());
    let inset = RELEASE_INSET as f64;
    let hints: Vec<(f64, f64)> = placed
        .iter()
        .map(|p| {
            let (x, y) = p.release_hint(at(12.5));
            (value(x), value(y))
        })
        .collect();
    assert_eq!(hints, vec![(inset, 12.5), (63.0 - inset, 12.5), (12.5, inset), (12.5, 63.0 - inset)]);
    assert_eq!(placed[0].release_hint(Coord::NotANumber).1, Coord::NotANumber);
}

#[test]
fn corners_that_do_not_fit_are_told_apart() {
    let far = vec![("far".to_owned(), (i32::MIN, 0), (10, 100))];
    let right = Barrier { id: 1, x1: i32::MIN + 10, y1: 0, x2: i32::MIN + 10, y2: 100 };
    let left = Barrier { id: 2, x1: i32::MIN, y1: 0, x2: i32::MIN, y2: 100 };
    assert!(!corners_fit(&[right], &far));
    assert!(corners_fit(&[left], &far));
    assert!(corners_fit(&[right, left], &outputs()));
}
