use termviz::cache::TermvizMarkerContainer;
use termviz::dispatch::{Action, Lifetime, MarkerUpdate, ADD, DELETE, DELETEALL};
use termviz::shape::{
    from_point_strips, parse_arrow_msg, parse_cube, parse_cube_list_msg, parse_line_list_msg,
    parse_line_strip_msg, parse_shape, Arrow, Cuboid, Face, Rgb, Segment, Shape, ShapeKind,
    ARROW, CUBE, CUBE_LIST, LINE_LIST, LINE_STRIP,
};

type Pt = (f64, f64);

const RED: Rgb = Rgb { r: 255, g: 0, b: 0 };
const BLUE: Rgb = Rgb { r: 0, g: 0, b: 255 };

fn close(a: Pt, b: Pt) -> bool {
    (a.0 - b.0).abs() < 1e-9 && (a.1 - b.1).abs() < 1e-9
}

fn is_seg(s: &Segment<Pt>, a: Pt, b: Pt) -> bool {
    close(s.start, a) && close(s.end, b)
}

fn strip(points: &[Pt]) -> Shape<Pt> {
    Shape::LineStrip(points.to_vec())
}

fn update(ns: &str, id: i32, action: i32, sec: i32, placed: Option<Shape<Pt>>) -> MarkerUpdate<Pt> {
    MarkerUpdate {
        ns: ns.to_string(),
        id,
        action,
        lifetime: Lifetime { sec, nsec: 0 },
        color: RED,
        placed,
    }
}

fn face() -> Face<Pt> {
    Face { a: (1.0, 1.0), b: (1.0, -1.0), c: (-1.0, -1.0), d: (-1.0, 1.0) }
}

fn store(c: &mut TermvizMarkerContainer<Pt>, ns: &str, id: i32, pts: &[Pt]) -> u64 {
    c.add_marker(ns.to_string(), id, parse_line_strip_msg(&pts.to_vec(), RED))
}

#[test]
fn arrow_from_scale_has_shaft_and_two_wings_at_tip() {
    assert_eq!(ShapeKind::of(ARROW, 0), ShapeKind::ArrowFromScale);
    // scale = (1.0, 0.2, 0), identity transform: tail at the origin, tip at x = 1.
    let angle = std::f64::consts::PI / 4.0;
    let r = 0.2 / 2.0 / angle.cos();
    let a = std::f64::consts::PI - angle;
    let tip = (1.0, 0.0);
    let arrow = Arrow {
        tail: (0.0, 0.0),
        tip,
        left: (tip.0 + r * a.cos(), tip.1 + r * a.sin()),
        right: (tip.0 - r * a.cos(), tip.1 - r * a.sin()),
    };
    let lines = parse_arrow_msg(&arrow, RED);
    assert_eq!(lines.len(), 3);
    assert!(is_seg(&lines[0], (0.0, 0.0), (1.0, 0.0)));
    assert!(close(lines[1].start, (1.0, 0.0)));
    assert!(close(lines[2].start, (1.0, 0.0)));
    assert!(lines.iter().all(|l| l.color == RED));
}

#[test]
fn arrow_with_other_point_counts_has_no_outline() {
    assert_eq!(ShapeKind::of(ARROW, 2), ShapeKind::ArrowFromPoints);
    assert_eq!(ShapeKind::of(ARROW, 1), ShapeKind::Empty);
    assert_eq!(ShapeKind::of(ARROW, 3), ShapeKind::Empty);
    assert!(parse_shape::<Pt>(&Shape::Nothing, RED).is_empty());
}

#[test]
fn shape_kinds_by_code() {
    assert_eq!(ShapeKind::of(CUBE, 0), ShapeKind::Cube);
    assert_eq!(ShapeKind::of(CUBE_LIST, 3), ShapeKind::CubeList);
    assert_eq!(ShapeKind::of(LINE_STRIP, 3), ShapeKind::LineStrip);
    assert_eq!(ShapeKind::of(LINE_LIST, 4), ShapeKind::LineList);
    // sphere, cylinder, text: unsupported, no outline and no error
    assert_eq!(ShapeKind::of(2, 0), ShapeKind::Empty);
    assert_eq!(ShapeKind::of(3, 0), ShapeKind::Empty);
    assert_eq!(ShapeKind::of(9, 0), ShapeKind::Empty);
}

#[test]
fn line_strip_three_points_two_segments() {
    let lines = parse_shape(&strip(&[(0.0, 0.0), (1.0, 0.0), (1.0, 1.0)]), BLUE);
    assert_eq!(lines.len(), 2);
    assert!(is_seg(&lines[0], (0.0, 0.0), (1.0, 0.0)));
    assert!(is_seg(&lines[1], (1.0, 0.0), (1.0, 1.0)));
    assert_eq!(lines[1].color, BLUE);
}

#[test]
fn line_strip_of_one_or_no_point_is_empty() {
    assert!(parse_line_strip_msg::<Pt>(&vec![], RED).is_empty());
    assert!(parse_line_strip_msg(&vec![(2.0, 2.0)], RED).is_empty());
}

#[test]
fn line_list_odd_count_drops_last_point() {
    let pts = vec![(0.0, 0.0), (1.0, 0.0), (2.0, 2.0), (3.0, 3.0), (9.0, 9.0)];
    let lines = parse_line_list_msg(&pts, RED);
    assert_eq!(lines.len(), 2);
    assert!(is_seg(&lines[0], (0.0, 0.0), (1.0, 0.0)));
    assert!(is_seg(&lines[1], (2.0, 2.0), (3.0, 3.0)));
    let one = parse_line_list_msg(&vec![(5.0, 5.0)], RED);
    assert!(one.is_empty());
}

#[test]
fn line_list_even_count_pairs_points() {
    let pts = vec![(0.0, 0.0), (1.0, 0.0), (2.0, 2.0), (3.0, 3.0)];
    let lines = parse_shape(&Shape::LineList(pts), RED);
    assert_eq!(lines.len(), 2);
    assert!(is_seg(&lines[1], (2.0, 2.0), (3.0, 3.0)));
}

#[test]
fn flat_cube_draws_top_loop() {
    let q = Cuboid { top: face(), bottom: None };
    let lines = parse_cube(&q, RED);
    assert_eq!(lines.len(), 4);
    assert!(is_seg(&lines[0], (1.0, 1.0), (1.0, -1.0)));
    assert!(is_seg(&lines[3], (-1.0, 1.0), (1.0, 1.0)));
}

#[test]
fn tilted_cube_draws_twelve_edges() {
    let bottom = Face { a: (1.5, 1.0), b: (1.5, -1.0), c: (-0.5, -1.0), d: (-0.5, 1.0) };
    let q = Cuboid { top: face(), bottom: Some(bottom) };
    let lines = parse_cube(&q, RED);
    assert_eq!(lines.len(), 12);
    assert!(is_seg(&lines[4], (1.5, 1.0), (1.5, -1.0)));
    assert!(is_seg(&lines[8], (1.0, 1.0), (1.5, 1.0)));
    assert!(is_seg(&lines[11], (-1.0, 1.0), (-0.5, 1.0)));
}

#[test]
fn cube_list_concatenates_boxes() {
    let flat = Cuboid { top: face(), bottom: None };
    let full = Cuboid { top: face(), bottom: Some(face()) };
    assert_eq!(parse_cube_list_msg(&vec![flat, full], RED).len(), 16);
    assert!(parse_cube_list_msg::<Pt>(&vec![], RED).is_empty());
}

#[test]
fn point_strips_are_joined_strip_by_strip() {
    let strips = vec![vec![(0.0, 0.0), (1.0, 0.0)], vec![(5.0, 5.0)], vec![(2.0, 0.0), (2.0, 1.0), (2.0, 2.0)]];
    let lines = from_point_strips(&strips, RED);
    assert_eq!(lines.len(), 3);
    assert!(is_seg(&lines[0], (0.0, 0.0), (1.0, 0.0)));
    assert!(is_seg(&lines[2], (2.0, 1.0), (2.0, 2.0)));
}

#[test]
fn snapshot_after_sequence_holds_last_writes() {
    let mut c = TermvizMarkerContainer::<Pt>::new("map".to_string());
    store(&mut c, "a", 1, &[(0.0, 0.0), (1.0, 0.0)]);
    store(&mut c, "b", 1, &[(2.0, 0.0), (3.0, 0.0)]);
    store(&mut c, "a", 2, &[(4.0, 0.0), (5.0, 0.0)]);
    c.delete_marker("a".to_string(), 1);
    store(&mut c, "c", 7, &[(6.0, 0.0), (7.0, 0.0)]);
    let lines = c.get_lines();
    assert_eq!(c.len(), 3);
    assert_eq!(lines.len(), 3);
    assert!(is_seg(&lines[0], (2.0, 0.0), (3.0, 0.0)));
    assert!(is_seg(&lines[1], (4.0, 0.0), (5.0, 0.0)));
    assert!(is_seg(&lines[2], (6.0, 0.0), (7.0, 0.0)));
    c.clear();
    store(&mut c, "b", 1, &[(8.0, 0.0), (9.0, 0.0)]);
    let lines = c.get_lines();
    assert_eq!(lines.len(), 1);
    assert!(is_seg(&lines[0], (8.0, 0.0), (9.0, 0.0)));
}

#[test]
fn upsert_same_key_twice_replaces() {
    let mut c = TermvizMarkerContainer::<Pt>::new("map".to_string());
    store(&mut c, "other", 3, &[(9.0, 9.0), (8.0, 8.0)]);
    let g1 = store(&mut c, "ns", 1, &[(0.0, 0.0), (1.0, 0.0)]);
    assert_eq!(c.len(), 2);
    let g2 = store(&mut c, "ns", 1, &[(0.0, 0.0), (0.0, 1.0), (0.0, 2.0)]);
    assert_ne!(g1, g2);
    assert_eq!(c.len(), 2);
    let lines = c.get_lines();
    assert_eq!(lines.len(), 3);
    assert!(is_seg(&lines[1], (0.0, 0.0), (0.0, 1.0)));
    assert!(is_seg(&lines[2], (0.0, 1.0), (0.0, 2.0)));
}

#[test]
fn same_id_in_two_namespaces_are_two_markers() {
    let mut c = TermvizMarkerContainer::<Pt>::new("map".to_string());
    store(&mut c, "x", 1, &[(0.0, 0.0), (1.0, 0.0)]);
    store(&mut c, "y", 1, &[(0.0, 0.0), (1.0, 0.0)]);
    assert_eq!(c.len(), 2);
    c.delete_marker("x".to_string(), 1);
    assert_eq!(c.len(), 1);
}

#[test]
fn delete_absent_key_changes_nothing() {
    let mut c = TermvizMarkerContainer::<Pt>::new("map".to_string());
    store(&mut c, "ns", 1, &[(0.0, 0.0), (1.0, 0.0)]);
    c.delete_marker("ns".to_string(), 2);
    c.delete_marker("nope".to_string(), 1);
    assert_eq!(c.len(), 1);
    assert_eq!(c.get_lines().len(), 1);
    let mut empty = TermvizMarkerContainer::<Pt>::new("map".to_string());
    empty.delete_marker("ns".to_string(), 1);
    assert!(empty.get_lines().is_empty());
}

#[test]
fn clear_then_snapshot_is_empty() {
    let mut c = TermvizMarkerContainer::<Pt>::new("map".to_string());
    store(&mut c, "a", 1, &[(0.0, 0.0), (1.0, 0.0)]);
    store(&mut c, "b", 2, &[(0.0, 0.0), (1.0, 0.0), (2.0, 0.0)]);
    c.clear();
    assert!(c.get_lines().is_empty());
    assert_eq!(c.len(), 0);
    assert_eq!(c.static_frame(), "map");
}

#[test]
fn failed_transform_lookup_leaves_cache() {
    let mut c = TermvizMarkerContainer::<Pt>::new("map".to_string());
    store(&mut c, "a", 1, &[(0.0, 0.0), (1.0, 0.0)]);
    for action in [ADD, DELETE, DELETEALL] {
        let r = c.handle_marker(&update("a", 1, action, 5, None));
        assert!(r.is_none());
        let lines = c.get_lines();
        assert_eq!(lines.len(), 1);
        assert!(is_seg(&lines[0], (0.0, 0.0), (1.0, 0.0)));
    }
}

#[test]
fn handle_marker_by_action() {
    let mut c = TermvizMarkerContainer::<Pt>::new("map".to_string());
    let pts = [(0.0, 0.0), (1.0, 0.0), (1.0, 1.0)];
    assert!(c.handle_marker(&update("a", 1, ADD, 0, Some(strip(&pts)))).is_none());
    assert!(c.handle_marker(&update("b", 1, ADD, 0, Some(strip(&pts)))).is_none());
    assert_eq!(c.get_lines().len(), 4);
    c.handle_marker(&update("a", 1, DELETE, 0, Some(Shape::Nothing)));
    assert_eq!(c.get_lines().len(), 2);
    c.handle_marker(&update("b", 1, 7, 0, Some(strip(&pts))));
    assert_eq!(c.len(), 1);
    c.handle_marker(&update("z", 9, DELETEALL, 0, Some(Shape::Nothing)));
    assert_eq!(c.len(), 0);
    assert_eq!(Action::from_code(ADD), Action::Add);
    assert_eq!(Action::from_code(1), Action::Ignore);
    assert_eq!(Action::from_code(DELETE), Action::Delete);
    assert_eq!(Action::from_code(DELETEALL), Action::DeleteAll);
}

#[test]
fn stored_marker_with_lifetime_schedules_expiry() {
    let mut c = TermvizMarkerContainer::<Pt>::new("map".to_string());
    let mut u = update("a", 4, ADD, 2, Some(strip(&[(0.0, 0.0), (1.0, 0.0)])));
    u.lifetime = Lifetime { sec: 2, nsec: 500 };
    let e = c.handle_marker(&u).expect("a lifetime was declared");
    assert_eq!(e.ns, "a");
    assert_eq!(e.id, 4);
    assert_eq!(e.delay_nanos, 2_000_000_500);
    c.expire(e.ns.clone(), e.id, e.generation);
    assert_eq!(c.len(), 0);
    // deletes schedule nothing, whatever their lifetime
    assert!(c.handle_marker(&update("a", 4, DELETE, 3, Some(Shape::Nothing))).is_none());
}

#[test]
fn expiry_after_delete_is_a_no_op() {
    let mut c = TermvizMarkerContainer::<Pt>::new("map".to_string());
    let e = c
        .handle_marker(&update("a", 1, ADD, 1, Some(strip(&[(0.0, 0.0), (1.0, 0.0)]))))
        .unwrap();
    store(&mut c, "b", 1, &[(2.0, 0.0), (3.0, 0.0)]);
    c.handle_marker(&update("a", 1, DELETE, 0, Some(Shape::Nothing)));
    assert_eq!(c.len(), 1);
    c.expire(e.ns.clone(), e.id, e.generation);
    assert_eq!(c.len(), 1);
    assert!(is_seg(&c.get_lines()[0], (2.0, 0.0), (3.0, 0.0)));
}

#[test]
fn expiry_after_refresh_keeps_new_version() {
    let mut c = TermvizMarkerContainer::<Pt>::new("map".to_string());
    let e = c
        .handle_marker(&update("a", 1, ADD, 1, Some(strip(&[(0.0, 0.0), (1.0, 0.0)]))))
        .unwrap();
    let e2 = c
        .handle_marker(&update("a", 1, ADD, 1, Some(strip(&[(5.0, 0.0), (6.0, 0.0)]))))
        .unwrap();
    c.expire(e.ns.clone(), e.id, e.generation);
    assert_eq!(c.len(), 1);
    assert!(is_seg(&c.get_lines()[0], (5.0, 0.0), (6.0, 0.0)));
    c.expire(e2.ns.clone(), e2.id, e2.generation);
    assert_eq!(c.len(), 0);
}

#[test]
fn lifetime_in_nanoseconds() {
    assert_eq!(Lifetime { sec: 0, nsec: 0 }.total_nanos(), 0);
    assert_eq!(Lifetime { sec: 3, nsec: 7 }.total_nanos(), 3_000_000_007);
    assert_eq!(Lifetime { sec: -1, nsec: 1_000_000_000 }.total_nanos(), 0);
    assert_eq!(Lifetime { sec: i32::MAX, nsec: i32::MAX }.total_nanos(), 2_147_483_649_147_483_647);
    assert_eq!(Lifetime { sec: i32::MIN, nsec: i32::MIN }.total_nanos(), -2_147_483_650_147_483_648);
}

#[test]
fn batch_continues_past_dropped_element() {
    let mut c = TermvizMarkerContainer::<Pt>::new("map".to_string());
    let pts = [(0.0, 0.0), (1.0, 0.0)];
    let batch = vec![
        update("a", 1, ADD, 1, Some(strip(&pts))),
        update("b", 1, ADD, 1, None),
        update("c", 1, ADD, 0, Some(strip(&pts))),
        update("d", 1, 9, 1, Some(strip(&pts))),
        update("e", 1, ADD, 4, Some(strip(&pts))),
    ];
    let expiries = c.handle_marker_array(&batch);
    assert_eq!(c.len(), 3);
    assert_eq!(expiries.len(), 2);
    assert_eq!(expiries[0].ns, "a");
    assert_eq!(expiries[1].ns, "e");
    assert_eq!(expiries[1].delay_nanos, 4_000_000_000);
    assert_ne!(expiries[0].generation, expiries[1].generation);
}

#[test]
fn batch_delete_all_then_add() {
    let mut c = TermvizMarkerContainer::<Pt>::new("map".to_string());
    let pts = [(0.0, 0.0), (1.0, 0.0)];
    store(&mut c, "old", 1, &pts);
    let batch = vec![
        update("x", 0, DELETEALL, 0, Some(Shape::Nothing)),
        update("n", 2, ADD, 0, Some(strip(&pts))),
    ];
    assert!(c.handle_marker_array(&batch).is_empty());
    assert_eq!(c.len(), 1);
    assert!(c.handle_marker_array(&vec![]).is_empty());
    assert_eq!(c.len(), 1);
}
