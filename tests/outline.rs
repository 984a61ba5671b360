use glyph_atlas::geom::{Curve, Point, LINE_FLAG};
use glyph_atlas::outline::{BBox, BuildError, Outline, PathEvent};

fn sub_path(o: &mut Outline, pts: &[(i32, i32)]) {
    o.move_to(pts[0].0, pts[0].1);
    for p in &pts[1..] {
        o.line_to(p.0, p.1).unwrap();
    }
    o.line_to(pts[0].0, pts[0].1).unwrap();
    o.close().unwrap();
}

#[test]
fn line_is_degenerate_quadratic_with_exact_midpoint() {
    let mut o = Outline::new();
    o.move_to(10, 20);
    o.line_to(13, 40).unwrap();
    assert_eq!(o.len(), 2);
    let c = o.curves()[0];
    assert_eq!(c.p0, Point::new(20, 40));
    assert_eq!(c.p1, Point::new(23, 60));
    assert_eq!(c.p2, Point::new(26, 80));
    assert_eq!(c.flags & LINE_FLAG, LINE_FLAG);
    let stub = o.curves()[1];
    assert_eq!(stub, Curve::zeroed().with_p0(Point::new(26, 80)));
}

#[test]
fn quad_keeps_control_point() {
    let mut o = Outline::new();
    o.move_to(0, 0);
    o.quad_to(5, 7, 10, 0).unwrap();
    let c = o.curves()[0];
    assert_eq!(c.p1, Point::new(10, 14));
    assert_eq!(c.p2, Point::new(20, 0));
    assert_eq!(c.flags, 0);
}

#[test]
fn curve_count_equals_segments_after_close() {
    let mut o = Outline::new();
    sub_path(&mut o, &[(0, 0), (100, 0), (50, 80)]);
    assert_eq!(o.len(), 3);
    let last = o.curves()[2];
    assert_eq!(last.p2, Point::new(0, 0));
    assert_eq!(last.flags, LINE_FLAG);
}

#[test]
fn two_sub_paths_give_seven_curves() {
    let mut o = Outline::new();
    sub_path(&mut o, &[(0, 0), (100, 0), (50, 80)]);
    sub_path(&mut o, &[(10, 10), (20, 10), (20, 20), (10, 20)]);
    assert_eq!(o.len(), 7);
}

#[test]
fn build_runs_events_in_order() {
    let events = vec![
        PathEvent::MoveTo(0, 0),
        PathEvent::QuadTo(1, 2, 3, 4),
        PathEvent::LineTo(0, 0),
        PathEvent::Close,
    ];
    let o = Outline::build(&events).unwrap();
    assert_eq!(o.len(), 2);
    assert_eq!(o.curves()[0].p2, Point::new(6, 8));
    assert_eq!(o.curves()[1].p1, Point::new(3, 4));
}

#[test]
fn cubic_is_refused() {
    let mut o = Outline::new();
    o.move_to(0, 0);
    assert_eq!(o.curve_to(1, 1, 2, 2, 3, 3), Err(BuildError::Cubic));
    let events = vec![PathEvent::MoveTo(0, 0), PathEvent::CurveTo(1, 1, 2, 2, 3, 3)];
    assert_eq!(Outline::build(&events).unwrap_err(), BuildError::Cubic);
}

#[test]
fn segment_without_move_is_refused() {
    let mut o = Outline::new();
    assert_eq!(o.line_to(1, 1), Err(BuildError::NoCurrentPoint));
    assert_eq!(o.quad_to(1, 1, 2, 2), Err(BuildError::NoCurrentPoint));
    assert_eq!(o.close(), Err(BuildError::NoCurrentPoint));
    assert_eq!(o.len(), 0);
}

#[test]
fn close_after_finished_curve_is_refused() {
    let mut o = Outline::new();
    sub_path(&mut o, &[(0, 0), (100, 0), (50, 80)]);
    assert_eq!(o.close(), Err(BuildError::UnfinishedClose));
    assert_eq!(o.len(), 3);
}

fn unit_box() -> BBox {
    BBox { x_min: 0, y_min: 0, x_max: 1000, y_max: 1000 }
}

fn ratio(num: i64, den: i64) -> f32 {
    num as f32 / den as f32
}

#[test]
fn normalize_scales_then_flips() {
    let b = unit_box();
    let mut o = Outline::new();
    o.move_to(500 * 64, 0);
    o.line_to(1000 * 64, 1000 * 64).unwrap();
    o.line_to(500 * 64, 0).unwrap();
    o.close().unwrap();
    o.process(&b);
    let c = o.curves()[0];
    // The start point was swapped into p2.
    assert_eq!(ratio(c.p2.x, b.x_scale()), 0.5);
    assert_eq!(ratio(c.p2.y, b.y_scale()), 1.0);
    assert_eq!(ratio(c.p0.x, b.x_scale()), 1.0);
    assert_eq!(ratio(c.p0.y, b.y_scale()), 0.0);
    assert_eq!(ratio(c.p1.x, b.x_scale()), 0.75);
    assert_eq!(ratio(c.p1.y, b.y_scale()), 0.5);
}

#[test]
fn box_corners_map_to_unit_square() {
    let b = BBox { x_min: -200, y_min: -300, x_max: 1800, y_max: 1700 };
    let mut o = Outline::new();
    o.move_to(-200 * 64, -300 * 64);
    o.line_to(1800 * 64, 1700 * 64).unwrap();
    o.line_to(-200 * 64, -300 * 64).unwrap();
    o.close().unwrap();
    o.process(&b);
    let c = o.curves()[0];
    // p2 holds the old start (the minimum corner); flipped y is 1 - 0.
    assert_eq!((c.p2.x, c.p2.y), (0, b.y_scale()));
    // p0 holds the old end (the maximum corner); flipped y is 1 - 1.
    assert_eq!((c.p0.x, c.p0.y), (b.x_scale(), 0));
    assert_eq!(b.x_scale(), 2000 * 128);
    assert_eq!(b.y_scale(), 2000 * 128);
}

#[test]
fn normalize_swaps_end_points_of_every_curve() {
    let b = unit_box();
    let mut o = Outline::new();
    o.move_to(0, 0);
    o.quad_to(100, 200, 300, 0).unwrap();
    o.line_to(0, 0).unwrap();
    o.close().unwrap();
    let before: Vec<Curve> = o.curves().clone();
    o.process(&b);
    for (n, c) in o.curves().iter().zip(before.iter()) {
        assert_eq!(n.p0.x, c.p2.x);
        assert_eq!(n.p0.y, b.y_scale() - c.p2.y);
        assert_eq!(n.p2.x, c.p0.x);
        assert_eq!(n.p2.y, b.y_scale() - c.p0.y);
        assert_eq!(n.flags, c.flags);
    }
}
