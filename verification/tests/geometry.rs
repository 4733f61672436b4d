use vectorfoil::intersect::{
    barycentric_coords, is_degen_tri, line_intersect_2d, point_tri_comparison_test,
    split_triangle_by_segment, triangle_in_triangle_2d, GeomError, PointTriTest, RayInt,
    SplitResult,
};
use vectorfoil::primitive::{SplitMemo, Winding, ZsortPrim};
use vectorfoil::render_paths::{RenderLine, RenderPaths};
use vectorfoil::{EdgeType, Primitive, Tri, Vec2, Vec4};

const U: i64 = 1_000_000;

fn q2(x: f64, y: f64) -> Vec2 {
    Vec2 { x: (x * 1_000_000.0).round() as i64, y: (y * 1_000_000.0).round() as i64 }
}

fn q4(x: f64, y: f64) -> Vec4 {
    Vec4 {
        x: (x * 1_000_000.0).round() as i64,
        y: (y * 1_000_000.0).round() as i64,
        z: 0,
        w: U,
    }
}

fn unit_tri() -> Tri {
    Tri { p: [q4(0.0, 0.0), q4(1.0, 0.0), q4(0.0, 1.0)], e: [EdgeType::Visible; 3] }
}

fn tri_area(t: &Tri) -> f64 {
    let ax = (t.p[1].x - t.p[0].x) as f64;
    let ay = (t.p[1].y - t.p[0].y) as f64;
    let bx = (t.p[2].x - t.p[1].x) as f64;
    let by = (t.p[2].y - t.p[1].y) as f64;
    (ax * by - ay * bx) / 2.0e12
}

#[test]
fn bary_weights_sum_and_reconstruct() {
    let t = unit_tri();
    let p = q2(0.25, 0.25);
    let b = barycentric_coords(p, &t).unwrap();
    assert!(b.den > 0);
    assert_eq!(b.a + b.b + b.c, b.den);
    // The weights are exactly (1/2, 1/4, 1/4).
    assert_eq!(2 * b.a, b.den);
    assert_eq!(4 * b.b, b.den);
    assert_eq!(4 * b.c, b.den);
    // The weighted combination reproduces the point exactly.
    let rx = b.a as i128 * t.p[0].x as i128 + b.b as i128 * t.p[1].x as i128
        + b.c as i128 * t.p[2].x as i128;
    let ry = b.a as i128 * t.p[0].y as i128 + b.b as i128 * t.p[1].y as i128
        + b.c as i128 * t.p[2].y as i128;
    assert_eq!(rx, b.den as i128 * p.x as i128);
    assert_eq!(ry, b.den as i128 * p.y as i128);
}

#[test]
fn bary_singular_is_none() {
    let t = Tri { p: [q4(0.0, 0.0), q4(0.5, 0.5), q4(1.0, 1.0)], e: [EdgeType::Visible; 3] };
    assert!(barycentric_coords(q2(0.3, 0.1), &t).is_none());
}

#[test]
fn point_classification_cases() {
    let t = unit_tri();
    assert!(matches!(
        point_tri_comparison_test(q2(0.25, 0.25), &t),
        PointTriTest::Inside(_)
    ));
    assert!(matches!(
        point_tri_comparison_test(q2(-0.5, -0.5), &t),
        PointTriTest::Outside
    ));
    // A point on edge i reports On(i): the mapping runs weight 0, 1, 2 to
    // edge 1, 2, 0.
    assert!(matches!(point_tri_comparison_test(q2(0.5, 0.0), &t), PointTriTest::On(0)));
    assert!(matches!(point_tri_comparison_test(q2(0.0, 0.5), &t), PointTriTest::On(2)));
    assert!(matches!(point_tri_comparison_test(q2(0.5, 0.5), &t), PointTriTest::On(1)));
}

#[test]
fn triangle_contains_itself() {
    let t = unit_tri();
    assert!(triangle_in_triangle_2d(&t, &t));
}

#[test]
fn triangle_containment_cases() {
    let big = Tri { p: [q4(-1.0, -1.0), q4(1.0, -1.0), q4(0.0, 1.0)], e: [EdgeType::Visible; 3] };
    let small = Tri {
        p: [q4(-0.2, -0.5), q4(0.2, -0.5), q4(0.0, 0.0)],
        e: [EdgeType::Visible; 3],
    };
    assert!(triangle_in_triangle_2d(&small, &big));
    assert!(!triangle_in_triangle_2d(&big, &small));
}

#[test]
fn winding_rotation_and_reversal() {
    let t = unit_tri();
    assert_eq!(t.winding_2d(), Winding::CounterClockwise);
    let rot = Tri { p: [t.p[1], t.p[2], t.p[0]], e: [t.e[1], t.e[2], t.e[0]] };
    assert_eq!(rot.winding_2d(), Winding::CounterClockwise);
    let rev = t.reverse();
    assert_eq!(rev.winding_2d(), Winding::Clockwise);
    let thin = Tri {
        p: [q4(0.0, 0.0), q4(1.0, 0.0), Vec4 { x: 500_000, y: 3, z: 0, w: U }],
        e: [EdgeType::Visible; 3],
    };
    assert_eq!(thin.winding_2d(), Winding::Degenerate);
}

#[test]
fn degeneracy_cases() {
    assert!(!is_degen_tri(q2(0.0, 0.0), q2(1.0, 0.0), q2(0.0, 1.0)));
    // A short edge is degenerate.
    assert!(is_degen_tri(
        q2(0.0, 0.0),
        Vec2 { x: 5, y: 0 },
        q2(0.0, 1.0)
    ));
    // A thin sliver is degenerate relative to its edge lengths.
    assert!(is_degen_tri(
        q2(0.0, 0.0),
        q2(1.0, 0.0),
        Vec2 { x: 2_000_000, y: 4 }
    ));
}

#[test]
fn split_three_pieces_tags_and_area() {
    let t = unit_tri();
    // A horizontal cut at y = 0.25, crossing the hypotenuse and the left
    // edge: three pieces.
    let r = split_triangle_by_segment(&t, q2(-1.0, 0.25), q2(2.0, 0.25)).unwrap();
    match r {
        SplitResult::Split(pieces) => {
            assert_eq!(pieces.len(), 3);
            let total: f64 = pieces.iter().map(tri_area).sum();
            assert!((total - 0.5).abs() < 1.0e-5);
            assert_eq!(
                pieces[0].e,
                [EdgeType::Visible, EdgeType::Visible, EdgeType::Split]
            );
            assert_eq!(
                pieces[1].e,
                [EdgeType::Split, EdgeType::Visible, EdgeType::Split]
            );
            assert_eq!(
                pieces[2].e,
                [EdgeType::Split, EdgeType::Visible, EdgeType::Visible]
            );
        }
        _ => panic!("expected a three-way split"),
    }
}

#[test]
fn split_two_pieces_through_vertex() {
    let t = unit_tri();
    // A cut through the bottom edge's midpoint and the apex: the cut
    // exits through the opposite vertex, leaving two pieces.
    let r = split_triangle_by_segment(&t, q2(0.75, -0.5), q2(-0.25, 1.5)).unwrap();
    match r {
        SplitResult::Split(pieces) => {
            assert_eq!(pieces.len(), 2);
            let total: f64 = pieces.iter().map(tri_area).sum();
            assert!((total - 0.5).abs() < 1.0e-5);
        }
        _ => panic!("expected a split"),
    }
}

#[test]
fn split_colinear_segment_unchanged() {
    let t = unit_tri();
    // A segment sliding along the bottom edge's infinite line never cuts.
    let r = split_triangle_by_segment(&t, q2(-0.5, 0.0), q2(1.5, 0.0)).unwrap();
    assert!(matches!(r, SplitResult::Original));
    let r = split_triangle_by_segment(&t, q2(7.0, 0.0), q2(9.0, 0.0)).unwrap();
    assert!(matches!(r, SplitResult::Original));
}

#[test]
fn split_outside_segment_unchanged() {
    let t = unit_tri();
    let r = split_triangle_by_segment(&t, q2(2.0, 2.0), q2(3.0, 2.0)).unwrap();
    assert!(matches!(r, SplitResult::Original));
}

#[test]
fn split_degenerate_interpolation() {
    // Opposite w signs make the perspective interpolation singular at the
    // cut point: the triangle is reported too degenerate to cut.
    let t = Tri {
        p: [
            Vec4 { x: 0, y: 0, z: 0, w: U },
            Vec4 { x: U, y: 0, z: 0, w: -U },
            Vec4 { x: 0, y: U, z: 0, w: U },
        ],
        e: [EdgeType::Visible; 3],
    };
    let r = split_triangle_by_segment(&t, q2(0.5, -1.0), q2(0.5, 2.0)).unwrap();
    assert!(matches!(r, SplitResult::Degen));
}

#[test]
fn split_invariant_violation_reported() {
    let t = unit_tri();
    // A segment grazing the corner: one endpoint outside, one inside, yet
    // no edge reports a genuine crossing, which breaks the case analysis.
    let r = split_triangle_by_segment(&t, q2(-0.001, -0.001), q2(0.0005, 0.0005));
    assert_eq!(r, Err(GeomError::InvariantViolation));
}

#[test]
fn intersection_round_trip_exact() {
    let a0 = q2(0.0, 0.0);
    let a1 = q2(1.0, 1.0);
    let b0 = q2(0.0, 1.0);
    let b1 = q2(1.0, 0.0);
    match line_intersect_2d(a0, a1, b0, b1) {
        RayInt::Intersection(ip) => {
            // Both interpolations land exactly on (0.5, 0.5).
            let den = ip.den as i128;
            let t = ip.t_num as i128;
            let u = ip.u_num as i128;
            assert_eq!(
                den * a0.x as i128 + t * (a1.x - a0.x) as i128,
                den * 500_000
            );
            assert_eq!(
                den * a0.y as i128 + t * (a1.y - a0.y) as i128,
                den * 500_000
            );
            assert_eq!(
                den * b0.x as i128 + u * (b1.x - b0.x) as i128,
                den * 500_000
            );
            assert_eq!(
                den * b0.y as i128 + u * (b1.y - b0.y) as i128,
                den * 500_000
            );
        }
        _ => panic!("expected a crossing"),
    }
}

#[test]
fn class_names() {
    assert_eq!(EdgeType::Visible.class_name(), "visible");
    assert_eq!(EdgeType::Invisible.class_name(), "invisible");
    assert_eq!(EdgeType::Hidden.class_name(), "hidden");
    assert_eq!(EdgeType::Split.class_name(), "split");
    assert_eq!(EdgeType::Culled.class_name(), "culled");
}

#[test]
fn centroid_values() {
    let line = Primitive::Line { points: [q4(0.0, 0.0), q4(1.0, 1.0)] };
    let c = line.centroid();
    assert_eq!((c.x, c.y, c.z), (500_000, 500_000, 0));
    let tri = Primitive::Triangle { tri: unit_tri() };
    let c = tri.centroid();
    assert_eq!((c.x, c.y), (333_333, 333_333));
}

#[test]
fn hide_and_cull_tags() {
    let mut t = unit_tri();
    assert!(!t.is_hidden());
    t.hide_edges();
    assert!(t.is_hidden());
    let t = unit_tri().cull();
    assert!(t.is_culled());
}

#[test]
fn memo_tracks_checked_pairs() {
    let mut memo = SplitMemo::new();
    memo.insert(3, 1);
    let z = ZsortPrim::new(Primitive::Point { point: q4(0.0, 0.0) }, &memo);
    assert!(z.already_checked(3, 1));
    assert!(!z.already_checked(3, 2));
    assert!(!z.already_checked(0, 1));
}

#[test]
fn visible_only_filters_lines() {
    let rp = RenderPaths {
        points: vec![q2(0.0, 0.0)],
        lines: vec![
            RenderLine::new(q2(0.0, 0.0), q2(1.0, 0.0), EdgeType::Visible),
            RenderLine::new(q2(0.0, 0.0), q2(0.0, 1.0), EdgeType::Hidden),
            RenderLine::new(q2(1.0, 0.0), q2(0.0, 1.0), EdgeType::Split),
        ],
    };
    assert!(!rp.is_empty());
    let v = rp.visible_only();
    assert_eq!(v.points.len(), 1);
    assert_eq!(v.lines.len(), 1);
    assert_eq!(v.lines[0].edge, EdgeType::Visible);
}

#[test]
fn primitive_hide_only_affects_triangles() {
    let mut p = Primitive::Triangle { tri: unit_tri() };
    assert!(!p.is_hidden());
    p.hide_edges();
    assert!(p.is_hidden());
    let mut q = Primitive::Point { point: q4(0.1, 0.2) };
    q.hide_edges();
    assert!(!q.is_hidden());
}
