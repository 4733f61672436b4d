use vectorfoil::renderer::{Mat4, RenderError, Renderer};
use vectorfoil::{EdgeType, Primitive, Vec3, Vec4};

const RU: i64 = 1_000_000;

fn rw(x: f64, y: f64, z: f64) -> Vec3 {
    Vec3 {
        x: (x * 1_000_000.0).round() as i64,
        y: (y * 1_000_000.0).round() as i64,
        z: (z * 1_000_000.0).round() as i64,
    }
}

/// The identity transform: world coordinates are already NDC.
fn ident() -> Mat4 {
    Mat4 {
        m00: RU,
        m01: 0,
        m02: 0,
        m03: 0,
        m10: 0,
        m11: RU,
        m12: 0,
        m13: 0,
        m20: 0,
        m21: 0,
        m22: RU,
        m23: 0,
        m30: 0,
        m31: 0,
        m32: 0,
        m33: RU,
    }
}

fn count_edges(rp: &vectorfoil::render_paths::RenderPaths, e: EdgeType) -> usize {
    rp.lines.iter().filter(|l| l.edge == e).count()
}

#[test]
fn disjoint_triangles_all_visible() {
    let mut r = Renderer::new(&ident());
    r.add_triangle(rw(-0.9, -0.9, 0.0), rw(-0.5, -0.9, 0.0), rw(-0.7, -0.5, 0.0));
    r.add_triangle(rw(0.5, -0.9, 0.5), rw(0.9, -0.9, 0.5), rw(0.7, -0.5, 0.5));
    let rp = r.render().unwrap();
    assert_eq!(rp.points.len(), 0);
    assert_eq!(rp.lines.len(), 6);
    assert_eq!(count_edges(&rp, EdgeType::Visible), 6);
    assert_eq!(count_edges(&rp, EdgeType::Split), 0);
    assert_eq!(count_edges(&rp, EdgeType::Hidden), 0);
}

#[test]
fn covered_triangle_fully_hidden() {
    let mut r = Renderer::new(&ident());
    // The nearer triangle fully covers the farther one in 2D.
    r.add_triangle(rw(-0.8, -0.8, 0.0), rw(0.8, -0.8, 0.0), rw(0.0, 0.8, 0.0));
    r.add_triangle(rw(-0.2, -0.2, 0.5), rw(0.2, -0.2, 0.5), rw(0.0, 0.2, 0.5));
    let rp = r.render().unwrap();
    assert_eq!(rp.lines.len(), 6);
    assert_eq!(count_edges(&rp, EdgeType::Visible), 3);
    assert_eq!(count_edges(&rp, EdgeType::Hidden), 3);
    let vis = rp.visible_only();
    assert_eq!(vis.lines.len(), 3);
}

#[test]
fn partial_overlap_splits_farther_triangle() {
    let mut r = Renderer::new(&ident());
    // One edge of the nearer triangle crosses the farther triangle twice:
    // the farther triangle is cut into three pieces, the part outside the
    // occluder stays visible, and the covered parts are hidden.
    r.add_triangle(rw(-1.5, 0.0, 0.0), rw(1.5, 0.0, 0.0), rw(0.0, -1.8, 0.0));
    r.add_triangle(rw(-0.5, -0.5, 0.5), rw(0.5, -0.5, 0.5), rw(0.0, 0.5, 0.5));
    let rp = r.render().unwrap();
    assert_eq!(rp.lines.len(), 12);
    assert_eq!(count_edges(&rp, EdgeType::Visible), 5);
    assert_eq!(count_edges(&rp, EdgeType::Split), 1);
    assert_eq!(count_edges(&rp, EdgeType::Hidden), 6);
}

#[test]
fn polygon_fan_marks_interior_edges_invisible() {
    let mut r = Renderer::new(&ident());
    r.add_polygon(&[
        rw(-0.5, -0.5, 0.0),
        rw(0.5, -0.5, 0.0),
        rw(0.5, 0.5, 0.0),
        rw(-0.5, 0.5, 0.0),
    ]);
    let rp = r.render().unwrap();
    assert_eq!(rp.lines.len(), 6);
    assert_eq!(count_edges(&rp, EdgeType::Visible), 4);
    assert_eq!(count_edges(&rp, EdgeType::Invisible), 2);
}

#[test]
fn polygon_needs_three_points() {
    let mut r = Renderer::new(&ident());
    r.add_polygon(&[rw(-0.5, -0.5, 0.0), rw(0.5, -0.5, 0.0)]);
    assert!(r.render().unwrap().is_empty());
}

#[test]
fn culled_scene_is_empty() {
    let mut r = Renderer::new(&ident());
    // Every vertex beyond the positive x plane: conservatively culled.
    r.add_triangle(rw(1.2, -0.5, 0.0), rw(1.8, -0.5, 0.0), rw(1.5, 0.5, 0.0));
    assert!(r.render().unwrap().is_empty());
}

#[test]
fn degenerate_triangle_is_dropped() {
    let mut r = Renderer::new(&ident());
    r.add_triangle(rw(-0.5, 0.0, 0.0), rw(0.5, 0.0, 0.0), rw(0.0, 0.0000001, 0.0));
    assert!(r.render().unwrap().is_empty());
}

#[test]
fn singular_projection_is_an_error() {
    let m = Mat4 {
        m00: RU,
        m01: 0,
        m02: 0,
        m03: 0,
        m10: 0,
        m11: RU,
        m12: 0,
        m13: 0,
        m20: 0,
        m21: 0,
        m22: RU,
        m23: 0,
        m30: 0,
        m31: 0,
        m32: 0,
        m33: 0,
    };
    let mut r = Renderer::new(&m);
    r.add_point(rw(0.25, 0.25, 0.25));
    assert_eq!(r.render().err(), Some(RenderError::ProjectionSingular));
}

#[test]
fn points_and_lines_pass_through() {
    let mut r = Renderer::new(&ident());
    r.add_point(rw(0.25, 0.25, 0.0));
    r.add_line(rw(-0.5, -0.5, 0.0), rw(0.5, 0.5, 0.0));
    let rp = r.render().unwrap();
    assert_eq!(rp.points.len(), 1);
    assert_eq!(rp.lines.len(), 1);
    assert_eq!(rp.lines[0].edge, EdgeType::Visible);
    assert_eq!(rp.points[0].x, 250_000);
    assert_eq!(rp.points[0].y, 250_000);
}

#[test]
fn add_prim_escape_hatch() {
    let mut r = Renderer::new(&ident());
    r.add_prim(Primitive::Point { point: Vec4 { x: 100_000, y: 200_000, z: 0, w: RU } });
    let rp = r.render().unwrap();
    assert_eq!(rp.points.len(), 1);
    assert_eq!((rp.points[0].x, rp.points[0].y), (100_000, 200_000));
}
