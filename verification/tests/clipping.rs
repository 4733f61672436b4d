use nalgebra_glm::{look_at, perspective, vec3};
use vectorfoil::renderer::{Mat4, Renderer};
use vectorfoil::Vec3;

fn fix(v: f64) -> i64 {
    (v * 1_000_000.0).round() as i64
}

fn world(x: f64, y: f64, z: f64) -> Vec3 {
    Vec3 { x: fix(x), y: fix(y), z: fix(z) }
}

fn renderer() -> Renderer {
    let view = look_at(
        &vec3(0.0, 0.0, 5.0),
        &vec3(0.0, 0.0, 0.0),
        &vec3(0.0, 1.0, 0.0),
    );
    let proj = perspective(1.0, std::f64::consts::FRAC_PI_2, 0.1, 10.0);
    let m = proj * view;
    let mat = Mat4 {
        m00: fix(m[(0, 0)]),
        m01: fix(m[(0, 1)]),
        m02: fix(m[(0, 2)]),
        m03: fix(m[(0, 3)]),
        m10: fix(m[(1, 0)]),
        m11: fix(m[(1, 1)]),
        m12: fix(m[(1, 2)]),
        m13: fix(m[(1, 3)]),
        m20: fix(m[(2, 0)]),
        m21: fix(m[(2, 1)]),
        m22: fix(m[(2, 2)]),
        m23: fix(m[(2, 3)]),
        m30: fix(m[(3, 0)]),
        m31: fix(m[(3, 1)]),
        m32: fix(m[(3, 2)]),
        m33: fix(m[(3, 3)]),
    };
    Renderer::new(&mat)
}

#[test]
fn clip_point_neg_x() {
    let mut r = renderer();
    r.add_point(world(-10.0, 0.0, 0.0));
    assert!(r.render().unwrap().is_empty());

    let mut r = renderer();
    r.add_point(world(-1.0, 0.0, 0.0));
    assert!(!r.render().unwrap().is_empty());
}

#[test]
fn clip_point_pos_x() {
    let mut r = renderer();
    r.add_point(world(10.0, 0.0, 0.0));
    assert!(r.render().unwrap().is_empty());
}

#[test]
fn clip_point_neg_y() {
    let mut r = renderer();
    r.add_point(world(0.0, -10.0, 0.0));
    assert!(r.render().unwrap().is_empty());
}

#[test]
fn clip_point_pos_y() {
    let mut r = renderer();
    r.add_point(world(0.0, 10.0, 0.0));
    assert!(r.render().unwrap().is_empty());
}

#[test]
fn clip_point_neg_z() {
    let mut r = renderer();
    r.add_point(world(0.0, 0.0, 6.0));
    assert!(r.render().unwrap().is_empty());
}

#[test]
fn clip_point_pos_z() {
    let mut r = renderer();
    r.add_point(world(0.0, 0.0, -6.0));
    assert!(r.render().unwrap().is_empty());
}

#[test]
fn clip_line_neg_x() {
    let mut r = renderer();
    r.add_line(world(-10.0, 0.0, 0.0), world(-9.0, 0.0, 0.0));
    assert!(r.render().unwrap().is_empty());
}

#[test]
fn clip_line_pos_x() {
    let mut r = renderer();
    r.add_line(world(10.0, 0.0, 0.0), world(9.0, 0.0, 0.0));
    assert!(r.render().unwrap().is_empty());
}

#[test]
fn clip_line_neg_y() {
    let mut r = renderer();
    r.add_line(world(0.0, -10.0, 0.0), world(0.0, -9.0, 0.0));
    assert!(r.render().unwrap().is_empty());
}

#[test]
fn clip_line_pos_y() {
    let mut r = renderer();
    r.add_line(world(0.0, 10.0, 0.0), world(0.0, 9.0, 0.0));
    assert!(r.render().unwrap().is_empty());
}

#[test]
fn clip_line_neg_z() {
    let mut r = renderer();
    r.add_line(world(0.0, 0.0, -10.0), world(0.0, 0.0, -9.0));
    assert!(r.render().unwrap().is_empty());
}

#[test]
fn clip_line_pos_z() {
    let mut r = renderer();
    r.add_line(world(0.0, 0.0, 10.0), world(0.0, 0.0, 9.0));
    assert!(r.render().unwrap().is_empty());
}
