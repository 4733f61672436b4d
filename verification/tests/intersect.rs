use vectorfoil::intersect::{line_intersect_2d, RayInt};
use vectorfoil::Vec2;

fn ifix(v: f64) -> i64 {
    (v * 1_000_000.0).round() as i64
}

fn ipt(x: f64, y: f64) -> Vec2 {
    Vec2 { x: ifix(x), y: ifix(y) }
}

#[test]
fn test_cross() {
    const N: usize = 11;
    for t in 0..N {
        let dt: f64 = t as f64 / (N + 1) as f64;

        let isect = line_intersect_2d(
            ipt(-1.0 + dt, -1.0 + dt),
            ipt(1.0 + dt, 1.0 + dt),
            ipt(-1.0, 1.0),
            ipt(1.0, -1.0),
        );
        match isect {
            RayInt::Intersection(ip) => {
                let t1 = ip.t_num as f64 / ip.den as f64;
                let t2 = ip.u_num as f64 / ip.den as f64;
                assert!((t1 - 0.5 * (1.0 - dt)).abs() < 1.0e-6);
                assert!((t2 - 0.5).abs() < 1.0e-6);
            }
            _ => assert!(false),
        }
    }
}

#[test]
fn test_colinear() {
    const N: usize = 11;
    for t in 0..N {
        let dt: f64 = t as f64 / (N + 1) as f64;

        let isect = line_intersect_2d(
            ipt(-1.0 + dt, -1.0 + dt),
            ipt(1.0 + dt, 1.0 + dt),
            ipt(-1.0, -1.0),
            ipt(1.0, 1.0),
        );

        assert_eq!(isect, RayInt::Colinear);
    }
}

#[test]
fn test_parallel() {
    const N: usize = 11;
    for t in 1..N {
        let dt: f64 = t as f64 / (N + 1) as f64;

        let isect = line_intersect_2d(
            ipt(-1.0 - dt, -1.0 + dt),
            ipt(1.0 - dt, 1.0 + dt),
            ipt(-1.0, -1.0),
            ipt(1.0, 1.0),
        );

        assert_eq!(isect, RayInt::Parallel);
    }
}
