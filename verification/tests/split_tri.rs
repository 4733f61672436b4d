//! Regression inputs for split_triangle_by_segment.
use vectorfoil::intersect::split_triangle_by_segment;
use vectorfoil::{EdgeType, Tri, Vec2, Vec4};

fn sfix(v: f64) -> i64 {
    (v * 1_000_000.0).round() as i64
}

fn sp4(x: f64, y: f64) -> Vec4 {
    Vec4 { x: sfix(x), y: sfix(y), z: 0, w: 1_000_000 }
}

fn sp2(x: f64, y: f64) -> Vec2 {
    Vec2 { x: sfix(x), y: sfix(y) }
}

#[test]
fn split_tri() {
    let v = [
        sp4(0.1888026940, -0.0181302809),
        sp4(-0.0983901363, 0.3401342839),
        sp4(-0.0802953986, -0.0308423169),
    ];
    let p0 = sp2(0.1580475040, 0.0202359093);
    let p1 = sp2(0.1888026940, -0.0181302809);

    let tri = Tri { p: v, e: [EdgeType::Visible; 3] };
    let _ = split_triangle_by_segment(&tri, p0, p1);

    let v = [
        sp4(0.1970887057, 0.0546750164),
        sp4(0.1888026940, -0.0181302809),
        sp4(0.1528945590, 0.0266640559),
    ];
    let p0 = sp2(0.1714282130, 0.0384109837);
    let p1 = sp2(0.1970887057, 0.0546750164);

    let tri = Tri { p: v, e: [EdgeType::Visible; 3] };
    let _ = split_triangle_by_segment(&tri, p0, p1);

    let v = [
        sp4(0.1528945590039597, 0.026664055882639027),
        sp4(0.15289455900395973, 0.02666405588263901),
        sp4(0.1970887056666544, 0.05467501637773782),
    ];
    let p0 = sp2(0.15825014652177105, 0.030058513332726834);
    let p1 = sp2(0.19404721329525543, 0.027950849718747416);
    let tri = Tri { p: v, e: [EdgeType::Visible; 3] };
    let _ = split_triangle_by_segment(&tri, p0, p1);
}
