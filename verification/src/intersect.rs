//! General geometric predicates and the triangle splitter.
//!
//! Every method ending in `_2d` ignores the z and w values of its arguments
//! entirely. All comparisons are exact integer comparisons: a parameter
//! t = num/den (den > 0) is compared against EPS = 1/EPS_RECIP by
//! cross-multiplication, and a length comparison is made on squares.

use crate::common::{
    abs_i, cross_z, div_tz, len_sq, v2_ok, v2_wide_ok, v4_ok, v4_xy, Vec2, Vec4, COORD_LIMIT,
    EPS_RECIP, LEN_EPS_SQ, PARAM_LIMIT, W_LIMIT,
};
use crate::common::{div_i128, mul_i128, wide_mul};
use crate::primitive::{tri_ok, EdgeType, Tri};
use vstd::prelude::*;

verus! {

/// Exact intersection parameters of two lines: the crossing lies at
/// t_num/den along the first line and u_num/den along the second, with
/// den > 0.
#[derive(Clone, Copy, PartialEq, Eq, Structural, Debug)]
pub struct IsectParams {
    pub t_num: i64,
    pub u_num: i64,
    pub den: i64,
}

/// Classification of two infinite lines, each defined by two points.
#[derive(Clone, Copy, PartialEq, Eq, Structural, Debug)]
pub enum RayInt {
    Colinear,
    Parallel,
    Intersection(IsectParams),
}

/// The mathematical value of a `RayInt`, with unbounded parameters.
pub enum RaySpec {
    Colinear,
    Parallel,
    Crossing { t_num: int, u_num: int, den: int },
}

pub open spec fn ray_lift(r: RayInt) -> RaySpec {
    match r {
        RayInt::Colinear => RaySpec::Colinear,
        RayInt::Parallel => RaySpec::Parallel,
        RayInt::Intersection(ip) => RaySpec::Crossing {
            t_num: ip.t_num as int,
            u_num: ip.u_num as int,
            den: ip.den as int,
        },
    }
}

/// The parameters an executable `RayInt` may carry: a positive, bounded
/// denominator and bounded numerators.
pub open spec fn ray_int_wf(r: RayInt) -> bool {
    match r {
        RayInt::Intersection(ip) => {
            &&& 0 < ip.den <= PARAM_LIMIT
            &&& abs_i(ip.t_num as int) <= PARAM_LIMIT
            &&& abs_i(ip.u_num as int) <= PARAM_LIMIT
        },
        _ => true,
    }
}

/// The degeneracy test on raw coordinates: an edge not longer than the
/// length epsilon, or a signed area of at most EPS times the product of
/// the two edge lengths (compared on squares, exactly).
pub open spec fn degen_spec(x0: int, y0: int, x1: int, y1: int, x2: int, y2: int) -> bool {
    let l01 = len_sq(x1 - x0, y1 - y0);
    let l12 = len_sq(x2 - x1, y2 - y1);
    let a = cross_z(x1 - x0, y1 - y0, x2 - x1, y2 - y1);
    ||| l01 <= LEN_EPS_SQ
    ||| l12 <= LEN_EPS_SQ
    ||| (EPS_RECIP * a) * (EPS_RECIP * a) <= l01 * l12
}

pub open spec fn degen_v(p0: Vec2, p1: Vec2, p2: Vec2) -> bool {
    degen_spec(p0.x as int, p0.y as int, p1.x as int, p1.y as int, p2.x as int, p2.y as int)
}

/// Return true iff (p0, p1, p2) form a degenerate triangle.
pub fn is_degen_tri(p0: Vec2, p1: Vec2, p2: Vec2) -> (r: bool)
    requires
        v2_wide_ok(p0),
        v2_wide_ok(p1),
        v2_wide_ok(p2),
    ensures
        r == degen_v(p0, p1, p2),
{
    let dx01: i64 = p1.x - p0.x;
    let dy01: i64 = p1.y - p0.y;
    let dx12: i64 = p2.x - p1.x;
    let dy12: i64 = p2.y - p1.y;
    let b: Ghost<int> = Ghost(8_000_000int);
    let l01: i128 = wide_mul(dx01, dx01, b, b) + wide_mul(dy01, dy01, b, b);
    let l12: i128 = wide_mul(dx12, dx12, b, b) + wide_mul(dy12, dy12, b, b);
    if l01 <= LEN_EPS_SQ as i128 || l12 <= LEN_EPS_SQ as i128 {
        return true;
    }
    let a: i128 = wide_mul(dx01, dy12, b, b) - wide_mul(dy01, dx12, b, b);
    let ra: i128 = mul_i128(
        a,
        EPS_RECIP as i128,
        Ghost(128_000_000_000_000int),
        Ghost(100_000int),
    );
    let ra2: i128 = mul_i128(
        ra,
        ra,
        Ghost(12_800_000_000_000_000_000int),
        Ghost(12_800_000_000_000_000_000int),
    );
    let ll: i128 = mul_i128(
        l01,
        l12,
        Ghost(128_000_000_000_000int),
        Ghost(128_000_000_000_000int),
    );
    ra2 <= ll
}

/// Denominator of the 2x2 system a0 + t (a1 - a0) = b0 + u (b1 - b0),
/// before sign normalization.
pub open spec fn ray_raw_den(a0: Vec2, a1: Vec2, b0: Vec2, b1: Vec2) -> int {
    (b1.x - b0.x) * (a1.y - a0.y) - (a1.x - a0.x) * (b1.y - b0.y)
}

pub open spec fn ray_raw_t(a0: Vec2, a1: Vec2, b0: Vec2, b1: Vec2) -> int {
    (b1.x - b0.x) * (b0.y - a0.y) - (b1.y - b0.y) * (b0.x - a0.x)
}

pub open spec fn ray_raw_u(a0: Vec2, a1: Vec2, b0: Vec2, b1: Vec2) -> int {
    (a1.x - a0.x) * (b0.y - a0.y) - (a1.y - a0.y) * (b0.x - a0.x)
}

/// The classification of the two infinite lines through (a0, a1) and
/// (b0, b1): colinear when both of b's points make a degenerate triangle
/// with a, parallel when the direction pair is degenerate, and otherwise
/// the exact solution of the 2x2 linear system, normalized to den > 0.
pub open spec fn ray_spec(a0: Vec2, a1: Vec2, b0: Vec2, b1: Vec2) -> RaySpec {
    if degen_v(a0, a1, b0) && degen_v(a0, a1, b1) {
        RaySpec::Colinear
    } else if degen_spec(
        0,
        0,
        a1.x - a0.x,
        a1.y - a0.y,
        b1.x - b0.x,
        b1.y - b0.y,
    ) {
        RaySpec::Parallel
    } else {
        let den = ray_raw_den(a0, a1, b0, b1);
        let t = ray_raw_t(a0, a1, b0, b1);
        let u = ray_raw_u(a0, a1, b0, b1);
        if den > 0 {
            RaySpec::Crossing { t_num: t, u_num: u, den: den }
        } else {
            RaySpec::Crossing { t_num: -t, u_num: -u, den: -den }
        }
    }
}

proof fn lemma_sq_nonneg(a: int)
    by (nonlinear_arith)
    ensures
        a * a >= 0,
{
}

proof fn lemma_mul_nonneg(a: int, b: int)
    by (nonlinear_arith)
    requires
        a >= 0,
        b >= 0,
    ensures
        a * b >= 0,
{
}

proof fn lemma_mul_zero(a: int, b: int)
    by (nonlinear_arith)
    requires
        a == 0 || b == 0,
    ensures
        a * b == 0,
{
}

/// The degeneracy area of the direction triangle (0, da, db) is the plain
/// cross product of the two directions.
proof fn lemma_dir_cross(dax: int, day: int, dbx: int, dby: int)
    by (nonlinear_arith)
    ensures
        dax * (dby - day) - day * (dbx - dax) == dax * dby - day * dbx,
{
}

/// A non-degenerate direction pair has a nonzero determinant.
proof fn lemma_nondegen_den(dax: int, day: int, dbx: int, dby: int)
    requires
        !degen_spec(0, 0, dax, day, dbx, dby),
    ensures
        dbx * day - dax * dby != 0,
{
    let l01 = len_sq(dax, day);
    let l12 = len_sq(dbx - dax, dby - day);
    let a = cross_z(dax, day, dbx - dax, dby - day);
    lemma_sq_nonneg(dax);
    lemma_sq_nonneg(day);
    lemma_sq_nonneg(dbx - dax);
    lemma_sq_nonneg(dby - day);
    lemma_mul_nonneg(l01, l12);
    lemma_dir_cross(dax, day, dbx, dby);
    if dbx * day - dax * dby == 0 {
        assert(a == 0);
        lemma_mul_zero(EPS_RECIP as int, a);
        lemma_mul_zero(EPS_RECIP as int * a, EPS_RECIP as int * a);
        assert((EPS_RECIP * a) * (EPS_RECIP * a) <= l01 * l12);
        assert(false);
    }
}

/// Return the intersection of two rays, each implicitly defined by two
/// points, assuming any finite parameters are valid.
pub fn implicit_ray_intersect_2d(a0: Vec2, a1: Vec2, b0: Vec2, b1: Vec2) -> (r: RayInt)
    requires
        v2_ok(a0),
        v2_ok(a1),
        v2_ok(b0),
        v2_ok(b1),
    ensures
        ray_lift(r) == ray_spec(a0, a1, b0, b1),
        ray_int_wf(r),
{
    // The system can be solvable even in cases that we would call
    // degenerate, so the degenerate cases are checked first.
    if is_degen_tri(a0, a1, b0) && is_degen_tri(a0, a1, b1) {
        return RayInt::Colinear;
    }
    let dax: i64 = a1.x - a0.x;
    let day: i64 = a1.y - a0.y;
    let dbx: i64 = b1.x - b0.x;
    let dby: i64 = b1.y - b0.y;
    let zero = Vec2 { x: 0, y: 0 };
    let da = Vec2 { x: dax, y: day };
    let db = Vec2 { x: dbx, y: dby };
    if is_degen_tri(zero, da, db) {
        return RayInt::Parallel;
    }
    let dx: i64 = b0.x - a0.x;
    let dy: i64 = b0.y - a0.y;
    let b4: Ghost<int> = Ghost(4_000_000int);
    let den: i128 = wide_mul(dbx, day, b4, b4) - wide_mul(dax, dby, b4, b4);
    let tn: i128 = wide_mul(dbx, dy, b4, b4) - wide_mul(dby, dx, b4, b4);
    let un: i128 = wide_mul(dax, dy, b4, b4) - wide_mul(day, dx, b4, b4);
    proof {
        lemma_nondegen_den(dax as int, day as int, dbx as int, dby as int);
    }
    if den > 0 {
        RayInt::Intersection(
            IsectParams { t_num: tn as i64, u_num: un as i64, den: den as i64 },
        )
    } else {
        RayInt::Intersection(
            IsectParams { t_num: (-tn) as i64, u_num: (-un) as i64, den: (-den) as i64 },
        )
    }
}

/// EPS < num/den < 1 - EPS, exactly, for den > 0.
pub open spec fn param_inside(num: int, den: int) -> bool {
    &&& EPS_RECIP * num > den
    &&& EPS_RECIP * num < (EPS_RECIP - 1) * den
}

/// |num/den| < EPS or |1 - num/den| < EPS, exactly, for den > 0.
pub open spec fn param_on(num: int, den: int) -> bool {
    ||| EPS_RECIP * abs_i(num) < den
    ||| EPS_RECIP * abs_i(den - num) < den
}

/// num/den < -EPS, exactly, for den > 0.
pub open spec fn param_below_neg_eps(num: int, den: int) -> bool {
    EPS_RECIP * num < -den
}

/// Whether the value is within the open interval (0, 1) with EPS slack.
fn param_inside_exec(num: i64, den: i64) -> (r: bool)
    requires
        abs_i(num as int) <= PARAM_LIMIT,
        0 < den <= PARAM_LIMIT,
    ensures
        r == param_inside(num as int, den as int),
{
    let g: Ghost<int> = Ghost(40_000_000_000_000int);
    let ge: Ghost<int> = Ghost(100_000int);
    let rn: i128 = wide_mul(EPS_RECIP, num, ge, g);
    let hi: i128 = wide_mul(EPS_RECIP - 1, den, ge, g);
    rn > den as i128 && rn < hi
}

/// Whether the value is within EPS of 0 or of 1.
fn param_on_exec(num: i64, den: i64) -> (r: bool)
    requires
        abs_i(num as int) <= PARAM_LIMIT,
        0 < den <= PARAM_LIMIT,
    ensures
        r == param_on(num as int, den as int),
{
    let g: Ghost<int> = Ghost(80_000_000_000_000int);
    let ge: Ghost<int> = Ghost(100_000int);
    let an: i64 = if num >= 0 {
        num
    } else {
        -num
    };
    let dmn: i64 = den - num;
    let adm: i64 = if dmn >= 0 {
        dmn
    } else {
        -dmn
    };
    let rn: i128 = wide_mul(EPS_RECIP, an, ge, g);
    let rd: i128 = wide_mul(EPS_RECIP, adm, ge, g);
    rn < den as i128 || rd < den as i128
}

/// Whether the value is below -EPS.
fn param_neg_exec(num: i64, den: i64) -> (r: bool)
    requires
        abs_i(num as int) <= PARAM_LIMIT,
        0 < den <= PARAM_LIMIT,
    ensures
        r == param_below_neg_eps(num as int, den as int),
{
    let g: Ghost<int> = Ghost(40_000_000_000_000int);
    let ge: Ghost<int> = Ghost(100_000int);
    let rn: i128 = wide_mul(EPS_RECIP, num, ge, g);
    rn < -(den as i128)
}

/// A genuine crossing of the two finite segments: an intersection whose
/// parameters both lie strictly inside (EPS, 1 - EPS).
pub open spec fn crossing_inside(g: RaySpec) -> bool {
    match g {
        RaySpec::Crossing { t_num, u_num, den } => param_inside(t_num, den) && param_inside(
            u_num,
            den,
        ),
        _ => false,
    }
}

impl RayInt {
    /// True iff this intersection is a line-line intersection, rather
    /// than just a ray-ray intersection.
    fn is_line_line_isect(&self) -> (r: bool)
        requires
            ray_int_wf(*self),
        ensures
            r == crossing_inside(ray_lift(*self)),
    {
        match self {
            RayInt::Intersection(ip) => param_inside_exec(ip.t_num, ip.den) && param_inside_exec(
                ip.u_num,
                ip.den,
            ),
            _ => false,
        }
    }
}

/// `ray_spec`, with an intersection demoted to parallel unless both of its
/// parameters fall strictly inside (EPS, 1 - EPS).
pub open spec fn line_spec(a0: Vec2, a1: Vec2, b0: Vec2, b1: Vec2) -> RaySpec {
    let g = ray_spec(a0, a1, b0, b1);
    match g {
        RaySpec::Crossing { t_num, u_num, den } => if crossing_inside(g) {
            g
        } else {
            RaySpec::Parallel
        },
        _ => g,
    }
}

/// Return the intersection parameters along a and b if the finite segments
/// genuinely cross; otherwise colinear or parallel as appropriate.
pub fn line_intersect_2d(a0: Vec2, a1: Vec2, b0: Vec2, b1: Vec2) -> (r: RayInt)
    requires
        v2_ok(a0),
        v2_ok(a1),
        v2_ok(b0),
        v2_ok(b1),
    ensures
        ray_lift(r) == line_spec(a0, a1, b0, b1),
        ray_int_wf(r),
{
    let isect = implicit_ray_intersect_2d(a0, a1, b0, b1);
    match isect {
        RayInt::Intersection(ip) => {
            if param_inside_exec(ip.t_num, ip.den) && param_inside_exec(ip.u_num, ip.den) {
                isect
            } else {
                RayInt::Parallel
            }
        },
        _ => isect,
    }
}

} // verus!

verus! {

/// Exact barycentric weights of a point with respect to a triangle: each
/// weight is num/den with a shared, positive denominator, so the three
/// numerators sum exactly to the denominator.
#[derive(Clone, Copy, PartialEq, Eq, Structural, Debug)]
pub struct Bary {
    pub a: i64,
    pub b: i64,
    pub c: i64,
    pub den: i64,
}

/// The mathematical value of a `Bary`, with unbounded numerators.
pub struct GBary {
    pub a: int,
    pub b: int,
    pub c: int,
    pub den: int,
}

pub open spec fn bary_lift(b: Bary) -> GBary {
    GBary { a: b.a as int, b: b.b as int, c: b.c as int, den: b.den as int }
}

pub open spec fn opt_bary_lift(r: Option<Bary>) -> Option<GBary> {
    match r {
        Option::None => Option::None,
        Option::Some(b) => Option::Some(bary_lift(b)),
    }
}

pub open spec fn bary_wf(b: Bary) -> bool {
    &&& 0 < b.den <= PARAM_LIMIT
    &&& abs_i(b.a as int) <= PARAM_LIMIT
    &&& abs_i(b.b as int) <= PARAM_LIMIT
    &&& abs_i(b.c as int) <= PARAM_LIMIT
}

/// Determinant of the 3x3 system mapping (px, py, 1) to a weighted
/// combination of the triangle's 2D vertices.
pub open spec fn tri_det(t: Tri) -> int {
    let x0 = t.p[0].x as int;
    let y0 = t.p[0].y as int;
    let x1 = t.p[1].x as int;
    let y1 = t.p[1].y as int;
    let x2 = t.p[2].x as int;
    let y2 = t.p[2].y as int;
    x0 * y1 - x0 * y2 - x1 * y0 + x1 * y2 + x2 * y0 - x2 * y1
}

/// Numerator of the first barycentric weight (Cramer's rule).
pub open spec fn bary_det_a(t: Tri, p: Vec2) -> int {
    let x1 = t.p[1].x as int;
    let y1 = t.p[1].y as int;
    let x2 = t.p[2].x as int;
    let y2 = t.p[2].y as int;
    let px = p.x as int;
    let py = p.y as int;
    px * y1 - px * y2 - x1 * py + x1 * y2 + x2 * py - x2 * y1
}

/// Numerator of the second barycentric weight.
pub open spec fn bary_det_b(t: Tri, p: Vec2) -> int {
    let x0 = t.p[0].x as int;
    let y0 = t.p[0].y as int;
    let x2 = t.p[2].x as int;
    let y2 = t.p[2].y as int;
    let px = p.x as int;
    let py = p.y as int;
    x0 * py - x0 * y2 - px * y0 + px * y2 + x2 * y0 - x2 * py
}

/// Numerator of the third barycentric weight.
pub open spec fn bary_det_c(t: Tri, p: Vec2) -> int {
    let x0 = t.p[0].x as int;
    let y0 = t.p[0].y as int;
    let x1 = t.p[1].x as int;
    let y1 = t.p[1].y as int;
    let px = p.x as int;
    let py = p.y as int;
    x0 * y1 - x0 * py - x1 * y0 + x1 * py + px * y0 - px * y1
}

/// The exact barycentric weights, normalized to a positive denominator;
/// none when the system is singular (the triangle is colinear in 2D).
pub open spec fn bary_spec(p: Vec2, t: Tri) -> Option<GBary> {
    let d = tri_det(t);
    if d == 0 {
        Option::None
    } else if d > 0 {
        Option::Some(
            GBary { a: bary_det_a(t, p), b: bary_det_b(t, p), c: bary_det_c(t, p), den: d },
        )
    } else {
        Option::Some(
            GBary { a: -bary_det_a(t, p), b: -bary_det_b(t, p), c: -bary_det_c(t, p), den: -d },
        )
    }
}

/// Cramer's rule, third row: the three weight numerators sum to the
/// determinant.
proof fn lemma_cramer3_sum(
    x0: int,
    y0: int,
    x1: int,
    y1: int,
    x2: int,
    y2: int,
    px: int,
    py: int,
)
    ensures
        (px * y1 - px * y2 - x1 * py + x1 * y2 + x2 * py - x2 * y1) + (x0 * py - x0 * y2 - px * y0
            + px * y2 + x2 * y0 - x2 * py) + (x0 * y1 - x0 * py - x1 * y0 + x1 * py + px * y0 - px
            * y1) == x0 * y1 - x0 * y2 - x1 * y0 + x1 * y2 + x2 * y0 - x2 * y1,
{
}

/// Translating a weight determinant to the point's frame: the expanded
/// 3x3 cofactor equals a 2x2 determinant of offsets from the point.
proof fn lemma_det_translate(x1: int, y1: int, x2: int, y2: int, px: int, py: int)
    by (nonlinear_arith)
    ensures
        px * y1 - px * y2 - x1 * py + x1 * y2 + x2 * py - x2 * y1 == (x1 - px) * (y2 - py) - (x2
            - px) * (y1 - py),
{
}

/// The cyclic sum of offset cross products weighted by the u offsets is
/// zero.
#[verifier::rlimit(100)]
proof fn lemma_triple_cancel_u(u0: int, v0: int, u1: int, v1: int, u2: int, v2: int)
    by (nonlinear_arith)
    ensures
        (u1 * v2 - u2 * v1) * u0 + (u2 * v0 - u0 * v2) * u1 + (u0 * v1 - u1 * v0) * u2 == 0,
{
}

/// The cyclic sum of offset cross products weighted by the v offsets is
/// zero.
#[verifier::rlimit(100)]
proof fn lemma_triple_cancel_v(u0: int, v0: int, u1: int, v1: int, u2: int, v2: int)
    by (nonlinear_arith)
    ensures
        (u1 * v2 - u2 * v1) * v0 + (u2 * v0 - u0 * v2) * v1 + (u0 * v1 - u1 * v0) * v2 == 0,
{
}

proof fn lemma_distrib(a: int, x: int, p: int)
    by (nonlinear_arith)
    ensures
        a * x - a * p == a * (x - p),
{
}

proof fn lemma_factor3(a: int, b: int, c: int, p: int)
    by (nonlinear_arith)
    ensures
        a * p + b * p + c * p == (a + b + c) * p,
{
}

/// Cramer's rule, first and second rows: the weighted combination of the
/// vertices reproduces the point, scaled by the determinant.
proof fn lemma_cramer3_rows(
    x0: int,
    y0: int,
    x1: int,
    y1: int,
    x2: int,
    y2: int,
    px: int,
    py: int,
)
    ensures
        (px * y1 - px * y2 - x1 * py + x1 * y2 + x2 * py - x2 * y1) * x0 + (x0 * py - x0 * y2 - px
            * y0 + px * y2 + x2 * y0 - x2 * py) * x1 + (x0 * y1 - x0 * py - x1 * y0 + x1 * py + px
            * y0 - px * y1) * x2 == (x0 * y1 - x0 * y2 - x1 * y0 + x1 * y2 + x2 * y0 - x2 * y1)
            * px,
        (px * y1 - px * y2 - x1 * py + x1 * y2 + x2 * py - x2 * y1) * y0 + (x0 * py - x0 * y2 - px
            * y0 + px * y2 + x2 * y0 - x2 * py) * y1 + (x0 * y1 - x0 * py - x1 * y0 + x1 * py + px
            * y0 - px * y1) * y2 == (x0 * y1 - x0 * y2 - x1 * y0 + x1 * y2 + x2 * y0 - x2 * y1)
            * py,
{
    let u0 = x0 - px;
    let v0 = y0 - py;
    let u1 = x1 - px;
    let v1 = y1 - py;
    let u2 = x2 - px;
    let v2 = y2 - py;
    let da = px * y1 - px * y2 - x1 * py + x1 * y2 + x2 * py - x2 * y1;
    let db = x0 * py - x0 * y2 - px * y0 + px * y2 + x2 * y0 - x2 * py;
    let dc = x0 * y1 - x0 * py - x1 * y0 + x1 * py + px * y0 - px * y1;
    lemma_det_translate(x1, y1, x2, y2, px, py);
    lemma_det_translate(x2, y2, x0, y0, px, py);
    lemma_det_translate(x0, y0, x1, y1, px, py);
    assert(da == u1 * v2 - u2 * v1);
    assert(db == u2 * v0 - u0 * v2);
    assert(dc == u0 * v1 - u1 * v0);
    lemma_triple_cancel_u(u0, v0, u1, v1, u2, v2);
    lemma_triple_cancel_v(u0, v0, u1, v1, u2, v2);
    assert(da * u0 + db * u1 + dc * u2 == 0);
    assert(da * v0 + db * v1 + dc * v2 == 0);
    lemma_distrib(da, x0, px);
    lemma_distrib(db, x1, px);
    lemma_distrib(dc, x2, px);
    lemma_distrib(da, y0, py);
    lemma_distrib(db, y1, py);
    lemma_distrib(dc, y2, py);
    lemma_factor3(da, db, dc, px);
    lemma_factor3(da, db, dc, py);
    lemma_cramer3_sum(x0, y0, x1, y1, x2, y2, px, py);
}

/// Negating every weight and the denominator keeps the combination.
proof fn lemma_neg_combo(a: int, b: int, c: int, d: int, x0: int, x1: int, x2: int, px: int)
    by (nonlinear_arith)
    requires
        a * x0 + b * x1 + c * x2 == d * px,
    ensures
        (-a) * x0 + (-b) * x1 + (-c) * x2 == (-d) * px,
{
}

/// Calculate the exact barycentric coordinates of the point `p` within the
/// triangle `tri`.
///
/// When a value is returned, the three weight numerators sum exactly to
/// the shared denominator, and the weighted combination of the vertices
/// reproduces `p` exactly. No value is returned when the triangle is
/// colinear in 2D (the system is singular).
/// Compute the four Cramer determinants of the barycentric system.
fn bary_dets(p: Vec2, tri: &Tri) -> (r: (i128, i128, i128, i128))
    requires
        v2_ok(p),
        tri_ok(*tri),
    ensures
        r.0 == bary_det_a(*tri, p),
        r.1 == bary_det_b(*tri, p),
        r.2 == bary_det_c(*tri, p),
        r.3 == tri_det(*tri),
        abs_i(r.0 as int) <= 24_000_000_000_000,
        abs_i(r.1 as int) <= 24_000_000_000_000,
        abs_i(r.2 as int) <= 24_000_000_000_000,
        abs_i(r.3 as int) <= 24_000_000_000_000,
{
    let x0: i64 = tri.p[0].x;
    let y0: i64 = tri.p[0].y;
    let x1: i64 = tri.p[1].x;
    let y1: i64 = tri.p[1].y;
    let x2: i64 = tri.p[2].x;
    let y2: i64 = tri.p[2].y;
    let px: i64 = p.x;
    let py: i64 = p.y;
    let da: i128 = cofactor6(px, x1, x2, py, y1, y2);
    let db: i128 = cofactor6(x0, px, x2, y0, py, y2);
    let dc: i128 = cofactor6(x0, x1, px, y0, y1, py);
    let dd: i128 = cofactor6(x0, x1, x2, y0, y1, y2);
    (da, db, dc, dd)
}

/// The cofactor expansion of a 3x3 determinant whose last row is all ones.
fn cofactor6(a: i64, b: i64, c: i64, d: i64, e: i64, f: i64) -> (r: i128)
    requires
        abs_i(a as int) <= COORD_LIMIT,
        abs_i(b as int) <= COORD_LIMIT,
        abs_i(c as int) <= COORD_LIMIT,
        abs_i(d as int) <= COORD_LIMIT,
        abs_i(e as int) <= COORD_LIMIT,
        abs_i(f as int) <= COORD_LIMIT,
    ensures
        r == a as int * e as int - a as int * f as int - b as int * d as int + b as int
            * f as int + c as int * d as int - c as int * e as int,
        abs_i(r as int) <= 24_000_000_000_000,
{
    let g: Ghost<int> = Ghost(2_000_000int);
    wide_mul(a, e, g, g) - wide_mul(a, f, g, g) - wide_mul(b, d, g, g) + wide_mul(b, f, g, g)
        + wide_mul(c, d, g, g) - wide_mul(c, e, g, g)
}

/// Calculate the exact barycentric coordinates of the point `p` within the
/// triangle `tri`.
///
/// When a value is returned, the three weight numerators sum exactly to
/// the shared denominator, and the weighted combination of the vertices
/// reproduces `p` exactly. No value is returned when the triangle is
/// colinear in 2D (the system is singular).
#[verifier::rlimit(60)]
pub fn barycentric_coords(p: Vec2, tri: &Tri) -> (r: Option<Bary>)
    requires
        v2_ok(p),
        tri_ok(*tri),
    ensures
        opt_bary_lift(r) == bary_spec(p, *tri),
        r matches Some(b) ==> bary_wf(b),
        r matches Some(b) ==> b.a as int + b.b as int + b.c as int == b.den as int,
        r matches Some(b) ==> b.a as int * tri.p[0].x as int + b.b as int * tri.p[1].x as int
            + b.c as int * tri.p[2].x as int == b.den as int * p.x as int,
        r matches Some(b) ==> b.a as int * tri.p[0].y as int + b.b as int * tri.p[1].y as int
            + b.c as int * tri.p[2].y as int == b.den as int * p.y as int,
        r is None <==> tri_det(*tri) == 0,
{
    let dets = bary_dets(p, tri);
    let da: i128 = dets.0;
    let db: i128 = dets.1;
    let dc: i128 = dets.2;
    let dd: i128 = dets.3;
    if dd == 0 {
        return None;
    }
    proof {
        lemma_cramer3_sum(
            tri.p[0].x as int,
            tri.p[0].y as int,
            tri.p[1].x as int,
            tri.p[1].y as int,
            tri.p[2].x as int,
            tri.p[2].y as int,
            p.x as int,
            p.y as int,
        );
        lemma_cramer3_rows(
            tri.p[0].x as int,
            tri.p[0].y as int,
            tri.p[1].x as int,
            tri.p[1].y as int,
            tri.p[2].x as int,
            tri.p[2].y as int,
            p.x as int,
            p.y as int,
        );
        lemma_neg_combo(
            da as int,
            db as int,
            dc as int,
            dd as int,
            tri.p[0].x as int,
            tri.p[1].x as int,
            tri.p[2].x as int,
            p.x as int,
        );
        lemma_neg_combo(
            da as int,
            db as int,
            dc as int,
            dd as int,
            tri.p[0].y as int,
            tri.p[1].y as int,
            tri.p[2].y as int,
            p.y as int,
        );
    }
    if dd > 0 {
        Some(Bary { a: da as i64, b: db as i64, c: dc as i64, den: dd as i64 })
    } else {
        Some(Bary { a: (-da) as i64, b: (-db) as i64, c: (-dc) as i64, den: (-dd) as i64 })
    }
}

/// Classification of a 2D point against a triangle.
#[derive(Clone, Copy, PartialEq, Debug)]
pub enum PointTriTest {
    /// The point is strictly within the triangle.
    Inside(Bary),
    /// The point is on edge i.
    On(usize),
    /// The point is completely outside of the triangle.
    Outside,
}

/// The mathematical value of a `PointTriTest`.
pub enum ClassSpec {
    Inside(GBary),
    On(int),
    Outside,
}

pub open spec fn class_lift(r: PointTriTest) -> ClassSpec {
    match r {
        PointTriTest::Inside(b) => ClassSpec::Inside(bary_lift(b)),
        PointTriTest::On(e) => ClassSpec::On(e as int),
        PointTriTest::Outside => ClassSpec::Outside,
    }
}

/// The barycentric point classification: inside when every weight lies
/// strictly inside (EPS, 1 - EPS); outside when some weight is below -EPS;
/// on an edge when a weight is within EPS of 0 or 1 (weight index 0, 1, 2
/// naming edge 1, 2, 0); outside when the system is singular.
pub open spec fn class_spec(p: Vec2, t: Tri) -> ClassSpec {
    match bary_spec(p, t) {
        Option::None => ClassSpec::Outside,
        Option::Some(g) => {
            if param_inside(g.a, g.den) && param_inside(g.b, g.den) && param_inside(g.c, g.den) {
                ClassSpec::Inside(g)
            } else if param_below_neg_eps(g.a, g.den) || param_below_neg_eps(g.b, g.den)
                || param_below_neg_eps(g.c, g.den) {
                ClassSpec::Outside
            } else if param_on(g.a, g.den) {
                ClassSpec::On(1)
            } else if param_on(g.b, g.den) {
                ClassSpec::On(2)
            } else if param_on(g.c, g.den) {
                ClassSpec::On(0)
            } else {
                ClassSpec::Outside
            }
        },
    }
}

/// Classify the 2D point `p` against the triangle `tri`.
pub fn point_tri_comparison_test(p: Vec2, tri: &Tri) -> (r: PointTriTest)
    requires
        v2_ok(p),
        tri_ok(*tri),
    ensures
        class_lift(r) == class_spec(p, *tri),
{
    if let Some(v) = barycentric_coords(p, tri) {
        if param_inside_exec(v.a, v.den) && param_inside_exec(v.b, v.den) && param_inside_exec(
            v.c,
            v.den,
        ) {
            PointTriTest::Inside(v)
        } else if param_neg_exec(v.a, v.den) || param_neg_exec(v.b, v.den) || param_neg_exec(
            v.c,
            v.den,
        ) {
            PointTriTest::Outside
        } else if param_on_exec(v.a, v.den) {
            PointTriTest::On(1)
        } else if param_on_exec(v.b, v.den) {
            PointTriTest::On(2)
        } else if param_on_exec(v.c, v.den) {
            PointTriTest::On(0)
        } else {
            PointTriTest::Outside
        }
    } else {
        // An unsolvable system means the triangle is colinear.
        PointTriTest::Outside
    }
}

/// The classification names the point as within or on the triangle.
pub open spec fn class_in_or_on(g: ClassSpec) -> bool {
    !(g is Outside)
}

/// Boundary-inclusive 2D containment of triangle t1 within t2.
pub open spec fn tri_in_tri_spec(t1: Tri, t2: Tri) -> bool {
    &&& class_in_or_on(class_spec(v4_xy(t1.p[0]), t2))
    &&& class_in_or_on(class_spec(v4_xy(t1.p[1]), t2))
    &&& class_in_or_on(class_spec(v4_xy(t1.p[2]), t2))
}

/// Return true iff, in 2D, triangle `t1` is contained within `t2`; the
/// boundary counts as within.
pub fn triangle_in_triangle_2d(t1: &Tri, t2: &Tri) -> (r: bool)
    requires
        tri_ok(*t1),
        tri_ok(*t2),
    ensures
        r == tri_in_tri_spec(*t1, *t2),
{
    let c0 = point_tri_comparison_test(t1.p[0].xy(), t2);
    let c1 = point_tri_comparison_test(t1.p[1].xy(), t2);
    let c2 = point_tri_comparison_test(t1.p[2].xy(), t2);
    !matches!(c0, PointTriTest::Outside) && !matches!(c1, PointTriTest::Outside) && !matches!(
        c2,
        PointTriTest::Outside,
    )
}

} // verus!

verus! {

/// The possible outcomes of splitting a triangle by a segment.
/// See `split_triangle_by_segment`.
#[derive(Debug, PartialEq)]
pub enum SplitResult {
    /// The triangle is unchanged by the cut.
    Original,
    /// The triangle is cut into the returned sub-triangles.
    Split(Vec<Tri>),
    /// The triangle is too thin or small to cut meaningfully; the caller
    /// must drop it rather than re-queue it.
    Degen,
}

/// A geometric invariant was broken (the splitter's case analysis is
/// exhaustive under its precondition): the render must abort rather than
/// produce silently wrong geometry.
#[derive(Clone, Copy, PartialEq, Eq, Structural, Debug)]
pub enum GeomError {
    InvariantViolation,
}

/// The mathematical outcome of a split attempt.
pub enum SplitGhost {
    Keep,
    Pieces(Seq<Tri>),
    Thin,
    Fatal,
}

pub open spec fn split_lift(r: SplitResult) -> SplitGhost {
    match r {
        SplitResult::Original => SplitGhost::Keep,
        SplitResult::Split(v) => SplitGhost::Pieces(v@),
        SplitResult::Degen => SplitGhost::Thin,
    }
}

/// Every returned piece is well-formed, and a cut makes 2 or 3 pieces.
pub open spec fn split_pieces_ok(r: SplitResult) -> bool {
    match r {
        SplitResult::Split(v) => (v@.len() == 2 || v@.len() == 3) && (forall|i: int|
            0 <= i < v@.len() ==> tri_ok(#[trigger] v@[i])),
        _ => true,
    }
}

/// Perspective-correct interpolation at parameter tn/td along p0 -> p1 for
/// points of the form (x/w, y/w, z/w, w): the dehomogenized coordinates
/// interpolate linearly while the new w is w0 w1 / ((1 - t) w1 + t w0).
/// None when the w denominator vanishes or a coordinate leaves the window.
pub open spec fn lerp_spec(tn: int, td: int, p0: Vec4, p1: Vec4) -> Option<Vec4>
    recommends
        td > 0,
{
    let x = div_tz(p0.x * (td - tn) + p1.x * tn, td);
    let y = div_tz(p0.y * (td - tn) + p1.y * tn, td);
    let z = div_tz(p0.z * (td - tn) + p1.z * tn, td);
    let wd = (td - tn) * p1.w + tn * p0.w;
    if wd == 0 {
        Option::None
    } else {
        let w = div_tz(p0.w * p1.w * td, wd);
        if -COORD_LIMIT <= x <= COORD_LIMIT && -COORD_LIMIT <= y <= COORD_LIMIT && -COORD_LIMIT
            <= z <= COORD_LIMIT && -W_LIMIT <= w <= W_LIMIT {
            Option::Some(Vec4 { x: x as i64, y: y as i64, z: z as i64, w: w as i64 })
        } else {
            Option::None
        }
    }
}

/// One interpolated coordinate: (p0c (td - tn) + p1c tn) / td.
fn lerp_coord(tn: i64, td: i64, p0c: i64, p1c: i64) -> (r: i128)
    requires
        0 < td <= PARAM_LIMIT,
        abs_i(tn as int) <= PARAM_LIMIT,
        abs_i(p0c as int) <= COORD_LIMIT,
        abs_i(p1c as int) <= COORD_LIMIT,
    ensures
        r == div_tz(p0c as int * (td - tn) + p1c as int * tn, td as int),
        abs_i(r as int) <= 240_000_000_000_000_000_000,
{
    let td_tn: i128 = td as i128 - tn as i128;
    let n: i128 = mul_i128(
        p0c as i128,
        td_tn,
        Ghost(2_000_000int),
        Ghost(80_000_000_000_000int),
    ) + wide_mul(p1c, tn, Ghost(2_000_000int), Ghost(40_000_000_000_000int));
    div_i128(n, td as i128)
}

/// Perspective-correct interpolation along p0 -> p1 at parameter tn/td.
fn perspective_lerp(tn: i64, td: i64, p0: Vec4, p1: Vec4) -> (r: Option<Vec4>)
    requires
        0 < td <= PARAM_LIMIT,
        abs_i(tn as int) <= PARAM_LIMIT,
        v4_ok(p0),
        v4_ok(p1),
    ensures
        r == lerp_spec(tn as int, td as int, p0, p1),
        r matches Some(q) ==> v4_ok(q),
{
    let x: i128 = lerp_coord(tn, td, p0.x, p1.x);
    let y: i128 = lerp_coord(tn, td, p0.y, p1.y);
    let z: i128 = lerp_coord(tn, td, p0.z, p1.z);
    let td_tn: i128 = td as i128 - tn as i128;
    let wd: i128 = mul_i128(
        td_tn,
        p1.w as i128,
        Ghost(80_000_000_000_000int),
        Ghost(10_000_000_000int),
    ) + wide_mul(tn, p0.w, Ghost(40_000_000_000_000int), Ghost(10_000_000_000int));
    if wd == 0 {
        return None;
    }
    let w01: i128 = wide_mul(p0.w, p1.w, Ghost(10_000_000_000int), Ghost(10_000_000_000int));
    let wn: i128 = mul_i128(
        w01,
        td as i128,
        Ghost(100_000_000_000_000_000_000int),
        Ghost(40_000_000_000_000int),
    );
    let w: i128 = div_i128(wn, wd);
    let cl: i128 = COORD_LIMIT as i128;
    let wl: i128 = W_LIMIT as i128;
    if -cl <= x && x <= cl && -cl <= y && y <= cl && -cl <= z && z <= cl && -wl <= w && w <= wl {
        Some(Vec4 { x: x as i64, y: y as i64, z: z as i64, w: w as i64 })
    } else {
        None
    }
}

/// The t numerator of a crossing (0 for the other variants).
pub open spec fn g_t(g: RaySpec) -> int {
    match g {
        RaySpec::Crossing { t_num, u_num, den } => t_num,
        _ => 0,
    }
}

/// The u numerator of a crossing (0 for the other variants).
pub open spec fn g_u(g: RaySpec) -> int {
    match g {
        RaySpec::Crossing { t_num, u_num, den } => u_num,
        _ => 0,
    }
}

/// The denominator of a crossing (1 for the other variants).
pub open spec fn g_den(g: RaySpec) -> int {
    match g {
        RaySpec::Crossing { t_num, u_num, den } => den,
        _ => 1,
    }
}

/// The u parameter of the classification lies strictly inside
/// (EPS, 1 - EPS).
pub open spec fn u_inside(g: RaySpec) -> bool {
    g is Crossing && param_inside(g_u(g), g_den(g))
}

pub open spec fn ray_at(e: int, g0: RaySpec, g1: RaySpec, g2: RaySpec) -> RaySpec {
    if e == 0 {
        g0
    } else if e == 1 {
        g1
    } else {
        g2
    }
}

/// The outcome of cutting triangle t along the cut found on edge e, whose
/// classifications against the three edges are g0, g1, g2: the cut point
/// goes on edge e; a second in-range crossing on one of the remaining
/// edges makes three pieces, and none makes two (the cut exits through the
/// opposite vertex). The tag table of the pieces keeps each original edge's
/// tag on the piece that reuses it and marks newly created edges Split.
pub open spec fn aux_spec(t: Tri, e: int, g0: RaySpec, g1: RaySpec, g2: RaySpec) -> SplitGhost
    recommends
        0 <= e < 3,
{
    let e1 = if e == 2 {
        0int
    } else {
        e + 1
    };
    let e2 = if e1 == 2 {
        0int
    } else {
        e1 + 1
    };
    let ge = ray_at(e, g0, g1, g2);
    if !(ge is Crossing) {
        SplitGhost::Fatal
    } else {
        match lerp_spec(g_u(ge), g_den(ge), t.p[e], t.p[e1]) {
            Option::None => SplitGhost::Thin,
            Option::Some(p) => {
                let ge1 = ray_at(e1, g0, g1, g2);
                let ge2 = ray_at(e2, g0, g1, g2);
                if u_inside(ge1) {
                    match lerp_spec(g_u(ge1), g_den(ge1), t.p[e1], t.p[e2]) {
                        Option::None => SplitGhost::Thin,
                        Option::Some(q) => SplitGhost::Pieces(
                            seq![
                                Tri {
                                    p: [p, t.p[e1], q],
                                    e: [t.e[e], t.e[e1], EdgeType::Split],
                                },
                                Tri {
                                    p: [p, q, t.p[e2]],
                                    e: [EdgeType::Split, t.e[e1], EdgeType::Split],
                                },
                                Tri {
                                    p: [p, t.p[e2], t.p[e]],
                                    e: [EdgeType::Split, t.e[e2], t.e[e]],
                                },
                            ],
                        ),
                    }
                } else if u_inside(ge2) {
                    match lerp_spec(g_u(ge2), g_den(ge2), t.p[e2], t.p[e]) {
                        Option::None => SplitGhost::Thin,
                        Option::Some(q) => SplitGhost::Pieces(
                            seq![
                                Tri {
                                    p: [p, t.p[e1], t.p[e2]],
                                    e: [t.e[e], t.e[e1], EdgeType::Split],
                                },
                                Tri {
                                    p: [p, t.p[e2], q],
                                    e: [EdgeType::Split, t.e[e2], EdgeType::Split],
                                },
                                Tri {
                                    p: [p, q, t.p[e]],
                                    e: [EdgeType::Split, t.e[e2], t.e[e]],
                                },
                            ],
                        ),
                    }
                } else {
                    // The cut exits through the opposite vertex.
                    SplitGhost::Pieces(
                        seq![
                            Tri {
                                p: [p, t.p[e1], t.p[e2]],
                                e: [t.e[e], t.e[e1], EdgeType::Split],
                            },
                            Tri {
                                p: [p, t.p[e2], t.p[e]],
                                e: [EdgeType::Split, t.e[e2], t.e[e]],
                            },
                        ],
                    )
                }
            },
        }
    }
}

/// Cut a triangle along the line of the segment, where the cut crosses
/// edge e; the second parameter of each stored intersection gives the
/// position of the crossing along the edge.
#[verifier::rlimit(100)]
fn split_triangle_aux(tri: &Tri, e: usize, isects: &[RayInt; 3]) -> (r: Result<
    SplitResult,
    GeomError,
>)
    requires
        tri_ok(*tri),
        e < 3,
        ray_int_wf(isects[0]),
        ray_int_wf(isects[1]),
        ray_int_wf(isects[2]),
    ensures
        ({
            let g = aux_spec(
                *tri,
                e as int,
                ray_lift(isects[0]),
                ray_lift(isects[1]),
                ray_lift(isects[2]),
            );
            match r {
                Ok(sr) => split_lift(sr) == g && split_pieces_ok(sr),
                Err(_) => g == SplitGhost::Fatal,
            }
        }),
{
    let e1: usize = if e == 2 {
        0
    } else {
        e + 1
    };
    let e2: usize = if e1 == 2 {
        0
    } else {
        e1 + 1
    };
    let ip: IsectParams = match isects[e] {
        RayInt::Intersection(ip) => ip,
        _ => {
            return Err(GeomError::InvariantViolation);
        },
    };
    let p: Vec4 = match perspective_lerp(ip.u_num, ip.den, tri.p[e], tri.p[e1]) {
        Some(p) => p,
        None => {
            return Ok(SplitResult::Degen);
        },
    };
    if let RayInt::Intersection(q1) = isects[e1] {
        if param_inside_exec(q1.u_num, q1.den) {
            return match perspective_lerp(q1.u_num, q1.den, tri.p[e1], tri.p[e2]) {
                None => Ok(SplitResult::Degen),
                Some(q) => {
                    let pieces = vec![
                        Tri { p: [p, tri.p[e1], q], e: [tri.e[e], tri.e[e1], EdgeType::Split] },
                        Tri {
                            p: [p, q, tri.p[e2]],
                            e: [EdgeType::Split, tri.e[e1], EdgeType::Split],
                        },
                        Tri {
                            p: [p, tri.p[e2], tri.p[e]],
                            e: [EdgeType::Split, tri.e[e2], tri.e[e]],
                        },
                    ];
                    Ok(SplitResult::Split(pieces))
                },
            };
        }
    }
    if let RayInt::Intersection(q2) = isects[e2] {
        if param_inside_exec(q2.u_num, q2.den) {
            return match perspective_lerp(q2.u_num, q2.den, tri.p[e2], tri.p[e]) {
                None => Ok(SplitResult::Degen),
                Some(q) => {
                    let pieces = vec![
                        Tri {
                            p: [p, tri.p[e1], tri.p[e2]],
                            e: [tri.e[e], tri.e[e1], EdgeType::Split],
                        },
                        Tri {
                            p: [p, tri.p[e2], q],
                            e: [EdgeType::Split, tri.e[e2], EdgeType::Split],
                        },
                        Tri { p: [p, q, tri.p[e]], e: [EdgeType::Split, tri.e[e2], tri.e[e]] },
                    ];
                    Ok(SplitResult::Split(pieces))
                },
            };
        }
    }
    // Otherwise the cut exits through the opposite vertex.
    let pieces = vec![
        Tri { p: [p, tri.p[e1], tri.p[e2]], e: [tri.e[e], tri.e[e1], EdgeType::Split] },
        Tri { p: [p, tri.p[e2], tri.p[e]], e: [EdgeType::Split, tri.e[e2], tri.e[e]] },
    ];
    Ok(SplitResult::Split(pieces))
}

} // verus!

verus! {

/// The t parameter of the crossing is strictly positive.
pub open spec fn t_positive(g: RaySpec) -> bool {
    g is Crossing && g_t(g) > 0
}

/// t of gi is at most t of gj, compared by cross-multiplication (both
/// denominators positive).
pub open spec fn t_le(gi: RaySpec, gj: RaySpec) -> bool {
    g_t(gi) * g_den(gj) <= g_t(gj) * g_den(gi)
}

/// Among the crossings with strictly positive first parameter, the index
/// of the one nearest along the segment's direction (the first on a tie).
pub open spec fn pick_min_pos(g0: RaySpec, g1: RaySpec, g2: RaySpec) -> Option<int> {
    if t_positive(g0) && (!t_positive(g1) || t_le(g0, g1)) && (!t_positive(g2) || t_le(g0, g2)) {
        Option::Some(0int)
    } else if t_positive(g1) && (!t_positive(g2) || t_le(g1, g2)) {
        Option::Some(1int)
    } else if t_positive(g2) {
        Option::Some(2int)
    } else {
        Option::None
    }
}

fn t_positive_exec(i: &RayInt) -> (r: bool)
    ensures
        r == t_positive(ray_lift(*i)),
{
    match i {
        RayInt::Intersection(ip) => ip.t_num > 0,
        _ => false,
    }
}

fn t_le_exec(a: IsectParams, b: IsectParams) -> (r: bool)
    requires
        ray_int_wf(RayInt::Intersection(a)),
        ray_int_wf(RayInt::Intersection(b)),
    ensures
        r == t_le(ray_lift(RayInt::Intersection(a)), ray_lift(RayInt::Intersection(b))),
{
    let g: Ghost<int> = Ghost(40_000_000_000_000int);
    wide_mul(a.t_num, b.den, g, g) <= wide_mul(b.t_num, a.den, g, g)
}

fn pick_min_pos_exec(i0: &RayInt, i1: &RayInt, i2: &RayInt) -> (r: Option<usize>)
    requires
        ray_int_wf(*i0),
        ray_int_wf(*i1),
        ray_int_wf(*i2),
    ensures
        ({
            let g = pick_min_pos(ray_lift(*i0), ray_lift(*i1), ray_lift(*i2));
            match r {
                Some(e) => e < 3 && g == Option::Some(e as int),
                None => g is None,
            }
        }),
{
    let c0 = t_positive_exec(i0);
    let c1 = t_positive_exec(i1);
    let c2 = t_positive_exec(i2);
    let le01: bool = match (i0, i1) {
        (RayInt::Intersection(a), RayInt::Intersection(b)) => t_le_exec(*a, *b),
        _ => false,
    };
    let le02: bool = match (i0, i2) {
        (RayInt::Intersection(a), RayInt::Intersection(b)) => t_le_exec(*a, *b),
        _ => false,
    };
    let le12: bool = match (i1, i2) {
        (RayInt::Intersection(a), RayInt::Intersection(b)) => t_le_exec(*a, *b),
        _ => false,
    };
    if c0 && (!c1 || le01) && (!c2 || le02) {
        Some(0)
    } else if c1 && (!c2 || le12) {
        Some(1)
    } else if c2 {
        Some(2)
    } else {
        None
    }
}

/// The full split decision for cutting triangle t by the segment
/// (p0, p1), which the caller asserts lies on top of the triangle in
/// screen space:
/// a genuine segment crossing of an edge cuts on the first such edge; a
/// colinear edge means no cut; otherwise the endpoints' classifications
/// against the triangle decide, per the case table; an impossible
/// combination on a non-degenerate triangle is fatal.
pub open spec fn split_spec(t: Tri, p0: Vec2, p1: Vec2) -> SplitGhost {
    let g0 = ray_spec(p0, p1, v4_xy(t.p[0]), v4_xy(t.p[1]));
    let g1 = ray_spec(p0, p1, v4_xy(t.p[1]), v4_xy(t.p[2]));
    let g2 = ray_spec(p0, p1, v4_xy(t.p[2]), v4_xy(t.p[0]));
    if crossing_inside(g0) {
        aux_spec(t, 0, g0, g1, g2)
    } else if crossing_inside(g1) {
        aux_spec(t, 1, g0, g1, g2)
    } else if crossing_inside(g2) {
        aux_spec(t, 2, g0, g1, g2)
    } else if g0 is Colinear || g1 is Colinear || g2 is Colinear {
        SplitGhost::Keep
    } else {
        match (class_spec(p0, t), class_spec(p1, t)) {
            (ClassSpec::Outside, ClassSpec::Outside) => SplitGhost::Keep,
            (ClassSpec::Inside(_), ClassSpec::Inside(_)) => match pick_min_pos(g0, g1, g2) {
                Option::Some(e) => aux_spec(t, e, g0, g1, g2),
                Option::None => SplitGhost::Fatal,
            },
            (ClassSpec::On(e), ClassSpec::Inside(_)) => aux_spec(t, e, g0, g1, g2),
            (ClassSpec::On(e), ClassSpec::On(f)) => if e == f {
                SplitGhost::Keep
            } else if ray_at(e, g0, g1, g2) is Crossing {
                aux_spec(t, e, g0, g1, g2)
            } else {
                aux_spec(t, f, g0, g1, g2)
            },
            (ClassSpec::Inside(_), ClassSpec::On(e)) => aux_spec(t, e, g0, g1, g2),
            (ClassSpec::Outside, ClassSpec::On(_)) => SplitGhost::Keep,
            (ClassSpec::On(_), ClassSpec::Outside) => SplitGhost::Keep,
            _ => if degen_v(v4_xy(t.p[0]), v4_xy(t.p[1]), v4_xy(t.p[2])) {
                SplitGhost::Thin
            } else {
                SplitGhost::Fatal
            },
        }
    }
}

/// Split a triangle along the infinite line of a particular segment.
///
/// It is assumed that the segment p0 -> p1 lies on top of `tri` in screen
/// space; degenerate triangles yield a `Degen` result. An impossible
/// endpoint classification on a non-degenerate triangle breaks the case
/// analysis and is reported as an error, which the caller must treat as
/// fatal.
#[verifier::rlimit(100)]
pub fn split_triangle_by_segment(tri: &Tri, p0: Vec2, p1: Vec2) -> (r: Result<
    SplitResult,
    GeomError,
>)
    requires
        tri_ok(*tri),
        v2_ok(p0),
        v2_ok(p1),
    ensures
        ({
            let g = split_spec(*tri, p0, p1);
            match r {
                Ok(sr) => split_lift(sr) == g && split_pieces_ok(sr),
                Err(_) => g == SplitGhost::Fatal,
            }
        }),
{
    let t0 = tri.p[0].xy();
    let t1 = tri.p[1].xy();
    let t2 = tri.p[2].xy();
    let i0 = implicit_ray_intersect_2d(p0, p1, t0, t1);
    let i1 = implicit_ray_intersect_2d(p0, p1, t1, t2);
    let i2 = implicit_ray_intersect_2d(p0, p1, t2, t0);
    let b0 = i0.is_line_line_isect();
    let b1 = i1.is_line_line_isect();
    let b2 = i2.is_line_line_isect();
    let isects: [RayInt; 3] = [i0, i1, i2];
    if b0 {
        return split_triangle_aux(tri, 0, &isects);
    }
    if b1 {
        return split_triangle_aux(tri, 1, &isects);
    }
    if b2 {
        return split_triangle_aux(tri, 2, &isects);
    }
    // A segment colinear with an edge never cuts the interior.
    if matches!(i0, RayInt::Colinear) || matches!(i1, RayInt::Colinear) || matches!(
        i2,
        RayInt::Colinear,
    ) {
        return Ok(SplitResult::Original);
    }
    let e0 = point_tri_comparison_test(p0, tri);
    let e1 = point_tri_comparison_test(p1, tri);
    match (e0, e1) {
        // Both endpoints outside: no cut (a segment crossing the interior
        // would have crossed an edge above).
        (PointTriTest::Outside, PointTriTest::Outside) => Ok(SplitResult::Original),
        (PointTriTest::Inside(_), PointTriTest::Inside(_)) => {
            // A strictly interior segment: cut on the nearest positive
            // crossing along the segment's direction.
            match pick_min_pos_exec(&i0, &i1, &i2) {
                Some(e) => split_triangle_aux(tri, e, &isects),
                None => Err(GeomError::InvariantViolation),
            }
        },
        (PointTriTest::On(e), PointTriTest::Inside(_)) => split_triangle_aux(tri, e, &isects),
        (PointTriTest::On(e), PointTriTest::On(f)) => {
            if e == f {
                Ok(SplitResult::Original)
            } else if matches!(isects[e], RayInt::Intersection(_)) {
                split_triangle_aux(tri, e, &isects)
            } else {
                split_triangle_aux(tri, f, &isects)
            }
        },
        (PointTriTest::Inside(_), PointTriTest::On(e)) => split_triangle_aux(tri, e, &isects),
        (PointTriTest::Outside, PointTriTest::On(_)) => Ok(SplitResult::Original),
        (PointTriTest::On(_), PointTriTest::Outside) => Ok(SplitResult::Original),
        _ => {
            if is_degen_tri(t0, t1, t2) {
                Ok(SplitResult::Degen)
            } else {
                Err(GeomError::InvariantViolation)
            }
        },
    }
}

} // verus!
