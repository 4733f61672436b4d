//! Global properties of the geometric predicates, stated and proved over
//! the same spec functions the executable contracts use.

use crate::common::{cross_z, Vec2, EPS_RECIP};
use crate::intersect::{
    bary_det_a, bary_det_b, bary_det_c, class_spec, degen_v, g_den, g_t, g_u, line_spec,
    ray_raw_den, ray_raw_t, ray_raw_u, ray_spec, tri_det, tri_in_tri_spec, RaySpec,
};
use crate::primitive::{signed_area2, winding_spec, Tri, Winding};
use vstd::prelude::*;

verus! {

/// A triangle with its vertices and edge tags rotated one step: vertex i
/// of the rotation is vertex i + 1 of the original.
pub open spec fn rotate_spec(t: Tri) -> Tri {
    Tri { p: [t.p[1], t.p[2], t.p[0]], e: [t.e[1], t.e[2], t.e[0]] }
}

/// A triangle with vertices 1 and 2 swapped and edge tags 0 and 2 swapped,
/// as `Tri::reverse` produces.
pub open spec fn reversal_spec(t: Tri) -> Tri {
    Tri { p: [t.p[0], t.p[2], t.p[1]], e: [t.e[2], t.e[1], t.e[0]] }
}

/// The doubled signed area is the same whichever vertex starts the cycle.
proof fn lemma_area_rotate(x0: int, y0: int, x1: int, y1: int, x2: int, y2: int)
    by (nonlinear_arith)
    ensures
        (x2 - x1) * (y0 - y2) - (y2 - y1) * (x0 - x2) == (x1 - x0) * (y2 - y1) - (y1 - y0) * (x2
            - x1),
{
}

/// Swapping two vertices negates the doubled signed area.
proof fn lemma_area_swap(x0: int, y0: int, x1: int, y1: int, x2: int, y2: int)
    by (nonlinear_arith)
    ensures
        (x2 - x0) * (y1 - y2) - (y2 - y0) * (x1 - x2) == -((x1 - x0) * (y2 - y1) - (y1 - y0) * (
        x2 - x1)),
{
}

/// The winding classification does not depend on which vertex starts the
/// cycle: whenever neither the triangle nor its rotation is classified
/// degenerate (the degeneracy threshold looks at two of the three edges,
/// so it can differ between the two), the classifications agree.
pub proof fn lemma_winding_rotation(t: Tri)
    requires
        winding_spec(t) != Winding::Degenerate,
        winding_spec(rotate_spec(t)) != Winding::Degenerate,
    ensures
        winding_spec(rotate_spec(t)) == winding_spec(t),
{
    lemma_area_rotate(
        t.p[0].x as int,
        t.p[0].y as int,
        t.p[1].x as int,
        t.p[1].y as int,
        t.p[2].x as int,
        t.p[2].y as int,
    );
    assert(signed_area2(rotate_spec(t)) == signed_area2(t));
}

/// Reversing the vertex order flips the winding: whenever neither the
/// triangle nor its reversal is classified degenerate, one is clockwise
/// exactly when the other is counter-clockwise.
pub proof fn lemma_winding_reversal(t: Tri)
    requires
        winding_spec(t) != Winding::Degenerate,
        winding_spec(reversal_spec(t)) != Winding::Degenerate,
    ensures
        winding_spec(t) == Winding::CounterClockwise <==> winding_spec(reversal_spec(t))
            == Winding::Clockwise,
        winding_spec(t) == Winding::Clockwise <==> winding_spec(reversal_spec(t))
            == Winding::CounterClockwise,
{
    lemma_area_swap(
        t.p[0].x as int,
        t.p[0].y as int,
        t.p[1].x as int,
        t.p[1].y as int,
        t.p[2].x as int,
        t.p[2].y as int,
    );
    assert(signed_area2(reversal_spec(t)) == -signed_area2(t));
}

/// Twice the signed area of the 2D triangle (a, b, c).
pub open spec fn area2_pts(ax: int, ay: int, bx: int, by: int, cx: int, cy: int) -> int {
    (bx - ax) * (cy - by) - (by - ay) * (cx - bx)
}

/// Any point partitions a triangle: the doubled signed areas of the three
/// triangles it makes with the edges sum to the whole.
#[verifier::rlimit(100)]
proof fn lemma_area_partition(
    px: int,
    py: int,
    x0: int,
    y0: int,
    x1: int,
    y1: int,
    x2: int,
    y2: int,
)
    by (nonlinear_arith)
    ensures
        area2_pts(px, py, x1, y1, x2, y2) + area2_pts(px, py, x2, y2, x0, y0) + area2_pts(
            px,
            py,
            x0,
            y0,
            x1,
            y1,
        ) == area2_pts(x0, y0, x1, y1, x2, y2),
{
}

/// The sliver a point makes with a line it lies on has no area.
proof fn lemma_on_line_area(px: int, py: int, x0: int, y0: int, x1: int, y1: int)
    by (nonlinear_arith)
    requires
        (px - x0) * (y1 - y0) - (py - y0) * (x1 - x0) == 0,
    ensures
        area2_pts(px, py, x0, y0, x1, y1) == 0,
{
}

/// Splitting preserves coverage exactly at the exact cut point: a cut
/// point lying exactly on the line of edge (v0, v1) divides the triangle
/// into the two pieces the splitter emits, whose doubled signed areas sum
/// exactly to the whole triangle's. (The executable splitter rounds the
/// cut point onto the coordinate grid afterwards, so the executable
/// coverage holds to grid precision rather than exactly.)
pub proof fn lemma_split_area_exact(
    px: int,
    py: int,
    x0: int,
    y0: int,
    x1: int,
    y1: int,
    x2: int,
    y2: int,
)
    requires
        cross_z(px - x0, py - y0, x1 - x0, y1 - y0) == 0,
    ensures
        area2_pts(px, py, x1, y1, x2, y2) + area2_pts(px, py, x2, y2, x0, y0) == area2_pts(
            x0,
            y0,
            x1,
            y1,
            x2,
            y2,
        ),
{
    lemma_area_partition(px, py, x0, y0, x1, y1, x2, y2);
    lemma_on_line_area(px, py, x0, y0, x1, y1);
}

/// The raw Cramer solution satisfies the first coordinate's equation.
#[verifier::rlimit(100)]
proof fn lemma_cramer2_x(dax: int, day: int, dbx: int, dby: int, dx: int, dy: int)
    by (nonlinear_arith)
    ensures
        (dbx * dy - dby * dx) * dax - (dax * dy - day * dx) * dbx == (dbx * day - dax * dby) * dx,
{
}

/// The raw Cramer solution satisfies the second coordinate's equation.
#[verifier::rlimit(100)]
proof fn lemma_cramer2_y(dax: int, day: int, dbx: int, dby: int, dx: int, dy: int)
    by (nonlinear_arith)
    ensures
        (dbx * dy - dby * dx) * day - (dax * dy - day * dx) * dby == (dbx * day - dax * dby) * dy,
{
}

/// One interpolation equation den * a + t * da == den * b + u * db follows
/// from its cross-multiplied Cramer form t * da - u * db == den * (b - a).
proof fn lemma_interp_eq(t: int, u: int, den: int, a: int, b: int, da: int, db: int)
    requires
        t * da - u * db == den * (b - a),
    ensures
        den * a + t * da == den * b + u * db,
        (-den) * a + (-t) * da == (-den) * b + (-u) * db,
{
    broadcast use vstd::arithmetic::mul::lemma_mul_is_distributive_sub;
    broadcast use vstd::arithmetic::mul::lemma_mul_unary_negation;

    assert(den * (b - a) == den * b - den * a);
    assert((-t) * da == -(t * da));
    assert((-u) * db == -(u * db));
    assert((-den) * a == -(den * a));
    assert((-den) * b == -(den * b));
}

/// Round trip of a genuine segment crossing: the parameters returned by
/// the intersection reproduce one single point when interpolated along
/// either segment, i.e. den * a0 + t (a1 - a0) equals den * b0 + u
/// (b1 - b0) coordinate-wise for the exact rational parameters t/den and
/// u/den.
pub proof fn lemma_intersection_round_trip(a0: Vec2, a1: Vec2, b0: Vec2, b1: Vec2)
    requires
        line_spec(a0, a1, b0, b1) is Crossing,
    ensures
        ({
            let g = line_spec(a0, a1, b0, b1);
            &&& g_den(g) * a0.x + g_t(g) * (a1.x - a0.x) == g_den(g) * b0.x + g_u(g) * (b1.x
                - b0.x)
            &&& g_den(g) * a0.y + g_t(g) * (a1.y - a0.y) == g_den(g) * b0.y + g_u(g) * (b1.y
                - b0.y)
        }),
{
    let dax = a1.x - a0.x;
    let day = a1.y - a0.y;
    let dbx = b1.x - b0.x;
    let dby = b1.y - b0.y;
    let dx = b0.x - a0.x;
    let dy = b0.y - a0.y;
    let traw = ray_raw_t(a0, a1, b0, b1);
    let uraw = ray_raw_u(a0, a1, b0, b1);
    let draw = ray_raw_den(a0, a1, b0, b1);
    lemma_cramer2_x(dax as int, day as int, dbx as int, dby as int, dx as int, dy as int);
    lemma_cramer2_y(dax as int, day as int, dbx as int, dby as int, dx as int, dy as int);
    assert(traw * dax - uraw * dbx == draw * dx);
    assert(traw * day - uraw * dby == draw * dy);
    assert(draw * dx == draw * (b0.x - a0.x));
    lemma_interp_eq(traw, uraw, draw, a0.x as int, b0.x as int, dax as int, dbx as int);
    lemma_interp_eq(traw, uraw, draw, a0.y as int, b0.y as int, day as int, dby as int);
}

/// A quantity with a zero factor vanishes.
proof fn lemma_zero_mul(a: int, b: int)
    by (nonlinear_arith)
    requires
        a == 0,
    ensures
        a * b == 0,
        b * a == 0,
{
}

/// The product of two nonnegative quantities is nonnegative.
proof fn lemma_nonneg_mul(a: int, b: int)
    by (nonlinear_arith)
    requires
        a >= 0,
        b >= 0,
    ensures
        a * b >= 0,
        a * a >= 0,
        b * b >= 0,
{
}

proof fn lemma_sq_nonneg2(a: int)
    by (nonlinear_arith)
    ensures
        a * a >= 0,
{
}

/// The degeneracy area of (p0, p1, q) is the plain cross product of
/// (p1 - p0) and (q - p0).
proof fn lemma_degen_area_form(ux: int, uy: int, wx: int, wy: int)
    by (nonlinear_arith)
    ensures
        ux * (wy - uy) - uy * (wx - ux) == ux * wy - uy * wx,
{
}

/// A segment whose two endpoints both lie exactly on the triangle-edge
/// line (p0, p1) makes a degenerate triangle with it.
proof fn lemma_exact_colinear_degen(p0: Vec2, p1: Vec2, q: Vec2)
    requires
        cross_z(p1.x - p0.x, p1.y - p0.y, q.x - p0.x, q.y - p0.y) == 0,
    ensures
        degen_v(p0, p1, q),
{
    let ux = p1.x - p0.x;
    let uy = p1.y - p0.y;
    let wx = q.x - p0.x;
    let wy = q.y - p0.y;
    lemma_degen_area_form(ux as int, uy as int, wx as int, wy as int);
    let a = cross_z(ux as int, uy as int, (q.x - p1.x) as int, (q.y - p1.y) as int);
    assert(a == 0);
    lemma_zero_mul(EPS_RECIP * a, EPS_RECIP * a);
    lemma_zero_mul(a, EPS_RECIP as int);
    assert(EPS_RECIP * a == 0) by {
        lemma_zero_mul(a, EPS_RECIP as int);
        assert(a * EPS_RECIP == 0);
        assert(EPS_RECIP * a == a * EPS_RECIP) by (nonlinear_arith);
    }
    let l01 = crate::common::len_sq((p1.x - p0.x) as int, (p1.y - p0.y) as int);
    let l12 = crate::common::len_sq((q.x - p1.x) as int, (q.y - p1.y) as int);
    lemma_sq_nonneg2((p1.x - p0.x) as int);
    lemma_sq_nonneg2((p1.y - p0.y) as int);
    lemma_sq_nonneg2((q.x - p1.x) as int);
    lemma_sq_nonneg2((q.y - p1.y) as int);
    lemma_nonneg_mul(l01, l12);
}

/// Colinearity is classified by position on the infinite line alone: a
/// segment both of whose endpoints lie exactly on the line through an
/// edge classifies as Colinear against that edge, wherever along the line
/// it slides.
pub proof fn lemma_colinear_classification(a0: Vec2, a1: Vec2, b0: Vec2, b1: Vec2)
    requires
        cross_z(a1.x - a0.x, a1.y - a0.y, b0.x - a0.x, b0.y - a0.y) == 0,
        cross_z(a1.x - a0.x, a1.y - a0.y, b1.x - b0.x + (b0.x - a0.x), b1.y - b0.y + (b0.y
            - a0.y)) == 0,
    ensures
        line_spec(a0, a1, b0, b1) == RaySpec::Colinear,
{
    assert(b1.x - b0.x + (b0.x - a0.x) == b1.x - a0.x);
    lemma_exact_colinear_degen(a0, a1, b0);
    lemma_exact_colinear_degen(a0, a1, b1);
    assert(ray_spec(a0, a1, b0, b1) == RaySpec::Colinear);
}

/// Boundary-inclusive containment is reflexive: every triangle whose 2D
/// footprint is not colinear (the barycentric system is solvable) contains
/// itself, each vertex classifying as on an edge. (A 2D-colinear triangle
/// classifies all points Outside, so it does not contain even itself.)
pub proof fn lemma_triangle_contains_itself(t: Tri)
    requires
        tri_det(t) != 0,
    ensures
        tri_in_tri_spec(t, t),
{
    let d = tri_det(t);
    let v0 = crate::common::v4_xy(t.p[0]);
    let v1 = crate::common::v4_xy(t.p[1]);
    let v2 = crate::common::v4_xy(t.p[2]);
    assert(bary_det_a(t, v0) == d);
    assert(bary_det_b(t, v0) == 0);
    assert(bary_det_c(t, v0) == 0);
    assert(bary_det_a(t, v1) == 0);
    assert(bary_det_b(t, v1) == d);
    assert(bary_det_c(t, v1) == 0);
    assert(bary_det_a(t, v2) == 0);
    assert(bary_det_b(t, v2) == 0);
    assert(bary_det_c(t, v2) == d);
    assert(!(class_spec(v0, t) is Outside));
    assert(!(class_spec(v1, t) is Outside));
    assert(!(class_spec(v2, t) is Outside));
}

} // verus!
