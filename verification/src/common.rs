//! Shared fixed-point scalar model, value types and arithmetic helpers.
//!
//! All geometry is carried in fixed-point coordinates: one world or NDC
//! unit is `UNIT` grid steps, and every comparison the predicates make is
//! an exact integer comparison on cross-multiplied quantities.

use vstd::prelude::*;

verus! {

/// Grid steps per one world/NDC unit: coordinates are fixed-point integers.
pub const UNIT: i64 = 1_000_000;

/// Reciprocal of the comparison tolerance: EPS = 1 / EPS_RECIP, measured in
/// NDC units for coordinates and directly for unit-interval parameters.
pub const EPS_RECIP: i64 = 100_000;

/// Squared minimum edge length in grid steps (an edge of at most
/// UNIT / EPS_RECIP = 10 grid steps is degenerate).
pub const LEN_EPS_SQ: i64 = 100;

/// Largest |x|, |y|, |z| a projected (NDC) coordinate can take: a machine
/// limit of the fixed-point model. Projection clamps into this window, so
/// geometry further than two units from the view center saturates; the
/// overflow-freedom of every predicate rests on this bound.
pub const COORD_LIMIT: i64 = 2_000_000;

/// Largest |w| of a projected point.
pub const W_LIMIT: i64 = 10_000_000_000;

/// Largest magnitude of a clip-transform entry.
pub const MAT_LIMIT: i64 = 1_000_000_000_000;

/// Largest |coordinate| of an input (world-space) point.
pub const WORLD_LIMIT: i64 = 1_000_000_000;

/// Bound on intersection-parameter numerators and denominators.
pub const PARAM_LIMIT: i64 = 40_000_000_000_000;

/// A 2D point or direction on the fixed-point grid.
#[derive(Clone, Copy, PartialEq, Eq, Structural, Debug)]
pub struct Vec2 {
    pub x: i64,
    pub y: i64,
}

/// A 3D point on the fixed-point grid.
#[derive(Clone, Copy, PartialEq, Eq, Structural, Debug)]
pub struct Vec3 {
    pub x: i64,
    pub y: i64,
    pub z: i64,
}

/// A homogeneous point kept as (x/w, y/w, z/w, w) after projection.
#[derive(Clone, Copy, PartialEq, Eq, Structural, Debug)]
pub struct Vec4 {
    pub x: i64,
    pub y: i64,
    pub z: i64,
    pub w: i64,
}

/// The 2D footprint of a homogeneous point.
pub open spec fn v4_xy(p: Vec4) -> Vec2 {
    Vec2 { x: p.x, y: p.y }
}

impl Vec4 {
    /// The 2D footprint of the point, ignoring z and w.
    pub fn xy(&self) -> (r: Vec2)
        ensures
            r == v4_xy(*self),
    {
        Vec2 { x: self.x, y: self.y }
    }
}

pub open spec fn abs_i(a: int) -> int {
    if a >= 0 {
        a
    } else {
        -a
    }
}

/// z-component of the cross product of (ax, ay) and (bx, by).
pub open spec fn cross_z(ax: int, ay: int, bx: int, by: int) -> int {
    ax * by - ay * bx
}

/// Squared Euclidean length of (ax, ay).
pub open spec fn len_sq(ax: int, ay: int) -> int {
    ax * ax + ay * ay
}

/// Division truncated toward zero (the rounding the executable code uses).
pub open spec fn div_tz(n: int, d: int) -> int
    recommends
        d != 0,
{
    let q = abs_i(n) / abs_i(d);
    if (n >= 0) == (d >= 0) {
        q
    } else {
        -q
    }
}

/// Clamp v into [-lim, lim].
pub open spec fn clamp_i(v: int, lim: int) -> int {
    if v > lim {
        lim
    } else if v < -lim {
        -lim
    } else {
        v
    }
}

/// A 2D value usable by the predicates (an NDC coordinate).
pub open spec fn v2_ok(p: Vec2) -> bool {
    &&& -COORD_LIMIT <= p.x <= COORD_LIMIT
    &&& -COORD_LIMIT <= p.y <= COORD_LIMIT
}

/// A wider 2D bound admitting differences of in-window points.
pub open spec fn v2_wide_ok(p: Vec2) -> bool {
    &&& -2 * COORD_LIMIT <= p.x <= 2 * COORD_LIMIT
    &&& -2 * COORD_LIMIT <= p.y <= 2 * COORD_LIMIT
}

/// A projected homogeneous point inside the representable window.
pub open spec fn v4_ok(p: Vec4) -> bool {
    &&& -COORD_LIMIT <= p.x <= COORD_LIMIT
    &&& -COORD_LIMIT <= p.y <= COORD_LIMIT
    &&& -COORD_LIMIT <= p.z <= COORD_LIMIT
    &&& -W_LIMIT <= p.w <= W_LIMIT
}

/// An input world-space point.
pub open spec fn v3_world_ok(p: Vec3) -> bool {
    &&& -WORLD_LIMIT <= p.x <= WORLD_LIMIT
    &&& -WORLD_LIMIT <= p.y <= WORLD_LIMIT
    &&& -WORLD_LIMIT <= p.z <= WORLD_LIMIT
}

/// An input world-space homogeneous point.
pub open spec fn v4_world_ok(p: Vec4) -> bool {
    &&& -WORLD_LIMIT <= p.x <= WORLD_LIMIT
    &&& -WORLD_LIMIT <= p.y <= WORLD_LIMIT
    &&& -WORLD_LIMIT <= p.z <= WORLD_LIMIT
    &&& -WORLD_LIMIT <= p.w <= WORLD_LIMIT
}

/// |a| <= ba and |b| <= bb bound the product: |a * b| <= ba * bb.
pub proof fn lemma_mul_bounds(a: int, b: int, ba: int, bb: int)
    by (nonlinear_arith)
    requires
        abs_i(a) <= ba,
        abs_i(b) <= bb,
    ensures
        -(ba * bb) <= a * b <= ba * bb,
{
}

/// Product of two i64 values, computed exactly in i128; the ghost bounds
/// on the factors carry over to the product.
pub(crate) fn wide_mul(a: i64, b: i64, Ghost(ba): Ghost<int>, Ghost(bb): Ghost<int>) -> (r: i128)
    requires
        abs_i(a as int) <= ba,
        abs_i(b as int) <= bb,
    ensures
        r == a as int * b as int,
        abs_i(r as int) <= ba * bb,
{
    proof {
        lemma_mul_bounds(a as int, b as int, ba, bb);
        lemma_mul_bounds(
            a as int,
            b as int,
            9_223_372_036_854_775_808,
            9_223_372_036_854_775_808,
        );
    }
    (a as i128) * (b as i128)
}

/// Product of two bounded i128 values, exact when the bounds multiply
/// within the i128 range.
pub(crate) fn mul_i128(a: i128, b: i128, Ghost(ba): Ghost<int>, Ghost(bb): Ghost<int>) -> (r: i128)
    requires
        abs_i(a as int) <= ba,
        abs_i(b as int) <= bb,
        ba * bb < 0x8000_0000_0000_0000_0000_0000_0000_0000,
    ensures
        r == a as int * b as int,
        abs_i(r as int) <= ba * bb,
{
    proof {
        lemma_mul_bounds(a as int, b as int, ba, bb);
    }
    a * b
}

/// A quotient bound from a bound on the dividend.
pub(crate) proof fn lemma_div_mag(n: int, d: int, bb: int)
    by (nonlinear_arith)
    requires
        d >= 1,
        n >= 0,
        bb >= 0,
        n <= bb * d,
    ensures
        n / d <= bb,
{
}

/// q <= n when n is divided by a positive divisor.
proof fn lemma_div_shrinks(n: int, d: int)
    by (nonlinear_arith)
    requires
        n >= 0,
        d >= 1,
    ensures
        0 <= n / d <= n,
{
}

/// Division truncated toward zero.
pub(crate) fn div_i128(n: i128, d: i128) -> (q: i128)
    requires
        d != 0,
        n > i128::MIN,
        d > i128::MIN,
    ensures
        q == div_tz(n as int, d as int),
        abs_i(q as int) <= abs_i(n as int),
{
    let nn: u128 = if n >= 0 {
        n as u128
    } else {
        (-n) as u128
    };
    let dd: u128 = if d >= 0 {
        d as u128
    } else {
        (-d) as u128
    };
    proof {
        lemma_div_shrinks(nn as int, dd as int);
    }
    let qq: u128 = nn / dd;
    let qi: i128 = qq as i128;
    if (n >= 0) == (d >= 0) {
        qi
    } else {
        -qi
    }
}

/// Clamp an i128 into the symmetric i64 window [-lim, lim].
pub(crate) fn clamp_i128(v: i128, lim: i64) -> (r: i64)
    requires
        lim > 0,
    ensures
        r as int == clamp_i(v as int, lim as int),
{
    if v > lim as i128 {
        lim
    } else if v < -(lim as i128) {
        -lim
    } else {
        v as i64
    }
}

} // verus!
