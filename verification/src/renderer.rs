//! The occlusion renderer: owns the input primitive list and a clip
//! transform; `render` projects, culls, fixes winding, then drives a
//! depth-ordered work queue that repeatedly invokes the triangle splitter
//! to peel away occluded portions of farther triangles.

use crate::common::{
    abs_i, clamp_i, div_tz, v3_world_ok, v4_ok, v4_xy, Vec3, Vec4, COORD_LIMIT, MAT_LIMIT, UNIT,
    WORLD_LIMIT, W_LIMIT,
};
use crate::common::{clamp_i128, div_i128, mul_i128, wide_mul};
use crate::intersect::{
    split_spec, split_triangle_by_segment, tri_in_tri_spec, triangle_in_triangle_2d, SplitGhost,
    SplitResult,
};
use crate::primitive::{
    all_edges, centroid_spec, prim_hide_spec, prim_ok, reverse_spec, tri_ok, winding_spec,
    EdgeType, Primitive, SplitMemo, Tri, Winding, ZsortPrim,
};
use crate::render_paths::{flatten_lines, flatten_points, zs_prims, RenderPaths};
use vstd::multiset::Multiset;
use vstd::prelude::*;

verus! {

/// A 4x4 clip transform in fixed-point entries (value times UNIT), applied
/// as clip = transform x homogeneous point.
#[derive(Clone, Copy, PartialEq, Eq, Structural, Debug)]
pub struct Mat4 {
    pub m00: i64,
    pub m01: i64,
    pub m02: i64,
    pub m03: i64,
    pub m10: i64,
    pub m11: i64,
    pub m12: i64,
    pub m13: i64,
    pub m20: i64,
    pub m21: i64,
    pub m22: i64,
    pub m23: i64,
    pub m30: i64,
    pub m31: i64,
    pub m32: i64,
    pub m33: i64,
}

pub open spec fn mat_ok(m: Mat4) -> bool {
    &&& abs_i(m.m00 as int) <= MAT_LIMIT
    &&& abs_i(m.m01 as int) <= MAT_LIMIT
    &&& abs_i(m.m02 as int) <= MAT_LIMIT
    &&& abs_i(m.m03 as int) <= MAT_LIMIT
    &&& abs_i(m.m10 as int) <= MAT_LIMIT
    &&& abs_i(m.m11 as int) <= MAT_LIMIT
    &&& abs_i(m.m12 as int) <= MAT_LIMIT
    &&& abs_i(m.m13 as int) <= MAT_LIMIT
    &&& abs_i(m.m20 as int) <= MAT_LIMIT
    &&& abs_i(m.m21 as int) <= MAT_LIMIT
    &&& abs_i(m.m22 as int) <= MAT_LIMIT
    &&& abs_i(m.m23 as int) <= MAT_LIMIT
    &&& abs_i(m.m30 as int) <= MAT_LIMIT
    &&& abs_i(m.m31 as int) <= MAT_LIMIT
    &&& abs_i(m.m32 as int) <= MAT_LIMIT
    &&& abs_i(m.m33 as int) <= MAT_LIMIT
}

/// Why a render was aborted rather than allowed to return partial output.
#[derive(Clone, Copy, PartialEq, Eq, Structural, Debug)]
pub enum RenderError {
    /// A projected point's w vanished exactly, so its NDC position is
    /// undefined (the depth ordering would be meaningless).
    ProjectionSingular,
    /// The splitter's endpoint case analysis met an impossible
    /// combination on a non-degenerate triangle.
    InvariantViolation,
    /// The scene needed more triangle cuts than SPLIT_BUDGET allows.
    IterationLimit,
}

/// An input primitive in world coordinates.
pub open spec fn v4_world(p: Vec4) -> bool {
    &&& -WORLD_LIMIT <= p.x <= WORLD_LIMIT
    &&& -WORLD_LIMIT <= p.y <= WORLD_LIMIT
    &&& -WORLD_LIMIT <= p.z <= WORLD_LIMIT
    &&& -WORLD_LIMIT <= p.w <= WORLD_LIMIT
}

pub open spec fn prim_world_ok(p: Primitive) -> bool {
    match p {
        Primitive::Triangle { tri } => v4_world(tri.p[0]) && v4_world(tri.p[1]) && v4_world(
            tri.p[2],
        ),
        Primitive::Line { points } => v4_world(points[0]) && v4_world(points[1]),
        Primitive::Point { point } => v4_world(point),
    }
}

/// A world point lifted to homogeneous coordinates with w = 1.
pub open spec fn v3_homog(p: Vec3) -> Vec4 {
    Vec4 { x: p.x, y: p.y, z: p.z, w: UNIT }
}

/// One row of the transform applied to a homogeneous point, descaled.
pub open spec fn row_spec(a: int, b: int, c: int, d: int, p: Vec4) -> int {
    div_tz(a * p.x + b * p.y + c * p.z + d * p.w, UNIT as int)
}

/// A point projected into NDC: transform, then perspective-divide keeping
/// w, with the coordinates clamped into the representable window (a
/// machine limit of the fixed-point model: beyond COORD_LIMIT a
/// coordinate saturates, which can reshape geometry far outside the view
/// but never changes which side of a frustum plane a vertex lies on, so
/// conservative culling is unaffected). None when the projected w vanishes
/// exactly.
pub open spec fn proj_point_spec(m: Mat4, p: Vec4) -> Option<Vec4> {
    let rx = row_spec(m.m00 as int, m.m01 as int, m.m02 as int, m.m03 as int, p);
    let ry = row_spec(m.m10 as int, m.m11 as int, m.m12 as int, m.m13 as int, p);
    let rz = row_spec(m.m20 as int, m.m21 as int, m.m22 as int, m.m23 as int, p);
    let rw = row_spec(m.m30 as int, m.m31 as int, m.m32 as int, m.m33 as int, p);
    if rw == 0 {
        Option::None
    } else {
        Option::Some(
            Vec4 {
                x: clamp_i(div_tz(rx * (UNIT as int), rw), COORD_LIMIT as int) as i64,
                y: clamp_i(div_tz(ry * (UNIT as int), rw), COORD_LIMIT as int) as i64,
                z: clamp_i(div_tz(rz * (UNIT as int), rw), COORD_LIMIT as int) as i64,
                w: clamp_i(rw, W_LIMIT as int) as i64,
            },
        )
    }
}

/// A primitive with every vertex projected; the edge tags are kept.
pub open spec fn proj_prim_spec(m: Mat4, p: Primitive) -> Option<Primitive> {
    match p {
        Primitive::Point { point } => match proj_point_spec(m, point) {
            Option::None => Option::None,
            Option::Some(q) => Option::Some(Primitive::Point { point: q }),
        },
        Primitive::Line { points } => match (
            proj_point_spec(m, points[0]),
            proj_point_spec(m, points[1]),
        ) {
            (Option::Some(q0), Option::Some(q1)) => Option::Some(
                Primitive::Line { points: [q0, q1] },
            ),
            _ => Option::None,
        },
        Primitive::Triangle { tri } => match (
            proj_point_spec(m, tri.p[0]),
            proj_point_spec(m, tri.p[1]),
            proj_point_spec(m, tri.p[2]),
        ) {
            (Option::Some(q0), Option::Some(q1), Option::Some(q2)) => Option::Some(
                Primitive::Triangle { tri: Tri { p: [q0, q1, q2], e: tri.e } },
            ),
            _ => Option::None,
        },
    }
}

/// One projected point is beyond one frustum plane.
pub open spec fn out_xn(v: Vec4) -> bool {
    v.x < -UNIT
}

pub open spec fn out_xp(v: Vec4) -> bool {
    v.x > UNIT
}

pub open spec fn out_yn(v: Vec4) -> bool {
    v.y < -UNIT
}

pub open spec fn out_yp(v: Vec4) -> bool {
    v.y > UNIT
}

pub open spec fn out_zn(v: Vec4) -> bool {
    v.z < -UNIT
}

pub open spec fn out_zp(v: Vec4) -> bool {
    v.z > UNIT
}

/// Conservative whole-primitive rejection: every vertex lies beyond one
/// single frustum plane (x or y beyond [-1, 1], or z beyond the depth
/// range). A straddling primitive is never clipped, only passed through.
pub open spec fn prim_culled_spec(p: Primitive) -> bool {
    match p {
        Primitive::Point { point } => out_xn(point) || out_xp(point) || out_yn(point) || out_yp(
            point,
        ) || out_zn(point) || out_zp(point),
        Primitive::Line { points } => (out_xn(points[0]) && out_xn(points[1])) || (out_xp(
            points[0],
        ) && out_xp(points[1])) || (out_yn(points[0]) && out_yn(points[1])) || (out_yp(points[0])
            && out_yp(points[1])) || (out_zn(points[0]) && out_zn(points[1])) || (out_zp(points[0])
            && out_zp(points[1])),
        Primitive::Triangle { tri } => (out_xn(tri.p[0]) && out_xn(tri.p[1]) && out_xn(tri.p[2]))
            || (out_xp(tri.p[0]) && out_xp(tri.p[1]) && out_xp(tri.p[2])) || (out_yn(tri.p[0])
            && out_yn(tri.p[1]) && out_yn(tri.p[2])) || (out_yp(tri.p[0]) && out_yp(tri.p[1])
            && out_yp(tri.p[2])) || (out_zn(tri.p[0]) && out_zn(tri.p[1]) && out_zn(tri.p[2])) || (
        out_zp(tri.p[0]) && out_zp(tri.p[1]) && out_zp(tri.p[2])),
    }
}

/// The winding pass on one surviving primitive: a clockwise triangle is
/// reversed to counter-clockwise, a degenerate one is dropped, everything
/// else passes through.
pub open spec fn orient_spec(p: Primitive) -> Option<Primitive> {
    match p {
        Primitive::Triangle { tri } => match winding_spec(tri) {
            Winding::Clockwise => Option::Some(Primitive::Triangle { tri: reverse_spec(tri) }),
            Winding::Degenerate => Option::None,
            Winding::CounterClockwise => Option::Some(p),
        },
        _ => Option::Some(p),
    }
}

/// The primitives that enter the occlusion loop: every input projected,
/// conservatively culled and winding-fixed, in input order. None when any
/// projection is singular.
pub open spec fn survivors_spec(m: Mat4, inputs: Seq<Primitive>) -> Option<Seq<Primitive>>
    decreases inputs.len(),
{
    if inputs.len() == 0 {
        Option::Some(Seq::empty())
    } else {
        match survivors_spec(m, inputs.drop_last()) {
            Option::None => Option::None,
            Option::Some(rest) => match proj_prim_spec(m, inputs.last()) {
                Option::None => Option::None,
                Option::Some(q) => if prim_culled_spec(q) {
                    Option::Some(rest)
                } else {
                    match orient_spec(q) {
                        Option::None => Option::Some(rest),
                        Option::Some(k) => Option::Some(rest.push(k)),
                    }
                },
            },
        }
    }
}

/// The renderer: a clip transform, a near/far depth pair, and an
/// append-only list of input primitives.
pub struct Renderer {
    clip: Mat4,
    input_primitives: Vec<Primitive>,
    depth_range: [i64; 2],
}

impl Renderer {
    /// The clip transform the renderer was built with.
    pub closed spec fn clip_spec(&self) -> Mat4 {
        self.clip
    }

    /// The accumulated input primitives, in insertion order.
    pub closed spec fn inputs(&self) -> Seq<Primitive> {
        self.input_primitives@
    }

    /// Well-formedness: a bounded transform, bounded inputs, and the
    /// default [-1, 1] depth range.
    pub closed spec fn wf(&self) -> bool {
        &&& mat_ok(self.clip)
        &&& self.depth_range[0] == -UNIT
        &&& self.depth_range[1] == UNIT
        &&& forall|i: int|
            0 <= i < self.input_primitives@.len() ==> prim_world_ok(
                #[trigger] self.input_primitives@[i],
            )
    }

    /// Build a renderer around a clip transform.
    pub fn new(c: &Mat4) -> (r: Renderer)
        requires
            mat_ok(*c),
        ensures
            r.wf(),
            r.clip_spec() == *c,
            r.inputs() == Seq::<Primitive>::empty(),
    {
        Renderer { clip: *c, input_primitives: Vec::new(), depth_range: [-UNIT, UNIT] }
    }

    /// Add a primitive to the render list.
    pub fn add_prim(&mut self, p: Primitive)
        requires
            old(self).wf(),
            prim_world_ok(p),
        ensures
            final(self).wf(),
            final(self).clip_spec() == old(self).clip_spec(),
            final(self).inputs() == old(self).inputs().push(p),
    {
        self.input_primitives.push(p);
    }

    /// Add a single point.
    pub fn add_point(&mut self, p: Vec3)
        requires
            old(self).wf(),
            v3_world_ok(p),
        ensures
            final(self).wf(),
            final(self).clip_spec() == old(self).clip_spec(),
            final(self).inputs() == old(self).inputs().push(
                Primitive::Point { point: v3_homog(p) },
            ),
    {
        self.add_prim(Primitive::Point { point: Vec4 { x: p.x, y: p.y, z: p.z, w: UNIT } });
    }

    /// Add a line segment.
    pub fn add_line(&mut self, p0: Vec3, p1: Vec3)
        requires
            old(self).wf(),
            v3_world_ok(p0),
            v3_world_ok(p1),
        ensures
            final(self).wf(),
            final(self).clip_spec() == old(self).clip_spec(),
            final(self).inputs() == old(self).inputs().push(
                Primitive::Line { points: [v3_homog(p0), v3_homog(p1)] },
            ),
    {
        self.add_prim(
            Primitive::Line {
                points: [
                    Vec4 { x: p0.x, y: p0.y, z: p0.z, w: UNIT },
                    Vec4 { x: p1.x, y: p1.y, z: p1.z, w: UNIT },
                ],
            },
        );
    }

    /// Add a triangle, with all edges visible.
    pub fn add_triangle(&mut self, p0: Vec3, p1: Vec3, p2: Vec3)
        requires
            old(self).wf(),
            v3_world_ok(p0),
            v3_world_ok(p1),
            v3_world_ok(p2),
        ensures
            final(self).wf(),
            final(self).clip_spec() == old(self).clip_spec(),
            final(self).inputs() == old(self).inputs().push(
                Primitive::Triangle {
                    tri: Tri {
                        p: [v3_homog(p0), v3_homog(p1), v3_homog(p2)],
                        e: [EdgeType::Visible, EdgeType::Visible, EdgeType::Visible],
                    },
                },
            ),
    {
        self.add_prim(
            Primitive::Triangle {
                tri: Tri {
                    p: [
                        Vec4 { x: p0.x, y: p0.y, z: p0.z, w: UNIT },
                        Vec4 { x: p1.x, y: p1.y, z: p1.z, w: UNIT },
                        Vec4 { x: p2.x, y: p2.y, z: p2.z, w: UNIT },
                    ],
                    e: [EdgeType::Visible, EdgeType::Visible, EdgeType::Visible],
                },
            },
        );
    }
}

/// The i-th triangle of the fan over an ordered polygon: the spoke and
/// outer edges are visible, the edges shared between consecutive fan
/// triangles invisible.
pub open spec fn fan_tri(pts: Seq<Vec3>, i: int) -> Primitive {
    Primitive::Triangle {
        tri: Tri {
            p: [v3_homog(pts[0]), v3_homog(pts[i + 1]), v3_homog(pts[i + 2])],
            e: [
                if i == 0 {
                    EdgeType::Visible
                } else {
                    EdgeType::Invisible
                },
                EdgeType::Visible,
                if i + 3 == pts.len() {
                    EdgeType::Visible
                } else {
                    EdgeType::Invisible
                },
            ],
        },
    }
}

/// The first k triangles of the fan.
pub open spec fn fan_upto(pts: Seq<Vec3>, k: int) -> Seq<Primitive>
    decreases k,
{
    if k <= 0 {
        Seq::empty()
    } else {
        fan_upto(pts, k - 1).push(fan_tri(pts, k - 1))
    }
}

/// The full fan triangulation of an ordered polygon: empty when the
/// polygon has fewer than three points.
pub open spec fn fan_spec(pts: Seq<Vec3>) -> Seq<Primitive> {
    if pts.len() < 3 {
        Seq::empty()
    } else {
        fan_upto(pts, pts.len() - 2)
    }
}

impl Renderer {
    /// Add an ordered convex polygon, fan-triangulated; fewer than three
    /// points silently contribute nothing.
    pub fn add_polygon(&mut self, p: &[Vec3])
        requires
            old(self).wf(),
            forall|i: int| 0 <= i < p@.len() ==> v3_world_ok(#[trigger] p@[i]),
        ensures
            final(self).wf(),
            final(self).clip_spec() == old(self).clip_spec(),
            final(self).inputs() == old(self).inputs() + fan_spec(p@),
    {
        let n: usize = p.len();
        if n < 3 {
            proof {
                assert(old(self).inputs() + fan_spec(p@) =~= old(self).inputs());
            }
            return ;
        }
        let mut i: usize = 0;
        while i < n - 2
            invariant
                self.wf(),
                self.clip_spec() == old(self).clip_spec(),
                n == p@.len(),
                3 <= n,
                i <= n - 2,
                forall|j: int| 0 <= j < p@.len() ==> v3_world_ok(#[trigger] p@[j]),
                self.inputs() == old(self).inputs() + fan_upto(p@, i as int),
            decreases n - 2 - i,
        {
            let e0 = if i == 0 {
                EdgeType::Visible
            } else {
                EdgeType::Invisible
            };
            let e2 = if i == n - 3 {
                EdgeType::Visible
            } else {
                EdgeType::Invisible
            };
            let a = p[0];
            let b = p[i + 1];
            let c = p[i + 2];
            proof {
                assert(v3_world_ok(p@[0]));
                assert(v3_world_ok(p@[i + 1]));
                assert(v3_world_ok(p@[i + 2]));
            }
            self.add_prim(
                Primitive::Triangle {
                    tri: Tri {
                        p: [
                            Vec4 { x: a.x, y: a.y, z: a.z, w: UNIT },
                            Vec4 { x: b.x, y: b.y, z: b.z, w: UNIT },
                            Vec4 { x: c.x, y: c.y, z: c.z, w: UNIT },
                        ],
                        e: [e0, EdgeType::Visible, e2],
                    },
                },
            );
            proof {
                assert(self.inputs() =~= old(self).inputs() + fan_upto(p@, i + 1));
            }
            i += 1;
        }
        proof {
            assert(old(self).inputs() + fan_upto(p@, n - 2) =~= old(self).inputs() + fan_spec(p@));
        }
    }
}

} // verus!

verus! {

broadcast use vstd::multiset::group_multiset_axioms;

/// One row of the transform applied to a point, descaled by UNIT.
fn proj_row(a: i64, b: i64, c: i64, d: i64, p: &Vec4) -> (r: i128)
    requires
        abs_i(a as int) <= MAT_LIMIT,
        abs_i(b as int) <= MAT_LIMIT,
        abs_i(c as int) <= MAT_LIMIT,
        abs_i(d as int) <= MAT_LIMIT,
        v4_world(*p),
    ensures
        r == row_spec(a as int, b as int, c as int, d as int, *p),
        abs_i(r as int) <= 4_000_000_000_000_000,
{
    let gm: Ghost<int> = Ghost(1_000_000_000_000int);
    let gp: Ghost<int> = Ghost(1_000_000_000int);
    let n: i128 = wide_mul(a, p.x, gm, gp) + wide_mul(b, p.y, gm, gp) + wide_mul(c, p.z, gm, gp)
        + wide_mul(d, p.w, gm, gp);
    proof {
        crate::common::lemma_div_mag(abs_i(n as int), UNIT as int, 4_000_000_000_000_000int);
    }
    div_i128(n, UNIT as i128)
}

/// Project a point into NDC, keeping w; None when w vanishes.
fn proj_point(m: &Mat4, p: &Vec4) -> (r: Option<Vec4>)
    requires
        mat_ok(*m),
        v4_world(*p),
    ensures
        r == proj_point_spec(*m, *p),
        r matches Some(q) ==> v4_ok(q),
{
    let rx = proj_row(m.m00, m.m01, m.m02, m.m03, p);
    let ry = proj_row(m.m10, m.m11, m.m12, m.m13, p);
    let rz = proj_row(m.m20, m.m21, m.m22, m.m23, p);
    let rw = proj_row(m.m30, m.m31, m.m32, m.m33, p);
    if rw == 0 {
        return None;
    }
    let gu: Ghost<int> = Ghost(1_000_000int);
    let gr: Ghost<int> = Ghost(4_000_000_000_000_000int);
    let xs: i128 = mul_i128(rx, UNIT as i128, gr, gu);
    let ys: i128 = mul_i128(ry, UNIT as i128, gr, gu);
    let zs: i128 = mul_i128(rz, UNIT as i128, gr, gu);
    Some(
        Vec4 {
            x: clamp_i128(div_i128(xs, rw), COORD_LIMIT),
            y: clamp_i128(div_i128(ys, rw), COORD_LIMIT),
            z: clamp_i128(div_i128(zs, rw), COORD_LIMIT),
            w: clamp_i128(rw, W_LIMIT),
        },
    )
}

/// Project a primitive as a whole, keeping its edge tags.
fn proj_prim(m: &Mat4, prim: &Primitive) -> (r: Option<Primitive>)
    requires
        mat_ok(*m),
        prim_world_ok(*prim),
    ensures
        r == proj_prim_spec(*m, *prim),
        r matches Some(q) ==> prim_ok(q),
{
    match prim {
        Primitive::Point { point } => match proj_point(m, point) {
            None => None,
            Some(q) => Some(Primitive::Point { point: q }),
        },
        Primitive::Line { points } => {
            let q0 = proj_point(m, &points[0]);
            let q1 = proj_point(m, &points[1]);
            match (q0, q1) {
                (Some(q0), Some(q1)) => Some(Primitive::Line { points: [q0, q1] }),
                _ => None,
            }
        },
        Primitive::Triangle { tri } => {
            let q0 = proj_point(m, &tri.p[0]);
            let q1 = proj_point(m, &tri.p[1]);
            let q2 = proj_point(m, &tri.p[2]);
            match (q0, q1, q2) {
                (Some(q0), Some(q1), Some(q2)) => Some(
                    Primitive::Triangle { tri: Tri { p: [q0, q1, q2], e: tri.e } },
                ),
                _ => None,
            }
        },
    }
}

/// Whether a projected primitive is conservatively culled: every vertex on
/// the wrong side of a single frustum plane.
fn is_prim_culled(prim: &Primitive) -> (r: bool)
    ensures
        r == prim_culled_spec(*prim),
{
    match prim {
        Primitive::Point { point } => point.x < -UNIT || point.x > UNIT || point.y < -UNIT
            || point.y > UNIT || point.z < -UNIT || point.z > UNIT,
        Primitive::Line { points } => {
            let a = points[0];
            let b = points[1];
            (a.x < -UNIT && b.x < -UNIT) || (a.x > UNIT && b.x > UNIT) || (a.y < -UNIT && b.y
                < -UNIT) || (a.y > UNIT && b.y > UNIT) || (a.z < -UNIT && b.z < -UNIT) || (a.z
                > UNIT && b.z > UNIT)
        },
        Primitive::Triangle { tri } => {
            let a = tri.p[0];
            let b = tri.p[1];
            let c = tri.p[2];
            (a.x < -UNIT && b.x < -UNIT && c.x < -UNIT) || (a.x > UNIT && b.x > UNIT && c.x > UNIT)
                || (a.y < -UNIT && b.y < -UNIT && c.y < -UNIT) || (a.y > UNIT && b.y > UNIT && c.y
                > UNIT) || (a.z < -UNIT && b.z < -UNIT && c.z < -UNIT) || (a.z > UNIT && b.z > UNIT
                && c.z > UNIT)
        },
    }
}

/// Fix the winding of a surviving primitive: reverse a clockwise triangle,
/// drop a degenerate one.
fn orient(p: Primitive) -> (r: Option<Primitive>)
    requires
        prim_ok(p),
    ensures
        r == orient_spec(p),
        r matches Some(k) ==> prim_ok(k),
{
    match p {
        Primitive::Triangle { tri } => match tri.winding_2d() {
            Winding::Clockwise => Some(Primitive::Triangle { tri: tri.reverse() }),
            Winding::Degenerate => None,
            Winding::CounterClockwise => Some(p),
        },
        _ => Some(p),
    }
}

/// Index of an entry with the largest depth key (the nearest primitive).
fn max_z_index(q: &Vec<ZsortPrim>) -> (r: usize)
    requires
        q@.len() > 0,
    ensures
        r < q@.len(),
        r as int == first_max_z(entries_lift(q@)),
        forall|k: int| 0 <= k < q@.len() ==> q@[k].z <= q@[r as int].z,
{
    let mut best: usize = 0;
    let mut j: usize = 1;
    while j < q.len()
        invariant
            1 <= j <= q@.len(),
            best < j,
            best as int == first_max_z_upto(entries_lift(q@), j as int),
            forall|k: int| 0 <= k < j ==> q@[k].z <= q@[best as int].z,
        decreases q@.len() - j,
    {
        proof {
            assert(entries_lift(q@)[j as int].z == q@[j as int].z as int);
            assert(entries_lift(q@)[best as int].z == q@[best as int].z as int);
        }
        if q[j].z > q[best].z {
            best = j;
        }
        j += 1;
    }
    best
}

/// The split budget of one render call: the number of triangle cuts the
/// occlusion loop may perform before it gives up with `IterationLimit`.
/// The budget only bounds cuts (every other step shrinks the queue), so a
/// render without any split never draws on it.
pub const SPLIT_BUDGET: u64 = 1_000_000_000;

/// A work-queue entry as the occlusion recurrence sees it: the primitive,
/// its depth key, and the memo of already tested (accepted index, edge)
/// pairs.
pub struct GEntry {
    pub p: Primitive,
    pub z: int,
    pub memo: Seq<(int, int)>,
}

pub open spec fn memo_lift(m: Seq<(usize, usize)>) -> Seq<(int, int)> {
    m.map_values(|pr: (usize, usize)| (pr.0 as int, pr.1 as int))
}

pub open spec fn entry_lift(z: ZsortPrim) -> GEntry {
    GEntry { p: z.p, z: z.z as int, memo: memo_lift(z.presplit.entries@) }
}

pub open spec fn entries_lift(s: Seq<ZsortPrim>) -> Seq<GEntry> {
    s.map_values(|z: ZsortPrim| entry_lift(z))
}

/// The primitives carried by a sequence of recurrence entries.
pub open spec fn gentry_prims(s: Seq<GEntry>) -> Seq<Primitive> {
    s.map_values(|g: GEntry| g.p)
}

/// The initial queue: one entry per survivor, keyed by the negated
/// centroid z, with an empty memo.
pub open spec fn init_entries(sv: Seq<Primitive>) -> Seq<GEntry> {
    sv.map_values(|p: Primitive| GEntry { p, z: -centroid_spec(p).z, memo: Seq::empty() })
}

/// The index the queue pop takes among the first n entries: the earliest
/// entry with the largest depth key (the nearest primitive; ties keep the
/// earliest).
pub open spec fn first_max_z_upto(s: Seq<GEntry>, n: int) -> int
    decreases n,
{
    if n <= 1 {
        0
    } else {
        let b = first_max_z_upto(s, n - 1);
        if s[n - 1].z > s[b].z {
            n - 1
        } else {
            b
        }
    }
}

pub open spec fn first_max_z(s: Seq<GEntry>) -> int {
    first_max_z_upto(s, s.len() as int)
}

/// Outcome of scanning one accepted triangle's edges for a cut.
pub enum EdgeOut {
    /// The popped triangle splits on this edge into these pieces.
    Cut(int, Seq<Tri>),
    /// The splitter's case analysis is broken.
    Broken,
    /// No edge of this accepted triangle cuts the popped triangle.
    NoCut,
}

/// Try the accepted triangle tt's edges from ei upward, skipping pairs the
/// popped triangle's lineage has already tested.
pub open spec fn edge_scan_spec(t: Tri, memo: Seq<(int, int)>, tt: Tri, izp: int, ei: int) -> EdgeOut
    decreases 3 - ei,
{
    if ei >= 3 {
        EdgeOut::NoCut
    } else if memo.contains((izp, ei)) {
        edge_scan_spec(t, memo, tt, izp, ei + 1)
    } else {
        let e1 = if ei == 2 {
            0int
        } else {
            ei + 1
        };
        match split_spec(t, v4_xy(tt.p[ei]), v4_xy(tt.p[e1])) {
            SplitGhost::Pieces(ps) => EdgeOut::Cut(ei, ps),
            SplitGhost::Fatal => EdgeOut::Broken,
            _ => edge_scan_spec(t, memo, tt, izp, ei + 1),
        }
    }
}

/// Outcome of scanning the accepted list for the popped triangle.
pub enum ScanOut {
    /// Split on edge ei of accepted triangle izp into these pieces.
    Cut(int, int, Seq<Tri>),
    /// The splitter's case analysis is broken.
    Broken,
    /// The popped triangle is wholly inside an accepted triangle.
    Contained,
    /// Nothing cuts or contains the popped triangle.
    Clear,
}

/// Walk the accepted list from izp upward: for each not fully hidden
/// accepted triangle, try its edges; a split wins, else containment hides,
/// else move on.
pub open spec fn scan_spec(t: Tri, memo: Seq<(int, int)>, accepted: Seq<GEntry>, izp: int) -> ScanOut
    decreases accepted.len() - izp,
{
    if izp >= accepted.len() {
        ScanOut::Clear
    } else {
        match accepted[izp].p {
            Primitive::Triangle { tri: tt } => {
                if !all_edges(tt, EdgeType::Hidden) {
                    match edge_scan_spec(t, memo, tt, izp, 0) {
                        EdgeOut::Cut(ei, ps) => ScanOut::Cut(izp, ei, ps),
                        EdgeOut::Broken => ScanOut::Broken,
                        EdgeOut::NoCut => if tri_in_tri_spec(t, tt) {
                            ScanOut::Contained
                        } else {
                            scan_spec(t, memo, accepted, izp + 1)
                        },
                    }
                } else {
                    scan_spec(t, memo, accepted, izp + 1)
                }
            },
            _ => scan_spec(t, memo, accepted, izp + 1),
        }
    }
}

/// A freshly cut piece entering the queue: keyed by its own centroid, the
/// memo inherited from its parent extended by the pair just consumed.
pub open spec fn child_entry(t: Tri, memo: Seq<(int, int)>) -> GEntry {
    GEntry {
        p: Primitive::Triangle { tri: t },
        z: -centroid_spec(Primitive::Triangle { tri: t }).z,
        memo,
    }
}

pub open spec fn children_spec(pieces: Seq<Tri>, memo: Seq<(int, int)>) -> Seq<GEntry> {
    pieces.map_values(|t: Tri| child_entry(t, memo))
}

/// How one render's occlusion loop ends.
pub enum LoopOut {
    /// The final accepted list, in acceptance order.
    Done(Seq<GEntry>),
    /// The splitter's case analysis met an impossible combination.
    Broken,
    /// More cuts were needed than the split budget allows.
    Starved,
}

/// The occlusion loop itself, as a recurrence: pop the nearest entry;
/// points and lines are accepted unconditionally; a degenerate triangle is
/// dropped; otherwise the accepted list is scanned, and the triangle is
/// either cut (its pieces re-queued, spending one unit of the split
/// budget), hidden and accepted, or accepted as it stands.
pub open spec fn occlusion_spec(queue: Seq<GEntry>, accepted: Seq<GEntry>, fuel: nat) -> LoopOut
    decreases fuel, queue.len(),
{
    if queue.len() == 0 {
        LoopOut::Done(accepted)
    } else {
        let i0 = first_max_z(queue);
        let i = if 0 <= i0 < queue.len() {
            i0
        } else {
            0int
        };
        let x = queue[i];
        let rest = queue.remove(i);
        match x.p {
            Primitive::Triangle { tri } => {
                if winding_spec(tri) == Winding::Degenerate {
                    occlusion_spec(rest, accepted, fuel)
                } else {
                    match scan_spec(tri, x.memo, accepted, 0) {
                        ScanOut::Cut(izp, ei, pieces) => {
                            if fuel == 0 {
                                LoopOut::Starved
                            } else {
                                occlusion_spec(
                                    rest + children_spec(pieces, x.memo.push((izp, ei))),
                                    accepted,
                                    (fuel - 1) as nat,
                                )
                            }
                        },
                        ScanOut::Broken => LoopOut::Broken,
                        ScanOut::Contained => occlusion_spec(
                            rest,
                            accepted.push(GEntry { p: prim_hide_spec(x.p), z: x.z, memo: x.memo }),
                            fuel,
                        ),
                        ScanOut::Clear => occlusion_spec(rest, accepted.push(x), fuel),
                    }
                }
            },
            _ => occlusion_spec(rest, accepted.push(x), fuel),
        }
    }
}

/// The occlusion outcome of a whole scene: the survivors enter the queue
/// in order and the loop runs with the full split budget.
pub open spec fn scene_spec(sv: Seq<Primitive>) -> LoopOut {
    occlusion_spec(init_entries(sv), Seq::empty(), SPLIT_BUDGET as nat)
}

/// The pop index is always within the first n entries.
proof fn lemma_first_max_in_range(s: Seq<GEntry>, n: int)
    requires
        1 <= n <= s.len(),
    ensures
        0 <= first_max_z_upto(s, n) < n,
    decreases n,
{
    if n > 1 {
        lemma_first_max_in_range(s, n - 1);
    }
}

proof fn lemma_lift_push(s: Seq<ZsortPrim>, z: ZsortPrim)
    ensures
        entries_lift(s.push(z)) == entries_lift(s).push(entry_lift(z)),
{
    assert(entries_lift(s.push(z)) =~= entries_lift(s).push(entry_lift(z)));
}

proof fn lemma_lift_remove(s: Seq<ZsortPrim>, i: int)
    requires
        0 <= i < s.len(),
    ensures
        entries_lift(s.remove(i)) == entries_lift(s).remove(i),
{
    assert(entries_lift(s.remove(i)) =~= entries_lift(s).remove(i));
}

/// Lifting the memo to unbounded pairs keeps membership.
proof fn lemma_memo_contains(m: Seq<(usize, usize)>, a: usize, b: usize)
    ensures
        memo_lift(m).contains((a as int, b as int)) <==> m.contains((a, b)),
{
    if m.contains((a, b)) {
        let i = choose|i: int| 0 <= i < m.len() && m[i] == (a, b);
        assert(memo_lift(m)[i] == (a as int, b as int));
    }
    if memo_lift(m).contains((a as int, b as int)) {
        let i = choose|i: int|
            0 <= i < memo_lift(m).len() && memo_lift(m)[i] == (a as int, b as int);
        assert(m[i].0 == a && m[i].1 == b);
        assert(m[i] == (a, b));
    }
}

/// The non-triangle primitives of a queue or accepted list, as a multiset
/// (points and lines are never split or hidden, only carried through).
pub open spec fn non_tri_mset(s: Seq<ZsortPrim>) -> Multiset<Primitive>
    decreases s.len(),
{
    if s.len() == 0 {
        Multiset::empty()
    } else {
        let rest = non_tri_mset(s.drop_last());
        if s.last().p is Triangle {
            rest
        } else {
            rest.insert(s.last().p)
        }
    }
}

/// The non-triangle primitives of a plain primitive sequence.
pub open spec fn prim_non_tri_mset(s: Seq<Primitive>) -> Multiset<Primitive>
    decreases s.len(),
{
    if s.len() == 0 {
        Multiset::empty()
    } else {
        let rest = prim_non_tri_mset(s.drop_last());
        if s.last() is Triangle {
            rest
        } else {
            rest.insert(s.last())
        }
    }
}

proof fn lemma_non_tri_mset_push(s: Seq<ZsortPrim>, z: ZsortPrim)
    ensures
        non_tri_mset(s.push(z)) == (if z.p is Triangle {
            non_tri_mset(s)
        } else {
            non_tri_mset(s).insert(z.p)
        }),
{
    assert(s.push(z).drop_last() =~= s);
    assert(s.push(z).last() == z);
}

/// Removing entry i takes exactly its contribution out of the multiset.
proof fn lemma_non_tri_mset_remove(s: Seq<ZsortPrim>, i: int)
    requires
        0 <= i < s.len(),
    ensures
        (if s[i].p is Triangle {
            non_tri_mset(s.remove(i))
        } else {
            non_tri_mset(s.remove(i)).insert(s[i].p)
        }) == non_tri_mset(s),
    decreases s.len(),
{
    if i == s.len() - 1 {
        assert(s.remove(i) =~= s.drop_last());
    } else {
        let s2 = s.remove(i);
        assert(s2.drop_last() =~= s.drop_last().remove(i));
        assert(s2.last() == s.last());
        lemma_non_tri_mset_remove(s.drop_last(), i);
        assert(s.drop_last()[i] == s[i]);
        if !(s[i].p is Triangle) && !(s.last().p is Triangle) {
            assert(non_tri_mset(s.drop_last().remove(i)).insert(s.last().p).insert(s[i].p)
                =~= non_tri_mset(s.drop_last().remove(i)).insert(s[i].p).insert(s.last().p));
        }
    }
}

/// Inserting on either side of a disjoint union is the same.
proof fn lemma_add_insert_swap(m1: Multiset<Primitive>, m2: Multiset<Primitive>, v: Primitive)
    ensures
        m1.add(m2.insert(v)) == m1.insert(v).add(m2),
{
    assert(m1.add(m2.insert(v))  =~= m1.insert(v).add(m2));
}

impl Renderer {
    /// Resolve occlusion and flatten the result.
    ///
    /// Every input primitive is projected through the clip transform and
    /// perspective-divided (`survivors_spec`); primitives wholly beyond
    /// one frustum plane are culled; triangles are made counter-clockwise
    /// or dropped when degenerate. The survivors then run through the
    /// occlusion recurrence (`scene_spec`): nearest-first, a triangle is
    /// split along the edges of already accepted, not fully hidden
    /// triangles (each (triangle, edge) pair tested at most once per
    /// lineage), a triangle wholly contained in an accepted one is hidden,
    /// and points and lines pass through unconditionally.
    ///
    /// The result is pinned exactly: the output is the flattening of the
    /// recurrence's final accepted list, and each error comes if and only
    /// if the recurrence says so - a singular projection, a broken
    /// splitter case analysis, or a scene needing more cuts than
    /// SPLIT_BUDGET allows. In particular the surviving points and lines
    /// always appear exactly once, and an empty or all-culled scene
    /// yields an empty output.
    #[verifier::loop_isolation(false)]
    #[verifier::rlimit(100)]
    pub fn render(&self) -> (r: Result<RenderPaths, RenderError>)
        requires
            self.wf(),
        ensures
            (r == Err::<RenderPaths, RenderError>(RenderError::ProjectionSingular))
                <==> survivors_spec(self.clip_spec(), self.inputs()) is None,
            match r {
                Ok(rp) => survivors_spec(self.clip_spec(), self.inputs()) matches Some(sv)
                    && render_out_ok(rp, sv) && (scene_spec(sv) matches LoopOut::Done(finals)
                    && rp.points@ == flatten_points(gentry_prims(finals)) && rp.lines@
                    == flatten_lines(gentry_prims(finals))),
                Err(RenderError::ProjectionSingular) => true,
                Err(RenderError::InvariantViolation) => survivors_spec(
                    self.clip_spec(),
                    self.inputs(),
                ) matches Some(sv) && scene_spec(sv) == LoopOut::Broken,
                Err(RenderError::IterationLimit) => survivors_spec(
                    self.clip_spec(),
                    self.inputs(),
                ) matches Some(sv) && scene_spec(sv) == LoopOut::Starved,
            },
    {
        let m = &self.clip;
        let n = self.input_primitives.len();
        let mut survivors: Vec<Primitive> = Vec::new();
        let mut i: usize = 0;
        while i < n
            invariant
                i <= n,
                survivors_spec(self.clip_spec(), self.inputs().subrange(0, i as int))
                    == Some(survivors@),
                forall|k: int| 0 <= k < survivors@.len() ==> prim_ok(#[trigger] survivors@[k]),
            decreases n - i,
        {
            let prim = &self.input_primitives[i];
            proof {
                assert(self.inputs().subrange(0, i + 1).drop_last() =~= self.inputs().subrange(
                    0,
                    i as int,
                ));
                assert(self.inputs().subrange(0, i + 1).last() == self.inputs()[i as int]);
            }
            match proj_prim(m, prim) {
                None => {
                    proof {
                        lemma_survivors_extend_none(
                            self.clip_spec(),
                            self.inputs(),
                            i as int + 1,
                        );
                    }
                    return Err(RenderError::ProjectionSingular);
                },
                Some(q) => {
                    if !is_prim_culled(&q) {
                        match orient(q) {
                            None => {},
                            Some(k) => {
                                survivors.push(k);
                            },
                        }
                    }
                },
            }
            i += 1;
        }
        proof {
            assert(self.inputs().subrange(0, n as int) =~= self.inputs());
        }
        // Build the work queue, nearest popped first.
        let empty_memo = SplitMemo::new();
        let mut queue: Vec<ZsortPrim> = Vec::new();
        let sn = survivors.len();
        let mut j: usize = 0;
        while j < sn
            invariant
                j <= sn,
                queue@.len() == j,
                non_tri_mset(queue@) == prim_non_tri_mset(survivors@.subrange(0, j as int)),
                entries_lift(queue@) == init_entries(survivors@.subrange(0, j as int)),
                forall|k: int| 0 <= k < queue@.len() ==> prim_ok(#[trigger] queue@[k].p),
            decreases sn - j,
        {
            let ghost qpre = queue@;
            queue.push(ZsortPrim::new(survivors[j], &empty_memo));
            proof {
                lemma_non_tri_mset_push(qpre, queue@.last());
                lemma_lift_push(qpre, queue@.last());
                assert(survivors@.subrange(0, j + 1).drop_last() =~= survivors@.subrange(
                    0,
                    j as int,
                ));
                assert(survivors@.subrange(0, j + 1).last() == survivors@[j as int]);
                assert(entry_lift(queue@.last()).memo =~= Seq::<(int, int)>::empty());
                assert(entries_lift(queue@) =~= init_entries(survivors@.subrange(0, j + 1)));
            }
            j += 1;
        }
        proof {
            assert(survivors@.subrange(0, sn as int) =~= survivors@);
        }
        let ghost init_m = prim_non_tri_mset(survivors@);
        // Tentatively rendered primitives (later entries may still be
        // hidden, but never removed).
        let mut accepted: Vec<ZsortPrim> = Vec::new();
        let mut fuel: u64 = SPLIT_BUDGET;
        proof {
            assert(entries_lift(accepted@) =~= Seq::<GEntry>::empty());
        }
        while queue.len() > 0
            invariant
                occlusion_spec(entries_lift(queue@), entries_lift(accepted@), fuel as nat)
                    == scene_spec(survivors@),
                non_tri_mset(queue@).add(non_tri_mset(accepted@)) == init_m,
                forall|k: int| 0 <= k < queue@.len() ==> prim_ok(#[trigger] queue@[k].p),
                forall|k: int| 0 <= k < accepted@.len() ==> prim_ok(#[trigger] accepted@[k].p),
                survivors@.len() == 0 ==> queue@.len() == 0 && accepted@.len() == 0,
            decreases fuel, queue@.len(),
        {
            let ghost gq = entries_lift(queue@);
            let ghost ga = entries_lift(accepted@);
            let ghost gfuel = fuel as nat;
            let idx = max_z_index(&queue);
            let ghost qpre = queue@;
            let x = queue.remove(idx);
            proof {
                lemma_non_tri_mset_remove(qpre, idx as int);
                lemma_lift_remove(qpre, idx as int);
                lemma_first_max_in_range(gq, gq.len() as int);
                assert(entry_lift(x) == gq[idx as int]);
            }
            let ghost grest = gq.remove(idx as int);
            let ghost gx = entry_lift(x);
            let popped: Option<Tri> = match &x.p {
                Primitive::Triangle { tri } => Some(*tri),
                _ => None,
            };
            if popped.is_none() {
                // Points and lines are rendered unconditionally.
                let ghost apre = accepted@;
                let ghost xp = x.p;
                accepted.push(x);
                proof {
                    lemma_non_tri_mset_push(apre, accepted@.last());
                    lemma_add_insert_swap(non_tri_mset(queue@), non_tri_mset(apre), xp);
                    lemma_lift_push(apre, accepted@.last());
                    assert(occlusion_spec(gq, ga, gfuel) == occlusion_spec(
                        grest,
                        ga.push(gx),
                        gfuel,
                    ));
                }
            } else {
                let tri: Tri = popped.unwrap();
                let ghost gmemo = gx.memo;
                // A just-split triangle may have become degenerate.
                if matches!(tri.winding_2d(), Winding::Degenerate) {
                    proof {
                        assert(occlusion_spec(gq, ga, gfuel) == occlusion_spec(
                            grest,
                            ga,
                            gfuel,
                        ));
                    }
                } else {
                    // Scan the accepted list for the first cut, or a
                    // containing triangle, without touching any state.
                    let mut cut_izp: usize = 0;
                    let mut cut_ei: usize = 0;
                    let mut cut_pieces: Option<Vec<Tri>> = None;
                    let mut hidden = false;
                    let alen = accepted.len();
                    let mut izp: usize = 0;
                    while izp < alen && cut_pieces.is_none() && !hidden
                        invariant
                            izp <= alen,
                            cut_pieces is None && !hidden ==> scan_spec(tri, gmemo, ga, 0)
                                == scan_spec(tri, gmemo, ga, izp as int),
                            hidden ==> cut_pieces is None && scan_spec(tri, gmemo, ga, 0)
                                == ScanOut::Contained,
                            match cut_pieces {
                                Some(ps) => !hidden && cut_izp < alen && cut_ei < 3 && scan_spec(
                                    tri,
                                    gmemo,
                                    ga,
                                    0,
                                ) == ScanOut::Cut(cut_izp as int, cut_ei as int, ps@) && (
                                forall|q: int| 0 <= q < ps@.len() ==> tri_ok(#[trigger] ps@[q])),
                                None => true,
                            },
                        decreases alen - izp,
                    {
                        proof {
                            assert(ga[izp as int] == entry_lift(accepted@[izp as int]));
                        }
                        match &accepted[izp].p {
                            Primitive::Triangle { tri: test_tri } => {
                                if !test_tri.is_hidden() {
                                    let test_tri: Tri = *test_tri;
                                    // Try each edge of the accepted
                                    // triangle not yet memoized.
                                    let mut ei: usize = 0;
                                    while ei < 3 && cut_pieces.is_none()
                                        invariant
                                            ei <= 3,
                                            tri_ok(test_tri),
                                            cut_pieces is None ==> edge_scan_spec(
                                                tri,
                                                gmemo,
                                                test_tri,
                                                izp as int,
                                                0,
                                            ) == edge_scan_spec(
                                                tri,
                                                gmemo,
                                                test_tri,
                                                izp as int,
                                                ei as int,
                                            ),
                                            match cut_pieces {
                                                Some(ps) => cut_izp == izp && cut_ei < 3
                                                    && edge_scan_spec(
                                                    tri,
                                                    gmemo,
                                                    test_tri,
                                                    izp as int,
                                                    0,
                                                ) == EdgeOut::Cut(cut_ei as int, ps@) && (
                                                forall|q: int|
                                                    0 <= q < ps@.len() ==> tri_ok(
                                                        #[trigger] ps@[q],
                                                    )),
                                                None => true,
                                            },
                                        decreases 3 - ei,
                                    {
                                        proof {
                                            lemma_memo_contains(x.presplit.entries@, izp, ei);
                                        }
                                        if !x.already_checked(izp, ei) {
                                            let ei1: usize = if ei == 2 {
                                                0
                                            } else {
                                                ei + 1
                                            };
                                            let pa = test_tri.p[ei].xy();
                                            let pb = test_tri.p[ei1].xy();
                                            match split_triangle_by_segment(&tri, pa, pb) {
                                                Err(_) => {
                                                    proof {
                                                        assert(scan_spec(tri, gmemo, ga, 0)
                                                            == ScanOut::Broken);
                                                        assert(occlusion_spec(gq, ga, gfuel)
                                                            == LoopOut::Broken);
                                                    }
                                                    return Err(RenderError::InvariantViolation);
                                                },
                                                Ok(SplitResult::Split(v)) => {
                                                    cut_izp = izp;
                                                    cut_ei = ei;
                                                    cut_pieces = Some(v);
                                                },
                                                Ok(_) => {},
                                            }
                                        }
                                        ei += 1;
                                    }
                                    if cut_pieces.is_none() {
                                        // Whole containment hides the new
                                        // triangle; the nearer accepted
                                        // triangle wins.
                                        if triangle_in_triangle_2d(&tri, &test_tri) {
                                            hidden = true;
                                        }
                                    }
                                }
                            },
                            _ => {},
                        }
                        izp += 1;
                    }
                    if let Some(pieces) = cut_pieces {
                        // Cut: spend one unit of the split budget and
                        // queue the pieces under the extended memo.
                        if fuel == 0 {
                            proof {
                                assert(occlusion_spec(gq, ga, gfuel) == LoopOut::Starved);
                            }
                            return Err(RenderError::IterationLimit);
                        }
                        fuel = fuel - 1;
                        let mut memo = x.presplit.duplicate();
                        memo.insert(cut_izp, cut_ei);
                        let ghost gm2 = gmemo.push((cut_izp as int, cut_ei as int));
                        proof {
                            assert(memo_lift(memo.entries@) =~= gm2);
                            assert(entries_lift(queue@) == grest);
                        }
                        let tn = pieces.len();
                        let mut k: usize = 0;
                        while k < tn
                            invariant
                                k <= tn,
                                tn == pieces@.len(),
                                entries_lift(queue@) == grest + children_spec(
                                    pieces@.subrange(0, k as int),
                                    gm2,
                                ),
                                non_tri_mset(queue@).add(non_tri_mset(accepted@)) == init_m,
                                forall|q: int|
                                    0 <= q < queue@.len() ==> prim_ok(#[trigger] queue@[q].p),
                            decreases tn - k,
                        {
                            let ghost qq = queue@;
                            queue.push(
                                ZsortPrim::new(Primitive::Triangle { tri: pieces[k] }, &memo),
                            );
                            proof {
                                lemma_non_tri_mset_push(qq, queue@.last());
                                lemma_lift_push(qq, queue@.last());
                                assert(entry_lift(queue@.last()) == child_entry(
                                    pieces@[k as int],
                                    gm2,
                                ));
                                assert(grest + children_spec(pieces@.subrange(0, k + 1), gm2)
                                    =~= (grest + children_spec(
                                    pieces@.subrange(0, k as int),
                                    gm2,
                                )).push(child_entry(pieces@[k as int], gm2)));
                            }
                            k += 1;
                        }
                        proof {
                            assert(pieces@.subrange(0, tn as int) =~= pieces@);
                            assert(occlusion_spec(gq, ga, gfuel) == occlusion_spec(
                                grest + children_spec(pieces@, gm2),
                                ga,
                                (gfuel - 1) as nat,
                            ));
                        }
                    } else if hidden {
                        let mut x = x;
                        x.p.hide_edges();
                        let ghost apre = accepted@;
                        accepted.push(x);
                        proof {
                            lemma_non_tri_mset_push(apre, accepted@.last());
                            lemma_lift_push(apre, accepted@.last());
                            assert(entry_lift(accepted@.last()) == (GEntry {
                                p: prim_hide_spec(gx.p),
                                z: gx.z,
                                memo: gx.memo,
                            }));
                            assert(occlusion_spec(gq, ga, gfuel) == occlusion_spec(
                                grest,
                                ga.push(
                                    GEntry { p: prim_hide_spec(gx.p), z: gx.z, memo: gx.memo },
                                ),
                                gfuel,
                            ));
                        }
                    } else {
                        let ghost apre = accepted@;
                        accepted.push(x);
                        proof {
                            lemma_non_tri_mset_push(apre, accepted@.last());
                            lemma_lift_push(apre, accepted@.last());
                            assert(occlusion_spec(gq, ga, gfuel) == occlusion_spec(
                                grest,
                                ga.push(gx),
                                gfuel,
                            ));
                        }
                    }
                }
            }
        }
        let rp = RenderPaths::from_prims(&accepted);
        proof {
            assert(entries_lift(queue@) =~= Seq::<GEntry>::empty());
            assert(scene_spec(survivors@) == LoopOut::Done(entries_lift(accepted@)));
            assert(gentry_prims(entries_lift(accepted@)) =~= zs_prims(accepted@));
            assert(render_out_ok(rp, survivors@)) by {
                assert(non_tri_mset(queue@) == Multiset::<Primitive>::empty());
                assert(Multiset::<Primitive>::empty().add(non_tri_mset(accepted@))
                    =~= non_tri_mset(accepted@));
                assert(rp_from(rp, accepted@, survivors@));
            }
        }
        Ok(rp)
    }
}

/// The relation between the output, the final accepted entries and the
/// primitives that entered the occlusion loop.
pub open spec fn rp_from(rp: RenderPaths, finals: Seq<ZsortPrim>, sv: Seq<Primitive>) -> bool {
    &&& rp.points@ == flatten_points(zs_prims(finals))
    &&& rp.lines@ == flatten_lines(zs_prims(finals))
    &&& non_tri_mset(finals) == prim_non_tri_mset(sv)
    &&& forall|i: int| 0 <= i < finals.len() ==> prim_ok(#[trigger] finals[i].p)
}

/// What a successful render returns: a flattening of some final accepted
/// list that conserves the surviving points and lines exactly, and is
/// empty whenever nothing survives projection and culling.
pub open spec fn render_out_ok(rp: RenderPaths, sv: Seq<Primitive>) -> bool {
    &&& exists|finals: Seq<ZsortPrim>| rp_from(rp, finals, sv)
    &&& (sv.len() == 0 ==> rp.points@.len() == 0 && rp.lines@.len() == 0)
}

/// A singular projection anywhere among the inputs makes the whole
/// survivor computation singular.
proof fn lemma_survivors_extend_none(m: Mat4, s: Seq<Primitive>, k: int)
    requires
        0 <= k <= s.len(),
        survivors_spec(m, s.subrange(0, k)) is None,
    ensures
        survivors_spec(m, s) is None,
    decreases s.len() - k,
{
    if k == s.len() {
        assert(s.subrange(0, k) =~= s);
    } else {
        assert(s.subrange(0, k + 1).drop_last() =~= s.subrange(0, k));
        lemma_survivors_extend_none(m, s, k + 1);
    }
}

} // verus!

