//! The shared value types: edge tags, triangles, drawable primitives and
//! the depth-sort wrapper the renderer's work queue holds.

use crate::common::{cross_z, div_tz, len_sq, v4_ok, Vec3, Vec4, COORD_LIMIT, EPS_RECIP};
use crate::common::{div_i128, mul_i128, wide_mul};
use vstd::prelude::*;

verus! {

/// Visibility class of a triangle edge or an emitted line.
#[derive(Clone, Copy, PartialEq, Eq, Structural, Debug, Hash)]
pub enum EdgeType {
    Visible,
    /// An interior edge created by fan-triangulating a polygon.
    Invisible,
    /// An edge of a triangle fully occluded by nearer geometry.
    Hidden,
    /// An edge newly created by cutting a triangle.
    Split,
    /// An edge of a back-facing polygon.
    Culled,
}

pub open spec fn class_name_spec(e: EdgeType) -> Seq<char> {
    match e {
        EdgeType::Visible => "visible"@,
        EdgeType::Invisible => "invisible"@,
        EdgeType::Hidden => "hidden"@,
        EdgeType::Split => "split"@,
        EdgeType::Culled => "culled"@,
    }
}

impl EdgeType {
    /// The stable, lower-case style-class name of this tag.
    pub fn class_name(&self) -> (r: &'static str)
        ensures
            r@ == class_name_spec(*self),
    {
        match self {
            EdgeType::Visible => "visible",
            EdgeType::Invisible => "invisible",
            EdgeType::Hidden => "hidden",
            EdgeType::Split => "split",
            EdgeType::Culled => "culled",
        }
    }
}

/// Rotational order of a triangle's vertices in 2D.
#[derive(Clone, Copy, PartialEq, Eq, Structural, Debug)]
pub enum Winding {
    Clockwise,
    CounterClockwise,
    Degenerate,
}

/// A triangle of three homogeneous points; edge i runs from vertex i to
/// vertex (i + 1) mod 3 and carries tag e[i].
#[derive(Clone, Copy, PartialEq, Debug)]
pub struct Tri {
    pub p: [Vec4; 3],
    pub e: [EdgeType; 3],
}

/// Well-formedness: all three vertices lie in the representable window.
pub open spec fn tri_ok(t: Tri) -> bool {
    &&& v4_ok(t.p[0])
    &&& v4_ok(t.p[1])
    &&& v4_ok(t.p[2])
}

/// Twice the signed area of the triangle's 2D footprint: the cross product
/// of the edge from vertex 0 to 1 with the edge from vertex 1 to 2.
pub open spec fn signed_area2(t: Tri) -> int {
    cross_z(
        t.p[1].x - t.p[0].x,
        t.p[1].y - t.p[0].y,
        t.p[2].x - t.p[1].x,
        t.p[2].y - t.p[1].y,
    )
}

/// The winding classification: counter-clockwise or clockwise only when the
/// signed area exceeds EPS times the product of the two edge lengths, which
/// compares exactly as (EPS_RECIP * area)^2 against the product of the
/// squared lengths.
pub open spec fn winding_spec(t: Tri) -> Winding {
    let a = signed_area2(t);
    let l01 = len_sq(t.p[1].x - t.p[0].x, t.p[1].y - t.p[0].y);
    let l12 = len_sq(t.p[2].x - t.p[1].x, t.p[2].y - t.p[1].y);
    let ra = EPS_RECIP * a;
    if a > 0 && ra * ra > l01 * l12 {
        Winding::CounterClockwise
    } else if a < 0 && ra * ra > l01 * l12 {
        Winding::Clockwise
    } else {
        Winding::Degenerate
    }
}

pub open spec fn all_edges(t: Tri, e: EdgeType) -> bool {
    t.e[0] == e && t.e[1] == e && t.e[2] == e
}

/// The same triangle with every edge re-tagged.
pub open spec fn retag_spec(t: Tri, e: EdgeType) -> Tri {
    Tri { p: t.p, e: [e, e, e] }
}

/// Vertex order reversed (vertices 1 and 2 swapped, edge tags 0 and 2
/// swapped), which keeps edge i aligned with the segment it tags.
pub open spec fn reverse_spec(t: Tri) -> Tri {
    Tri { p: [t.p[0], t.p[2], t.p[1]], e: [t.e[2], t.e[1], t.e[0]] }
}

impl Tri {
    /// Re-tag every edge as hidden.
    pub fn hide_edges(&mut self)
        ensures
            *final(self) == retag_spec(*old(self), EdgeType::Hidden),
    {
        self.e = [EdgeType::Hidden, EdgeType::Hidden, EdgeType::Hidden];
    }

    /// True iff all of the edges are hidden.
    pub fn is_hidden(&self) -> (r: bool)
        ensures
            r == all_edges(*self, EdgeType::Hidden),
    {
        matches!(self.e[0], EdgeType::Hidden) && matches!(self.e[1], EdgeType::Hidden)
            && matches!(self.e[2], EdgeType::Hidden)
    }

    /// The winding of the triangle's 2D footprint.
    pub fn winding_2d(&self) -> (r: Winding)
        requires
            tri_ok(*self),
        ensures
            r == winding_spec(*self),
    {
        let dx01: i64 = self.p[1].x - self.p[0].x;
        let dy01: i64 = self.p[1].y - self.p[0].y;
        let dx12: i64 = self.p[2].x - self.p[1].x;
        let dy12: i64 = self.p[2].y - self.p[1].y;
        let b: Ghost<int> = Ghost(4_000_000int);
        let a: i128 = wide_mul(dx01, dy12, b, b) - wide_mul(dy01, dx12, b, b);
        let l01: i128 = wide_mul(dx01, dx01, b, b) + wide_mul(dy01, dy01, b, b);
        let l12: i128 = wide_mul(dx12, dx12, b, b) + wide_mul(dy12, dy12, b, b);
        let ra: i128 = mul_i128(
            a,
            EPS_RECIP as i128,
            Ghost(32_000_000_000_000int),
            Ghost(100_000int),
        );
        let ra2: i128 = mul_i128(
            ra,
            ra,
            Ghost(3_200_000_000_000_000_000int),
            Ghost(3_200_000_000_000_000_000int),
        );
        let ll: i128 = mul_i128(
            l01,
            l12,
            Ghost(32_000_000_000_000int),
            Ghost(32_000_000_000_000int),
        );
        if a > 0 && ra2 > ll {
            Winding::CounterClockwise
        } else if a < 0 && ra2 > ll {
            Winding::Clockwise
        } else {
            Winding::Degenerate
        }
    }

    /// Reverse the ordering of the vertices and edges.
    pub fn reverse(self) -> (r: Tri)
        ensures
            r == reverse_spec(self),
    {
        Tri { p: [self.p[0], self.p[2], self.p[1]], e: [self.e[2], self.e[1], self.e[0]] }
    }

    /// Re-tag every edge as culled.
    pub fn cull(self) -> (r: Tri)
        ensures
            r == retag_spec(self, EdgeType::Culled),
    {
        Tri { p: self.p, e: [EdgeType::Culled, EdgeType::Culled, EdgeType::Culled] }
    }

    /// True iff all of the edges are culled.
    pub fn is_culled(&self) -> (r: bool)
        ensures
            r == all_edges(*self, EdgeType::Culled),
    {
        matches!(self.e[0], EdgeType::Culled) && matches!(self.e[1], EdgeType::Culled)
            && matches!(self.e[2], EdgeType::Culled)
    }
}

/// One drawable: internally all coordinates are kept in 4D as
/// (x/w, y/w, z/w, w).
#[derive(Clone, Copy, PartialEq, Debug)]
pub enum Primitive {
    Triangle { tri: Tri },
    Line { points: [Vec4; 2] },
    Point { point: Vec4 },
}

/// Well-formedness: every coordinate in the representable window.
pub open spec fn prim_ok(p: Primitive) -> bool {
    match p {
        Primitive::Triangle { tri } => tri_ok(tri),
        Primitive::Line { points } => v4_ok(points[0]) && v4_ok(points[1]),
        Primitive::Point { point } => v4_ok(point),
    }
}

/// The centroid of the primitive's vertices (rounded toward zero).
pub open spec fn centroid_spec(p: Primitive) -> Vec3 {
    match p {
        Primitive::Point { point } => Vec3 { x: point.x, y: point.y, z: point.z },
        Primitive::Line { points } => Vec3 {
            x: div_tz(points[0].x + points[1].x, 2) as i64,
            y: div_tz(points[0].y + points[1].y, 2) as i64,
            z: div_tz(points[0].z + points[1].z, 2) as i64,
        },
        Primitive::Triangle { tri } => Vec3 {
            x: div_tz(tri.p[0].x + tri.p[1].x + tri.p[2].x, 3) as i64,
            y: div_tz(tri.p[0].y + tri.p[1].y + tri.p[2].y, 3) as i64,
            z: div_tz(tri.p[0].z + tri.p[1].z + tri.p[2].z, 3) as i64,
        },
    }
}

/// True only for a triangle all of whose edges are hidden.
pub open spec fn prim_hidden_spec(p: Primitive) -> bool {
    match p {
        Primitive::Triangle { tri } => all_edges(tri, EdgeType::Hidden),
        _ => false,
    }
}

/// A triangle with every edge hidden; points and lines are unchanged.
pub open spec fn prim_hide_spec(p: Primitive) -> Primitive {
    match p {
        Primitive::Triangle { tri } => Primitive::Triangle {
            tri: retag_spec(tri, EdgeType::Hidden),
        },
        _ => p,
    }
}

impl Primitive {
    /// The centroid of the primitive's vertices, used as its depth key.
    pub fn centroid(&self) -> (r: Vec3)
        requires
            prim_ok(*self),
        ensures
            r == centroid_spec(*self),
            -3 * COORD_LIMIT <= r.x <= 3 * COORD_LIMIT,
            -3 * COORD_LIMIT <= r.y <= 3 * COORD_LIMIT,
            -3 * COORD_LIMIT <= r.z <= 3 * COORD_LIMIT,
    {
        match self {
            Primitive::Point { point } => Vec3 { x: point.x, y: point.y, z: point.z },
            Primitive::Line { points } => {
                let x: i128 = points[0].x as i128 + points[1].x as i128;
                let y: i128 = points[0].y as i128 + points[1].y as i128;
                let z: i128 = points[0].z as i128 + points[1].z as i128;
                Vec3 {
                    x: div_i128(x, 2) as i64,
                    y: div_i128(y, 2) as i64,
                    z: div_i128(z, 2) as i64,
                }
            },
            Primitive::Triangle { tri } => {
                let x: i128 = tri.p[0].x as i128 + tri.p[1].x as i128 + tri.p[2].x as i128;
                let y: i128 = tri.p[0].y as i128 + tri.p[1].y as i128 + tri.p[2].y as i128;
                let z: i128 = tri.p[0].z as i128 + tri.p[1].z as i128 + tri.p[2].z as i128;
                Vec3 {
                    x: div_i128(x, 3) as i64,
                    y: div_i128(y, 3) as i64,
                    z: div_i128(z, 3) as i64,
                }
            },
        }
    }

    /// True iff the primitive is a triangle whose every edge is hidden.
    pub fn is_hidden(&self) -> (r: bool)
        ensures
            r == prim_hidden_spec(*self),
    {
        match self {
            Primitive::Triangle { tri } => tri.is_hidden(),
            _ => false,
        }
    }

    /// Hide every edge of a triangle; points and lines are left unchanged.
    pub fn hide_edges(&mut self)
        ensures
            *final(self) == prim_hide_spec(*old(self)),
    {
        match self {
            Primitive::Triangle { tri } => tri.hide_edges(),
            _ => {},
        }
    }
}

/// The set of (accepted-triangle index, edge index) pairs a queued
/// primitive has already been tested against.
#[derive(Debug)]
pub struct SplitMemo {
    pub entries: Vec<(usize, usize)>,
}

impl SplitMemo {
    /// An empty memo.
    pub fn new() -> (r: SplitMemo)
        ensures
            r.entries@ == Seq::<(usize, usize)>::empty(),
    {
        SplitMemo { entries: Vec::new() }
    }

    /// True iff the pair (izp, i) was recorded.
    pub fn contains(&self, izp: usize, i: usize) -> (r: bool)
        ensures
            r == self.entries@.contains((izp, i)),
    {
        let n = self.entries.len();
        let mut j: usize = 0;
        while j < n
            invariant
                j <= n,
                n == self.entries@.len(),
                forall|k: int| 0 <= k < j ==> self.entries@[k] != (izp, i),
            decreases n - j,
        {
            let entry = self.entries[j];
            if entry.0 == izp && entry.1 == i {
                assert(self.entries@[j as int] == (izp, i));
                return true;
            }
            j += 1;
        }
        false
    }

    /// Record the pair (izp, i).
    pub fn insert(&mut self, izp: usize, i: usize)
        ensures
            final(self).entries@ == old(self).entries@.push((izp, i)),
    {
        self.entries.push((izp, i));
    }

    /// An element-wise copy of the memo.
    pub fn duplicate(&self) -> (r: SplitMemo)
        ensures
            r.entries@ == self.entries@,
    {
        let n = self.entries.len();
        let mut out: Vec<(usize, usize)> = Vec::new();
        let mut j: usize = 0;
        while j < n
            invariant
                j <= n,
                n == self.entries@.len(),
                out@ == self.entries@.subrange(0, j as int),
            decreases n - j,
        {
            out.push(self.entries[j]);
            proof {
                assert(out@ =~= self.entries@.subrange(0, j + 1));
            }
            j += 1;
        }
        proof {
            assert(out@ =~= self.entries@);
        }
        SplitMemo { entries: out }
    }
}

/// A primitive wrapped with its depth key (the negated centroid z, so the
/// nearest primitive carries the largest key) and the memo of already
/// tested (accepted-triangle, edge) pairs.
#[derive(Debug)]
pub struct ZsortPrim {
    pub p: Primitive,
    pub z: i64,
    pub presplit: SplitMemo,
}

impl ZsortPrim {
    /// Wrap a primitive, inheriting the given memo set.
    pub fn new(p: Primitive, hs: &SplitMemo) -> (r: ZsortPrim)
        requires
            prim_ok(p),
        ensures
            r.p == p,
            r.z as int == -centroid_spec(p).z,
            r.presplit.entries@ == hs.entries@,
    {
        let c = p.centroid();
        ZsortPrim { p, z: -c.z, presplit: hs.duplicate() }
    }

    /// True iff edge i of accepted triangle izp was already tested against
    /// this primitive or one of its ancestors.
    pub fn already_checked(&self, izp: usize, i: usize) -> (r: bool)
        ensures
            r == self.presplit.entries@.contains((izp, i)),
    {
        self.presplit.contains(izp, i)
    }
}

} // verus!
