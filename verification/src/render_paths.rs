//! `RenderPaths` is the output of the `Renderer`: the accepted primitives
//! flattened into bare 2D points and tagged 2D line segments, ready for an
//! external path or document emitter.

use crate::common::{v4_xy, Vec2};
use crate::primitive::{EdgeType, Primitive, ZsortPrim};
use vstd::prelude::*;

verus! {

/// Output line from the `Renderer`.
#[derive(Clone, Copy, PartialEq, Debug)]
pub struct RenderLine {
    pub points: [Vec2; 2],
    pub edge: EdgeType,
}

impl RenderLine {
    pub fn new(p0: Vec2, p1: Vec2, e: EdgeType) -> (r: RenderLine)
        ensures
            r == (RenderLine { points: [p0, p1], edge: e }),
    {
        RenderLine { points: [p0, p1], edge: e }
    }
}

/// The 2D points one accepted primitive contributes to the output.
pub open spec fn prim_points(p: Primitive) -> Seq<Vec2> {
    match p {
        Primitive::Point { point } => seq![v4_xy(point)],
        _ => seq![],
    }
}

/// The tagged 2D lines one accepted primitive contributes to the output:
/// a line keeps the Visible tag, a triangle contributes one line per edge
/// under that edge's final tag.
pub open spec fn prim_lines(p: Primitive) -> Seq<RenderLine> {
    match p {
        Primitive::Point { .. } => seq![],
        Primitive::Line { points } => seq![
            RenderLine {
                points: [v4_xy(points[0]), v4_xy(points[1])],
                edge: EdgeType::Visible,
            },
        ],
        Primitive::Triangle { tri } => seq![
            RenderLine { points: [v4_xy(tri.p[0]), v4_xy(tri.p[1])], edge: tri.e[0] },
            RenderLine { points: [v4_xy(tri.p[1]), v4_xy(tri.p[2])], edge: tri.e[1] },
            RenderLine { points: [v4_xy(tri.p[2]), v4_xy(tri.p[0])], edge: tri.e[2] },
        ],
    }
}

/// All points contributed by a sequence of accepted primitives, in order.
pub open spec fn flatten_points(ps: Seq<Primitive>) -> Seq<Vec2>
    decreases ps.len(),
{
    if ps.len() == 0 {
        seq![]
    } else {
        flatten_points(ps.drop_last()) + prim_points(ps.last())
    }
}

/// All lines contributed by a sequence of accepted primitives, in order.
pub open spec fn flatten_lines(ps: Seq<Primitive>) -> Seq<RenderLine>
    decreases ps.len(),
{
    if ps.len() == 0 {
        seq![]
    } else {
        flatten_lines(ps.drop_last()) + prim_lines(ps.last())
    }
}

/// The primitives carried by a sequence of depth-sorted entries.
pub open spec fn zs_prims(s: Seq<ZsortPrim>) -> Seq<Primitive> {
    s.map_values(|z: ZsortPrim| z.p)
}

/// The lines of a sequence that carry the Visible tag, in order.
pub open spec fn visible_lines(s: Seq<RenderLine>) -> Seq<RenderLine>
    decreases s.len(),
{
    if s.len() == 0 {
        seq![]
    } else {
        let rest = visible_lines(s.drop_last());
        if s.last().edge == EdgeType::Visible {
            rest.push(s.last())
        } else {
            rest
        }
    }
}

/// Rendering output from the `Renderer`.
#[derive(Debug)]
pub struct RenderPaths {
    pub points: Vec<Vec2>,
    pub lines: Vec<RenderLine>,
}

impl RenderPaths {
    /// Return true iff there are no pieces to render, visible or hidden.
    pub fn is_empty(&self) -> (r: bool)
        ensures
            r == (self.points@.len() == 0 && self.lines@.len() == 0),
    {
        self.points.len() == 0 && self.lines.len() == 0
    }

    /// Return a copy of this output with only the visible lines kept; the
    /// points all stay.
    pub fn visible_only(self) -> (r: RenderPaths)
        ensures
            r.points@ == self.points@,
            r.lines@ == visible_lines(self.lines@),
    {
        let mut kept: Vec<RenderLine> = Vec::new();
        let n = self.lines.len();
        let mut i: usize = 0;
        while i < n
            invariant
                i <= n,
                n == self.lines@.len(),
                kept@ == visible_lines(self.lines@.subrange(0, i as int)),
            decreases n - i,
        {
            let line = self.lines[i];
            proof {
                assert(self.lines@.subrange(0, i + 1).drop_last() =~= self.lines@.subrange(
                    0,
                    i as int,
                ));
                assert(self.lines@.subrange(0, i + 1).last() == self.lines@[i as int]);
            }
            if matches!(line.edge, EdgeType::Visible) {
                kept.push(line);
            }
            i += 1;
        }
        proof {
            assert(self.lines@.subrange(0, n as int) =~= self.lines@);
        }
        RenderPaths { points: self.points, lines: kept }
    }

    /// Flatten the accepted primitives into bare output points and lines.
    pub fn from_prims(accepted: &Vec<ZsortPrim>) -> (r: RenderPaths)
        ensures
            r.points@ == flatten_points(zs_prims(accepted@)),
            r.lines@ == flatten_lines(zs_prims(accepted@)),
    {
        let mut points: Vec<Vec2> = Vec::new();
        let mut lines: Vec<RenderLine> = Vec::new();
        let n = accepted.len();
        let mut i: usize = 0;
        while i < n
            invariant
                i <= n,
                n == accepted@.len(),
                points@ == flatten_points(zs_prims(accepted@.subrange(0, i as int))),
                lines@ == flatten_lines(zs_prims(accepted@.subrange(0, i as int))),
            decreases n - i,
        {
            proof {
                assert(zs_prims(accepted@.subrange(0, i + 1)).drop_last() =~= zs_prims(
                    accepted@.subrange(0, i as int),
                ));
                assert(zs_prims(accepted@.subrange(0, i + 1)).last() == accepted@[i as int].p);
            }
            match &accepted[i].p {
                Primitive::Point { point } => {
                    points.push(point.xy());
                },
                Primitive::Line { points: ps } => {
                    lines.push(RenderLine::new(ps[0].xy(), ps[1].xy(), EdgeType::Visible));
                },
                Primitive::Triangle { tri } => {
                    lines.push(RenderLine::new(tri.p[0].xy(), tri.p[1].xy(), tri.e[0]));
                    lines.push(RenderLine::new(tri.p[1].xy(), tri.p[2].xy(), tri.e[1]));
                    lines.push(RenderLine::new(tri.p[2].xy(), tri.p[0].xy(), tri.e[2]));
                },
            }
            i += 1;
        }
        proof {
            assert(accepted@.subrange(0, n as int) =~= accepted@);
        }
        RenderPaths { points, lines }
    }
}

} // verus!
