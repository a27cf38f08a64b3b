//! The position state machine: a single forward pass that computes, for each
//! segment, the absolute point in effect before it executes, plus the
//! subpath-start bookkeeping that `ClosePath` needs.
//!
//! The state is never cached on a document; it is recomputed by replaying the
//! segments in order, so an edit upstream can never leave stale state behind.

use vstd::prelude::*;
use crate::num::num_in_range;
use crate::seg::PathSegment;
use crate::seg::SegV;
use crate::seg::seg_abs;

verus! {

/// The replay state before a segment executes: current point, subpath start,
/// whether the previous segment closed a subpath, and whether no segment has
/// executed yet.
pub struct PosState {
    pub x: int,
    pub y: int,
    pub sx: int,
    pub sy: int,
    pub closed: bool,
    pub first: bool,
}

/// The state before the first segment: origin, open subpath at the origin.
pub open spec fn init_state() -> PosState {
    PosState { x: 0, y: 0, sx: 0, sy: 0, closed: false, first: true }
}

/// The absolute point a segment designates, given the state before it. This
/// point does not depend on the segment's absolute/relative flag beyond how
/// the stored operands are interpreted.
pub open spec fn seg_target(s: SegV, st: PosState) -> (int, int) {
    match s {
        PathSegment::MoveTo { abs, x, y } => if abs {
            (x, y)
        } else {
            (st.x + x, st.y + y)
        },
        PathSegment::LineTo { abs, x, y } => if abs {
            (x, y)
        } else {
            (st.x + x, st.y + y)
        },
        PathSegment::HorizontalLineTo { abs, x } => if abs {
            (x, st.y)
        } else {
            (st.x + x, st.y)
        },
        PathSegment::VerticalLineTo { abs, y } => if abs {
            (st.x, y)
        } else {
            (st.x, st.y + y)
        },
        PathSegment::CurveTo { abs, x, y, .. } => if abs {
            (x, y)
        } else {
            (st.x + x, st.y + y)
        },
        PathSegment::SmoothCurveTo { abs, x, y, .. } => if abs {
            (x, y)
        } else {
            (st.x + x, st.y + y)
        },
        PathSegment::Quadratic { abs, x, y, .. } => if abs {
            (x, y)
        } else {
            (st.x + x, st.y + y)
        },
        PathSegment::SmoothQuadratic { abs, x, y } => if abs {
            (x, y)
        } else {
            (st.x + x, st.y + y)
        },
        PathSegment::EllipticalArc { abs, x, y, .. } => if abs {
            (x, y)
        } else {
            (st.x + x, st.y + y)
        },
        PathSegment::ClosePath { .. } => (st.sx, st.sy),
    }
}

/// The state after one segment executes. A `MoveTo` establishes a new
/// subpath start when it is the first segment or follows a `ClosePath`;
/// `ClosePath` returns the point to the subpath start; every other command
/// leaves the subpath start alone.
pub open spec fn step_state(st: PosState, s: SegV) -> PosState {
    let t = seg_target(s, st);
    match s {
        PathSegment::MoveTo { .. } => PosState {
            x: t.0,
            y: t.1,
            sx: if st.closed || st.first {
                t.0
            } else {
                st.sx
            },
            sy: if st.closed || st.first {
                t.1
            } else {
                st.sy
            },
            closed: false,
            first: false,
        },
        PathSegment::ClosePath { .. } => PosState {
            x: t.0,
            y: t.1,
            sx: st.sx,
            sy: st.sy,
            closed: true,
            first: false,
        },
        _ => PosState { x: t.0, y: t.1, sx: st.sx, sy: st.sy, closed: st.closed, first: false },
    }
}

/// The state after the first `n` segments of `d` execute.
pub open spec fn state_after(d: Seq<SegV>, n: int) -> PosState
    decreases n,
{
    if n <= 0 {
        init_state()
    } else {
        step_state(state_after(d, n - 1), d[n - 1])
    }
}

/// The resolved absolute endpoints of the segments, replaying from `st`.
pub open spec fn targets_from(d: Seq<SegV>, st: PosState) -> Seq<(int, int)>
    decreases d.len(),
{
    if d.len() == 0 {
        Seq::empty()
    } else {
        seq![seg_target(d[0], st)] + targets_from(d.skip(1), step_state(st, d[0]))
    }
}

/// The sequence of resolved absolute endpoints, one per segment.
pub open spec fn endpoints(d: Seq<SegV>) -> Seq<(int, int)> {
    targets_from(d, init_state())
}

/// Both coordinates of the point a segment designates stay representable.
pub open spec fn target_in_range(s: SegV, st: PosState) -> bool {
    num_in_range(seg_target(s, st).0) && num_in_range(seg_target(s, st).1)
}

/// The replay of the first `n` segments stays representable throughout.
pub open spec fn track_in_range(d: Seq<SegV>, st: PosState, n: int) -> bool
    decreases n,
{
    n > 0 ==> target_in_range(d[0], st) && track_in_range(d.skip(1), step_state(st, d[0]), n - 1)
}

/// Every segment of the document carries the absolute flag.
pub open spec fn all_abs(d: Seq<SegV>) -> bool {
    forall|i: int| 0 <= i < d.len() ==> seg_abs(#[trigger] d[i])
}

/// Every segment of the document carries the relative flag.
pub open spec fn all_rel(d: Seq<SegV>) -> bool {
    forall|i: int| 0 <= i < d.len() ==> !seg_abs(#[trigger] d[i])
}

} // verus!
