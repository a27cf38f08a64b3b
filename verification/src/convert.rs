//! Absolute/relative conversion: whole-document and per-segment, built on
//! the position state machine. Converting a segment never changes the
//! absolute point it designates, only how the operands are anchored.

use vstd::prelude::*;
use crate::error::PathError;
use crate::num::Num;
use crate::num::num_in_range;
use crate::seg::PathSegment;
use crate::seg::SvgItem;
use crate::seg::SvgPath;
use crate::seg::SegV;
use crate::seg::seg_abs;
use crate::seg::seg_wf;
use crate::track::PosState;
use crate::track::init_state;
use crate::track::seg_target;
use crate::track::state_after;
use crate::track::step_state;
use crate::track::target_in_range;

verus! {

/// The segment rewritten in absolute mode, given the state before it: each
/// anchored coordinate pair gains the current point, axis lines gain their
/// axis only, and `ClosePath` only gains the flag.
pub open spec fn abs_seg(s: SegV, st: PosState) -> SegV {
    if seg_abs(s) {
        s
    } else {
        match s {
            PathSegment::MoveTo { abs, x, y } => PathSegment::MoveTo {
                abs: true,
                x: x + st.x,
                y: y + st.y,
            },
            PathSegment::LineTo { abs, x, y } => PathSegment::LineTo {
                abs: true,
                x: x + st.x,
                y: y + st.y,
            },
            PathSegment::HorizontalLineTo { abs, x } => PathSegment::HorizontalLineTo {
                abs: true,
                x: x + st.x,
            },
            PathSegment::VerticalLineTo { abs, y } => PathSegment::VerticalLineTo {
                abs: true,
                y: y + st.y,
            },
            PathSegment::CurveTo { abs, x1, y1, x2, y2, x, y } => PathSegment::CurveTo {
                abs: true,
                x1: x1 + st.x,
                y1: y1 + st.y,
                x2: x2 + st.x,
                y2: y2 + st.y,
                x: x + st.x,
                y: y + st.y,
            },
            PathSegment::SmoothCurveTo { abs, x2, y2, x, y } => PathSegment::SmoothCurveTo {
                abs: true,
                x2: x2 + st.x,
                y2: y2 + st.y,
                x: x + st.x,
                y: y + st.y,
            },
            PathSegment::Quadratic { abs, x1, y1, x, y } => PathSegment::Quadratic {
                abs: true,
                x1: x1 + st.x,
                y1: y1 + st.y,
                x: x + st.x,
                y: y + st.y,
            },
            PathSegment::SmoothQuadratic { abs, x, y } => PathSegment::SmoothQuadratic {
                abs: true,
                x: x + st.x,
                y: y + st.y,
            },
            PathSegment::EllipticalArc { abs, rx, ry, x_axis_rotation, large_arc, sweep, x, y } => {
                PathSegment::EllipticalArc {
                    abs: true,
                    rx,
                    ry,
                    x_axis_rotation,
                    large_arc,
                    sweep,
                    x: x + st.x,
                    y: y + st.y,
                }
            },
            PathSegment::ClosePath { abs } => PathSegment::ClosePath { abs: true },
        }
    }
}

/// The segment rewritten in relative mode, given the state before it: the
/// mirror image of [`abs_seg`].
pub open spec fn rel_seg(s: SegV, st: PosState) -> SegV {
    if !seg_abs(s) {
        s
    } else {
        match s {
            PathSegment::MoveTo { abs, x, y } => PathSegment::MoveTo {
                abs: false,
                x: x - st.x,
                y: y - st.y,
            },
            PathSegment::LineTo { abs, x, y } => PathSegment::LineTo {
                abs: false,
                x: x - st.x,
                y: y - st.y,
            },
            PathSegment::HorizontalLineTo { abs, x } => PathSegment::HorizontalLineTo {
                abs: false,
                x: x - st.x,
            },
            PathSegment::VerticalLineTo { abs, y } => PathSegment::VerticalLineTo {
                abs: false,
                y: y - st.y,
            },
            PathSegment::CurveTo { abs, x1, y1, x2, y2, x, y } => PathSegment::CurveTo {
                abs: false,
                x1: x1 - st.x,
                y1: y1 - st.y,
                x2: x2 - st.x,
                y2: y2 - st.y,
                x: x - st.x,
                y: y - st.y,
            },
            PathSegment::SmoothCurveTo { abs, x2, y2, x, y } => PathSegment::SmoothCurveTo {
                abs: false,
                x2: x2 - st.x,
                y2: y2 - st.y,
                x: x - st.x,
                y: y - st.y,
            },
            PathSegment::Quadratic { abs, x1, y1, x, y } => PathSegment::Quadratic {
                abs: false,
                x1: x1 - st.x,
                y1: y1 - st.y,
                x: x - st.x,
                y: y - st.y,
            },
            PathSegment::SmoothQuadratic { abs, x, y } => PathSegment::SmoothQuadratic {
                abs: false,
                x: x - st.x,
                y: y - st.y,
            },
            PathSegment::EllipticalArc { abs, rx, ry, x_axis_rotation, large_arc, sweep, x, y } => {
                PathSegment::EllipticalArc {
                    abs: false,
                    rx,
                    ry,
                    x_axis_rotation,
                    large_arc,
                    sweep,
                    x: x - st.x,
                    y: y - st.y,
                }
            },
            PathSegment::ClosePath { abs } => PathSegment::ClosePath { abs: false },
        }
    }
}

/// The segment rewritten into the chosen mode.
pub open spec fn conv_seg(s: SegV, st: PosState, to_abs: bool) -> SegV {
    if to_abs {
        abs_seg(s, st)
    } else {
        rel_seg(s, st)
    }
}

/// The segment with its mode flipped in place.
pub open spec fn flip_seg(s: SegV, st: PosState) -> SegV {
    if seg_abs(s) {
        rel_seg(s, st)
    } else {
        abs_seg(s, st)
    }
}

/// The whole document rewritten into the chosen mode, threading the replay
/// state of the original segments from `st` onward.
pub open spec fn conv_from(d: Seq<SegV>, st: PosState, to_abs: bool) -> Seq<SegV>
    decreases d.len(),
{
    if d.len() == 0 {
        Seq::empty()
    } else {
        seq![conv_seg(d[0], st, to_abs)] + conv_from(d.skip(1), step_state(st, d[0]), to_abs)
    }
}

/// Whole-document conversion stays representable: every rewritten operand
/// and every replayed point fits the fixed-point range.
pub open spec fn conv_in_range(d: Seq<SegV>, st: PosState, to_abs: bool) -> bool
    decreases d.len(),
{
    d.len() > 0 ==> seg_wf(conv_seg(d[0], st, to_abs)) && target_in_range(d[0], st)
        && conv_in_range(d.skip(1), step_state(st, d[0]), to_abs)
}

/// The document rewritten in absolute mode.
pub open spec fn spec_to_abs(d: Seq<SegV>) -> Seq<SegV> {
    conv_from(d, init_state(), true)
}

/// The document rewritten in relative mode.
pub open spec fn spec_to_rel(d: Seq<SegV>) -> Seq<SegV> {
    conv_from(d, init_state(), false)
}

/// Rewriting the document in absolute mode stays representable.
pub open spec fn to_abs_in_range(d: Seq<SegV>) -> bool {
    conv_in_range(d, init_state(), true)
}

/// Rewriting the document in relative mode stays representable.
pub open spec fn to_rel_in_range(d: Seq<SegV>) -> bool {
    conv_in_range(d, init_state(), false)
}

/// One segment's mode toggled in place; the segments around it are
/// untouched, which is sound because the point the segment designates does
/// not change.
pub open spec fn spec_toggle(d: Seq<SegV>, i: int) -> Seq<SegV> {
    d.update(i, flip_seg(d[i], state_after(d, i)))
}

/// Replaying up to `i` and rewriting segment `i` stays representable.
pub open spec fn toggle_in_range(d: Seq<SegV>, i: int) -> bool {
    crate::track::track_in_range(d, init_state(), i) && seg_wf(
        flip_seg(d[i], state_after(d, i)),
    )
}

/// Anchors (`to_abs`) or unanchors a coordinate against the current point.
fn conv_num(v: Num, p: Num, to_abs: bool) -> (r: Option<Num>)
    ensures
        r is Some <==> num_in_range(
            if to_abs {
                v@ + p@
            } else {
                v@ - p@
            },
        ),
        r is Some ==> r.unwrap()@ == if to_abs {
            v@ + p@
        } else {
            v@ - p@
        },
{
    if to_abs {
        v.checked_add(p)
    } else {
        v.checked_sub(p)
    }
}

/// Rewrites one segment into the chosen mode given the current point.
fn conv_seg_exec(
    seg: &PathSegment<Num>,
    px: Num,
    py: Num,
    to_abs: bool,
    Ghost(st): Ghost<PosState>,
) -> (r: Option<PathSegment<Num>>)
    requires
        px@ == st.x,
        py@ == st.y,
    ensures
        r is Some <==> seg_wf(conv_seg(seg@, st, to_abs)),
        r is Some ==> r.unwrap()@ == conv_seg(seg@, st, to_abs),
{
    match *seg {
        PathSegment::MoveTo { abs, x, y } => {
            if abs == to_abs {
                proof {
                    use_type_invariant(x);
                    use_type_invariant(y);
                }
                Some(PathSegment::MoveTo { abs, x, y })
            } else {
                match (conv_num(x, px, to_abs), conv_num(y, py, to_abs)) {
                    (Some(nx), Some(ny)) => Some(
                        PathSegment::MoveTo { abs: to_abs, x: nx, y: ny },
                    ),
                    _ => None,
                }
            }
        },
        PathSegment::LineTo { abs, x, y } => {
            if abs == to_abs {
                proof {
                    use_type_invariant(x);
                    use_type_invariant(y);
                }
                Some(PathSegment::LineTo { abs, x, y })
            } else {
                match (conv_num(x, px, to_abs), conv_num(y, py, to_abs)) {
                    (Some(nx), Some(ny)) => Some(
                        PathSegment::LineTo { abs: to_abs, x: nx, y: ny },
                    ),
                    _ => None,
                }
            }
        },
        PathSegment::HorizontalLineTo { abs, x } => {
            if abs == to_abs {
                proof {
                    use_type_invariant(x);
                }
                Some(PathSegment::HorizontalLineTo { abs, x })
            } else {
                match conv_num(x, px, to_abs) {
                    Some(nx) => Some(PathSegment::HorizontalLineTo { abs: to_abs, x: nx }),
                    None => None,
                }
            }
        },
        PathSegment::VerticalLineTo { abs, y } => {
            if abs == to_abs {
                proof {
                    use_type_invariant(y);
                }
                Some(PathSegment::VerticalLineTo { abs, y })
            } else {
                match conv_num(y, py, to_abs) {
                    Some(ny) => Some(PathSegment::VerticalLineTo { abs: to_abs, y: ny }),
                    None => None,
                }
            }
        },
        PathSegment::CurveTo { abs, x1, y1, x2, y2, x, y } => {
            if abs == to_abs {
                proof {
                    use_type_invariant(x1);
                    use_type_invariant(y1);
                    use_type_invariant(x2);
                    use_type_invariant(y2);
                    use_type_invariant(x);
                    use_type_invariant(y);
                }
                Some(PathSegment::CurveTo { abs, x1, y1, x2, y2, x, y })
            } else {
                match (
                    conv_num(x1, px, to_abs),
                    conv_num(y1, py, to_abs),
                    conv_num(x2, px, to_abs),
                    conv_num(y2, py, to_abs),
                    conv_num(x, px, to_abs),
                    conv_num(y, py, to_abs),
                ) {
                    (Some(nx1), Some(ny1), Some(nx2), Some(ny2), Some(nx), Some(ny)) => Some(
                        PathSegment::CurveTo {
                            abs: to_abs,
                            x1: nx1,
                            y1: ny1,
                            x2: nx2,
                            y2: ny2,
                            x: nx,
                            y: ny,
                        },
                    ),
                    _ => None,
                }
            }
        },
        PathSegment::SmoothCurveTo { abs, x2, y2, x, y } => {
            if abs == to_abs {
                proof {
                    use_type_invariant(x2);
                    use_type_invariant(y2);
                    use_type_invariant(x);
                    use_type_invariant(y);
                }
                Some(PathSegment::SmoothCurveTo { abs, x2, y2, x, y })
            } else {
                match (
                    conv_num(x2, px, to_abs),
                    conv_num(y2, py, to_abs),
                    conv_num(x, px, to_abs),
                    conv_num(y, py, to_abs),
                ) {
                    (Some(nx2), Some(ny2), Some(nx), Some(ny)) => Some(
                        PathSegment::SmoothCurveTo {
                            abs: to_abs,
                            x2: nx2,
                            y2: ny2,
                            x: nx,
                            y: ny,
                        },
                    ),
                    _ => None,
                }
            }
        },
        PathSegment::Quadratic { abs, x1, y1, x, y } => {
            if abs == to_abs {
                proof {
                    use_type_invariant(x1);
                    use_type_invariant(y1);
                    use_type_invariant(x);
                    use_type_invariant(y);
                }
                Some(PathSegment::Quadratic { abs, x1, y1, x, y })
            } else {
                match (
                    conv_num(x1, px, to_abs),
                    conv_num(y1, py, to_abs),
                    conv_num(x, px, to_abs),
                    conv_num(y, py, to_abs),
                ) {
                    (Some(nx1), Some(ny1), Some(nx), Some(ny)) => Some(
                        PathSegment::Quadratic { abs: to_abs, x1: nx1, y1: ny1, x: nx, y: ny },
                    ),
                    _ => None,
                }
            }
        },
        PathSegment::SmoothQuadratic { abs, x, y } => {
            if abs == to_abs {
                proof {
                    use_type_invariant(x);
                    use_type_invariant(y);
                }
                Some(PathSegment::SmoothQuadratic { abs, x, y })
            } else {
                match (conv_num(x, px, to_abs), conv_num(y, py, to_abs)) {
                    (Some(nx), Some(ny)) => Some(
                        PathSegment::SmoothQuadratic { abs: to_abs, x: nx, y: ny },
                    ),
                    _ => None,
                }
            }
        },
        PathSegment::EllipticalArc { abs, rx, ry, x_axis_rotation, large_arc, sweep, x, y } => {
            proof {
                use_type_invariant(rx);
                use_type_invariant(ry);
                use_type_invariant(x_axis_rotation);
            }
            if abs == to_abs {
                proof {
                    use_type_invariant(x);
                    use_type_invariant(y);
                }
                Some(
                    PathSegment::EllipticalArc {
                        abs,
                        rx,
                        ry,
                        x_axis_rotation,
                        large_arc,
                        sweep,
                        x,
                        y,
                    },
                )
            } else {
                match (conv_num(x, px, to_abs), conv_num(y, py, to_abs)) {
                    (Some(nx), Some(ny)) => Some(
                        PathSegment::EllipticalArc {
                            abs: to_abs,
                            rx,
                            ry,
                            x_axis_rotation,
                            large_arc,
                            sweep,
                            x: nx,
                            y: ny,
                        },
                    ),
                    _ => None,
                }
            }
        },
        PathSegment::ClosePath { .. } => Some(PathSegment::ClosePath { abs: to_abs }),
    }
}

/// Computes the absolute point a segment designates, given the replay state.
fn target_exec(
    seg: &PathSegment<Num>,
    px: Num,
    py: Num,
    sx: Num,
    sy: Num,
    Ghost(st): Ghost<PosState>,
) -> (r: Option<(Num, Num)>)
    requires
        px@ == st.x,
        py@ == st.y,
        sx@ == st.sx,
        sy@ == st.sy,
    ensures
        r is Some <==> target_in_range(seg@, st),
        r is Some ==> r.unwrap().0@ == seg_target(seg@, st).0 && r.unwrap().1@ == seg_target(
            seg@,
            st,
        ).1,
{
    match *seg {
        PathSegment::MoveTo { abs, x, y }
        | PathSegment::LineTo { abs, x, y }
        | PathSegment::SmoothQuadratic { abs, x, y }
        | PathSegment::CurveTo { abs, x, y, .. }
        | PathSegment::SmoothCurveTo { abs, x, y, .. }
        | PathSegment::Quadratic { abs, x, y, .. }
        | PathSegment::EllipticalArc { abs, x, y, .. } => {
            if abs {
                proof {
                    use_type_invariant(x);
                    use_type_invariant(y);
                }
                Some((x, y))
            } else {
                match (px.checked_add(x), py.checked_add(y)) {
                    (Some(tx), Some(ty)) => Some((tx, ty)),
                    _ => None,
                }
            }
        },
        PathSegment::HorizontalLineTo { abs, x } => {
            proof {
                use_type_invariant(py);
            }
            if abs {
                proof {
                    use_type_invariant(x);
                }
                Some((x, py))
            } else {
                match px.checked_add(x) {
                    Some(tx) => Some((tx, py)),
                    None => None,
                }
            }
        },
        PathSegment::VerticalLineTo { abs, y } => {
            proof {
                use_type_invariant(px);
            }
            if abs {
                proof {
                    use_type_invariant(y);
                }
                Some((px, y))
            } else {
                match py.checked_add(y) {
                    Some(ty) => Some((px, ty)),
                    None => None,
                }
            }
        },
        PathSegment::ClosePath { .. } => {
            proof {
                use_type_invariant(sx);
                use_type_invariant(sy);
            }
            Some((sx, sy))
        },
    }
}

impl SvgPath {
    /// Rewrites every segment into the chosen mode in one pass; on failure
    /// the document is untouched.
    fn convert_in_place(&mut self, to_abs: bool) -> (r: Result<(), PathError>)
        ensures
            r is Ok <==> conv_in_range(old(self)@, init_state(), to_abs),
            r is Ok ==> final(self)@ == conv_from(old(self)@, init_state(), to_abs),
            r is Err ==> final(self)@ == old(self)@ && r == Err::<(), PathError>(
                PathError::OutOfRange,
            ),
    {
        let ghost d = self@;
        let n = self.items.len();
        let mut out: Vec<SvgItem> = Vec::new();
        let mut px = Num::zero();
        let mut py = Num::zero();
        let mut sxv = Num::zero();
        let mut syv = Num::zero();
        let mut closed: bool = false;
        let mut first: bool = true;
        let mut i: usize = 0;
        proof {
            assert(d.skip(0) =~= d);
            assert(out@.map_values(|it: SvgItem| it@) + conv_from(d, init_state(), to_abs)
                =~= conv_from(d, init_state(), to_abs));
        }
        while i < n
            invariant
                *self == *old(self),
                self@ == d,
                n == self.items.len(),
                i <= n,
                ({
                    let st = state_after(d, i as int);
                    px@ == st.x && py@ == st.y && sxv@ == st.sx && syv@ == st.sy && closed
                        == st.closed && first == st.first
                }),
                out@.map_values(|it: SvgItem| it@) + conv_from(
                    d.skip(i as int),
                    state_after(d, i as int),
                    to_abs,
                ) == conv_from(d, init_state(), to_abs),
                conv_in_range(d, init_state(), to_abs) == conv_in_range(
                    d.skip(i as int),
                    state_after(d, i as int),
                    to_abs,
                ),
            decreases n - i,
        {
            let ghost st = state_after(d, i as int);
            let ghost tail = d.skip(i as int);
            proof {
                assert(self.items@[i as int]@ == d[i as int]);
                assert(tail[0] == d[i as int]);
                assert(tail.skip(1) =~= d.skip(i as int + 1));
            }
            let seg = self.items[i].inner;
            let conv = conv_seg_exec(&seg, px, py, to_abs, Ghost(st));
            let tgt = target_exec(&seg, px, py, sxv, syv, Ghost(st));
            match (conv, tgt) {
                (Some(c), Some(t)) => {
                    out.push(SvgItem { inner: c });
                    match seg {
                        PathSegment::MoveTo { .. } => {
                            if closed || first {
                                sxv = t.0;
                                syv = t.1;
                            }
                            closed = false;
                        },
                        PathSegment::ClosePath { .. } => {
                            closed = true;
                        },
                        _ => {},
                    }
                    px = t.0;
                    py = t.1;
                    first = false;
                    proof {
                        assert(state_after(d, i as int + 1) == step_state(st, d[i as int]));
                        assert(out@.map_values(|it: SvgItem| it@) =~= out@.map_values(
                            |it: SvgItem| it@,
                        ).subrange(0, out@.len() - 1).push(c@));
                        assert(conv_from(tail, st, to_abs) == seq![
                            conv_seg(d[i as int], st, to_abs),
                        ] + conv_from(d.skip(i as int + 1), state_after(d, i as int + 1), to_abs));
                        assert(out@.map_values(|it: SvgItem| it@) + conv_from(
                            d.skip(i as int + 1),
                            state_after(d, i as int + 1),
                            to_abs,
                        ) =~= conv_from(d, init_state(), to_abs));
                    }
                    i = i + 1;
                },
                _ => {
                    proof {
                        assert(!conv_in_range(tail, st, to_abs));
                    }
                    return Err(PathError::OutOfRange);
                },
            }
        }
        proof {
            assert(d.skip(n as int) =~= Seq::<SegV>::empty());
            assert(out@.map_values(|it: SvgItem| it@) + conv_from(
                d.skip(n as int),
                state_after(d, n as int),
                to_abs,
            ) =~= out@.map_values(|it: SvgItem| it@));
        }
        self.items = out;
        Ok(())
    }

    /// Toggles the coordinate mode of segment `i` in place, by replaying the
    /// segments before it and rewriting that one segment; the rest of the
    /// document is untouched. An out-of-range index is reported, never a
    /// panic; on any error the document is untouched.
    pub fn toggle_coord_type_at(&mut self, i: usize) -> (r: Result<(), PathError>)
        ensures
            i >= old(self)@.len() ==> final(self)@ == old(self)@ && r == Err::<(), PathError>(
                PathError::IndexOutOfRange { index: i, len: old(self).items@.len() as usize },
            ),
            i < old(self)@.len() ==> (r is Ok <==> toggle_in_range(old(self)@, i as int)),
            r is Ok ==> final(self)@ == spec_toggle(old(self)@, i as int),
            i < old(self)@.len() && !toggle_in_range(old(self)@, i as int) ==> final(self)@ == old(
                self,
            )@ && r == Err::<(), PathError>(PathError::OutOfRange),
    {
        let n = self.items.len();
        if i >= n {
            return Err(PathError::IndexOutOfRange { index: i, len: n });
        }
        let ghost d = self@;
        let mut px = Num::zero();
        let mut py = Num::zero();
        let mut sxv = Num::zero();
        let mut syv = Num::zero();
        let mut closed: bool = false;
        let mut first: bool = true;
        let mut j: usize = 0;
        proof {
            assert(d.skip(0) =~= d);
        }
        while j < i
            invariant
                *self == *old(self),
                self@ == d,
                n == self.items.len(),
                j <= i,
                i < n,
                ({
                    let st = state_after(d, j as int);
                    px@ == st.x && py@ == st.y && sxv@ == st.sx && syv@ == st.sy && closed
                        == st.closed && first == st.first
                }),
                crate::track::track_in_range(d, init_state(), i as int)
                    == crate::track::track_in_range(
                    d.skip(j as int),
                    state_after(d, j as int),
                    i - j,
                ),
            decreases i - j,
        {
            let ghost st = state_after(d, j as int);
            let ghost tail = d.skip(j as int);
            proof {
                assert(self.items@[j as int]@ == d[j as int]);
                assert(tail[0] == d[j as int]);
                assert(tail.skip(1) =~= d.skip(j as int + 1));
            }
            let seg = self.items[j].inner;
            let tgt = target_exec(&seg, px, py, sxv, syv, Ghost(st));
            match tgt {
                Some(t) => {
                    match seg {
                        PathSegment::MoveTo { .. } => {
                            if closed || first {
                                sxv = t.0;
                                syv = t.1;
                            }
                            closed = false;
                        },
                        PathSegment::ClosePath { .. } => {
                            closed = true;
                        },
                        _ => {},
                    }
                    px = t.0;
                    py = t.1;
                    first = false;
                    proof {
                        assert(state_after(d, j as int + 1) == step_state(st, d[j as int]));
                    }
                    j = j + 1;
                },
                None => {
                    proof {
                        assert(!crate::track::track_in_range(tail, st, i - j));
                    }
                    return Err(PathError::OutOfRange);
                },
            }
        }
        let ghost st = state_after(d, i as int);
        proof {
            assert(self.items@[i as int]@ == d[i as int]);
        }
        let seg = self.items[i].inner;
        let to_abs = !self.items[i].is_abs();
        proof {
            assert(conv_seg(d[i as int], st, !seg_abs(d[i as int])) == flip_seg(
                d[i as int],
                st,
            ));
        }
        match conv_seg_exec(&seg, px, py, to_abs, Ghost(st)) {
            Some(c) => {
                self.items[i] = SvgItem { inner: c };
                proof {
                    assert(final(self)@ =~= spec_toggle(d, i as int));
                }
                Ok(())
            },
            None => Err(PathError::OutOfRange),
        }
    }

    /// Rewrites the whole document in absolute coordinates, in place. On
    /// `Err` a rewritten operand or a replayed point would leave the
    /// representable range and the document is untouched.
    pub fn absolute(&mut self) -> (r: Result<(), PathError>)
        ensures
            r is Ok <==> to_abs_in_range(old(self)@),
            r is Ok ==> final(self)@ == spec_to_abs(old(self)@),
            r is Err ==> final(self)@ == old(self)@ && r == Err::<(), PathError>(
                PathError::OutOfRange,
            ),
    {
        self.convert_in_place(true)
    }

    /// Rewrites the whole document in relative coordinates, in place. On
    /// `Err` a rewritten operand or a replayed point would leave the
    /// representable range and the document is untouched.
    pub fn relative(&mut self) -> (r: Result<(), PathError>)
        ensures
            r is Ok <==> to_rel_in_range(old(self)@),
            r is Ok ==> final(self)@ == spec_to_rel(old(self)@),
            r is Err ==> final(self)@ == old(self)@ && r == Err::<(), PathError>(
                PathError::OutOfRange,
            ),
    {
        self.convert_in_place(false)
    }
}

} // verus!
