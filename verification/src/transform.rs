//! Geometric transforms applied directly to the stored operands: translate,
//! scale, rotate and decimal rounding.

use vstd::prelude::*;
use crate::error::PathError;
use crate::num::Num;
use crate::num::mul_value;
use crate::num::num_in_range;
use crate::num::round_value;
use crate::seg::PathSegment;
use crate::seg::SegV;
use crate::seg::SvgItem;
use crate::seg::SvgPath;
use crate::seg::seg_wf;
use crate::track::all_abs;

verus! {

/// One segment shifted by `(dx, dy)`. Only absolute segments move: a
/// relative segment's operands are deltas, which a translation leaves alone.
/// Axis lines move along their axis only; an arc's radii and rotation angle
/// do not move; `ClosePath` holds no coordinates.
pub open spec fn seg_translate(s: SegV, dx: int, dy: int) -> SegV {
    if !crate::seg::seg_abs(s) {
        s
    } else {
        match s {
            PathSegment::MoveTo { abs, x, y } => PathSegment::MoveTo { abs, x: x + dx, y: y + dy },
            PathSegment::LineTo { abs, x, y } => PathSegment::LineTo { abs, x: x + dx, y: y + dy },
            PathSegment::HorizontalLineTo { abs, x } => PathSegment::HorizontalLineTo {
                abs,
                x: x + dx,
            },
            PathSegment::VerticalLineTo { abs, y } => PathSegment::VerticalLineTo {
                abs,
                y: y + dy,
            },
            PathSegment::CurveTo { abs, x1, y1, x2, y2, x, y } => PathSegment::CurveTo {
                abs,
                x1: x1 + dx,
                y1: y1 + dy,
                x2: x2 + dx,
                y2: y2 + dy,
                x: x + dx,
                y: y + dy,
            },
            PathSegment::SmoothCurveTo { abs, x2, y2, x, y } => PathSegment::SmoothCurveTo {
                abs,
                x2: x2 + dx,
                y2: y2 + dy,
                x: x + dx,
                y: y + dy,
            },
            PathSegment::Quadratic { abs, x1, y1, x, y } => PathSegment::Quadratic {
                abs,
                x1: x1 + dx,
                y1: y1 + dy,
                x: x + dx,
                y: y + dy,
            },
            PathSegment::SmoothQuadratic { abs, x, y } => PathSegment::SmoothQuadratic {
                abs,
                x: x + dx,
                y: y + dy,
            },
            PathSegment::EllipticalArc { abs, rx, ry, x_axis_rotation, large_arc, sweep, x, y } => {
                PathSegment::EllipticalArc {
                    abs,
                    rx,
                    ry,
                    x_axis_rotation,
                    large_arc,
                    sweep,
                    x: x + dx,
                    y: y + dy,
                }
            },
            PathSegment::ClosePath { abs } => PathSegment::ClosePath { abs },
        }
    }
}

/// The whole document shifted by `(dx, dy)`.
pub open spec fn spec_translate(d: Seq<SegV>, dx: int, dy: int) -> Seq<SegV> {
    d.map_values(|s: SegV| seg_translate(s, dx, dy))
}

/// Every shifted operand stays representable.
pub open spec fn translate_in_range(d: Seq<SegV>, dx: int, dy: int) -> bool {
    forall|i: int| 0 <= i < d.len() ==> seg_wf(seg_translate(#[trigger] d[i], dx, dy))
}

/// One segment with every numeric operand rounded to `places` decimals.
pub open spec fn seg_round(s: SegV, places: nat) -> SegV {
    match s {
        PathSegment::MoveTo { abs, x, y } => PathSegment::MoveTo {
            abs,
            x: round_value(x, places),
            y: round_value(y, places),
        },
        PathSegment::LineTo { abs, x, y } => PathSegment::LineTo {
            abs,
            x: round_value(x, places),
            y: round_value(y, places),
        },
        PathSegment::HorizontalLineTo { abs, x } => PathSegment::HorizontalLineTo {
            abs,
            x: round_value(x, places),
        },
        PathSegment::VerticalLineTo { abs, y } => PathSegment::VerticalLineTo {
            abs,
            y: round_value(y, places),
        },
        PathSegment::CurveTo { abs, x1, y1, x2, y2, x, y } => PathSegment::CurveTo {
            abs,
            x1: round_value(x1, places),
            y1: round_value(y1, places),
            x2: round_value(x2, places),
            y2: round_value(y2, places),
            x: round_value(x, places),
            y: round_value(y, places),
        },
        PathSegment::SmoothCurveTo { abs, x2, y2, x, y } => PathSegment::SmoothCurveTo {
            abs,
            x2: round_value(x2, places),
            y2: round_value(y2, places),
            x: round_value(x, places),
            y: round_value(y, places),
        },
        PathSegment::Quadratic { abs, x1, y1, x, y } => PathSegment::Quadratic {
            abs,
            x1: round_value(x1, places),
            y1: round_value(y1, places),
            x: round_value(x, places),
            y: round_value(y, places),
        },
        PathSegment::SmoothQuadratic { abs, x, y } => PathSegment::SmoothQuadratic {
            abs,
            x: round_value(x, places),
            y: round_value(y, places),
        },
        PathSegment::EllipticalArc { abs, rx, ry, x_axis_rotation, large_arc, sweep, x, y } => {
            PathSegment::EllipticalArc {
                abs,
                rx: round_value(rx, places),
                ry: round_value(ry, places),
                x_axis_rotation: round_value(x_axis_rotation, places),
                large_arc,
                sweep,
                x: round_value(x, places),
                y: round_value(y, places),
            }
        },
        PathSegment::ClosePath { abs } => PathSegment::ClosePath { abs },
    }
}

/// The whole document rounded to `places` decimals; flags are untouched.
pub open spec fn spec_round(d: Seq<SegV>, places: nat) -> Seq<SegV> {
    d.map_values(|s: SegV| seg_round(s, places))
}

/// One segment scaled by `(sx, sy)` about the origin: every coordinate is
/// multiplied by the matching axis factor; an arc's radii scale by the
/// factors' absolute values and its rotation angle is untouched.
pub open spec fn seg_scale(s: SegV, sx: int, sy: int) -> SegV {
    match s {
        PathSegment::MoveTo { abs, x, y } => PathSegment::MoveTo {
            abs,
            x: mul_value(x, sx),
            y: mul_value(y, sy),
        },
        PathSegment::LineTo { abs, x, y } => PathSegment::LineTo {
            abs,
            x: mul_value(x, sx),
            y: mul_value(y, sy),
        },
        PathSegment::HorizontalLineTo { abs, x } => PathSegment::HorizontalLineTo {
            abs,
            x: mul_value(x, sx),
        },
        PathSegment::VerticalLineTo { abs, y } => PathSegment::VerticalLineTo {
            abs,
            y: mul_value(y, sy),
        },
        PathSegment::CurveTo { abs, x1, y1, x2, y2, x, y } => PathSegment::CurveTo {
            abs,
            x1: mul_value(x1, sx),
            y1: mul_value(y1, sy),
            x2: mul_value(x2, sx),
            y2: mul_value(y2, sy),
            x: mul_value(x, sx),
            y: mul_value(y, sy),
        },
        PathSegment::SmoothCurveTo { abs, x2, y2, x, y } => PathSegment::SmoothCurveTo {
            abs,
            x2: mul_value(x2, sx),
            y2: mul_value(y2, sy),
            x: mul_value(x, sx),
            y: mul_value(y, sy),
        },
        PathSegment::Quadratic { abs, x1, y1, x, y } => PathSegment::Quadratic {
            abs,
            x1: mul_value(x1, sx),
            y1: mul_value(y1, sy),
            x: mul_value(x, sx),
            y: mul_value(y, sy),
        },
        PathSegment::SmoothQuadratic { abs, x, y } => PathSegment::SmoothQuadratic {
            abs,
            x: mul_value(x, sx),
            y: mul_value(y, sy),
        },
        PathSegment::EllipticalArc { abs, rx, ry, x_axis_rotation, large_arc, sweep, x, y } => {
            PathSegment::EllipticalArc {
                abs,
                rx: mul_value(rx, crate::num::abs_int(sx)),
                ry: mul_value(ry, crate::num::abs_int(sy)),
                x_axis_rotation,
                large_arc,
                sweep,
                x: mul_value(x, sx),
                y: mul_value(y, sy),
            }
        },
        PathSegment::ClosePath { abs } => PathSegment::ClosePath { abs },
    }
}

/// The whole document scaled by `(sx, sy)` about the origin.
pub open spec fn spec_scale(d: Seq<SegV>, sx: int, sy: int) -> Seq<SegV> {
    d.map_values(|s: SegV| seg_scale(s, sx, sy))
}

/// Every scaled operand stays representable.
pub open spec fn scale_in_range(d: Seq<SegV>, sx: int, sy: int) -> bool {
    forall|i: int| 0 <= i < d.len() ==> seg_wf(seg_scale(#[trigger] d[i], sx, sy))
}

/// The x coordinate of `(x, y)` rotated about `(cx, cy)` by the angle whose
/// sine and cosine are given, fixed-point products rounded at each step.
pub open spec fn rot_px(x: int, y: int, cx: int, cy: int, sin_a: int, cos_a: int) -> int {
    mul_value(x - cx, cos_a) - mul_value(y - cy, sin_a) + cx
}

/// The y coordinate of the rotated point.
pub open spec fn rot_py(x: int, y: int, cx: int, cy: int, sin_a: int, cos_a: int) -> int {
    mul_value(x - cx, sin_a) + mul_value(y - cy, cos_a) + cy
}

/// Every intermediate of the rotation of one point stays representable.
pub open spec fn rot_pt_ok(x: int, y: int, cx: int, cy: int, sin_a: int, cos_a: int) -> bool {
    num_in_range(x - cx) && num_in_range(y - cy) && num_in_range(mul_value(x - cx, cos_a))
        && num_in_range(mul_value(y - cy, sin_a)) && num_in_range(
        mul_value(x - cx, cos_a) - mul_value(y - cy, sin_a),
    ) && num_in_range(rot_px(x, y, cx, cy, sin_a, cos_a)) && num_in_range(
        mul_value(x - cx, sin_a),
    ) && num_in_range(mul_value(y - cy, cos_a)) && num_in_range(
        mul_value(x - cx, sin_a) + mul_value(y - cy, cos_a),
    ) && num_in_range(rot_py(x, y, cx, cy, sin_a, cos_a))
}

/// One segment rotated about `(cx, cy)`: endpoints and control points turn
/// by the rotation matrix, an arc's x-axis-rotation grows by the angle, and
/// axis lines are left as they are, since a rotated line is in general no
/// longer axis-aligned.
pub open spec fn seg_rotate(
    s: SegV,
    angle_deg: int,
    cx: int,
    cy: int,
    sin_a: int,
    cos_a: int,
) -> SegV {
    match s {
        PathSegment::MoveTo { abs, x, y } => PathSegment::MoveTo {
            abs,
            x: rot_px(x, y, cx, cy, sin_a, cos_a),
            y: rot_py(x, y, cx, cy, sin_a, cos_a),
        },
        PathSegment::LineTo { abs, x, y } => PathSegment::LineTo {
            abs,
            x: rot_px(x, y, cx, cy, sin_a, cos_a),
            y: rot_py(x, y, cx, cy, sin_a, cos_a),
        },
        PathSegment::HorizontalLineTo { abs, x } => PathSegment::HorizontalLineTo { abs, x },
        PathSegment::VerticalLineTo { abs, y } => PathSegment::VerticalLineTo { abs, y },
        PathSegment::CurveTo { abs, x1, y1, x2, y2, x, y } => PathSegment::CurveTo {
            abs,
            x1: rot_px(x1, y1, cx, cy, sin_a, cos_a),
            y1: rot_py(x1, y1, cx, cy, sin_a, cos_a),
            x2: rot_px(x2, y2, cx, cy, sin_a, cos_a),
            y2: rot_py(x2, y2, cx, cy, sin_a, cos_a),
            x: rot_px(x, y, cx, cy, sin_a, cos_a),
            y: rot_py(x, y, cx, cy, sin_a, cos_a),
        },
        PathSegment::SmoothCurveTo { abs, x2, y2, x, y } => PathSegment::SmoothCurveTo {
            abs,
            x2: rot_px(x2, y2, cx, cy, sin_a, cos_a),
            y2: rot_py(x2, y2, cx, cy, sin_a, cos_a),
            x: rot_px(x, y, cx, cy, sin_a, cos_a),
            y: rot_py(x, y, cx, cy, sin_a, cos_a),
        },
        PathSegment::Quadratic { abs, x1, y1, x, y } => PathSegment::Quadratic {
            abs,
            x1: rot_px(x1, y1, cx, cy, sin_a, cos_a),
            y1: rot_py(x1, y1, cx, cy, sin_a, cos_a),
            x: rot_px(x, y, cx, cy, sin_a, cos_a),
            y: rot_py(x, y, cx, cy, sin_a, cos_a),
        },
        PathSegment::SmoothQuadratic { abs, x, y } => PathSegment::SmoothQuadratic {
            abs,
            x: rot_px(x, y, cx, cy, sin_a, cos_a),
            y: rot_py(x, y, cx, cy, sin_a, cos_a),
        },
        PathSegment::EllipticalArc { abs, rx, ry, x_axis_rotation, large_arc, sweep, x, y } => {
            PathSegment::EllipticalArc {
                abs,
                rx,
                ry,
                x_axis_rotation: x_axis_rotation + angle_deg,
                large_arc,
                sweep,
                x: rot_px(x, y, cx, cy, sin_a, cos_a),
                y: rot_py(x, y, cx, cy, sin_a, cos_a),
            }
        },
        PathSegment::ClosePath { abs } => PathSegment::ClosePath { abs },
    }
}

/// The whole document rotated about `(cx, cy)`.
pub open spec fn spec_rotate(
    d: Seq<SegV>,
    angle_deg: int,
    cx: int,
    cy: int,
    sin_a: int,
    cos_a: int,
) -> Seq<SegV> {
    d.map_values(|s: SegV| seg_rotate(s, angle_deg, cx, cy, sin_a, cos_a))
}

/// Every intermediate of the rotation of one segment stays representable.
pub open spec fn seg_rotate_ok(
    s: SegV,
    angle_deg: int,
    cx: int,
    cy: int,
    sin_a: int,
    cos_a: int,
) -> bool {
    match s {
        PathSegment::MoveTo { x, y, .. } => rot_pt_ok(x, y, cx, cy, sin_a, cos_a),
        PathSegment::LineTo { x, y, .. } => rot_pt_ok(x, y, cx, cy, sin_a, cos_a),
        PathSegment::HorizontalLineTo { .. } => true,
        PathSegment::VerticalLineTo { .. } => true,
        PathSegment::CurveTo { x1, y1, x2, y2, x, y, .. } => rot_pt_ok(
            x1,
            y1,
            cx,
            cy,
            sin_a,
            cos_a,
        ) && rot_pt_ok(x2, y2, cx, cy, sin_a, cos_a) && rot_pt_ok(x, y, cx, cy, sin_a, cos_a),
        PathSegment::SmoothCurveTo { x2, y2, x, y, .. } => rot_pt_ok(x2, y2, cx, cy, sin_a, cos_a)
            && rot_pt_ok(x, y, cx, cy, sin_a, cos_a),
        PathSegment::Quadratic { x1, y1, x, y, .. } => rot_pt_ok(x1, y1, cx, cy, sin_a, cos_a)
            && rot_pt_ok(x, y, cx, cy, sin_a, cos_a),
        PathSegment::SmoothQuadratic { x, y, .. } => rot_pt_ok(x, y, cx, cy, sin_a, cos_a),
        PathSegment::EllipticalArc { x_axis_rotation, x, y, .. } => rot_pt_ok(
            x,
            y,
            cx,
            cy,
            sin_a,
            cos_a,
        ) && num_in_range(x_axis_rotation + angle_deg),
        PathSegment::ClosePath { .. } => true,
    }
}

/// Every intermediate of the rotation of the whole document stays
/// representable.
pub open spec fn rotate_in_range(
    d: Seq<SegV>,
    angle_deg: int,
    cx: int,
    cy: int,
    sin_a: int,
    cos_a: int,
) -> bool {
    forall|i: int|
        0 <= i < d.len() ==> seg_rotate_ok(#[trigger] d[i], angle_deg, cx, cy, sin_a, cos_a)
}

/// Scales one coordinate, checked.
fn scale_num(v: Num, f: Num) -> (r: Option<Num>)
    ensures
        r is Some <==> num_in_range(mul_value(v@, f@)),
        r is Some ==> r.unwrap()@ == mul_value(v@, f@),
{
    v.checked_mul(f)
}

/// Scales one segment, with every product checked.
fn scale_seg_exec(seg: &PathSegment<Num>, sx: Num, sy: Num) -> (r: Option<PathSegment<Num>>)
    ensures
        r is Some <==> seg_wf(seg_scale(seg@, sx@, sy@)),
        r is Some ==> r.unwrap()@ == seg_scale(seg@, sx@, sy@),
{
    match *seg {
        PathSegment::MoveTo { abs, x, y } => {
            match (scale_num(x, sx), scale_num(y, sy)) {
                (Some(nx), Some(ny)) => Some(PathSegment::MoveTo { abs, x: nx, y: ny }),
                _ => None,
            }
        },
        PathSegment::LineTo { abs, x, y } => {
            match (scale_num(x, sx), scale_num(y, sy)) {
                (Some(nx), Some(ny)) => Some(PathSegment::LineTo { abs, x: nx, y: ny }),
                _ => None,
            }
        },
        PathSegment::HorizontalLineTo { abs, x } => {
            match scale_num(x, sx) {
                Some(nx) => Some(PathSegment::HorizontalLineTo { abs, x: nx }),
                None => None,
            }
        },
        PathSegment::VerticalLineTo { abs, y } => {
            match scale_num(y, sy) {
                Some(ny) => Some(PathSegment::VerticalLineTo { abs, y: ny }),
                None => None,
            }
        },
        PathSegment::CurveTo { abs, x1, y1, x2, y2, x, y } => {
            match (
                scale_num(x1, sx),
                scale_num(y1, sy),
                scale_num(x2, sx),
                scale_num(y2, sy),
                scale_num(x, sx),
                scale_num(y, sy),
            ) {
                (Some(nx1), Some(ny1), Some(nx2), Some(ny2), Some(nx), Some(ny)) => Some(
                    PathSegment::CurveTo { abs, x1: nx1, y1: ny1, x2: nx2, y2: ny2, x: nx, y: ny },
                ),
                _ => None,
            }
        },
        PathSegment::SmoothCurveTo { abs, x2, y2, x, y } => {
            match (scale_num(x2, sx), scale_num(y2, sy), scale_num(x, sx), scale_num(y, sy)) {
                (Some(nx2), Some(ny2), Some(nx), Some(ny)) => Some(
                    PathSegment::SmoothCurveTo { abs, x2: nx2, y2: ny2, x: nx, y: ny },
                ),
                _ => None,
            }
        },
        PathSegment::Quadratic { abs, x1, y1, x, y } => {
            match (scale_num(x1, sx), scale_num(y1, sy), scale_num(x, sx), scale_num(y, sy)) {
                (Some(nx1), Some(ny1), Some(nx), Some(ny)) => Some(
                    PathSegment::Quadratic { abs, x1: nx1, y1: ny1, x: nx, y: ny },
                ),
                _ => None,
            }
        },
        PathSegment::SmoothQuadratic { abs, x, y } => {
            match (scale_num(x, sx), scale_num(y, sy)) {
                (Some(nx), Some(ny)) => Some(PathSegment::SmoothQuadratic { abs, x: nx, y: ny }),
                _ => None,
            }
        },
        PathSegment::EllipticalArc { abs, rx, ry, x_axis_rotation, large_arc, sweep, x, y } => {
            proof {
                use_type_invariant(x_axis_rotation);
            }
            match (
                scale_num(rx, sx.abs()),
                scale_num(ry, sy.abs()),
                scale_num(x, sx),
                scale_num(y, sy),
            ) {
                (Some(nrx), Some(nry), Some(nx), Some(ny)) => Some(
                    PathSegment::EllipticalArc {
                        abs,
                        rx: nrx,
                        ry: nry,
                        x_axis_rotation,
                        large_arc,
                        sweep,
                        x: nx,
                        y: ny,
                    },
                ),
                _ => None,
            }
        },
        PathSegment::ClosePath { abs } => Some(PathSegment::ClosePath { abs }),
    }
}

/// Rotates one point, with every step checked.
fn rot_point(x: Num, y: Num, cx: Num, cy: Num, sin_a: Num, cos_a: Num) -> (r: Option<(Num, Num)>)
    ensures
        r is Some <==> rot_pt_ok(x@, y@, cx@, cy@, sin_a@, cos_a@),
        r is Some ==> r.unwrap().0@ == rot_px(x@, y@, cx@, cy@, sin_a@, cos_a@) && r.unwrap().1@
            == rot_py(x@, y@, cx@, cy@, sin_a@, cos_a@),
{
    let dx = match x.checked_sub(cx) {
        Some(v) => v,
        None => {
            return None;
        },
    };
    let dy = match y.checked_sub(cy) {
        Some(v) => v,
        None => {
            return None;
        },
    };
    let a = match dx.checked_mul(cos_a) {
        Some(v) => v,
        None => {
            return None;
        },
    };
    let b = match dy.checked_mul(sin_a) {
        Some(v) => v,
        None => {
            return None;
        },
    };
    let xr0 = match a.checked_sub(b) {
        Some(v) => v,
        None => {
            return None;
        },
    };
    let xr = match xr0.checked_add(cx) {
        Some(v) => v,
        None => {
            return None;
        },
    };
    let c = match dx.checked_mul(sin_a) {
        Some(v) => v,
        None => {
            return None;
        },
    };
    let e = match dy.checked_mul(cos_a) {
        Some(v) => v,
        None => {
            return None;
        },
    };
    let yr0 = match c.checked_add(e) {
        Some(v) => v,
        None => {
            return None;
        },
    };
    let yr = match yr0.checked_add(cy) {
        Some(v) => v,
        None => {
            return None;
        },
    };
    Some((xr, yr))
}

/// Rotates one segment, with every step checked.
fn rotate_seg_exec(
    seg: &PathSegment<Num>,
    angle_deg: Num,
    cx: Num,
    cy: Num,
    sin_a: Num,
    cos_a: Num,
) -> (r: Option<PathSegment<Num>>)
    ensures
        r is Some <==> seg_rotate_ok(seg@, angle_deg@, cx@, cy@, sin_a@, cos_a@),
        r is Some ==> r.unwrap()@ == seg_rotate(seg@, angle_deg@, cx@, cy@, sin_a@, cos_a@),
{
    match *seg {
        PathSegment::MoveTo { abs, x, y } => {
            match rot_point(x, y, cx, cy, sin_a, cos_a) {
                Some(p) => Some(PathSegment::MoveTo { abs, x: p.0, y: p.1 }),
                None => None,
            }
        },
        PathSegment::LineTo { abs, x, y } => {
            match rot_point(x, y, cx, cy, sin_a, cos_a) {
                Some(p) => Some(PathSegment::LineTo { abs, x: p.0, y: p.1 }),
                None => None,
            }
        },
        PathSegment::HorizontalLineTo { abs, x } => {
            proof {
                use_type_invariant(x);
            }
            Some(PathSegment::HorizontalLineTo { abs, x })
        },
        PathSegment::VerticalLineTo { abs, y } => {
            proof {
                use_type_invariant(y);
            }
            Some(PathSegment::VerticalLineTo { abs, y })
        },
        PathSegment::CurveTo { abs, x1, y1, x2, y2, x, y } => {
            match (
                rot_point(x1, y1, cx, cy, sin_a, cos_a),
                rot_point(x2, y2, cx, cy, sin_a, cos_a),
                rot_point(x, y, cx, cy, sin_a, cos_a),
            ) {
                (Some(p1), Some(p2), Some(p)) => Some(
                    PathSegment::CurveTo {
                        abs,
                        x1: p1.0,
                        y1: p1.1,
                        x2: p2.0,
                        y2: p2.1,
                        x: p.0,
                        y: p.1,
                    },
                ),
                _ => None,
            }
        },
        PathSegment::SmoothCurveTo { abs, x2, y2, x, y } => {
            match (rot_point(x2, y2, cx, cy, sin_a, cos_a), rot_point(x, y, cx, cy, sin_a, cos_a)) {
                (Some(p2), Some(p)) => Some(
                    PathSegment::SmoothCurveTo { abs, x2: p2.0, y2: p2.1, x: p.0, y: p.1 },
                ),
                _ => None,
            }
        },
        PathSegment::Quadratic { abs, x1, y1, x, y } => {
            match (rot_point(x1, y1, cx, cy, sin_a, cos_a), rot_point(x, y, cx, cy, sin_a, cos_a)) {
                (Some(p1), Some(p)) => Some(
                    PathSegment::Quadratic { abs, x1: p1.0, y1: p1.1, x: p.0, y: p.1 },
                ),
                _ => None,
            }
        },
        PathSegment::SmoothQuadratic { abs, x, y } => {
            match rot_point(x, y, cx, cy, sin_a, cos_a) {
                Some(p) => Some(PathSegment::SmoothQuadratic { abs, x: p.0, y: p.1 }),
                None => None,
            }
        },
        PathSegment::EllipticalArc { abs, rx, ry, x_axis_rotation, large_arc, sweep, x, y } => {
            proof {
                use_type_invariant(rx);
                use_type_invariant(ry);
            }
            match (rot_point(x, y, cx, cy, sin_a, cos_a), x_axis_rotation.checked_add(angle_deg)) {
                (Some(p), Some(nrot)) => Some(
                    PathSegment::EllipticalArc {
                        abs,
                        rx,
                        ry,
                        x_axis_rotation: nrot,
                        large_arc,
                        sweep,
                        x: p.0,
                        y: p.1,
                    },
                ),
                _ => None,
            }
        },
        PathSegment::ClosePath { abs } => Some(PathSegment::ClosePath { abs }),
    }
}

/// Shifts one segment, with every sum checked.
fn translate_seg_exec(seg: &PathSegment<Num>, dx: Num, dy: Num) -> (r: Option<PathSegment<Num>>)
    ensures
        r is Some <==> seg_wf(seg_translate(seg@, dx@, dy@)),
        r is Some ==> r.unwrap()@ == seg_translate(seg@, dx@, dy@),
{
    match *seg {
        PathSegment::MoveTo { abs, x, y } => {
            if !abs {
                proof {
                    use_type_invariant(x);
                    use_type_invariant(y);
                }
                Some(PathSegment::MoveTo { abs, x, y })
            } else {
                match (x.checked_add(dx), y.checked_add(dy)) {
                    (Some(nx), Some(ny)) => Some(PathSegment::MoveTo { abs, x: nx, y: ny }),
                    _ => None,
                }
            }
        },
        PathSegment::LineTo { abs, x, y } => {
            if !abs {
                proof {
                    use_type_invariant(x);
                    use_type_invariant(y);
                }
                Some(PathSegment::LineTo { abs, x, y })
            } else {
                match (x.checked_add(dx), y.checked_add(dy)) {
                    (Some(nx), Some(ny)) => Some(PathSegment::LineTo { abs, x: nx, y: ny }),
                    _ => None,
                }
            }
        },
        PathSegment::HorizontalLineTo { abs, x } => {
            if !abs {
                proof {
                    use_type_invariant(x);
                }
                Some(PathSegment::HorizontalLineTo { abs, x })
            } else {
                match x.checked_add(dx) {
                    Some(nx) => Some(PathSegment::HorizontalLineTo { abs, x: nx }),
                    None => None,
                }
            }
        },
        PathSegment::VerticalLineTo { abs, y } => {
            if !abs {
                proof {
                    use_type_invariant(y);
                }
                Some(PathSegment::VerticalLineTo { abs, y })
            } else {
                match y.checked_add(dy) {
                    Some(ny) => Some(PathSegment::VerticalLineTo { abs, y: ny }),
                    None => None,
                }
            }
        },
        PathSegment::CurveTo { abs, x1, y1, x2, y2, x, y } => {
            if !abs {
                proof {
                    use_type_invariant(x1);
                    use_type_invariant(y1);
                    use_type_invariant(x2);
                    use_type_invariant(y2);
                    use_type_invariant(x);
                    use_type_invariant(y);
                }
                Some(PathSegment::CurveTo { abs, x1, y1, x2, y2, x, y })
            } else {
                match (
                    x1.checked_add(dx),
                    y1.checked_add(dy),
                    x2.checked_add(dx),
                    y2.checked_add(dy),
                    x.checked_add(dx),
                    y.checked_add(dy),
                ) {
                    (Some(nx1), Some(ny1), Some(nx2), Some(ny2), Some(nx), Some(ny)) => Some(
                        PathSegment::CurveTo {
                            abs,
                            x1: nx1,
                            y1: ny1,
                            x2: nx2,
                            y2: ny2,
                            x: nx,
                            y: ny,
                        },
                    ),
                    _ => None,
                }
            }
        },
        PathSegment::SmoothCurveTo { abs, x2, y2, x, y } => {
            if !abs {
                proof {
                    use_type_invariant(x2);
                    use_type_invariant(y2);
                    use_type_invariant(x);
                    use_type_invariant(y);
                }
                Some(PathSegment::SmoothCurveTo { abs, x2, y2, x, y })
            } else {
                match (x2.checked_add(dx), y2.checked_add(dy), x.checked_add(dx), y.checked_add(
                    dy,
                )) {
                    (Some(nx2), Some(ny2), Some(nx), Some(ny)) => Some(
                        PathSegment::SmoothCurveTo { abs, x2: nx2, y2: ny2, x: nx, y: ny },
                    ),
                    _ => None,
                }
            }
        },
        PathSegment::Quadratic { abs, x1, y1, x, y } => {
            if !abs {
                proof {
                    use_type_invariant(x1);
                    use_type_invariant(y1);
                    use_type_invariant(x);
                    use_type_invariant(y);
                }
                Some(PathSegment::Quadratic { abs, x1, y1, x, y })
            } else {
                match (x1.checked_add(dx), y1.checked_add(dy), x.checked_add(dx), y.checked_add(
                    dy,
                )) {
                    (Some(nx1), Some(ny1), Some(nx), Some(ny)) => Some(
                        PathSegment::Quadratic { abs, x1: nx1, y1: ny1, x: nx, y: ny },
                    ),
                    _ => None,
                }
            }
        },
        PathSegment::SmoothQuadratic { abs, x, y } => {
            if !abs {
                proof {
                    use_type_invariant(x);
                    use_type_invariant(y);
                }
                Some(PathSegment::SmoothQuadratic { abs, x, y })
            } else {
                match (x.checked_add(dx), y.checked_add(dy)) {
                    (Some(nx), Some(ny)) => Some(PathSegment::SmoothQuadratic { abs, x: nx, y: ny }),
                    _ => None,
                }
            }
        },
        PathSegment::EllipticalArc { abs, rx, ry, x_axis_rotation, large_arc, sweep, x, y } => {
            proof {
                use_type_invariant(rx);
                use_type_invariant(ry);
                use_type_invariant(x_axis_rotation);
            }
            if !abs {
                proof {
                    use_type_invariant(x);
                    use_type_invariant(y);
                }
                Some(
                    PathSegment::EllipticalArc {
                        abs,
                        rx,
                        ry,
                        x_axis_rotation,
                        large_arc,
                        sweep,
                        x,
                        y,
                    },
                )
            } else {
                match (x.checked_add(dx), y.checked_add(dy)) {
                    (Some(nx), Some(ny)) => Some(
                        PathSegment::EllipticalArc {
                            abs,
                            rx,
                            ry,
                            x_axis_rotation,
                            large_arc,
                            sweep,
                            x: nx,
                            y: ny,
                        },
                    ),
                    _ => None,
                }
            }
        },
        PathSegment::ClosePath { abs } => Some(PathSegment::ClosePath { abs }),
    }
}

/// Rounds every operand of one segment; rounding never leaves the range.
fn round_seg_exec(seg: &PathSegment<Num>, places: u64) -> (r: PathSegment<Num>)
    ensures
        r@ == seg_round(seg@, places as nat),
{
    match *seg {
        PathSegment::MoveTo { abs, x, y } => PathSegment::MoveTo {
            abs,
            x: x.round_places(places),
            y: y.round_places(places),
        },
        PathSegment::LineTo { abs, x, y } => PathSegment::LineTo {
            abs,
            x: x.round_places(places),
            y: y.round_places(places),
        },
        PathSegment::HorizontalLineTo { abs, x } => PathSegment::HorizontalLineTo {
            abs,
            x: x.round_places(places),
        },
        PathSegment::VerticalLineTo { abs, y } => PathSegment::VerticalLineTo {
            abs,
            y: y.round_places(places),
        },
        PathSegment::CurveTo { abs, x1, y1, x2, y2, x, y } => PathSegment::CurveTo {
            abs,
            x1: x1.round_places(places),
            y1: y1.round_places(places),
            x2: x2.round_places(places),
            y2: y2.round_places(places),
            x: x.round_places(places),
            y: y.round_places(places),
        },
        PathSegment::SmoothCurveTo { abs, x2, y2, x, y } => PathSegment::SmoothCurveTo {
            abs,
            x2: x2.round_places(places),
            y2: y2.round_places(places),
            x: x.round_places(places),
            y: y.round_places(places),
        },
        PathSegment::Quadratic { abs, x1, y1, x, y } => PathSegment::Quadratic {
            abs,
            x1: x1.round_places(places),
            y1: y1.round_places(places),
            x: x.round_places(places),
            y: y.round_places(places),
        },
        PathSegment::SmoothQuadratic { abs, x, y } => PathSegment::SmoothQuadratic {
            abs,
            x: x.round_places(places),
            y: y.round_places(places),
        },
        PathSegment::EllipticalArc { abs, rx, ry, x_axis_rotation, large_arc, sweep, x, y } => {
            PathSegment::EllipticalArc {
                abs,
                rx: rx.round_places(places),
                ry: ry.round_places(places),
                x_axis_rotation: x_axis_rotation.round_places(places),
                large_arc,
                sweep,
                x: x.round_places(places),
                y: y.round_places(places),
            }
        },
        PathSegment::ClosePath { abs } => PathSegment::ClosePath { abs },
    }
}

impl SvgPath {
    /// True when every segment is in absolute mode.
    pub fn is_absolute(&self) -> (r: bool)
        ensures
            r == all_abs(self@),
    {
        let n = self.items.len();
        let mut i: usize = 0;
        while i < n
            invariant
                i <= n,
                n == self.items.len(),
                forall|j: int| 0 <= j < i ==> crate::seg::seg_abs(#[trigger] self@[j]),
            decreases n - i,
        {
            proof {
                assert(self.items@[i as int]@ == self@[i as int]);
            }
            if !self.items[i].is_abs() {
                return false;
            }
            i = i + 1;
        }
        true
    }

    /// Shifts the document by `(dx, dy)`, in place: absolute segments move,
    /// relative segments are translation-invariant and stay as they are.
    /// Meaningful results need the whole document in one coordinate mode. On
    /// `Err` a shifted operand would leave the range; the document is
    /// untouched.
    pub fn translate(&mut self, dx: Num, dy: Num) -> (r: Result<(), PathError>)
        ensures
            r is Ok <==> translate_in_range(old(self)@, dx@, dy@),
            r is Ok ==> final(self)@ == spec_translate(old(self)@, dx@, dy@),
            r is Err ==> final(self)@ == old(self)@ && r == Err::<(), PathError>(
                PathError::OutOfRange,
            ),
    {
        let ghost d = self@;
        let n = self.items.len();
        let mut out: Vec<SvgItem> = Vec::new();
        let mut i: usize = 0;
        while i < n
            invariant
                *self == *old(self),
                self@ == d,
                n == self.items.len(),
                i <= n,
                out@.len() == i as int,
                forall|j: int|
                    0 <= j < i ==> (#[trigger] out@[j])@ == seg_translate(d[j], dx@, dy@),
                forall|j: int| 0 <= j < i ==> seg_wf(seg_translate(#[trigger] d[j], dx@, dy@)),
            decreases n - i,
        {
            proof {
                assert(self.items@[i as int]@ == d[i as int]);
            }
            let seg = self.items[i].inner;
            match translate_seg_exec(&seg, dx, dy) {
                Some(t) => {
                    out.push(SvgItem { inner: t });
                    i = i + 1;
                },
                None => {
                    return Err(PathError::OutOfRange);
                },
            }
        }
        proof {
            assert(out@.map_values(|it: SvgItem| it@) =~= spec_translate(d, dx@, dy@));
        }
        self.items = out;
        Ok(())
    }

    /// Scales the document by `(sx, sy)` about the origin, in place. Scaling
    /// stored operands is geometrically meaningful only in absolute mode, so
    /// the document must be all-absolute; convert first. On `Err` a scaled
    /// operand would leave the range; the document is untouched.
    pub fn scale(&mut self, sx: Num, sy: Num) -> (r: Result<(), PathError>)
        requires
            all_abs(old(self)@),
        ensures
            r is Ok <==> scale_in_range(old(self)@, sx@, sy@),
            r is Ok ==> final(self)@ == spec_scale(old(self)@, sx@, sy@),
            r is Err ==> final(self)@ == old(self)@ && r == Err::<(), PathError>(
                PathError::OutOfRange,
            ),
    {
        let ghost d = self@;
        let n = self.items.len();
        let mut out: Vec<SvgItem> = Vec::new();
        let mut i: usize = 0;
        while i < n
            invariant
                *self == *old(self),
                self@ == d,
                n == self.items.len(),
                i <= n,
                out@.len() == i as int,
                forall|j: int| 0 <= j < i ==> (#[trigger] out@[j])@ == seg_scale(d[j], sx@, sy@),
                forall|j: int| 0 <= j < i ==> seg_wf(seg_scale(#[trigger] d[j], sx@, sy@)),
            decreases n - i,
        {
            proof {
                assert(self.items@[i as int]@ == d[i as int]);
            }
            let seg = self.items[i].inner;
            match scale_seg_exec(&seg, sx, sy) {
                Some(t) => {
                    out.push(SvgItem { inner: t });
                    i = i + 1;
                },
                None => {
                    return Err(PathError::OutOfRange);
                },
            }
        }
        proof {
            assert(out@.map_values(|it: SvgItem| it@) =~= spec_scale(d, sx@, sy@));
        }
        self.items = out;
        Ok(())
    }

    /// Rotates the document about `(cx, cy)` by `angle_deg` degrees, in
    /// place. The caller supplies the angle's sine and cosine as fixed-point
    /// values (the library holds no trigonometry); endpoints and control
    /// points turn, an arc's x-axis-rotation grows by the angle, and axis
    /// lines stay unrotated, a documented limitation. Rotating stored
    /// operands is geometrically meaningful only in absolute mode, so the
    /// document must be all-absolute. On `Err` an intermediate would leave
    /// the range; the document is untouched.
    pub fn rotate(&mut self, angle_deg: Num, cx: Num, cy: Num, sin_a: Num, cos_a: Num) -> (r:
        Result<(), PathError>)
        requires
            all_abs(old(self)@),
        ensures
            r is Ok <==> rotate_in_range(old(self)@, angle_deg@, cx@, cy@, sin_a@, cos_a@),
            r is Ok ==> final(self)@ == spec_rotate(
                old(self)@,
                angle_deg@,
                cx@,
                cy@,
                sin_a@,
                cos_a@,
            ),
            r is Err ==> final(self)@ == old(self)@ && r == Err::<(), PathError>(
                PathError::OutOfRange,
            ),
    {
        let ghost d = self@;
        let n = self.items.len();
        let mut out: Vec<SvgItem> = Vec::new();
        let mut i: usize = 0;
        while i < n
            invariant
                *self == *old(self),
                self@ == d,
                n == self.items.len(),
                i <= n,
                out@.len() == i as int,
                forall|j: int|
                    0 <= j < i ==> (#[trigger] out@[j])@ == seg_rotate(
                        d[j],
                        angle_deg@,
                        cx@,
                        cy@,
                        sin_a@,
                        cos_a@,
                    ),
                forall|j: int|
                    0 <= j < i ==> seg_rotate_ok(
                        #[trigger] d[j],
                        angle_deg@,
                        cx@,
                        cy@,
                        sin_a@,
                        cos_a@,
                    ),
            decreases n - i,
        {
            proof {
                assert(self.items@[i as int]@ == d[i as int]);
            }
            let seg = self.items[i].inner;
            match rotate_seg_exec(&seg, angle_deg, cx, cy, sin_a, cos_a) {
                Some(t) => {
                    out.push(SvgItem { inner: t });
                    i = i + 1;
                },
                None => {
                    return Err(PathError::OutOfRange);
                },
            }
        }
        proof {
            assert(out@.map_values(|it: SvgItem| it@) =~= spec_rotate(
                d,
                angle_deg@,
                cx@,
                cy@,
                sin_a@,
                cos_a@,
            ));
        }
        self.items = out;
        Ok(())
    }

    /// Rounds every numeric operand to `places` decimal places, halves away
    /// from zero, in place; the flags are untouched.
    pub fn round(&mut self, places: u64)
        ensures
            final(self)@ == spec_round(old(self)@, places as nat),
    {
        let ghost d = self@;
        let n = self.items.len();
        let mut out: Vec<SvgItem> = Vec::new();
        let mut i: usize = 0;
        while i < n
            invariant
                *self == *old(self),
                self@ == d,
                n == self.items.len(),
                i <= n,
                out@.len() == i as int,
                forall|j: int|
                    0 <= j < i ==> (#[trigger] out@[j])@ == seg_round(d[j], places as nat),
            decreases n - i,
        {
            proof {
                assert(self.items@[i as int]@ == d[i as int]);
            }
            let seg = self.items[i].inner;
            let t = round_seg_exec(&seg, places);
            out.push(SvgItem { inner: t });
            i = i + 1;
        }
        proof {
            assert(out@.map_values(|it: SvgItem| it@) =~= spec_round(d, places as nat));
        }
        self.items = out;
    }
}

} // verus!
