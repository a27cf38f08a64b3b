//! The segment model: the ten path command kinds, their operands and their
//! absolute/relative flag, plus the document type that holds them in order.

use vstd::prelude::*;
use crate::num::Num;
use crate::num::num_in_range;

verus! {

/// One path command with its operands and its absolute/relative flag,
/// generic over the coordinate representation: executable segments hold
/// [`Num`], specification segments hold `int` (in billionths).
#[derive(Clone, Copy, Debug, PartialEq, Eq, Structural)]
pub enum PathSegment<T> {
    MoveTo { abs: bool, x: T, y: T },
    LineTo { abs: bool, x: T, y: T },
    HorizontalLineTo { abs: bool, x: T },
    VerticalLineTo { abs: bool, y: T },
    CurveTo { abs: bool, x1: T, y1: T, x2: T, y2: T, x: T, y: T },
    SmoothCurveTo { abs: bool, x2: T, y2: T, x: T, y: T },
    Quadratic { abs: bool, x1: T, y1: T, x: T, y: T },
    SmoothQuadratic { abs: bool, x: T, y: T },
    EllipticalArc {
        abs: bool,
        rx: T,
        ry: T,
        x_axis_rotation: T,
        large_arc: bool,
        sweep: bool,
        x: T,
        y: T,
    },
    ClosePath { abs: bool },
}

/// A specification-level segment: every coordinate an `int` in billionths.
pub type SegV = PathSegment<int>;

impl View for PathSegment<Num> {
    type V = SegV;

    open spec fn view(&self) -> SegV {
        match *self {
            PathSegment::MoveTo { abs, x, y } => PathSegment::MoveTo { abs, x: x@, y: y@ },
            PathSegment::LineTo { abs, x, y } => PathSegment::LineTo { abs, x: x@, y: y@ },
            PathSegment::HorizontalLineTo { abs, x } => PathSegment::HorizontalLineTo {
                abs,
                x: x@,
            },
            PathSegment::VerticalLineTo { abs, y } => PathSegment::VerticalLineTo { abs, y: y@ },
            PathSegment::CurveTo { abs, x1, y1, x2, y2, x, y } => PathSegment::CurveTo {
                abs,
                x1: x1@,
                y1: y1@,
                x2: x2@,
                y2: y2@,
                x: x@,
                y: y@,
            },
            PathSegment::SmoothCurveTo { abs, x2, y2, x, y } => PathSegment::SmoothCurveTo {
                abs,
                x2: x2@,
                y2: y2@,
                x: x@,
                y: y@,
            },
            PathSegment::Quadratic { abs, x1, y1, x, y } => PathSegment::Quadratic {
                abs,
                x1: x1@,
                y1: y1@,
                x: x@,
                y: y@,
            },
            PathSegment::SmoothQuadratic { abs, x, y } => PathSegment::SmoothQuadratic {
                abs,
                x: x@,
                y: y@,
            },
            PathSegment::EllipticalArc { abs, rx, ry, x_axis_rotation, large_arc, sweep, x, y } => {
                PathSegment::EllipticalArc {
                    abs,
                    rx: rx@,
                    ry: ry@,
                    x_axis_rotation: x_axis_rotation@,
                    large_arc,
                    sweep,
                    x: x@,
                    y: y@,
                }
            },
            PathSegment::ClosePath { abs } => PathSegment::ClosePath { abs },
        }
    }
}

/// The absolute/relative flag of a segment.
pub open spec fn seg_abs(s: SegV) -> bool {
    match s {
        PathSegment::MoveTo { abs, .. } => abs,
        PathSegment::LineTo { abs, .. } => abs,
        PathSegment::HorizontalLineTo { abs, .. } => abs,
        PathSegment::VerticalLineTo { abs, .. } => abs,
        PathSegment::CurveTo { abs, .. } => abs,
        PathSegment::SmoothCurveTo { abs, .. } => abs,
        PathSegment::Quadratic { abs, .. } => abs,
        PathSegment::SmoothQuadratic { abs, .. } => abs,
        PathSegment::EllipticalArc { abs, .. } => abs,
        PathSegment::ClosePath { abs } => abs,
    }
}

/// The command letter of a segment: upper case for absolute, lower for
/// relative.
pub open spec fn seg_letter(s: SegV) -> char {
    if seg_abs(s) {
        match s {
            PathSegment::MoveTo { .. } => 'M',
            PathSegment::LineTo { .. } => 'L',
            PathSegment::HorizontalLineTo { .. } => 'H',
            PathSegment::VerticalLineTo { .. } => 'V',
            PathSegment::CurveTo { .. } => 'C',
            PathSegment::SmoothCurveTo { .. } => 'S',
            PathSegment::Quadratic { .. } => 'Q',
            PathSegment::SmoothQuadratic { .. } => 'T',
            PathSegment::EllipticalArc { .. } => 'A',
            PathSegment::ClosePath { .. } => 'Z',
        }
    } else {
        match s {
            PathSegment::MoveTo { .. } => 'm',
            PathSegment::LineTo { .. } => 'l',
            PathSegment::HorizontalLineTo { .. } => 'h',
            PathSegment::VerticalLineTo { .. } => 'v',
            PathSegment::CurveTo { .. } => 'c',
            PathSegment::SmoothCurveTo { .. } => 's',
            PathSegment::Quadratic { .. } => 'q',
            PathSegment::SmoothQuadratic { .. } => 't',
            PathSegment::EllipticalArc { .. } => 'a',
            PathSegment::ClosePath { .. } => 'z',
        }
    }
}

/// All numeric fields of a specification segment lie in the representable
/// fixed-point range.
pub open spec fn seg_wf(s: SegV) -> bool {
    match s {
        PathSegment::MoveTo { x, y, .. } => num_in_range(x) && num_in_range(y),
        PathSegment::LineTo { x, y, .. } => num_in_range(x) && num_in_range(y),
        PathSegment::HorizontalLineTo { x, .. } => num_in_range(x),
        PathSegment::VerticalLineTo { y, .. } => num_in_range(y),
        PathSegment::CurveTo { x1, y1, x2, y2, x, y, .. } => num_in_range(x1) && num_in_range(y1)
            && num_in_range(x2) && num_in_range(y2) && num_in_range(x) && num_in_range(y),
        PathSegment::SmoothCurveTo { x2, y2, x, y, .. } => num_in_range(x2) && num_in_range(y2)
            && num_in_range(x) && num_in_range(y),
        PathSegment::Quadratic { x1, y1, x, y, .. } => num_in_range(x1) && num_in_range(y1)
            && num_in_range(x) && num_in_range(y),
        PathSegment::SmoothQuadratic { x, y, .. } => num_in_range(x) && num_in_range(y),
        PathSegment::EllipticalArc { rx, ry, x_axis_rotation, x, y, .. } => num_in_range(rx)
            && num_in_range(ry) && num_in_range(x_axis_rotation) && num_in_range(x)
            && num_in_range(y),
        PathSegment::ClosePath { .. } => true,
    }
}

/// All segments of a specification document are well formed.
pub open spec fn doc_wf(d: Seq<SegV>) -> bool {
    forall|i: int| 0 <= i < d.len() ==> seg_wf(#[trigger] d[i])
}

/// One segment of a document, as the editor holds it.
#[derive(Clone, Debug, PartialEq)]
pub struct SvgItem {
    /// The parsed command.
    pub inner: PathSegment<Num>,
}

impl View for SvgItem {
    type V = SegV;

    open spec fn view(&self) -> SegV {
        self.inner@
    }
}

impl SvgItem {
    /// True when the segment is in absolute mode.
    pub fn is_abs(&self) -> (r: bool)
        ensures
            r == seg_abs(self@),
    {
        match self.inner {
            PathSegment::MoveTo { abs, .. } => abs,
            PathSegment::LineTo { abs, .. } => abs,
            PathSegment::HorizontalLineTo { abs, .. } => abs,
            PathSegment::VerticalLineTo { abs, .. } => abs,
            PathSegment::CurveTo { abs, .. } => abs,
            PathSegment::SmoothCurveTo { abs, .. } => abs,
            PathSegment::Quadratic { abs, .. } => abs,
            PathSegment::SmoothQuadratic { abs, .. } => abs,
            PathSegment::EllipticalArc { abs, .. } => abs,
            PathSegment::ClosePath { abs } => abs,
        }
    }

    /// The command letter: upper case for absolute, lower for relative.
    pub fn get_letter(&self) -> (r: char)
        ensures
            r == seg_letter(self@),
    {
        if self.is_abs() {
            match self.inner {
                PathSegment::MoveTo { .. } => 'M',
                PathSegment::LineTo { .. } => 'L',
                PathSegment::HorizontalLineTo { .. } => 'H',
                PathSegment::VerticalLineTo { .. } => 'V',
                PathSegment::CurveTo { .. } => 'C',
                PathSegment::SmoothCurveTo { .. } => 'S',
                PathSegment::Quadratic { .. } => 'Q',
                PathSegment::SmoothQuadratic { .. } => 'T',
                PathSegment::EllipticalArc { .. } => 'A',
                PathSegment::ClosePath { .. } => 'Z',
            }
        } else {
            match self.inner {
                PathSegment::MoveTo { .. } => 'm',
                PathSegment::LineTo { .. } => 'l',
                PathSegment::HorizontalLineTo { .. } => 'h',
                PathSegment::VerticalLineTo { .. } => 'v',
                PathSegment::CurveTo { .. } => 'c',
                PathSegment::SmoothCurveTo { .. } => 's',
                PathSegment::Quadratic { .. } => 'q',
                PathSegment::SmoothQuadratic { .. } => 't',
                PathSegment::EllipticalArc { .. } => 'a',
                PathSegment::ClosePath { .. } => 'z',
            }
        }
    }

    /// Replaces this segment with another one.
    pub fn set_value(&mut self, to_add: SvgItem)
        ensures
            *final(self) == to_add,
    {
        *self = to_add;
    }
}

/// An ordered sequence of path segments: the document.
#[derive(Clone, Debug, PartialEq)]
pub struct SvgPath {
    /// The segments, in drawing order.
    pub items: Vec<SvgItem>,
}

impl View for SvgPath {
    type V = Seq<SegV>;

    open spec fn view(&self) -> Seq<SegV> {
        self.items@.map_values(|it: SvgItem| it@)
    }
}

impl SvgPath {
    /// Every coordinate of a held document lies in the representable range,
    /// so the laws stated over well-formed documents apply to it.
    pub fn in_range_facts(&self)
        ensures
            doc_wf(self@),
    {
        let n = self.items.len();
        let mut i: usize = 0;
        while i < n
            invariant
                i <= n,
                n == self.items.len(),
                forall|j: int| 0 <= j < i ==> seg_wf(#[trigger] self@[j]),
            decreases n - i,
        {
            proof {
                assert(self.items@[i as int]@ == self@[i as int]);
            }
            match self.items[i].inner {
                PathSegment::MoveTo { x, y, .. } => {
                    proof {
                        use_type_invariant(x);
                        use_type_invariant(y);
                        assert(seg_wf(self@[i as int]));
                    }
                },
                PathSegment::LineTo { x, y, .. } => {
                    proof {
                        use_type_invariant(x);
                        use_type_invariant(y);
                        assert(seg_wf(self@[i as int]));
                    }
                },
                PathSegment::HorizontalLineTo { x, .. } => {
                    proof {
                        use_type_invariant(x);
                        assert(seg_wf(self@[i as int]));
                    }
                },
                PathSegment::VerticalLineTo { y, .. } => {
                    proof {
                        use_type_invariant(y);
                        assert(seg_wf(self@[i as int]));
                    }
                },
                PathSegment::CurveTo { x1, y1, x2, y2, x, y, .. } => {
                    proof {
                        use_type_invariant(x1);
                        use_type_invariant(y1);
                        use_type_invariant(x2);
                        use_type_invariant(y2);
                        use_type_invariant(x);
                        use_type_invariant(y);
                        assert(seg_wf(self@[i as int]));
                    }
                },
                PathSegment::SmoothCurveTo { x2, y2, x, y, .. } => {
                    proof {
                        use_type_invariant(x2);
                        use_type_invariant(y2);
                        use_type_invariant(x);
                        use_type_invariant(y);
                        assert(seg_wf(self@[i as int]));
                    }
                },
                PathSegment::Quadratic { x1, y1, x, y, .. } => {
                    proof {
                        use_type_invariant(x1);
                        use_type_invariant(y1);
                        use_type_invariant(x);
                        use_type_invariant(y);
                        assert(seg_wf(self@[i as int]));
                    }
                },
                PathSegment::SmoothQuadratic { x, y, .. } => {
                    proof {
                        use_type_invariant(x);
                        use_type_invariant(y);
                        assert(seg_wf(self@[i as int]));
                    }
                },
                PathSegment::EllipticalArc { rx, ry, x_axis_rotation, x, y, .. } => {
                    proof {
                        use_type_invariant(rx);
                        use_type_invariant(ry);
                        use_type_invariant(x_axis_rotation);
                        use_type_invariant(x);
                        use_type_invariant(y);
                        assert(seg_wf(self@[i as int]));
                    }
                },
                PathSegment::ClosePath { .. } => {
                    proof {
                        assert(seg_wf(self@[i as int]));
                    }
                },
            }
            i = i + 1;
        }
    }
}

} // verus!
