//! Canonical serialization: each segment renders as its command letter
//! followed by its operands; the letter's case encodes the mode. A space
//! separates operands except where the next one starts with a minus sign,
//! which the grammar already reads as a boundary; segments concatenate with
//! no separator in between.

use vstd::prelude::*;
use vstd::arithmetic::div_mod::lemma_multiply_divide_lt;
use vstd::string::StringExecFns;
use crate::num::pow10;
use crate::num::Num;
use crate::num::SCALE;
use crate::num::abs_int;
use crate::seg::PathSegment;
use crate::seg::SegV;
use crate::seg::SvgItem;
use crate::seg::SvgPath;
use crate::seg::seg_letter;

verus! {

/// The decimal digit character for `d` (0 to 9).
pub open spec fn digit_char(d: int) -> char {
    if d == 0 {
        '0'
    } else if d == 1 {
        '1'
    } else if d == 2 {
        '2'
    } else if d == 3 {
        '3'
    } else if d == 4 {
        '4'
    } else if d == 5 {
        '5'
    } else if d == 6 {
        '6'
    } else if d == 7 {
        '7'
    } else if d == 8 {
        '8'
    } else {
        '9'
    }
}

/// The decimal digits of `n >= 0`, most significant first, no leading
/// zeros (a single `0` for zero).
pub open spec fn dec_digits(n: int) -> Seq<char>
    decreases n,
{
    if n < 10 {
        seq![digit_char(n)]
    } else {
        dec_digits(n / 10).push(digit_char(n % 10))
    }
}

/// The `w` low decimal digits of `n >= 0`, zero-padded to width `w`.
pub open spec fn dec_digits_w(n: int, w: nat) -> Seq<char>
    decreases w,
{
    if w == 0 {
        Seq::empty()
    } else {
        dec_digits_w(n / 10, (w - 1) as nat).push(digit_char(n % 10))
    }
}

/// The text with its trailing zero digits removed.
pub open spec fn trim_zeros(s: Seq<char>) -> Seq<char>
    decreases s.len(),
{
    if s.len() > 0 && s.last() == '0' {
        trim_zeros(s.drop_last())
    } else {
        s
    }
}

/// The canonical text of one fixed-point value: optional minus sign, the
/// whole part, and the fractional digits with trailing zeros trimmed.
pub open spec fn render_num(v: int) -> Seq<char> {
    let m = abs_int(v);
    let sign: Seq<char> = if v < 0 {
        seq!['-']
    } else {
        Seq::empty()
    };
    let frac: Seq<char> = if m % (SCALE as int) == 0 {
        Seq::empty()
    } else {
        seq!['.'] + trim_zeros(dec_digits_w(m % (SCALE as int), 9))
    };
    sign + dec_digits(m / (SCALE as int)) + frac
}

/// One rendered operand: a space first unless this is the first operand
/// after the letter or the value is negative (its minus sign separates).
pub open spec fn op_text(v: int, first: bool) -> Seq<char> {
    if first || v < 0 {
        render_num(v)
    } else {
        seq![' '] + render_num(v)
    }
}

/// One rendered arc flag.
pub open spec fn flag_text(b: bool) -> Seq<char> {
    seq![' ', if b { '1' } else { '0' }]
}

/// The canonical text of one segment's operands, without the letter.
pub open spec fn seg_ops_text(s: SegV) -> Seq<char> {
    match s {
        PathSegment::MoveTo { x, y, .. } => op_text(x, true) + op_text(y, false),
        PathSegment::LineTo { x, y, .. } => op_text(x, true) + op_text(y, false),
        PathSegment::HorizontalLineTo { x, .. } => op_text(x, true),
        PathSegment::VerticalLineTo { y, .. } => op_text(y, true),
        PathSegment::CurveTo { x1, y1, x2, y2, x, y, .. } => op_text(x1, true) + op_text(y1, false)
            + op_text(x2, false) + op_text(y2, false) + op_text(x, false) + op_text(y, false),
        PathSegment::SmoothCurveTo { x2, y2, x, y, .. } => op_text(x2, true) + op_text(y2, false)
            + op_text(x, false) + op_text(y, false),
        PathSegment::Quadratic { x1, y1, x, y, .. } => op_text(x1, true) + op_text(y1, false)
            + op_text(x, false) + op_text(y, false),
        PathSegment::SmoothQuadratic { x, y, .. } => op_text(x, true) + op_text(y, false),
        PathSegment::EllipticalArc { rx, ry, x_axis_rotation, large_arc, sweep, x, y, .. } => {
            op_text(rx, true) + op_text(ry, false) + op_text(x_axis_rotation, false) + flag_text(
                large_arc,
            ) + flag_text(sweep) + op_text(x, false) + op_text(y, false)
        },
        PathSegment::ClosePath { .. } => Seq::empty(),
    }
}

/// The canonical text of one segment.
pub open spec fn render_seg(s: SegV) -> Seq<char> {
    seq![seg_letter(s)] + seg_ops_text(s)
}

/// The canonical text of a whole document: its segments' texts, in order,
/// with nothing in between.
pub open spec fn render_doc(d: Seq<SegV>) -> Seq<char>
    decreases d.len(),
{
    if d.len() == 0 {
        Seq::empty()
    } else {
        render_seg(d[0]) + render_doc(d.skip(1))
    }
}

/// One decimal digit as text.
fn digit_str(d: u64) -> (r: &'static str)
    requires
        d < 10,
    ensures
        r@ == seq![digit_char(d as int)],
{
    proof {
        reveal_strlit("0");
        reveal_strlit("1");
        reveal_strlit("2");
        reveal_strlit("3");
        reveal_strlit("4");
        reveal_strlit("5");
        reveal_strlit("6");
        reveal_strlit("7");
        reveal_strlit("8");
        reveal_strlit("9");
    }
    let r = match d {
        0 => "0",
        1 => "1",
        2 => "2",
        3 => "3",
        4 => "4",
        5 => "5",
        6 => "6",
        7 => "7",
        8 => "8",
        _ => "9",
    };
    proof {
        assert(r@ =~= seq![digit_char(d as int)]);
    }
    r
}

/// Appends the decimal digits of `n`, most significant first.
fn push_digits(out: &mut String, n: u64)
    ensures
        final(out)@ == old(out)@ + dec_digits(n as int),
    decreases n,
{
    if n < 10 {
        out.append(digit_str(n));
        proof {
            assert(final(out)@ =~= old(out)@ + dec_digits(n as int));
        }
    } else {
        push_digits(out, n / 10);
        out.append(digit_str(n % 10));
        proof {
            assert(final(out)@ =~= old(out)@ + dec_digits(n as int));
        }
    }
}

/// Appends the `w` low decimal digits of `n`, zero-padded to width `w`.
fn push_digits_w(out: &mut String, n: u64, w: u64)
    ensures
        final(out)@ == old(out)@ + dec_digits_w(n as int, w as nat),
    decreases w,
{
    if w > 0 {
        push_digits_w(out, n / 10, w - 1);
        out.append(digit_str(n % 10));
    }
    proof {
        assert(final(out)@ =~= old(out)@ + dec_digits_w(n as int, w as nat));
    }
}

/// Trimming cannot be fooled by a nonzero last digit.
proof fn lemma_trim_stops(s: Seq<char>, d: int)
    requires
        0 < d < 10,
        s.len() > 0,
        s.last() == digit_char(d),
    ensures
        trim_zeros(s) == s,
{
}

/// Dropping a trailing zero digit commutes with trimming.
proof fn lemma_trim_pop(n: int, w: nat)
    requires
        w > 0,
        n % 10 == 0,
    ensures
        trim_zeros(dec_digits_w(n, w)) == trim_zeros(dec_digits_w(n / 10, (w - 1) as nat)),
{
    let inner = dec_digits_w(n / 10, (w - 1) as nat);
    assert(dec_digits_w(n, w) == inner.push('0'));
    assert(inner.push('0').drop_last() =~= inner);
}

/// Appends the canonical text of one fixed-point value.
pub(crate) fn push_num(out: &mut String, v: Num)
    ensures
        final(out)@ == old(out)@ + render_num(v@),
{
    proof {
        reveal_strlit("-");
        reveal_strlit(".");
    }
    proof {
        use_type_invariant(v);
    }
    let raw = v.to_billionths();
    if raw < 0 {
        out.append("-");
        proof {
            assert("-"@ =~= seq!['-']);
        }
    }
    let m: u64 = if raw < 0 {
        (-raw) as u64
    } else {
        raw as u64
    };
    let q: u64 = m / (SCALE as u64);
    let f: u64 = m % (SCALE as u64);
    push_digits(out, q);
    if f > 0 {
        out.append(".");
        proof {
            assert("."@ =~= seq!['.']);
        }
        let ghost f0 = f as int;
        let mut fr: u64 = f;
        let mut w: u64 = 9;
        proof {
            crate::num::lemma_pow10_values();
        }
        while fr % 10 == 0
            invariant
                fr > 0,
                0 < w <= 9,
                (fr as int) < pow10(w as nat),
                trim_zeros(dec_digits_w(f0, 9)) == trim_zeros(dec_digits_w(fr as int, w as nat)),
            decreases fr,
        {
            proof {
                crate::num::lemma_pow10_values();
                if w == 1 {
                    assert(fr < 10);
                    assert(false);
                }
                lemma_trim_pop(fr as int, w as nat);
                assert(pow10(w as nat) == 10 * pow10((w - 1) as nat));
                lemma_multiply_divide_lt(fr as int, pow10((w - 1) as nat), 10);
                assert((fr as int) / 10 < pow10((w - 1) as nat));
            }
            fr = fr / 10;
            w = w - 1;
        }
        proof {
            lemma_trim_stops(dec_digits_w(fr as int, w as nat), (fr % 10) as int);
        }
        push_digits_w(out, fr, w);
    }
    proof {
        assert(final(out)@ =~= old(out)@ + render_num(v@));
    }
}

/// Appends one operand with its separator.
fn push_op(out: &mut String, v: Num, first: bool)
    ensures
        final(out)@ == old(out)@ + op_text(v@, first),
{
    proof {
        reveal_strlit(" ");
    }
    if !first && !v.is_negative() {
        out.append(" ");
        proof {
            assert(" "@ =~= seq![' ']);
        }
    }
    push_num(out, v);
    proof {
        assert(final(out)@ =~= old(out)@ + op_text(v@, first));
    }
}

/// Appends one arc flag with its separator.
fn push_flag(out: &mut String, b: bool)
    ensures
        final(out)@ == old(out)@ + flag_text(b),
{
    proof {
        reveal_strlit(" 1");
        reveal_strlit(" 0");
    }
    if b {
        out.append(" 1");
    } else {
        out.append(" 0");
    }
    proof {
        assert(final(out)@ =~= old(out)@ + flag_text(b));
    }
}

/// Appends the command letter of a segment.
fn push_letter(out: &mut String, it: &SvgItem)
    ensures
        final(out)@ == old(out)@ + seq![seg_letter(it@)],
{
    proof {
        reveal_strlit("M");
        reveal_strlit("L");
        reveal_strlit("H");
        reveal_strlit("V");
        reveal_strlit("C");
        reveal_strlit("S");
        reveal_strlit("Q");
        reveal_strlit("T");
        reveal_strlit("A");
        reveal_strlit("Z");
        reveal_strlit("m");
        reveal_strlit("l");
        reveal_strlit("h");
        reveal_strlit("v");
        reveal_strlit("c");
        reveal_strlit("s");
        reveal_strlit("q");
        reveal_strlit("t");
        reveal_strlit("a");
        reveal_strlit("z");
    }
    let letter = if it.is_abs() {
        match it.inner {
            PathSegment::MoveTo { .. } => "M",
            PathSegment::LineTo { .. } => "L",
            PathSegment::HorizontalLineTo { .. } => "H",
            PathSegment::VerticalLineTo { .. } => "V",
            PathSegment::CurveTo { .. } => "C",
            PathSegment::SmoothCurveTo { .. } => "S",
            PathSegment::Quadratic { .. } => "Q",
            PathSegment::SmoothQuadratic { .. } => "T",
            PathSegment::EllipticalArc { .. } => "A",
            PathSegment::ClosePath { .. } => "Z",
        }
    } else {
        match it.inner {
            PathSegment::MoveTo { .. } => "m",
            PathSegment::LineTo { .. } => "l",
            PathSegment::HorizontalLineTo { .. } => "h",
            PathSegment::VerticalLineTo { .. } => "v",
            PathSegment::CurveTo { .. } => "c",
            PathSegment::SmoothCurveTo { .. } => "s",
            PathSegment::Quadratic { .. } => "q",
            PathSegment::SmoothQuadratic { .. } => "t",
            PathSegment::EllipticalArc { .. } => "a",
            PathSegment::ClosePath { .. } => "z",
        }
    };
    out.append(letter);
    proof {
        assert(final(out)@ =~= old(out)@ + seq![seg_letter(it@)]);
    }
}

/// Appends the canonical text of one segment.
#[verifier::rlimit(60)]
pub(crate) fn push_seg(out: &mut String, it: &SvgItem)
    ensures
        final(out)@ == old(out)@ + render_seg(it@),
{
    push_letter(out, it);
    match it.inner {
        PathSegment::MoveTo { x, y, .. } => {
            push_op(out, x, true);
            push_op(out, y, false);
        },
        PathSegment::LineTo { x, y, .. } => {
            push_op(out, x, true);
            push_op(out, y, false);
        },
        PathSegment::HorizontalLineTo { x, .. } => {
            push_op(out, x, true);
        },
        PathSegment::VerticalLineTo { y, .. } => {
            push_op(out, y, true);
        },
        PathSegment::CurveTo { x1, y1, x2, y2, x, y, .. } => {
            push_op(out, x1, true);
            push_op(out, y1, false);
            push_op(out, x2, false);
            push_op(out, y2, false);
            push_op(out, x, false);
            push_op(out, y, false);
        },
        PathSegment::SmoothCurveTo { x2, y2, x, y, .. } => {
            push_op(out, x2, true);
            push_op(out, y2, false);
            push_op(out, x, false);
            push_op(out, y, false);
        },
        PathSegment::Quadratic { x1, y1, x, y, .. } => {
            push_op(out, x1, true);
            push_op(out, y1, false);
            push_op(out, x, false);
            push_op(out, y, false);
        },
        PathSegment::SmoothQuadratic { x, y, .. } => {
            push_op(out, x, true);
            push_op(out, y, false);
        },
        PathSegment::EllipticalArc { rx, ry, x_axis_rotation, large_arc, sweep, x, y, .. } => {
            push_op(out, rx, true);
            push_op(out, ry, false);
            push_op(out, x_axis_rotation, false);
            push_flag(out, large_arc);
            push_flag(out, sweep);
            push_op(out, x, false);
            push_op(out, y, false);
        },
        PathSegment::ClosePath { .. } => {},
    }
    proof {
        assert(final(out)@ =~= old(out)@ + render_seg(it@));
    }
}

impl SvgItem {
    /// The canonical text of this segment.
    pub fn value(&self) -> (r: String)
        ensures
            r@ == render_seg(self@),
    {
        let mut out = String::new();
        push_seg(&mut out, self);
        proof {
            assert(out@ =~= render_seg(self@));
        }
        out
    }
}

impl SvgPath {
    /// The canonical text of the whole document.
    pub fn to_string(&self) -> (r: String)
        ensures
            r@ == render_doc(self@),
    {
        let ghost d = self@;
        let n = self.items.len();
        let mut out = String::new();
        let mut i: usize = 0;
        proof {
            assert(d.skip(0) =~= d);
            assert(out@ + render_doc(d) =~= render_doc(d));
        }
        while i < n
            invariant
                n == self.items.len(),
                self@ == d,
                i <= n,
                out@ + render_doc(d.skip(i as int)) == render_doc(d),
            decreases n - i,
        {
            proof {
                assert(self.items@[i as int]@ == d[i as int]);
                assert(d.skip(i as int)[0] == d[i as int]);
                assert(d.skip(i as int).skip(1) =~= d.skip(i as int + 1));
            }
            push_seg(&mut out, &self.items[i]);
            proof {
                assert(out@ + render_doc(d.skip(i as int + 1)) =~= render_doc(d));
            }
            i = i + 1;
        }
        proof {
            assert(d.skip(n as int) =~= Seq::<SegV>::empty());
            assert(out@ + render_doc(d.skip(n as int)) =~= out@);
        }
        out
    }
}

} // verus!
