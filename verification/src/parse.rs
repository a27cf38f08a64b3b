//! The path-data grammar: command letters `M L H V C S Q T A Z` (upper case
//! absolute, lower case relative), operands per letter, numbers following
//! the SVG number shape (optional sign, digits, optional fraction, optional
//! exponent), whitespace and commas as interchangeable separators, operand
//! groups repeating after a letter (a repeated `M` group continues as a
//! line), and numbers packed without separators where the next token starts
//! unambiguously.
//!
//! The specification functions here state the grammar over character
//! sequences and positions; the executable parser below is proved to follow
//! them exactly. Parsing fails atomically: no partial document escapes.

use vstd::prelude::*;
use vstd::arithmetic::div_mod::lemma_div_denominator;
use vstd::string::StringExecFns;
use vstd::arithmetic::div_mod::lemma_div_multiples_vanish_fancy;
use crate::num::RAW_BOUND;
use crate::num::lemma_pow10_mono;
use crate::num::lemma_pow10_pos;
use crate::num::lemma_pow10_values;
use crate::num::num_in_range;
use crate::num::pow10;
use crate::num::pow10_u64;
use crate::seg::PathSegment;
use crate::seg::SegV;

verus! {

/// Whitespace accepted between tokens.
pub open spec fn is_ws(c: char) -> bool {
    c == ' ' || c == '\t' || c == '\n' || c == '\r' || c == '\u{0b}' || c == '\u{0c}'
}

/// Separators between tokens: whitespace and commas, interchangeably.
pub open spec fn is_sep(c: char) -> bool {
    is_ws(c) || c == ','
}

/// A decimal digit character.
pub open spec fn is_digit(c: char) -> bool {
    c == '0' || c == '1' || c == '2' || c == '3' || c == '4' || c == '5' || c == '6' || c == '7'
        || c == '8' || c == '9'
}

/// The value of a digit character; other characters count as zero.
pub open spec fn digit_val(c: char) -> int {
    if c == '1' {
        1
    } else if c == '2' {
        2
    } else if c == '3' {
        3
    } else if c == '4' {
        4
    } else if c == '5' {
        5
    } else if c == '6' {
        6
    } else if c == '7' {
        7
    } else if c == '8' {
        8
    } else if c == '9' {
        9
    } else {
        0
    }
}

/// A character that can begin a number token.
pub open spec fn starts_number(c: char) -> bool {
    is_digit(c) || c == '.' || c == '-' || c == '+'
}

/// The command kinds that take operand groups; `ClosePath` stands apart
/// since it takes none and never repeats.
#[derive(Clone, Copy, PartialEq, Eq, Structural, Debug)]
pub enum CmdKind {
    Move,
    Line,
    Horiz,
    Vert,
    Curve,
    Smooth,
    Quad,
    SmoothQuad,
    Arc,
}

/// After one operand group, a repeated group continues under the same
/// letter, except that a repeated `M` group draws a line.
pub open spec fn next_kind(k: CmdKind) -> CmdKind {
    if k == CmdKind::Move {
        CmdKind::Line
    } else {
        k
    }
}

/// The first position at or after `p` that does not hold a separator.
pub open spec fn skip_sep(s: Seq<char>, p: int) -> int
    decreases s.len() - p,
{
    if p < s.len() && p >= 0 && is_sep(s[p]) {
        skip_sep(s, p + 1)
    } else {
        p
    }
}

/// The first position at or after `p` that does not hold a digit.
pub open spec fn digit_run_end(s: Seq<char>, p: int) -> int
    decreases s.len() - p,
{
    if p < s.len() && p >= 0 && is_digit(s[p]) {
        digit_run_end(s, p + 1)
    } else {
        p
    }
}

/// The value of the digits at positions `a` to `b`, most significant first.
pub open spec fn digits_val(s: Seq<char>, a: int, b: int) -> int
    decreases b - a,
{
    if b <= a {
        0
    } else {
        digits_val(s, a, b - 1) * 10 + digit_val(s[b - 1])
    }
}

/// The value of the first `j` digits of the integer-part digits at
/// `[ip_s, ip_e)` followed by the fraction digits starting at `fp_s`.
pub open spec fn ds_val(s: Seq<char>, ip_s: int, ip_e: int, fp_s: int, j: int) -> int
    decreases j,
{
    if j <= 0 {
        0
    } else {
        ds_val(s, ip_s, ip_e, fp_s, j - 1) * 10 + digit_val(
            if j - 1 < ip_e - ip_s {
                s[ip_s + (j - 1)]
            } else {
                s[fp_s + (j - 1) - (ip_e - ip_s)]
            },
        )
    }
}

/// The largest exponent magnitude a literal may carry; every representable
/// value can be written within it.
pub open spec fn exp_cap() -> int {
    1_000_000
}

/// The exponent part at `p`: none is an exponent of zero; `e` or `E` must
/// be followed by an optional sign and at least one digit, and a magnitude
/// beyond the cap is rejected.
pub open spec fn lex_exp(s: Seq<char>, p: int) -> Option<(int, int)> {
    if 0 <= p < s.len() && (s[p] == 'e' || s[p] == 'E') {
        let q = if p + 1 < s.len() && (s[p + 1] == '-' || s[p + 1] == '+') {
            p + 2
        } else {
            p + 1
        };
        let e_end = digit_run_end(s, q);
        if e_end == q {
            None
        } else {
            let ev = digits_val(s, q, e_end);
            if ev > exp_cap() {
                None
            } else if p + 1 < s.len() && s[p + 1] == '-' {
                Some((-ev, e_end))
            } else {
                Some((ev, e_end))
            }
        }
    } else {
        Some((0, p))
    }
}

/// The magnitude, in billionths, of the literal whose integer digits sit at
/// `[ip_s, ip_e)`, fraction digits at `[fp_s, fp_e)`, and exponent is `ev`:
/// the digit string shifted so that nine fractional digits remain, further
/// digits truncated toward zero. `None` when it cannot be represented.
pub open spec fn num_mag(s: Seq<char>, ip_s: int, ip_e: int, fp_s: int, fp_e: int, ev: int) -> Option<
    int,
> {
    let ip_len = ip_e - ip_s;
    let fp_len = fp_e - fp_s;
    let dsl = ip_len + fp_len;
    let k = ip_len + ev + 9;
    let m = if k <= 0 {
        0
    } else if k >= dsl {
        ds_val(s, ip_s, ip_e, fp_s, dsl) * pow10((k - dsl) as nat)
    } else {
        ds_val(s, ip_s, ip_e, fp_s, dsl) / pow10((dsl - k) as nat)
    };
    if m > RAW_BOUND as int {
        None
    } else {
        Some(m)
    }
}

/// The number token at `p`: optional sign, digits with an optional dot
/// between them (at least one digit in all), optional exponent. Yields the
/// value in billionths and the position after the token.
pub open spec fn lex_num(s: Seq<char>, p: int) -> Option<(int, int)> {
    if !(0 <= p < s.len()) {
        None
    } else {
        let neg = s[p] == '-';
        let p1 = if s[p] == '-' || s[p] == '+' {
            p + 1
        } else {
            p
        };
        let ip_end = digit_run_end(s, p1);
        let has_dot = ip_end < s.len() && s[ip_end] == '.';
        let fp_start = if has_dot {
            ip_end + 1
        } else {
            ip_end
        };
        let fp_end = if has_dot {
            digit_run_end(s, fp_start)
        } else {
            fp_start
        };
        if ip_end == p1 && fp_end == fp_start {
            None
        } else {
            match lex_exp(s, fp_end) {
                None => None,
                Some((ev, end)) => match num_mag(s, p1, ip_end, fp_start, fp_end, ev) {
                    None => None,
                    Some(m) => Some(
                        (
                            if neg {
                                -m
                            } else {
                                m
                            },
                            end,
                        ),
                    ),
                },
            }
        }
    }
}

/// A command letter.
pub open spec fn is_cmd_letter(c: char) -> bool {
    c == 'M' || c == 'm' || c == 'L' || c == 'l' || c == 'H' || c == 'h' || c == 'V' || c == 'v'
        || c == 'C' || c == 'c' || c == 'S' || c == 's' || c == 'Q' || c == 'q' || c == 'T' || c
        == 't' || c == 'A' || c == 'a' || c == 'Z' || c == 'z'
}

/// The kind a command letter selects; `Z`/`z` is not among these.
pub open spec fn letter_kind(c: char) -> CmdKind {
    if c == 'M' || c == 'm' {
        CmdKind::Move
    } else if c == 'L' || c == 'l' {
        CmdKind::Line
    } else if c == 'H' || c == 'h' {
        CmdKind::Horiz
    } else if c == 'V' || c == 'v' {
        CmdKind::Vert
    } else if c == 'C' || c == 'c' {
        CmdKind::Curve
    } else if c == 'S' || c == 's' {
        CmdKind::Smooth
    } else if c == 'Q' || c == 'q' {
        CmdKind::Quad
    } else if c == 'T' || c == 't' {
        CmdKind::SmoothQuad
    } else {
        CmdKind::Arc
    }
}

/// Upper-case letters select absolute mode.
pub open spec fn letter_abs(c: char) -> bool {
    c == 'M' || c == 'L' || c == 'H' || c == 'V' || c == 'C' || c == 'S' || c == 'Q' || c == 'T'
        || c == 'A' || c == 'Z'
}

/// A coordinate: separators, then a number.
pub open spec fn lex_coord(s: Seq<char>, p: int) -> Option<(int, int)> {
    lex_num(s, skip_sep(s, p))
}

/// An arc flag: separators, then a single `0` or `1`.
pub open spec fn lex_flag(s: Seq<char>, p: int) -> Option<(bool, int)> {
    let q = skip_sep(s, p);
    if q < s.len() && (s[q] == '0' || s[q] == '1') {
        Some((s[q] == '1', q + 1))
    } else {
        None
    }
}

/// One operand group for a command kind, starting at `p`: the kind's
/// operands in order, each preceded by optional separators. Yields the
/// segment and the position after the group.
pub open spec fn parse_seg_ops(s: Seq<char>, p: int, kind: CmdKind, abs: bool) -> Option<
    (SegV, int),
> {
    match kind {
        CmdKind::Move => match lex_coord(s, p) {
            None => None,
            Some((x, q1)) => match lex_coord(s, q1) {
                None => None,
                Some((y, q2)) => Some((PathSegment::MoveTo { abs, x, y }, q2)),
            },
        },
        CmdKind::Line => match lex_coord(s, p) {
            None => None,
            Some((x, q1)) => match lex_coord(s, q1) {
                None => None,
                Some((y, q2)) => Some((PathSegment::LineTo { abs, x, y }, q2)),
            },
        },
        CmdKind::Horiz => match lex_coord(s, p) {
            None => None,
            Some((x, q1)) => Some((PathSegment::HorizontalLineTo { abs, x }, q1)),
        },
        CmdKind::Vert => match lex_coord(s, p) {
            None => None,
            Some((y, q1)) => Some((PathSegment::VerticalLineTo { abs, y }, q1)),
        },
        CmdKind::Curve => match lex_coord(s, p) {
            None => None,
            Some((x1, q1)) => match lex_coord(s, q1) {
                None => None,
                Some((y1, q2)) => match lex_coord(s, q2) {
                    None => None,
                    Some((x2, q3)) => match lex_coord(s, q3) {
                        None => None,
                        Some((y2, q4)) => match lex_coord(s, q4) {
                            None => None,
                            Some((x, q5)) => match lex_coord(s, q5) {
                                None => None,
                                Some((y, q6)) => Some(
                                    (PathSegment::CurveTo { abs, x1, y1, x2, y2, x, y }, q6),
                                ),
                            },
                        },
                    },
                },
            },
        },
        CmdKind::Smooth => match lex_coord(s, p) {
            None => None,
            Some((x2, q1)) => match lex_coord(s, q1) {
                None => None,
                Some((y2, q2)) => match lex_coord(s, q2) {
                    None => None,
                    Some((x, q3)) => match lex_coord(s, q3) {
                        None => None,
                        Some((y, q4)) => Some(
                            (PathSegment::SmoothCurveTo { abs, x2, y2, x, y }, q4),
                        ),
                    },
                },
            },
        },
        CmdKind::Quad => match lex_coord(s, p) {
            None => None,
            Some((x1, q1)) => match lex_coord(s, q1) {
                None => None,
                Some((y1, q2)) => match lex_coord(s, q2) {
                    None => None,
                    Some((x, q3)) => match lex_coord(s, q3) {
                        None => None,
                        Some((y, q4)) => Some((PathSegment::Quadratic { abs, x1, y1, x, y }, q4)),
                    },
                },
            },
        },
        CmdKind::SmoothQuad => match lex_coord(s, p) {
            None => None,
            Some((x, q1)) => match lex_coord(s, q1) {
                None => None,
                Some((y, q2)) => Some((PathSegment::SmoothQuadratic { abs, x, y }, q2)),
            },
        },
        CmdKind::Arc => match lex_coord(s, p) {
            None => None,
            Some((rx, q1)) => match lex_coord(s, q1) {
                None => None,
                Some((ry, q2)) => match lex_coord(s, q2) {
                    None => None,
                    Some((rot, q3)) => match lex_flag(s, q3) {
                        None => None,
                        Some((laf, q4)) => match lex_flag(s, q4) {
                            None => None,
                            Some((swf, q5)) => match lex_coord(s, q5) {
                                None => None,
                                Some((x, q6)) => match lex_coord(s, q6) {
                                    None => None,
                                    Some((y, q7)) => Some(
                                        (
                                            PathSegment::EllipticalArc {
                                                abs,
                                                rx,
                                                ry,
                                                x_axis_rotation: rot,
                                                large_arc: laf,
                                                sweep: swf,
                                                x,
                                                y,
                                            },
                                            q7,
                                        ),
                                    ),
                                },
                            },
                        },
                    },
                },
            },
        },
    }
}

/// The commands from position `p` to the end: separators, then either the
/// end of the text, or a command letter with its operand groups.
pub open spec fn parse_cmds(s: Seq<char>, p: int) -> Option<Seq<SegV>>
    decreases s.len() - p, 1int,
{
    let q = skip_sep(s, p);
    if !(p <= q <= s.len()) {
        None
    } else if q == s.len() {
        Some(Seq::empty())
    } else if is_cmd_letter(s[q]) {
        if s[q] == 'Z' || s[q] == 'z' {
            match parse_cmds(s, q + 1) {
                None => None,
                Some(rest) => Some(seq![PathSegment::ClosePath { abs: s[q] == 'Z' }] + rest),
            }
        } else {
            parse_group(s, q + 1, letter_kind(s[q]), letter_abs(s[q]))
        }
    } else {
        None
    }
}

/// One operand group at `p`, then either a repeated group (a number starts
/// after the separators) or the next command. A repeated `M` group
/// continues as a line.
pub open spec fn parse_group(s: Seq<char>, p: int, kind: CmdKind, abs: bool) -> Option<Seq<SegV>>
    decreases s.len() - p, 0int,
{
    match parse_seg_ops(s, p, kind, abs) {
        None => None,
        Some((seg, q)) => {
            let r = skip_sep(s, q);
            if !(p < r <= s.len()) {
                None
            } else if r < s.len() && starts_number(s[r]) {
                match parse_group(s, r, next_kind(kind), abs) {
                    None => None,
                    Some(rest) => Some(seq![seg] + rest),
                }
            } else {
                match parse_cmds(s, r) {
                    None => None,
                    Some(rest) => Some(seq![seg] + rest),
                }
            }
        },
    }
}

/// The whole text as a document: the grammar's start symbol.
pub open spec fn spec_parse(s: Seq<char>) -> Option<Seq<SegV>> {
    parse_cmds(s, 0)
}

/// Digit strings have nonnegative values.
proof fn lemma_digits_val_nonneg(s: Seq<char>, a: int, b: int)
    ensures
        digits_val(s, a, b) >= 0,
    decreases b - a,
{
    if b > a {
        lemma_digits_val_nonneg(s, a, b - 1);
    }
}

/// Extending a digit string cannot shrink its value.
proof fn lemma_digits_val_mono(s: Seq<char>, a: int, b: int, b2: int)
    requires
        a <= b <= b2,
    ensures
        digits_val(s, a, b) <= digits_val(s, a, b2),
    decreases b2 - b,
{
    if b < b2 {
        lemma_digits_val_mono(s, a, b, b2 - 1);
        lemma_digits_val_nonneg(s, a, b2 - 1);
    }
}

/// Digit-prefix values are nonnegative.
pub(crate) proof fn lemma_ds_val_nonneg(s: Seq<char>, ip_s: int, ip_e: int, fp_s: int, j: int)
    ensures
        ds_val(s, ip_s, ip_e, fp_s, j) >= 0,
    decreases j,
{
    if j > 0 {
        lemma_ds_val_nonneg(s, ip_s, ip_e, fp_s, j - 1);
    }
}

/// Taking more digits cannot shrink the prefix value.
proof fn lemma_ds_val_mono(s: Seq<char>, ip_s: int, ip_e: int, fp_s: int, j: int, k: int)
    requires
        j <= k,
    ensures
        ds_val(s, ip_s, ip_e, fp_s, j) <= ds_val(s, ip_s, ip_e, fp_s, k),
    decreases k - j,
{
    if j < k {
        lemma_ds_val_mono(s, ip_s, ip_e, fp_s, j, k - 1);
        lemma_ds_val_nonneg(s, ip_s, ip_e, fp_s, k - 1);
    }
}

/// Taking `k` of `l` digits is the same as dividing the `l`-digit value by
/// ten to the dropped count: truncation drops low digits.
proof fn lemma_ds_prefix_div(s: Seq<char>, ip_s: int, ip_e: int, fp_s: int, k: int, l: int)
    requires
        0 <= k <= l,
    ensures
        ds_val(s, ip_s, ip_e, fp_s, k) == ds_val(s, ip_s, ip_e, fp_s, l) / pow10((l - k) as nat),
    decreases l - k,
{
    let full = ds_val(s, ip_s, ip_e, fp_s, l);
    if k == l {
        assert(pow10(0) == 1);
        assert(full / 1 == full);
    } else {
        lemma_ds_prefix_div(s, ip_s, ip_e, fp_s, k + 1, l);
        let vk = ds_val(s, ip_s, ip_e, fp_s, k);
        let vk1 = ds_val(s, ip_s, ip_e, fp_s, k + 1);
        let d = digit_val(
            if k < ip_e - ip_s {
                s[ip_s + k]
            } else {
                s[fp_s + k - (ip_e - ip_s)]
            },
        );
        assert(vk1 == vk * 10 + d);
        assert(0 <= d < 10);
        lemma_div_multiples_vanish_fancy(vk, d, 10);
        assert((10 * vk + d) / 10 == vk);
        assert(vk == vk1 / 10);
        lemma_ds_val_nonneg(s, ip_s, ip_e, fp_s, l);
        lemma_pow10_pos((l - k - 1) as nat);
        lemma_div_denominator(full, pow10((l - k - 1) as nat), 10);
        assert(pow10((l - k) as nat) == 10 * pow10((l - k - 1) as nat));
    }
}

/// Whether a character is a separator, executably.
fn is_sep_c(c: char) -> (r: bool)
    ensures
        r == is_sep(c),
{
    c == ' ' || c == '\t' || c == '\n' || c == '\r' || c == '\u{0b}' || c == '\u{0c}' || c == ','
}

/// Whether a character is a digit, executably.
fn is_digit_c(c: char) -> (r: bool)
    ensures
        r == is_digit(c),
{
    c == '0' || c == '1' || c == '2' || c == '3' || c == '4' || c == '5' || c == '6' || c == '7'
        || c == '8' || c == '9'
}

/// The value of a digit character, executably.
fn digit_val_c(c: char) -> (r: u64)
    ensures
        r as int == digit_val(c),
        r < 10,
{
    match c {
        '1' => 1,
        '2' => 2,
        '3' => 3,
        '4' => 4,
        '5' => 5,
        '6' => 6,
        '7' => 7,
        '8' => 8,
        '9' => 9,
        _ => 0,
    }
}

/// Whether a character can begin a number, executably.
fn starts_number_c(c: char) -> (r: bool)
    ensures
        r == starts_number(c),
{
    is_digit_c(c) || c == '.' || c == '-' || c == '+'
}

/// Skips separators, executably.
fn skip_sep_exec(s: &Vec<char>, p: usize) -> (r: usize)
    requires
        p <= s.len(),
    ensures
        r as int == skip_sep(s@, p as int),
        p <= r <= s.len(),
{
    let mut q = p;
    while q < s.len() && is_sep_c(s[q])
        invariant
            p <= q <= s.len(),
            skip_sep(s@, p as int) == skip_sep(s@, q as int),
        decreases s.len() - q,
    {
        q = q + 1;
    }
    q
}

/// Skips a digit run, executably.
fn digit_run_end_exec(s: &Vec<char>, p: usize) -> (r: usize)
    requires
        p <= s.len(),
    ensures
        r as int == digit_run_end(s@, p as int),
        p <= r <= s.len(),
{
    let mut q = p;
    while q < s.len() && is_digit_c(s[q])
        invariant
            p <= q <= s.len(),
            digit_run_end(s@, p as int) == digit_run_end(s@, q as int),
        decreases s.len() - q,
    {
        q = q + 1;
    }
    q
}

/// The exponent part, executably.
#[verifier::loop_isolation(false)]
fn lex_exp_exec(s: &Vec<char>, p: usize) -> (r: Option<(i64, usize)>)
    requires
        p <= s.len(),
    ensures
        r is Some <==> lex_exp(s@, p as int) is Some,
        r is Some ==> {
            let (ev, end) = r.unwrap();
            lex_exp(s@, p as int) == Some((ev as int, end as int)) && -1_000_000 <= ev
                <= 1_000_000 && p <= end <= s.len()
        },
{
    if p < s.len() && (s[p] == 'e' || s[p] == 'E') {
        let eneg = p + 1 < s.len() && s[p + 1] == '-';
        let q: usize = if p + 1 < s.len() && (s[p + 1] == '-' || s[p + 1] == '+') {
            p + 2
        } else {
            p + 1
        };
        let e_end = digit_run_end_exec(s, q);
        if e_end == q {
            return None;
        }
        let mut acc: i64 = 0;
        let mut j: usize = q;
        while j < e_end
            invariant
                q <= j <= e_end <= s.len(),
                acc as int == digits_val(s@, q as int, j as int),
                0 <= acc <= 1_000_000,
        decreases e_end - j,
        {
            let d = digit_val_c(s[j]);
            let next: i64 = acc * 10 + d as i64;
            if next > 1_000_000 {
                proof {
                    assert(digits_val(s@, q as int, j as int + 1) == acc as int * 10 + digit_val(
                        s@[j as int],
                    ));
                    lemma_digits_val_mono(s@, q as int, j as int + 1, e_end as int);
                    assert(digits_val(s@, q as int, e_end as int) > exp_cap());
                }
                return None;
            }
            acc = next;
            j = j + 1;
        }
        if eneg {
            Some((-acc, e_end))
        } else {
            Some((acc, e_end))
        }
    } else {
        Some((0, p))
    }
}

/// The literal's magnitude in billionths, executably.
fn num_mag_exec(s: &Vec<char>, ip_s: usize, ip_e: usize, fp_s: usize, fp_e: usize, ev: i64) -> (r:
    Option<i64>)
    requires
        ip_s <= ip_e <= fp_s <= fp_e <= s.len(),
        -1_000_000 <= ev <= 1_000_000,
    ensures
        r is Some <==> num_mag(
            s@,
            ip_s as int,
            ip_e as int,
            fp_s as int,
            fp_e as int,
            ev as int,
        ) is Some,
        r is Some ==> Some(r.unwrap() as int) == num_mag(
            s@,
            ip_s as int,
            ip_e as int,
            fp_s as int,
            fp_e as int,
            ev as int,
        ) && 0 <= r.unwrap() <= RAW_BOUND,
{
    let ghost gip_s = ip_s as int;
    let ghost gip_e = ip_e as int;
    let ghost gfp_s = fp_s as int;
    let ip_len: usize = ip_e - ip_s;
    let fp_len: usize = fp_e - fp_s;
    let dsl: usize = ip_len + fp_len;
    let ghost gdsv = ds_val(s@, gip_s, gip_e, gfp_s, dsl as int);
    let k: i128 = ip_len as i128 + ev as i128 + 9;
    if k <= 0 {
        return Some(0);
    }
    let kc: usize = if k >= dsl as i128 {
        dsl
    } else {
        k as usize
    };
    let mut acc: u64 = 0;
    let mut j: usize = 0;
    while j < kc
        invariant
            j <= kc <= dsl,
            ip_s <= ip_e <= fp_s <= fp_e <= s.len(),
            ip_len == ip_e - ip_s,
            fp_len == fp_e - fp_s,
            dsl == ip_len + fp_len,
            gdsv == ds_val(s@, gip_s, gip_e, gfp_s, dsl as int),
            gip_s == ip_s,
            gip_e == ip_e,
            gfp_s == fp_s,
            k == ip_len as i128 + ev as i128 + 9,
            k > 0,
            kc as i128 == if k >= dsl as i128 {
                dsl as i128
            } else {
                k
            },
            acc as int == ds_val(s@, gip_s, gip_e, gfp_s, j as int),
            acc <= RAW_BOUND as u64,
        decreases kc - j,
    {
        let c = if j < ip_len {
            s[ip_s + j]
        } else {
            s[fp_s + (j - ip_len)]
        };
        let d = digit_val_c(c);
        let next: u128 = acc as u128 * 10 + d as u128;
        proof {
            assert(next as int == ds_val(s@, gip_s, gip_e, gfp_s, j as int + 1));
        }
        if next > RAW_BOUND as u128 {
            proof {
                lemma_ds_val_mono(s@, gip_s, gip_e, gfp_s, j as int + 1, kc as int);
                if k >= dsl as i128 {
                    lemma_pow10_pos((k - dsl as i128) as nat);
                    assert(gdsv * pow10((k - dsl as i128) as nat) >= gdsv) by (nonlinear_arith)
                        requires
                            gdsv >= 0,
                            pow10((k - dsl as i128) as nat) >= 1,
                    ;
                } else {
                    lemma_ds_prefix_div(s@, gip_s, gip_e, gfp_s, kc as int, dsl as int);
                }
            }
            return None;
        }
        acc = next as u64;
        j = j + 1;
    }
    if k >= dsl as i128 {
        let m: i128 = k - dsl as i128;
        if acc == 0 {
            proof {
                assert(gdsv * pow10(m as nat) == 0) by (nonlinear_arith)
                    requires
                        gdsv == 0,
                ;
            }
            return Some(0);
        }
        if m > 18 {
            proof {
                lemma_pow10_values();
                lemma_pow10_mono(19, m as nat);
                assert(gdsv * pow10(m as nat) >= pow10(m as nat)) by (nonlinear_arith)
                    requires
                        gdsv >= 1,
                        pow10(m as nat) >= 0,
                ;
            }
            return None;
        }
        let p10: u64 = pow10_u64(m as u64);
        proof {
            lemma_pow10_values();
            lemma_pow10_mono(m as nat, 18);
            assert(acc as u128 * p10 as u128 <= 0x7fff_ffff_ffff_ffff_ffff_ffff_ffff_ffff)
                by (nonlinear_arith)
                requires
                    acc as int <= 9_000_000_000_000_000_000,
                    p10 as int <= 1_000_000_000_000_000_000,
                    acc >= 0,
                    p10 >= 0,
            ;
        }
        let prod: u128 = acc as u128 * p10 as u128;
        if prod > RAW_BOUND as u128 {
            return None;
        }
        Some(prod as i64)
    } else {
        proof {
            lemma_ds_prefix_div(s@, gip_s, gip_e, gfp_s, kc as int, dsl as int);
        }
        Some(acc as i64)
    }
}

/// The number token, executably.
pub(crate) fn lex_num_exec(s: &Vec<char>, p: usize) -> (r: Option<(i64, usize)>)
    requires
        p <= s.len(),
    ensures
        r is Some <==> lex_num(s@, p as int) is Some,
        r is Some ==> {
            let (v, end) = r.unwrap();
            lex_num(s@, p as int) == Some((v as int, end as int)) && num_in_range(v as int) && p
                < end <= s.len()
        },
{
    if p >= s.len() {
        return None;
    }
    let neg = s[p] == '-';
    let p1: usize = if s[p] == '-' || s[p] == '+' {
        p + 1
    } else {
        p
    };
    let ip_end = digit_run_end_exec(s, p1);
    let has_dot = ip_end < s.len() && s[ip_end] == '.';
    let fp_start: usize = if has_dot {
        ip_end + 1
    } else {
        ip_end
    };
    let fp_end: usize = if has_dot {
        digit_run_end_exec(s, fp_start)
    } else {
        fp_start
    };
    if ip_end == p1 && fp_end == fp_start {
        return None;
    }
    match lex_exp_exec(s, fp_end) {
        None => None,
        Some((ev, end)) => {
            match num_mag_exec(s, p1, ip_end, fp_start, fp_end, ev) {
                None => None,
                Some(m) => {
                    if neg {
                        Some((-m, end))
                    } else {
                        Some((m, end))
                    }
                },
            }
        },
    }
}

/// A coordinate, executably.
fn lex_coord_exec(s: &Vec<char>, p: usize) -> (r: Option<(i64, usize)>)
    requires
        p <= s.len(),
    ensures
        r is Some <==> lex_coord(s@, p as int) is Some,
        r is Some ==> {
            let (v, end) = r.unwrap();
            lex_coord(s@, p as int) == Some((v as int, end as int)) && num_in_range(v as int) && p
                < end <= s.len()
        },
{
    let q = skip_sep_exec(s, p);
    lex_num_exec(s, q)
}

/// An arc flag, executably.
fn lex_flag_exec(s: &Vec<char>, p: usize) -> (r: Option<(bool, usize)>)
    requires
        p <= s.len(),
    ensures
        r is Some <==> lex_flag(s@, p as int) is Some,
        r is Some ==> {
            let (b, end) = r.unwrap();
            lex_flag(s@, p as int) == Some((b, end as int)) && p < end <= s.len()
        },
{
    let q = skip_sep_exec(s, p);
    if q < s.len() && (s[q] == '0' || s[q] == '1') {
        Some((s[q] == '1', q + 1))
    } else {
        None
    }
}

/// The kind a letter selects, executably.
fn letter_kind_c(c: char) -> (r: CmdKind)
    ensures
        r == letter_kind(c),
{
    if c == 'M' || c == 'm' {
        CmdKind::Move
    } else if c == 'L' || c == 'l' {
        CmdKind::Line
    } else if c == 'H' || c == 'h' {
        CmdKind::Horiz
    } else if c == 'V' || c == 'v' {
        CmdKind::Vert
    } else if c == 'C' || c == 'c' {
        CmdKind::Curve
    } else if c == 'S' || c == 's' {
        CmdKind::Smooth
    } else if c == 'Q' || c == 'q' {
        CmdKind::Quad
    } else if c == 'T' || c == 't' {
        CmdKind::SmoothQuad
    } else {
        CmdKind::Arc
    }
}

/// Whether a character is a command letter, executably.
fn is_cmd_letter_c(c: char) -> (r: bool)
    ensures
        r == is_cmd_letter(c),
{
    c == 'M' || c == 'm' || c == 'L' || c == 'l' || c == 'H' || c == 'h' || c == 'V' || c == 'v'
        || c == 'C' || c == 'c' || c == 'S' || c == 's' || c == 'Q' || c == 'q' || c == 'T' || c
        == 't' || c == 'A' || c == 'a' || c == 'Z' || c == 'z'
}

/// Whether a letter selects absolute mode, executably.
fn letter_abs_c(c: char) -> (r: bool)
    ensures
        r == letter_abs(c),
{
    c == 'M' || c == 'L' || c == 'H' || c == 'V' || c == 'C' || c == 'S' || c == 'Q' || c == 'T'
        || c == 'A' || c == 'Z'
}

/// Wraps a lexed coordinate value, known to be in range.
fn coord_num(v: i64) -> (r: crate::num::Num)
    requires
        num_in_range(v as int),
    ensures
        r@ == v as int,
{
    crate::num::Num::from_raw_in_range(v)
}

/// One operand group, executably.
fn parse_seg_ops_exec(s: &Vec<char>, p: usize, kind: CmdKind, abs: bool) -> (r: Option<
    (PathSegment<crate::num::Num>, usize),
>)
    requires
        p <= s.len(),
    ensures
        r is Some <==> parse_seg_ops(s@, p as int, kind, abs) is Some,
        r is Some ==> {
            let (seg, q) = r.unwrap();
            parse_seg_ops(s@, p as int, kind, abs) == Some((seg@, q as int)) && p < q <= s.len()
        },
{
    match kind {
        CmdKind::Move => {
            let (x, q1) = match lex_coord_exec(s, p) {
                Some(v) => v,
                None => {
                    return None;
                },
            };
            let (y, q2) = match lex_coord_exec(s, q1) {
                Some(v) => v,
                None => {
                    return None;
                },
            };
            Some((PathSegment::MoveTo { abs, x: coord_num(x), y: coord_num(y) }, q2))
        },
        CmdKind::Line => {
            let (x, q1) = match lex_coord_exec(s, p) {
                Some(v) => v,
                None => {
                    return None;
                },
            };
            let (y, q2) = match lex_coord_exec(s, q1) {
                Some(v) => v,
                None => {
                    return None;
                },
            };
            Some((PathSegment::LineTo { abs, x: coord_num(x), y: coord_num(y) }, q2))
        },
        CmdKind::Horiz => {
            let (x, q1) = match lex_coord_exec(s, p) {
                Some(v) => v,
                None => {
                    return None;
                },
            };
            Some((PathSegment::HorizontalLineTo { abs, x: coord_num(x) }, q1))
        },
        CmdKind::Vert => {
            let (y, q1) = match lex_coord_exec(s, p) {
                Some(v) => v,
                None => {
                    return None;
                },
            };
            Some((PathSegment::VerticalLineTo { abs, y: coord_num(y) }, q1))
        },
        CmdKind::Curve => {
            let (x1, q1) = match lex_coord_exec(s, p) {
                Some(v) => v,
                None => {
                    return None;
                },
            };
            let (y1, q2) = match lex_coord_exec(s, q1) {
                Some(v) => v,
                None => {
                    return None;
                },
            };
            let (x2, q3) = match lex_coord_exec(s, q2) {
                Some(v) => v,
                None => {
                    return None;
                },
            };
            let (y2, q4) = match lex_coord_exec(s, q3) {
                Some(v) => v,
                None => {
                    return None;
                },
            };
            let (x, q5) = match lex_coord_exec(s, q4) {
                Some(v) => v,
                None => {
                    return None;
                },
            };
            let (y, q6) = match lex_coord_exec(s, q5) {
                Some(v) => v,
                None => {
                    return None;
                },
            };
            Some(
                (
                    PathSegment::CurveTo {
                        abs,
                        x1: coord_num(x1),
                        y1: coord_num(y1),
                        x2: coord_num(x2),
                        y2: coord_num(y2),
                        x: coord_num(x),
                        y: coord_num(y),
                    },
                    q6,
                ),
            )
        },
        CmdKind::Smooth => {
            let (x2, q1) = match lex_coord_exec(s, p) {
                Some(v) => v,
                None => {
                    return None;
                },
            };
            let (y2, q2) = match lex_coord_exec(s, q1) {
                Some(v) => v,
                None => {
                    return None;
                },
            };
            let (x, q3) = match lex_coord_exec(s, q2) {
                Some(v) => v,
                None => {
                    return None;
                },
            };
            let (y, q4) = match lex_coord_exec(s, q3) {
                Some(v) => v,
                None => {
                    return None;
                },
            };
            Some(
                (
                    PathSegment::SmoothCurveTo {
                        abs,
                        x2: coord_num(x2),
                        y2: coord_num(y2),
                        x: coord_num(x),
                        y: coord_num(y),
                    },
                    q4,
                ),
            )
        },
        CmdKind::Quad => {
            let (x1, q1) = match lex_coord_exec(s, p) {
                Some(v) => v,
                None => {
                    return None;
                },
            };
            let (y1, q2) = match lex_coord_exec(s, q1) {
                Some(v) => v,
                None => {
                    return None;
                },
            };
            let (x, q3) = match lex_coord_exec(s, q2) {
                Some(v) => v,
                None => {
                    return None;
                },
            };
            let (y, q4) = match lex_coord_exec(s, q3) {
                Some(v) => v,
                None => {
                    return None;
                },
            };
            Some(
                (
                    PathSegment::Quadratic {
                        abs,
                        x1: coord_num(x1),
                        y1: coord_num(y1),
                        x: coord_num(x),
                        y: coord_num(y),
                    },
                    q4,
                ),
            )
        },
        CmdKind::SmoothQuad => {
            let (x, q1) = match lex_coord_exec(s, p) {
                Some(v) => v,
                None => {
                    return None;
                },
            };
            let (y, q2) = match lex_coord_exec(s, q1) {
                Some(v) => v,
                None => {
                    return None;
                },
            };
            Some((PathSegment::SmoothQuadratic { abs, x: coord_num(x), y: coord_num(y) }, q2))
        },
        CmdKind::Arc => {
            let (rx, q1) = match lex_coord_exec(s, p) {
                Some(v) => v,
                None => {
                    return None;
                },
            };
            let (ry, q2) = match lex_coord_exec(s, q1) {
                Some(v) => v,
                None => {
                    return None;
                },
            };
            let (rot, q3) = match lex_coord_exec(s, q2) {
                Some(v) => v,
                None => {
                    return None;
                },
            };
            let (laf, q4) = match lex_flag_exec(s, q3) {
                Some(v) => v,
                None => {
                    return None;
                },
            };
            let (swf, q5) = match lex_flag_exec(s, q4) {
                Some(v) => v,
                None => {
                    return None;
                },
            };
            let (x, q6) = match lex_coord_exec(s, q5) {
                Some(v) => v,
                None => {
                    return None;
                },
            };
            let (y, q7) = match lex_coord_exec(s, q6) {
                Some(v) => v,
                None => {
                    return None;
                },
            };
            Some(
                (
                    PathSegment::EllipticalArc {
                        abs,
                        rx: coord_num(rx),
                        ry: coord_num(ry),
                        x_axis_rotation: coord_num(rot),
                        large_arc: laf,
                        sweep: swf,
                        x: coord_num(x),
                        y: coord_num(y),
                    },
                    q7,
                ),
            )
        },
    }
}

/// The commands from `p` to the end, executably; an `Err` carries the
/// position where parsing failed.
fn parse_cmds_exec(s: &Vec<char>, p: usize) -> (r: Result<Vec<crate::seg::SvgItem>, usize>)
    requires
        p <= s.len(),
    ensures
        r is Ok <==> parse_cmds(s@, p as int) is Some,
        r is Ok ==> r.unwrap()@.map_values(|it: crate::seg::SvgItem| it@) == parse_cmds(
            s@,
            p as int,
        ).unwrap(),
    decreases s.len() - p, 1int,
{
    let q = skip_sep_exec(s, p);
    if q == s.len() {
        let out: Vec<crate::seg::SvgItem> = Vec::new();
        proof {
            assert(out@.map_values(|it: crate::seg::SvgItem| it@) =~= Seq::<SegV>::empty());
        }
        return Ok(out);
    }
    let c = s[q];
    if c == 'Z' || c == 'z' {
        match parse_cmds_exec(s, q + 1) {
            Err(e) => Err(e),
            Ok(mut rest) => {
                let item = crate::seg::SvgItem {
                    inner: PathSegment::ClosePath { abs: c == 'Z' },
                };
                let ghost rest0 = rest@;
                rest.insert(0, item);
                proof {
                    assert(rest@.map_values(|it: crate::seg::SvgItem| it@) =~= seq![item@]
                        + rest0.map_values(|it: crate::seg::SvgItem| it@));
                }
                Ok(rest)
            },
        }
    } else if is_cmd_letter_c(c) {
        parse_group_exec(s, q + 1, letter_kind_c(c), letter_abs_c(c))
    } else {
        Err(q)
    }
}

/// One operand group and what follows it, executably.
fn parse_group_exec(s: &Vec<char>, p: usize, kind: CmdKind, abs: bool) -> (r: Result<
    Vec<crate::seg::SvgItem>,
    usize,
>)
    requires
        p <= s.len(),
    ensures
        r is Ok <==> parse_group(s@, p as int, kind, abs) is Some,
        r is Ok ==> r.unwrap()@.map_values(|it: crate::seg::SvgItem| it@) == parse_group(
            s@,
            p as int,
            kind,
            abs,
        ).unwrap(),
    decreases s.len() - p, 0int,
{
    match parse_seg_ops_exec(s, p, kind, abs) {
        None => Err(p),
        Some((seg, q)) => {
            let r = skip_sep_exec(s, q);
            let item = crate::seg::SvgItem { inner: seg };
            let tail = if r < s.len() && starts_number_c(s[r]) {
                parse_group_exec(s, r, if kind == CmdKind::Move {
                    CmdKind::Line
                } else {
                    kind
                }, abs)
            } else {
                parse_cmds_exec(s, r)
            };
            match tail {
                Err(e) => Err(e),
                Ok(mut rest) => {
                    let ghost rest0 = rest@;
                    rest.insert(0, item);
                    proof {
                        assert(rest@.map_values(|it: crate::seg::SvgItem| it@) =~= seq![item@]
                            + rest0.map_values(|it: crate::seg::SvgItem| it@));
                    }
                    Ok(rest)
                },
            }
        },
    }
}

/// Turns text into characters.
pub(crate) fn str_to_chars(s: &str) -> (v: Vec<char>)
    ensures
        v@ == s@,
{
    let n = s.unicode_len();
    let mut v: Vec<char> = Vec::new();
    let mut i: usize = 0;
    while i < n
        invariant
            i <= n,
            n == s@.len(),
            v@ =~= s@.subrange(0, i as int),
        decreases n - i,
    {
        v.push(s.get_char(i));
        i = i + 1;
    }
    proof {
        assert(v@ =~= s@);
    }
    v
}

impl crate::seg::SvgPath {
    /// Parses path text into a document. Fails atomically with a syntax
    /// error, carrying the character offset where parsing stopped, when the
    /// text does not follow the grammar or a literal cannot be represented;
    /// no partial document is returned.
    pub fn parse(path_str: &str) -> (r: Result<crate::seg::SvgPath, crate::error::PathError>)
        ensures
            r is Ok <==> spec_parse(path_str@) is Some,
            r is Ok ==> r.unwrap()@ == spec_parse(path_str@).unwrap(),
            r is Err ==> r.unwrap_err() is Syntax,
    {
        let chars = str_to_chars(path_str);
        match parse_cmds_exec(&chars, 0) {
            Ok(items) => Ok(crate::seg::SvgPath { items }),
            Err(pos) => Err(
                crate::error::PathError::Syntax {
                    message: String::from_str("invalid path data"),
                    offset: pos,
                },
            ),
        }
    }
}

} // verus!
