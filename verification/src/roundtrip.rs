//! The law that parsing inverts serialization: for every well-formed
//! document, parsing its canonical text gives back exactly that document,
//! segment for segment and operand for operand.

use vstd::prelude::*;
use vstd::arithmetic::div_mod::lemma_fundamental_div_mod;
use vstd::arithmetic::div_mod::lemma_multiply_divide_lt;
use crate::num::SCALE;
use crate::num::abs_int;
use crate::num::lemma_pow10_pos;
use crate::num::lemma_pow10_values;
use crate::num::num_in_range;
use crate::num::pow10;
use crate::parse::digit_run_end;
use crate::parse::digit_val;
use crate::parse::digits_val;
use crate::parse::ds_val;
use crate::parse::is_cmd_letter;
use crate::parse::is_digit;
use crate::parse::is_sep;
use crate::parse::lex_num;
use crate::parse::skip_sep;
use crate::render::dec_digits;
use crate::render::dec_digits_w;
use crate::render::digit_char;
use crate::render::render_num;
use crate::render::trim_zeros;
use crate::seg::PathSegment;
use crate::seg::SegV;

verus! {

/// The text `t` stands in `s` at position `p`.
pub open spec fn text_at(s: Seq<char>, p: int, t: Seq<char>) -> bool {
    0 <= p && p + t.len() <= s.len() && s.subrange(p, p + t.len()) == t
}

/// Position `e` cannot extend a number token: the end of the text, or a
/// character that is no digit, no decimal point and no exponent mark.
pub open spec fn num_boundary(s: Seq<char>, e: int) -> bool {
    e == s.len() || (!is_digit(s[e]) && s[e] != '.' && s[e] != 'e' && s[e] != 'E')
}

/// A digit character round-trips through its value.
proof fn lemma_digit_char(d: int)
    requires
        0 <= d < 10,
    ensures
        is_digit(digit_char(d)),
        digit_val(digit_char(d)) == d,
        (digit_char(d) == '0') <==> (d == 0),
{
}

/// The plain decimal digits of `n` are all digits, and there is at least
/// one.
proof fn lemma_dec_digits_all(n: int)
    requires
        n >= 0,
    ensures
        dec_digits(n).len() >= 1,
        forall|i: int| 0 <= i < dec_digits(n).len() ==> is_digit(#[trigger] dec_digits(n)[i]),
    decreases n,
{
    if n < 10 {
        lemma_digit_char(n);
    } else {
        lemma_dec_digits_all(n / 10);
        lemma_digit_char(n % 10);
    }
}

/// The fixed-width decimal digits are all digits and number `w`.
proof fn lemma_dec_digits_w_all(n: int, w: nat)
    requires
        n >= 0,
    ensures
        dec_digits_w(n, w).len() == w,
        forall|i: int| 0 <= i < w ==> is_digit(#[trigger] dec_digits_w(n, w)[i]),
    decreases w,
{
    if w > 0 {
        lemma_dec_digits_w_all(n / 10, (w - 1) as nat);
        lemma_digit_char(n % 10);
    }
}

/// Trimming keeps a prefix of the text.
proof fn lemma_trim_prefix(s: Seq<char>)
    ensures
        trim_zeros(s).len() <= s.len(),
        trim_zeros(s) == s.subrange(0, trim_zeros(s).len() as int),
    decreases s.len(),
{
    if s.len() > 0 && s.last() == '0' {
        lemma_trim_prefix(s.drop_last());
        assert(s.drop_last() =~= s.subrange(0, s.len() - 1));
        assert(trim_zeros(s) =~= s.subrange(0, trim_zeros(s).len() as int));
    } else {
        assert(s =~= s.subrange(0, s.len() as int));
    }
}

/// Digit-run values depend only on the characters.
proof fn lemma_digits_val_congr(s1: Seq<char>, a1: int, s2: Seq<char>, a2: int, n: int)
    requires
        n >= 0,
        forall|j: int| 0 <= j < n ==> s1[a1 + j] == #[trigger] s2[a2 + j],
    ensures
        digits_val(s1, a1, a1 + n) == digits_val(s2, a2, a2 + n),
    decreases n,
{
    if n > 0 {
        lemma_digits_val_congr(s1, a1, s2, a2, n - 1);
        assert(s1[a1 + (n - 1)] == s2[a2 + (n - 1)]);
    }
}

/// The plain decimal digits of `n` read back as `n`.
proof fn lemma_dec_digits_value(n: int)
    requires
        n >= 0,
    ensures
        digits_val(dec_digits(n), 0, dec_digits(n).len() as int) == n,
    decreases n,
{
    if n < 10 {
        lemma_digit_char(n);
        assert(dec_digits(n) == seq![digit_char(n)]);
        assert(dec_digits(n)[0] == digit_char(n));
        assert(digits_val(dec_digits(n), 0, 1) == digits_val(dec_digits(n), 0, 0) * 10
            + digit_val(dec_digits(n)[0]));
    } else {
        lemma_dec_digits_value(n / 10);
        lemma_digit_char(n % 10);
        let pre = dec_digits(n / 10);
        let whole = dec_digits(n);
        assert(whole == pre.push(digit_char(n % 10)));
        assert(forall|j: int| 0 <= j < pre.len() ==> whole[0 + j] == #[trigger] pre[0 + j]);
        lemma_digits_val_congr(whole, 0, pre, 0, pre.len() as int);
        assert(digits_val(whole, 0, whole.len() as int) == digits_val(
            whole,
            0,
            whole.len() - 1,
        ) * 10 + digit_val(whole[whole.len() - 1]));
        assert(digits_val(whole, 0, whole.len() - 1) == n / 10);
        assert(whole[whole.len() - 1] == digit_char(n % 10));
        lemma_fundamental_div_mod(n, 10);
        assert(n == 10 * (n / 10) + n % 10);
        assert(digits_val(whole, 0, whole.len() as int) == n);
    }
}

/// The fixed-width decimal digits of `n < 10^w` read back as `n`.
proof fn lemma_dec_digits_w_value(n: int, w: nat)
    requires
        0 <= n < pow10(w),
    ensures
        digits_val(dec_digits_w(n, w), 0, w as int) == n,
    decreases w,
{
    if w == 0 {
    } else {
        lemma_pow10_pos((w - 1) as nat);
        lemma_multiply_divide_lt(n, pow10((w - 1) as nat), 10);
        lemma_dec_digits_w_value(n / 10, (w - 1) as nat);
        lemma_digit_char(n % 10);
        let pre = dec_digits_w(n / 10, (w - 1) as nat);
        let whole = dec_digits_w(n, w);
        lemma_dec_digits_w_all(n / 10, (w - 1) as nat);
        lemma_dec_digits_w_all(n, w);
        assert(whole == pre.push(digit_char(n % 10)));
        assert(forall|j: int| 0 <= j < pre.len() ==> whole[0 + j] == #[trigger] pre[0 + j]);
        lemma_digits_val_congr(whole, 0, pre, 0, pre.len() as int);
        assert(digits_val(whole, 0, whole.len() - 1) == n / 10);
        assert(whole[whole.len() - 1] == digit_char(n % 10));
        lemma_fundamental_div_mod(n, 10);
        assert(n == 10 * (n / 10) + n % 10);
        assert(digits_val(whole, 0, w as int) == n);
    }
}

/// Trimming trailing zeros divides the value by the matching power of ten.
proof fn lemma_trim_value(s: Seq<char>)
    ensures
        digits_val(s, 0, s.len() as int) == digits_val(
            trim_zeros(s),
            0,
            trim_zeros(s).len() as int,
        ) * pow10((s.len() - trim_zeros(s).len()) as nat),
    decreases s.len(),
{
    lemma_trim_prefix(s);
    if s.len() > 0 && s.last() == '0' {
        lemma_trim_value(s.drop_last());
        let pre = s.drop_last();
        lemma_trim_prefix(pre);
        assert(pre =~= s.subrange(0, s.len() - 1));
        assert(forall|j: int| 0 <= j < pre.len() ==> s[0 + j] == #[trigger] pre[0 + j]);
        lemma_digits_val_congr(s, 0, pre, 0, pre.len() as int);
        assert(digits_val(s, 0, s.len() as int) == digits_val(s, 0, s.len() - 1) * 10 + digit_val(
            s[s.len() - 1],
        ));
        assert(digit_val('0') == 0);
        assert(trim_zeros(s) == trim_zeros(pre));
        assert(digits_val(s, 0, s.len() as int) == digits_val(pre, 0, pre.len() as int) * 10);
        let tv = digits_val(trim_zeros(s), 0, trim_zeros(s).len() as int);
        let z = (pre.len() - trim_zeros(pre).len()) as nat;
        assert(pow10((z + 1) as nat) == 10 * pow10(z));
        assert((tv * pow10(z as nat)) * 10 == tv * pow10((z + 1) as nat)) by (nonlinear_arith)
            requires
                pow10((z + 1) as nat) == 10 * pow10(z as nat),
        ;
        assert(digits_val(s, 0, s.len() as int) == tv * pow10((z + 1) as nat));
        assert((s.len() - trim_zeros(s).len()) as nat == (z + 1) as nat);
    } else {
        assert(trim_zeros(s) == s);
        assert(pow10(0) == 1);
    }
}

/// A run of digits with a boundary behind it is scanned exactly.
proof fn lemma_digit_run_exact(s: Seq<char>, p: int, e: int)
    requires
        0 <= p <= e <= s.len(),
        forall|j: int| p <= j < e ==> is_digit(#[trigger] s[j]),
        e == s.len() || !is_digit(s[e]),
    ensures
        digit_run_end(s, p) == e,
    decreases e - p,
{
    if p < e {
        lemma_digit_run_exact(s, p + 1, e);
    }
}

/// Prefix values over the two digit runs agree with the single-run values.
proof fn lemma_ds_concat(s: Seq<char>, ip_s: int, ip_e: int, fp_s: int, t: int)
    requires
        ip_s <= ip_e,
        0 <= t,
    ensures
        ds_val(s, ip_s, ip_e, fp_s, (ip_e - ip_s) + t) == digits_val(s, ip_s, ip_e) * pow10(
            t as nat,
        ) + digits_val(s, fp_s, fp_s + t),
    decreases t,
{
    let ip_len = ip_e - ip_s;
    if t == 0 {
        lemma_ds_eq_digits(s, ip_s, ip_e, fp_s, ip_len);
        assert(pow10(0) == 1);
    } else {
        lemma_ds_concat(s, ip_s, ip_e, fp_s, t - 1);
        assert(ds_val(s, ip_s, ip_e, fp_s, ip_len + t) == ds_val(s, ip_s, ip_e, fp_s, ip_len + t
            - 1) * 10 + digit_val(s[fp_s + (t - 1)]));
        assert(digits_val(s, fp_s, fp_s + t) == digits_val(s, fp_s, fp_s + t - 1) * 10 + digit_val(
            s[fp_s + t - 1],
        ));
        let ipv = digits_val(s, ip_s, ip_e);
        assert(pow10(t as nat) == 10 * pow10((t - 1) as nat));
        assert((ipv * pow10((t - 1) as nat) + digits_val(s, fp_s, fp_s + t - 1)) * 10 == ipv * (10
            * pow10((t - 1) as nat)) + digits_val(s, fp_s, fp_s + t - 1) * 10) by (nonlinear_arith)
        ;
    }
}

/// The prefix covering exactly the integer digits has their value.
proof fn lemma_ds_eq_digits(s: Seq<char>, ip_s: int, ip_e: int, fp_s: int, j: int)
    requires
        0 <= j <= ip_e - ip_s,
    ensures
        ds_val(s, ip_s, ip_e, fp_s, j) == digits_val(s, ip_s, ip_s + j),
    decreases j,
{
    if j > 0 {
        lemma_ds_eq_digits(s, ip_s, ip_e, fp_s, j - 1);
    }
}

/// One character of a text standing in `s`.
proof fn lemma_text_at_index(s: Seq<char>, p: int, t: Seq<char>, j: int)
    requires
        text_at(s, p, t),
        0 <= j < t.len(),
    ensures
        s[p + j] == t[j],
{
    assert(s.subrange(p, p + t.len())[j] == s[p + j]);
}

/// The number lexer reads a rendered value back exactly: the whole rendered
/// text is consumed and the value returns unchanged.
#[verifier::rlimit(100)]
proof fn lemma_lex_render_num(s: Seq<char>, p: int, v: int)
    requires
        num_in_range(v),
        text_at(s, p, render_num(v)),
        num_boundary(s, p + render_num(v).len()),
    ensures
        lex_num(s, p) == Some((v, p + render_num(v).len())),
{
    lemma_pow10_values();
    let t = render_num(v);
    let m = abs_int(v);
    let q = m / (SCALE as int);
    let f = m % (SCALE as int);
    vstd::arithmetic::div_mod::lemma_div_pos_is_pos(m, SCALE as int);
    vstd::arithmetic::div_mod::lemma_mod_division_less_than_divisor(m, SCALE as int);
    lemma_fundamental_div_mod(m, SCALE as int);
    let sign_len: int = if v < 0 {
        1int
    } else {
        0int
    };
    let ip = dec_digits(q);
    let fw = dec_digits_w(f, 9);
    let fr = trim_zeros(fw);
    lemma_dec_digits_all(q);
    lemma_dec_digits_w_all(f, 9);
    lemma_trim_prefix(fw);
    lemma_dec_digits_value(q);
    let frac: Seq<char> = if f == 0 {
        Seq::empty()
    } else {
        seq!['.'] + fr
    };
    assert(t == (if v < 0 {
        seq!['-']
    } else {
        Seq::<char>::empty()
    }) + ip + frac);
    let b = p + sign_len;
    let ip_e = b + ip.len();
    let end = p + t.len();
    assert(t.len() == sign_len + ip.len() + frac.len());
    // characters of the integer digits, the dot, and the fraction digits
    assert(forall|j: int| 0 <= j < ip.len() ==> t[sign_len + j] == #[trigger] ip[j]);
    assert forall|j: int| b <= j < ip_e implies is_digit(#[trigger] s[j]) by {
        lemma_text_at_index(s, p, t, sign_len + (j - b));
        assert(s[j] == ip[j - b]);
    }
    if v < 0 {
        lemma_text_at_index(s, p, t, 0);
        assert(s[p] == '-');
    } else {
        lemma_text_at_index(s, p, t, 0);
        assert(s[p] == ip[0]);
    }
    // the lexer's sign handling
    assert(0 <= p < s.len());
    let p1 = if s[p] == '-' || s[p] == '+' {
        p + 1
    } else {
        p
    };
    assert(p1 == b);
    // the integer digit run
    if f != 0 {
        assert(t[sign_len + ip.len()] == '.');
        lemma_text_at_index(s, p, t, sign_len + ip.len());
        assert(s[ip_e] == '.');
    } else {
        assert(ip_e == end);
    }
    lemma_digit_run_exact(s, b, ip_e);
    // the fraction digit run
    let fp_s = if f != 0 {
        ip_e + 1
    } else {
        ip_e
    };
    let fp_e = fp_s + (if f != 0 {
        fr.len() as int
    } else {
        0int
    });
    assert(fp_e == end);
    if f != 0 {
        assert(forall|j: int| 0 <= j < fr.len() ==> t[sign_len + ip.len() + 1 + j] == #[trigger] fr[j]);
        assert forall|j: int| fp_s <= j < fp_e implies is_digit(#[trigger] s[j]) by {
            lemma_text_at_index(s, p, t, sign_len + ip.len() + 1 + (j - fp_s));
            assert(s[j] == fr[j - fp_s]);
            assert(fr[j - fp_s] == fw[j - fp_s]);
        }
        lemma_digit_run_exact(s, fp_s, fp_e);
    }
    // values read back
    assert forall|j: int| 0 <= j < ip.len() implies s[b + j] == #[trigger] ip[0 + j] by {
        lemma_text_at_index(s, p, t, sign_len + j);
    }
    lemma_digits_val_congr(s, b, ip, 0, ip.len() as int);
    assert(digits_val(s, b, ip_e) == q);
    let fv = digits_val(fr, 0, fr.len() as int);
    if f != 0 {
        assert forall|j: int| 0 <= j < fr.len() implies s[fp_s + j] == #[trigger] fr[0 + j] by {
            lemma_text_at_index(s, p, t, sign_len + ip.len() + 1 + j);
        }
        lemma_digits_val_congr(s, fp_s, fr, 0, fr.len() as int);
        assert(digits_val(s, fp_s, fp_e) == fv);
        lemma_dec_digits_w_value(f, 9);
        lemma_trim_value(fw);
        assert(f == fv * pow10((9 - fr.len()) as nat));
    }
    // the magnitude comes back as m
    let ip_len = ip.len() as int;
    let fp_len = fp_e - fp_s;
    let dsl = ip_len + fp_len;
    let k = ip_len + 0 + 9;
    assert(fp_len <= 9);
    lemma_ds_concat(s, b, ip_e, fp_s, fp_len);
    let dsv = ds_val(s, b, ip_e, fp_s, dsl);
    assert(dsv == q * pow10(fp_len as nat) + digits_val(s, fp_s, fp_s + fp_len));
    let z = (9 - fp_len) as nat;
    lemma_pow10_add(fp_len as nat, z);
    if f != 0 {
        assert((q * pow10(fp_len as nat) + fv) * pow10(z) == q * (pow10(fp_len as nat) * pow10(z))
            + fv * pow10(z)) by (nonlinear_arith);
        assert(dsv * pow10(z) == q * pow10(9) + f);
    } else {
        assert(digits_val(s, fp_s, fp_s + 0) == 0);
        assert(dsv == q * pow10(fp_len as nat));
        assert((q * pow10(fp_len as nat)) * pow10(z) == q * (pow10(fp_len as nat) * pow10(z)))
            by (nonlinear_arith);
        assert(dsv * pow10(z) == q * pow10(9) + f);
    }
    assert(pow10(9) == SCALE as int);
    assert(dsv * pow10(z) == m);
    assert(crate::parse::num_mag(s, p1, ip_e, fp_s, fp_e, 0) == Some(m));
    // no exponent follows
    assert(crate::parse::lex_exp(s, fp_e) == Some((0int, fp_e)));
    assert(lex_num(s, p) == Some((v, end)));
}

/// A text that stands at `p` splits into its two parts.
proof fn lemma_text_at_split(s: Seq<char>, p: int, a: Seq<char>, b: Seq<char>)
    requires
        text_at(s, p, a + b),
    ensures
        text_at(s, p, a),
        text_at(s, p + a.len(), b),
{
    assert forall|j: int| 0 <= j < (a + b).len() implies s[p + j] == #[trigger] (a + b)[j] by {
        lemma_text_at_index(s, p, a + b, j);
    }
    assert(s.subrange(p, p + a.len()) =~= a);
    assert forall|j: int| 0 <= j < b.len() implies s[p + a.len() + j] == #[trigger] b[j] by {
        assert((a + b)[a.len() + j] == b[j]);
        assert(s[p + (a.len() + j)] == (a + b)[a.len() + j]);
    }
    assert(s.subrange(p + a.len(), p + a.len() + b.len()) =~= b);
}

/// The rendered number is nonempty, and its head is the minus sign for a
/// negative value and a digit otherwise.
proof fn lemma_render_num_head(v: int)
    ensures
        render_num(v).len() >= 1,
        v < 0 ==> render_num(v)[0] == '-',
        v >= 0 ==> is_digit(render_num(v)[0]),
{
    let m = abs_int(v);
    let q = m / (SCALE as int);
    vstd::arithmetic::div_mod::lemma_div_pos_is_pos(m, SCALE as int);
    lemma_dec_digits_all(q);
    if v >= 0 {
        assert(render_num(v)[0] == dec_digits(q)[0]);
    }
}

/// An operand's text cannot extend a preceding number: it starts with a
/// space or a minus sign.
proof fn lemma_op_boundary(s: Seq<char>, e: int, v: int)
    requires
        text_at(s, e, crate::render::op_text(v, false)),
    ensures
        num_boundary(s, e),
{
    lemma_render_num_head(v);
    if v < 0 {
        lemma_text_at_index(s, e, crate::render::op_text(v, false), 0);
    } else {
        lemma_text_at_index(s, e, crate::render::op_text(v, false), 0);
        assert(s[e] == ' ');
    }
}

/// A flag's text cannot extend a preceding number: it starts with a space.
proof fn lemma_flag_boundary(s: Seq<char>, e: int, b: bool)
    requires
        text_at(s, e, crate::render::flag_text(b)),
    ensures
        num_boundary(s, e),
{
    lemma_text_at_index(s, e, crate::render::flag_text(b), 0);
}

/// A command letter or the end of the text cannot extend a number.
proof fn lemma_letter_boundary(s: Seq<char>, e: int)
    requires
        e == s.len() || (0 <= e < s.len() && is_cmd_letter(s[e])),
    ensures
        num_boundary(s, e),
{
}

/// The coordinate lexer reads a rendered operand back exactly, separator
/// included.
proof fn lemma_lex_render_op(s: Seq<char>, p: int, v: int, first: bool)
    requires
        num_in_range(v),
        text_at(s, p, crate::render::op_text(v, first)),
        num_boundary(s, p + crate::render::op_text(v, first).len()),
    ensures
        crate::parse::lex_coord(s, p) == Some(
            (v, p + crate::render::op_text(v, first).len()),
        ),
{
    let t = crate::render::op_text(v, first);
    lemma_render_num_head(v);
    if first || v < 0 {
        lemma_text_at_index(s, p, t, 0);
        assert(!is_sep(s[p]));
        assert(skip_sep(s, p) == p);
        lemma_lex_render_num(s, p, v);
    } else {
        lemma_text_at_split(s, p, seq![' '], render_num(v));
        lemma_text_at_index(s, p, t, 0);
        assert(s[p] == ' ');
        lemma_text_at_index(s, p, t, 1);
        assert(s[p + 1] == render_num(v)[0]);
        assert(!is_sep(s[p + 1]));
        assert(skip_sep(s, p) == skip_sep(s, p + 1));
        assert(skip_sep(s, p + 1) == p + 1);
        lemma_lex_render_num(s, p + 1, v);
    }
}

/// The flag lexer reads a rendered flag back exactly.
proof fn lemma_lex_render_flag(s: Seq<char>, p: int, b: bool)
    requires
        text_at(s, p, crate::render::flag_text(b)),
    ensures
        crate::parse::lex_flag(s, p) == Some((b, p + 2)),
{
    let t = crate::render::flag_text(b);
    lemma_text_at_index(s, p, t, 0);
    lemma_text_at_index(s, p, t, 1);
    assert(s[p] == ' ');
    assert(s[p + 1] == (if b {
        '1'
    } else {
        '0'
    }));
    assert(skip_sep(s, p) == skip_sep(s, p + 1));
    assert(!is_sep(s[p + 1]));
    assert(skip_sep(s, p + 1) == p + 1);
}

/// The command kind a segment renders as; `ClosePath` stands apart.
pub open spec fn seg_kind(sv: SegV) -> crate::parse::CmdKind {
    match sv {
        PathSegment::MoveTo { .. } => crate::parse::CmdKind::Move,
        PathSegment::LineTo { .. } => crate::parse::CmdKind::Line,
        PathSegment::HorizontalLineTo { .. } => crate::parse::CmdKind::Horiz,
        PathSegment::VerticalLineTo { .. } => crate::parse::CmdKind::Vert,
        PathSegment::CurveTo { .. } => crate::parse::CmdKind::Curve,
        PathSegment::SmoothCurveTo { .. } => crate::parse::CmdKind::Smooth,
        PathSegment::Quadratic { .. } => crate::parse::CmdKind::Quad,
        PathSegment::SmoothQuadratic { .. } => crate::parse::CmdKind::SmoothQuad,
        PathSegment::EllipticalArc { .. } => crate::parse::CmdKind::Arc,
        PathSegment::ClosePath { .. } => crate::parse::CmdKind::Move,
    }
}

/// A segment's letter is a command letter that selects the segment's kind
/// and mode; the closing letters select the mode alone.
proof fn lemma_letter_facts(sv: SegV)
    ensures
        is_cmd_letter(crate::seg::seg_letter(sv)),
        !(sv is ClosePath) ==> crate::parse::letter_kind(crate::seg::seg_letter(sv)) == seg_kind(
            sv,
        ) && crate::parse::letter_abs(crate::seg::seg_letter(sv)) == crate::seg::seg_abs(sv)
            && crate::seg::seg_letter(sv) != 'Z' && crate::seg::seg_letter(sv) != 'z',
        sv is ClosePath ==> (crate::seg::seg_letter(sv) == 'Z' || crate::seg::seg_letter(sv)
            == 'z') && ((crate::seg::seg_letter(sv) == 'Z') <==> crate::seg::seg_abs(sv)),
{
}

/// The operand text of any segment but `ClosePath` is nonempty.
proof fn lemma_ops_len(sv: SegV)
    requires
        !(sv is ClosePath),
    ensures
        crate::render::seg_ops_text(sv).len() >= 1,
{
    match sv {
        PathSegment::MoveTo { x, .. } => lemma_render_num_head(x),
        PathSegment::LineTo { x, .. } => lemma_render_num_head(x),
        PathSegment::HorizontalLineTo { x, .. } => lemma_render_num_head(x),
        PathSegment::VerticalLineTo { y, .. } => lemma_render_num_head(y),
        PathSegment::CurveTo { x1, .. } => lemma_render_num_head(x1),
        PathSegment::SmoothCurveTo { x2, .. } => lemma_render_num_head(x2),
        PathSegment::Quadratic { x1, .. } => lemma_render_num_head(x1),
        PathSegment::SmoothQuadratic { x, .. } => lemma_render_num_head(x),
        PathSegment::EllipticalArc { rx, .. } => lemma_render_num_head(rx),
        PathSegment::ClosePath { .. } => {},
    }
}


/// The operand parser reads a rendered cubic curve group back exactly.
#[verifier::rlimit(100)]
proof fn lemma_ops_inverse_curve(s: Seq<char>, p: int, seg: SegV)
    requires
        seg is CurveTo,
        crate::seg::seg_wf(seg),
        text_at(s, p, crate::render::seg_ops_text(seg)),
        num_boundary(s, p + crate::render::seg_ops_text(seg).len()),
    ensures
        crate::parse::parse_seg_ops(s, p, seg_kind(seg), crate::seg::seg_abs(seg)) == Some(
            (seg, p + crate::render::seg_ops_text(seg).len()),
        ),
{
    match seg {
        PathSegment::CurveTo { abs, x1, y1, x2, y2, x, y } => {
            let a1 = crate::render::op_text(x1, true);
            let a2 = crate::render::op_text(y1, false);
            let a3 = crate::render::op_text(x2, false);
            let a4 = crate::render::op_text(y2, false);
            let a5 = crate::render::op_text(x, false);
            let a6 = crate::render::op_text(y, false);
            lemma_text_at_split(s, p, a1 + a2 + a3 + a4 + a5, a6);
            lemma_text_at_split(s, p, a1 + a2 + a3 + a4, a5);
            lemma_text_at_split(s, p, a1 + a2 + a3, a4);
            lemma_text_at_split(s, p, a1 + a2, a3);
            lemma_text_at_split(s, p, a1, a2);
            let p2 = p + a1.len();
            let p3 = p2 + a2.len();
            let p4 = p3 + a3.len();
            let p5 = p4 + a4.len();
            let p6 = p5 + a5.len();
            lemma_op_boundary(s, p2, y1);
            lemma_op_boundary(s, p3, x2);
            lemma_op_boundary(s, p4, y2);
            lemma_op_boundary(s, p5, x);
            lemma_op_boundary(s, p6, y);
            lemma_lex_render_op(s, p, x1, true);
            lemma_lex_render_op(s, p2, y1, false);
            lemma_lex_render_op(s, p3, x2, false);
            lemma_lex_render_op(s, p4, y2, false);
            lemma_lex_render_op(s, p5, x, false);
            lemma_lex_render_op(s, p6, y, false);
        },
        _ => {},
    }
}

/// The operand parser reads a rendered arc group back exactly.
#[verifier::rlimit(100)]
proof fn lemma_ops_inverse_arc(s: Seq<char>, p: int, seg: SegV)
    requires
        seg is EllipticalArc,
        crate::seg::seg_wf(seg),
        text_at(s, p, crate::render::seg_ops_text(seg)),
        num_boundary(s, p + crate::render::seg_ops_text(seg).len()),
    ensures
        crate::parse::parse_seg_ops(s, p, seg_kind(seg), crate::seg::seg_abs(seg)) == Some(
            (seg, p + crate::render::seg_ops_text(seg).len()),
        ),
{
    match seg {
        PathSegment::EllipticalArc { abs, rx, ry, x_axis_rotation, large_arc, sweep, x, y } => {
            let a1 = crate::render::op_text(rx, true);
            let a2 = crate::render::op_text(ry, false);
            let a3 = crate::render::op_text(x_axis_rotation, false);
            let a4 = crate::render::flag_text(large_arc);
            let a5 = crate::render::flag_text(sweep);
            let a6 = crate::render::op_text(x, false);
            let a7 = crate::render::op_text(y, false);
            lemma_text_at_split(s, p, a1 + a2 + a3 + a4 + a5 + a6, a7);
            lemma_text_at_split(s, p, a1 + a2 + a3 + a4 + a5, a6);
            lemma_text_at_split(s, p, a1 + a2 + a3 + a4, a5);
            lemma_text_at_split(s, p, a1 + a2 + a3, a4);
            lemma_text_at_split(s, p, a1 + a2, a3);
            lemma_text_at_split(s, p, a1, a2);
            let p2 = p + a1.len();
            let p3 = p2 + a2.len();
            let p4 = p3 + a3.len();
            let p5 = p4 + a4.len();
            let p6 = p5 + a5.len();
            let p7 = p6 + a6.len();
            lemma_op_boundary(s, p2, ry);
            lemma_op_boundary(s, p3, x_axis_rotation);
            lemma_flag_boundary(s, p4, large_arc);
            lemma_flag_boundary(s, p5, sweep);
            lemma_op_boundary(s, p6, x);
            lemma_op_boundary(s, p7, y);
            lemma_lex_render_op(s, p, rx, true);
            lemma_lex_render_op(s, p2, ry, false);
            lemma_lex_render_op(s, p3, x_axis_rotation, false);
            lemma_lex_render_flag(s, p4, large_arc);
            lemma_lex_render_flag(s, p5, sweep);
            lemma_lex_render_op(s, p6, x, false);
            lemma_lex_render_op(s, p7, y, false);
        },
        _ => {},
    }
}

/// The operand parser reads a rendered four-operand group back exactly.
#[verifier::rlimit(100)]
proof fn lemma_ops_inverse_four(s: Seq<char>, p: int, seg: SegV)
    requires
        seg is SmoothCurveTo || seg is Quadratic,
        crate::seg::seg_wf(seg),
        text_at(s, p, crate::render::seg_ops_text(seg)),
        num_boundary(s, p + crate::render::seg_ops_text(seg).len()),
    ensures
        crate::parse::parse_seg_ops(s, p, seg_kind(seg), crate::seg::seg_abs(seg)) == Some(
            (seg, p + crate::render::seg_ops_text(seg).len()),
        ),
{
    match seg {
        PathSegment::SmoothCurveTo { abs, x2, y2, x, y } => {
            let a1 = crate::render::op_text(x2, true);
            let a2 = crate::render::op_text(y2, false);
            let a3 = crate::render::op_text(x, false);
            let a4 = crate::render::op_text(y, false);
            lemma_text_at_split(s, p, a1 + a2 + a3, a4);
            lemma_text_at_split(s, p, a1 + a2, a3);
            lemma_text_at_split(s, p, a1, a2);
            let p2 = p + a1.len();
            let p3 = p2 + a2.len();
            let p4 = p3 + a3.len();
            lemma_op_boundary(s, p2, y2);
            lemma_op_boundary(s, p3, x);
            lemma_op_boundary(s, p4, y);
            lemma_lex_render_op(s, p, x2, true);
            lemma_lex_render_op(s, p2, y2, false);
            lemma_lex_render_op(s, p3, x, false);
            lemma_lex_render_op(s, p4, y, false);
        },
        PathSegment::Quadratic { abs, x1, y1, x, y } => {
            let a1 = crate::render::op_text(x1, true);
            let a2 = crate::render::op_text(y1, false);
            let a3 = crate::render::op_text(x, false);
            let a4 = crate::render::op_text(y, false);
            lemma_text_at_split(s, p, a1 + a2 + a3, a4);
            lemma_text_at_split(s, p, a1 + a2, a3);
            lemma_text_at_split(s, p, a1, a2);
            let p2 = p + a1.len();
            let p3 = p2 + a2.len();
            let p4 = p3 + a3.len();
            lemma_op_boundary(s, p2, y1);
            lemma_op_boundary(s, p3, x);
            lemma_op_boundary(s, p4, y);
            lemma_lex_render_op(s, p, x1, true);
            lemma_lex_render_op(s, p2, y1, false);
            lemma_lex_render_op(s, p3, x, false);
            lemma_lex_render_op(s, p4, y, false);
        },
        _ => {},
    }
}

/// The operand parser reads a rendered operand group back exactly.
#[verifier::rlimit(100)]
proof fn lemma_seg_ops_inverse(s: Seq<char>, p: int, seg: SegV)
    requires
        crate::seg::seg_wf(seg),
        !(seg is ClosePath),
        text_at(s, p, crate::render::seg_ops_text(seg)),
        num_boundary(s, p + crate::render::seg_ops_text(seg).len()),
    ensures
        crate::parse::parse_seg_ops(s, p, seg_kind(seg), crate::seg::seg_abs(seg)) == Some(
            (seg, p + crate::render::seg_ops_text(seg).len()),
        ),
{
    match seg {
        PathSegment::MoveTo { abs, x, y } => {
            let a1 = crate::render::op_text(x, true);
            let a2 = crate::render::op_text(y, false);
            lemma_text_at_split(s, p, a1, a2);
            lemma_op_boundary(s, p + a1.len(), y);
            lemma_lex_render_op(s, p, x, true);
            lemma_lex_render_op(s, p + a1.len(), y, false);
        },
        PathSegment::LineTo { abs, x, y } => {
            let a1 = crate::render::op_text(x, true);
            let a2 = crate::render::op_text(y, false);
            lemma_text_at_split(s, p, a1, a2);
            lemma_op_boundary(s, p + a1.len(), y);
            lemma_lex_render_op(s, p, x, true);
            lemma_lex_render_op(s, p + a1.len(), y, false);
        },
        PathSegment::HorizontalLineTo { abs, x } => {
            lemma_lex_render_op(s, p, x, true);
        },
        PathSegment::VerticalLineTo { abs, y } => {
            lemma_lex_render_op(s, p, y, true);
        },
        PathSegment::CurveTo { .. } => {
            lemma_ops_inverse_curve(s, p, seg);
        },
        PathSegment::SmoothCurveTo { .. } => {
            lemma_ops_inverse_four(s, p, seg);
        },
        PathSegment::Quadratic { .. } => {
            lemma_ops_inverse_four(s, p, seg);
        },
        PathSegment::SmoothQuadratic { abs, x, y } => {
            let a1 = crate::render::op_text(x, true);
            let a2 = crate::render::op_text(y, false);
            lemma_text_at_split(s, p, a1, a2);
            lemma_op_boundary(s, p + a1.len(), y);
            lemma_lex_render_op(s, p, x, true);
            lemma_lex_render_op(s, p + a1.len(), y, false);
        },
        PathSegment::EllipticalArc { .. } => {
            lemma_ops_inverse_arc(s, p, seg);
        },
        PathSegment::ClosePath { .. } => {},
    }
}

/// The command parser reads a rendered document suffix back exactly.
#[verifier::rlimit(100)]
proof fn lemma_parse_render_at(s: Seq<char>, p: int, d: Seq<SegV>)
    requires
        crate::seg::doc_wf(d),
        text_at(s, p, crate::render::render_doc(d)),
        p + crate::render::render_doc(d).len() == s.len(),
    ensures
        crate::parse::parse_cmds(s, p) == Some(d),
    decreases d.len(),
{
    let t = crate::render::render_doc(d);
    if d.len() == 0 {
        assert(p == s.len());
        assert(skip_sep(s, p) == p);
    } else {
        let seg = d[0];
        let rest = d.skip(1);
        let seg_t = crate::render::render_seg(seg);
        let rest_t = crate::render::render_doc(rest);
        assert(t == seg_t + rest_t);
        lemma_text_at_split(s, p, seg_t, rest_t);
        lemma_text_at_split(s, p, seq![crate::seg::seg_letter(seg)], crate::render::seg_ops_text(
            seg,
        ));
        lemma_letter_facts(seg);
        lemma_text_at_index(s, p, seq![crate::seg::seg_letter(seg)], 0);
        assert(s[p] == crate::seg::seg_letter(seg));
        assert(!is_sep(s[p]));
        assert(skip_sep(s, p) == p);
        assert(forall|j: int| 0 <= j < rest.len() ==> #[trigger] rest[j] == d[j + 1]);
        assert(crate::seg::doc_wf(rest));
        let q2 = p + seg_t.len();
        if rest.len() > 0 {
            lemma_letter_facts(rest[0]);
            assert(crate::render::render_doc(rest) == crate::render::render_seg(rest[0])
                + crate::render::render_doc(rest.skip(1)));
            lemma_text_at_index(s, q2, rest_t, 0);
            assert(rest_t[0] == crate::render::render_seg(rest[0])[0]);
            assert(crate::render::render_seg(rest[0])[0] == crate::seg::seg_letter(rest[0]));
            assert(s[q2] == crate::seg::seg_letter(rest[0]));
            assert(is_cmd_letter(s[q2]));
        } else {
            assert(q2 == s.len());
        }
        lemma_letter_boundary(s, q2);
        if seg is ClosePath {
            assert(seg_t.len() == 1);
            lemma_parse_render_at(s, p + 1, rest);
            assert(seq![PathSegment::ClosePath { abs: s[p] == 'Z' }] + rest =~= d);
        } else {
            lemma_ops_len(seg);
            lemma_seg_ops_inverse(s, p + 1, seg);
            assert(skip_sep(s, q2) == q2);
            assert(q2 < s.len() ==> !crate::parse::starts_number(s[q2]));
            lemma_parse_render_at(s, q2, rest);
            assert(crate::parse::parse_group(
                s,
                p + 1,
                seg_kind(seg),
                crate::seg::seg_abs(seg),
            ) == Some(seq![seg] + rest));
            assert(seq![seg] + rest =~= d);
        }
    }
}

/// Parsing inverts serialization: the canonical text of any well-formed
/// document parses back to exactly that document, so serializing and then
/// re-parsing preserves every segment and with it every resolved endpoint.
pub proof fn lemma_parse_inverts_render(d: Seq<SegV>)
    requires
        crate::seg::doc_wf(d),
    ensures
        crate::parse::spec_parse(crate::render::render_doc(d)) == Some(d),
        crate::track::endpoints(crate::parse::spec_parse(crate::render::render_doc(d)).unwrap())
            == crate::track::endpoints(d),
{
    let s = crate::render::render_doc(d);
    assert(s.subrange(0, s.len() as int) =~= s);
    lemma_parse_render_at(s, 0, d);
}

/// Powers of ten multiply by adding exponents.
proof fn lemma_pow10_add(a: nat, b: nat)
    ensures
        pow10(a + b) == pow10(a) * pow10(b),
    decreases a,
{
    if a == 0 {
        assert(pow10(b) == 1 * pow10(b));
    } else {
        lemma_pow10_add((a - 1) as nat, b);
        assert(pow10(a + b) == 10 * pow10(((a - 1) + b) as nat));
        assert(10 * (pow10((a - 1) as nat) * pow10(b)) == (10 * pow10((a - 1) as nat)) * pow10(
            b,
        )) by (nonlinear_arith);
    }
}

/// A lexed number's value lies in the representable range.
proof fn lemma_lex_num_range(s: Seq<char>, p: int)
    ensures
        lex_num(s, p) is Some ==> num_in_range(lex_num(s, p).unwrap().0),
{
    if lex_num(s, p) is Some {
        let p1 = if s[p] == '-' || s[p] == '+' {
            p + 1
        } else {
            p
        };
        let ip_end = digit_run_end(s, p1);
        let has_dot = ip_end < s.len() && s[ip_end] == '.';
        let fp_start = if has_dot {
            ip_end + 1
        } else {
            ip_end
        };
        let fp_end = if has_dot {
            digit_run_end(s, fp_start)
        } else {
            fp_start
        };
        match crate::parse::lex_exp(s, fp_end) {
            None => {},
            Some((ev, end)) => {
                let ip_len = ip_end - p1;
                let fp_len = fp_end - fp_start;
                let dsl = ip_len + fp_len;
                let k = ip_len + ev + 9;
                crate::parse::lemma_ds_val_nonneg(s, p1, ip_end, fp_start, dsl);
                let dsv = ds_val(s, p1, ip_end, fp_start, dsl);
                if k > 0 && k >= dsl {
                    lemma_pow10_pos((k - dsl) as nat);
                    assert(dsv * pow10((k - dsl) as nat) >= 0) by (nonlinear_arith)
                        requires
                            dsv >= 0,
                            pow10((k - dsl) as nat) >= 0,
                    ;
                } else if k > 0 {
                    lemma_pow10_pos((dsl - k) as nat);
                    vstd::arithmetic::div_mod::lemma_div_pos_is_pos(
                        dsv,
                        pow10((dsl - k) as nat),
                    );
                }
            },
        }
    }
}

/// A lexed coordinate's value lies in the representable range.
proof fn lemma_lex_coord_range(s: Seq<char>, p: int)
    ensures
        crate::parse::lex_coord(s, p) is Some ==> num_in_range(
            crate::parse::lex_coord(s, p).unwrap().0,
        ),
{
    lemma_lex_num_range(s, skip_sep(s, p));
}

/// A parsed operand group is a well-formed segment.
proof fn lemma_seg_ops_wf(s: Seq<char>, p: int, kind: crate::parse::CmdKind, abs: bool)
    ensures
        crate::parse::parse_seg_ops(s, p, kind, abs) is Some ==> crate::seg::seg_wf(
            crate::parse::parse_seg_ops(s, p, kind, abs).unwrap().0,
        ),
{
    if crate::parse::parse_seg_ops(s, p, kind, abs) is Some {
        lemma_lex_coord_range(s, p);
        if crate::parse::lex_coord(s, p) is Some {
            let q1 = crate::parse::lex_coord(s, p).unwrap().1;
            lemma_lex_coord_range(s, q1);
            if crate::parse::lex_coord(s, q1) is Some {
                let q2 = crate::parse::lex_coord(s, q1).unwrap().1;
                lemma_lex_coord_range(s, q2);
                if crate::parse::lex_coord(s, q2) is Some {
                    let q3 = crate::parse::lex_coord(s, q2).unwrap().1;
                    lemma_lex_coord_range(s, q3);
                    if crate::parse::lex_coord(s, q3) is Some {
                        let q4 = crate::parse::lex_coord(s, q3).unwrap().1;
                        lemma_lex_coord_range(s, q4);
                        if crate::parse::lex_coord(s, q4) is Some {
                            let q5 = crate::parse::lex_coord(s, q4).unwrap().1;
                            lemma_lex_coord_range(s, q5);
                        }
                    }
                    if crate::parse::lex_flag(s, q3) is Some {
                        let f4 = crate::parse::lex_flag(s, q3).unwrap().1;
                        if crate::parse::lex_flag(s, f4) is Some {
                            let f5 = crate::parse::lex_flag(s, f4).unwrap().1;
                            lemma_lex_coord_range(s, f5);
                            if crate::parse::lex_coord(s, f5) is Some {
                                let q6 = crate::parse::lex_coord(s, f5).unwrap().1;
                                lemma_lex_coord_range(s, q6);
                            }
                        }
                    }
                }
            }
        }
    }
}

/// Whatever the command parser accepts is a well-formed document.
proof fn lemma_parse_cmds_wf(s: Seq<char>, p: int)
    ensures
        crate::parse::parse_cmds(s, p) is Some ==> crate::seg::doc_wf(
            crate::parse::parse_cmds(s, p).unwrap(),
        ),
    decreases s.len() - p, 1int,
{
    let q = skip_sep(s, p);
    if p <= q <= s.len() && q < s.len() && is_cmd_letter(s[q]) {
        if s[q] == 'Z' || s[q] == 'z' {
            lemma_parse_cmds_wf(s, q + 1);
        } else {
            lemma_parse_group_wf(s, q + 1, crate::parse::letter_kind(s[q]),
                crate::parse::letter_abs(s[q]));
        }
    }
}

/// Whatever the group parser accepts is a well-formed document.
proof fn lemma_parse_group_wf(s: Seq<char>, p: int, kind: crate::parse::CmdKind, abs: bool)
    ensures
        crate::parse::parse_group(s, p, kind, abs) is Some ==> crate::seg::doc_wf(
            crate::parse::parse_group(s, p, kind, abs).unwrap(),
        ),
    decreases s.len() - p, 0int,
{
    lemma_seg_ops_wf(s, p, kind, abs);
    match crate::parse::parse_seg_ops(s, p, kind, abs) {
        None => {},
        Some((seg, q)) => {
            let r = skip_sep(s, q);
            if p < r <= s.len() {
                if r < s.len() && crate::parse::starts_number(s[r]) {
                    lemma_parse_group_wf(s, r, crate::parse::next_kind(kind), abs);
                } else {
                    lemma_parse_cmds_wf(s, r);
                }
            }
        },
    }
}

/// A parsed document is well formed: every operand the grammar accepts lies
/// in the representable range.
pub proof fn lemma_parse_wf(s: Seq<char>)
    ensures
        crate::parse::spec_parse(s) is Some ==> crate::seg::doc_wf(
            crate::parse::spec_parse(s).unwrap(),
        ),
{
    lemma_parse_cmds_wf(s, 0);
}

/// Re-serializing what was parsed and parsing it again gives the same
/// document back, and with it the same resolved endpoints.
pub proof fn lemma_reparse_canonical_text(s: Seq<char>)
    requires
        crate::parse::spec_parse(s) is Some,
    ensures
        crate::parse::spec_parse(crate::render::render_doc(crate::parse::spec_parse(s).unwrap()))
            == crate::parse::spec_parse(s),
{
    lemma_parse_wf(s);
    lemma_parse_inverts_render(crate::parse::spec_parse(s).unwrap());
}

} // verus!
