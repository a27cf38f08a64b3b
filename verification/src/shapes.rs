//! Converters from the other basic shape attributes to path data text:
//! polylines, lines, polygons, rectangles, circles and ellipses.

use vstd::prelude::*;
use vstd::string::StrSliceExecFns;
use vstd::string::StringExecFns;
use crate::num::Num;
use crate::num::num_in_range;
use crate::parse::is_ws;
use crate::parse::lex_num;
use crate::parse::lex_num_exec;
use crate::parse::str_to_chars;
use crate::render::push_num;
use crate::render::render_num;

verus! {

/// The first position at or after `p` that holds no whitespace.
pub open spec fn skip_ws(s: Seq<char>, p: int) -> int
    decreases s.len() - p,
{
    if p < s.len() && p >= 0 && is_ws(s[p]) {
        skip_ws(s, p + 1)
    } else {
        p
    }
}

/// The first position at or after `p` that holds whitespace, or the end.
pub open spec fn word_end(s: Seq<char>, p: int) -> int
    decreases s.len() - p,
{
    if p < s.len() && p >= 0 && !is_ws(s[p]) {
        word_end(s, p + 1)
    } else {
        p
    }
}

/// The whitespace-separated words from position `p` on.
pub open spec fn words_from(s: Seq<char>, p: int) -> Seq<Seq<char>>
    decreases s.len() - p,
{
    let q = skip_ws(s, p);
    if !(p <= q < s.len()) {
        Seq::empty()
    } else {
        let e = word_end(s, q);
        if q < e <= s.len() {
            seq![s.subrange(q, e)] + words_from(s, e)
        } else {
            Seq::empty()
        }
    }
}

/// Skipping whitespace stays inside the text.
pub proof fn lemma_skip_ws_bounds(s: Seq<char>, p: int)
    requires
        0 <= p <= s.len(),
    ensures
        p <= skip_ws(s, p) <= s.len(),
    decreases s.len() - p,
{
    if p < s.len() && is_ws(s[p]) {
        lemma_skip_ws_bounds(s, p + 1);
    }
}

/// A word's end stays inside the text.
pub proof fn lemma_word_end_bounds(s: Seq<char>, p: int)
    requires
        0 <= p <= s.len(),
    ensures
        p <= word_end(s, p) <= s.len(),
    decreases s.len() - p,
{
    if p < s.len() && !is_ws(s[p]) {
        lemma_word_end_bounds(s, p + 1);
    }
}

/// The whitespace-separated words of a text.
pub open spec fn spec_words(s: Seq<char>) -> Seq<Seq<char>> {
    words_from(s, 0)
}

/// The path text for the coordinate pairs `ws[i..]`: a move to the first
/// pair, lines to the rest.
pub open spec fn pairs_text(ws: Seq<Seq<char>>, i: int) -> Seq<char>
    decreases ws.len() + 2 - i,
{
    if !(0 <= i < ws.len()) {
        Seq::empty()
    } else {
        (if i == 0 {
            seq!['M', ' ']
        } else {
            seq![' ', 'L', ' ']
        }) + ws[i] + seq![' '] + ws[i + 1] + pairs_text(ws, i + 2)
    }
}

/// A full numeric literal: the number grammar, consuming the whole text.
pub open spec fn num_lit(s: Seq<char>) -> Option<int> {
    match lex_num(s, 0) {
        Some((v, end)) => if end == s.len() {
            Some(v)
        } else {
            None
        },
        None => None,
    }
}

/// Whether a character is whitespace, executably.
fn ws_c(c: char) -> (r: bool)
    ensures
        r == is_ws(c),
{
    c == ' ' || c == '\t' || c == '\n' || c == '\r' || c == '\u{0b}' || c == '\u{0c}'
}

/// Skips whitespace, executably.
fn skip_ws_exec(s: &str, p: usize) -> (r: usize)
    requires
        p <= s@.len(),
    ensures
        r as int == skip_ws(s@, p as int),
        p <= r <= s@.len(),
        r as int == s@.len() || !is_ws(s@[r as int]),
{
    let n = s.unicode_len();
    let mut q = p;
    while q < n && ws_c(s.get_char(q))
        invariant
            p <= q <= n,
            n == s@.len(),
            skip_ws(s@, p as int) == skip_ws(s@, q as int),
        decreases n - q,
    {
        q = q + 1;
    }
    q
}

/// Finds the end of a word, executably.
fn word_end_exec(s: &str, p: usize) -> (r: usize)
    requires
        p <= s@.len(),
    ensures
        r as int == word_end(s@, p as int),
        p <= r <= s@.len(),
        r as int == s@.len() || is_ws(s@[r as int]),
{
    let n = s.unicode_len();
    let mut q = p;
    while q < n && !ws_c(s.get_char(q))
        invariant
            p <= q <= n,
            n == s@.len(),
            word_end(s@, p as int) == word_end(s@, q as int),
        decreases n - q,
    {
        q = q + 1;
    }
    q
}

/// Converts a whitespace-separated list of coordinates to path data: a move
/// to the first pair, then a line to each following pair. The list must
/// hold an even number of words.
#[verifier::loop_isolation(false)]
pub fn polyline_to_path(points: &str) -> (r: String)
    requires
        spec_words(points@).len() % 2 == 0,
    ensures
        r@ == pairs_text(spec_words(points@), 0),
{
    let ghost ws = spec_words(points@);
    let n = points.unicode_len();
    let mut out = String::new();
    let mut p: usize = 0;
    let mut first: bool = true;
    let ghost mut widx: int = 0;
    proof {
        reveal_strlit("M ");
        reveal_strlit(" L ");
        reveal_strlit(" ");
        assert(out@ + pairs_text(ws, 0) =~= pairs_text(ws, 0));
    }
    loop
        invariant
            p <= n,
            n == points@.len(),
            0 <= widx <= ws.len(),
            widx % 2 == 0,
            ws.len() % 2 == 0,
            first == (widx == 0),
            ws == spec_words(points@),
            words_from(points@, p as int) == ws.skip(widx),
            out@ + pairs_text(ws, widx) == pairs_text(ws, 0),
        decreases n - p,
    {
        let q = skip_ws_exec(points, p);
        if q == n {
            proof {
                assert(ws.skip(widx) =~= Seq::<Seq<char>>::empty());
                assert(widx == ws.len());
                assert(out@ + pairs_text(ws, widx) =~= out@);
            }
            return out;
        }
        let e = word_end_exec(points, q);
        proof {
            assert(word_end(points@, q as int) == word_end(points@, q as int + 1));
            lemma_word_end_bounds(points@, q as int + 1);
            assert(e > q);
            assert(ws.skip(widx)[0] == points@.subrange(q as int, e as int));
            assert(ws.skip(widx).skip(1) =~= words_from(points@, e as int));
            assert(ws[widx] == points@.subrange(q as int, e as int));
        }
        let q2 = skip_ws_exec(points, e);
        proof {
            if q2 == n {
                assert(words_from(points@, e as int) =~= Seq::<Seq<char>>::empty());
                assert(widx + 1 == ws.len());
                assert(false);
            }
        }
        let e2 = word_end_exec(points, q2);
        proof {
            assert(word_end(points@, q2 as int) == word_end(points@, q2 as int + 1));
            lemma_word_end_bounds(points@, q2 as int + 1);
            assert(e2 > q2);
            assert(words_from(points@, e as int)[0] == points@.subrange(q2 as int, e2 as int));
            assert(words_from(points@, e as int).skip(1) =~= words_from(points@, e2 as int));
            assert(ws[widx + 1] == points@.subrange(q2 as int, e2 as int));
            assert(ws.skip(widx + 2) =~= words_from(points@, e2 as int));
        }
        if first {
            out.append("M ");
        } else {
            out.append(" L ");
        }
        first = false;
        out.append(points.substring_char(q, e));
        out.append(" ");
        out.append(points.substring_char(q2, e2));
        proof {
            assert("M "@ =~= seq!['M', ' ']);
            assert(" L "@ =~= seq![' ', 'L', ' ']);
            assert(" "@ =~= seq![' ']);
            assert(out@ + pairs_text(ws, widx + 2) =~= pairs_text(ws, 0));
        }
        p = e2;
        proof {
            widx = widx + 2;
        }
    }
}

/// Converts a polygon's coordinate list to path data: the polyline path,
/// closed. The list must hold an even number of words.
pub fn polygon_to_path(points: &str) -> (r: String)
    requires
        spec_words(points@).len() % 2 == 0,
    ensures
        r@ == pairs_text(spec_words(points@), 0) + seq!['Z'],
{
    let mut out = polyline_to_path(points);
    proof {
        reveal_strlit("Z");
    }
    out.append("Z");
    proof {
        assert(out@ =~= pairs_text(spec_words(points@), 0) + seq!['Z']);
    }
    out
}

/// Converts a line's endpoints to path data.
pub fn line_to_path(x1: &str, y1: &str, x2: &str, y2: &str) -> (r: String)
    ensures
        r@ == seq!['M', ' '] + x1@ + seq![' '] + y1@ + seq![' ', 'L', ' '] + x2@ + seq![' ']
            + y2@,
{
    proof {
        reveal_strlit("M ");
        reveal_strlit(" L ");
        reveal_strlit(" ");
    }
    let mut out = String::new();
    out.append("M ");
    out.append(x1);
    out.append(" ");
    out.append(y1);
    out.append(" L ");
    out.append(x2);
    out.append(" ");
    out.append(y2);
    proof {
        assert(out@ =~= seq!['M', ' '] + x1@ + seq![' '] + y1@ + seq![' ', 'L', ' '] + x2@
            + seq![' '] + y2@);
    }
    out
}

/// Converts a rectangle's position and size to path data.
pub fn rect_to_path(x: &str, y: &str, width: &str, height: &str) -> (r: String)
    ensures
        r@ == seq!['M', ' '] + x@ + seq![' '] + y@ + seq![' ', 'h', ' '] + width@ + seq![
            ' ',
            'v',
            ' ',
        ] + height@ + seq![' ', 'h', ' ', '-'] + width@ + seq![' ', 'Z'],
{
    proof {
        reveal_strlit("M ");
        reveal_strlit(" ");
        reveal_strlit(" h ");
        reveal_strlit(" v ");
        reveal_strlit(" h -");
        reveal_strlit(" Z");
    }
    let mut out = String::new();
    out.append("M ");
    out.append(x);
    out.append(" ");
    out.append(y);
    out.append(" h ");
    out.append(width);
    out.append(" v ");
    out.append(height);
    out.append(" h -");
    out.append(width);
    out.append(" Z");
    proof {
        assert(out@ =~= seq!['M', ' '] + x@ + seq![' '] + y@ + seq![' ', 'h', ' '] + width@
            + seq![' ', 'v', ' '] + height@ + seq![' ', 'h', ' ', '-'] + width@ + seq![' ', 'Z']);
    }
    out
}

/// Converts a circle's centre and radius to path data: a move to the
/// centre, a relative offset by the radius, and two arcs. The radius must
/// be a numeric literal whose double is representable.
pub fn circle_to_path(cx: &str, cy: &str, r: &str) -> (res: String)
    requires
        num_lit(r@) is Some,
        num_in_range(2 * num_lit(r@).unwrap()),
    ensures
        res@ == seq!['M', ' '] + cx@ + seq![' '] + cy@ + seq![' ', 'm', ' '] + r@ + seq![
            ',',
            ' ',
            '0',
            'a',
            ' ',
        ] + r@ + seq![','] + r@ + seq![' ', '0', ' ', '1', ',', '0', ' ', '-'] + render_num(
            2 * num_lit(r@).unwrap(),
        ) + seq![',', '0', ' ', 'a', ' '] + r@ + seq![','] + r@ + seq![
            ' ',
            '0',
            ' ',
            '1',
            ',',
            '0',
            ' ',
        ] + render_num(2 * num_lit(r@).unwrap()) + seq![',', '0'],
{
    proof {
        reveal_strlit("M ");
        reveal_strlit(" ");
        reveal_strlit(" m ");
        reveal_strlit(", 0a ");
        reveal_strlit(",");
        reveal_strlit(" 0 1,0 -");
        reveal_strlit(",0 a ");
        reveal_strlit(" 0 1,0 ");
        reveal_strlit(",0");
    }
    let chars = str_to_chars(r);
    let rv: i64 = match lex_num_exec(&chars, 0) {
        Some(t) => t.0,
        None => {
            proof {
                assert(false);
            }
            0
        },
    };
    let dr: Num = Num::from_raw_in_range(rv + rv);
    let mut out = String::new();
    out.append("M ");
    out.append(cx);
    out.append(" ");
    out.append(cy);
    out.append(" m ");
    out.append(r);
    out.append(", 0a ");
    out.append(r);
    out.append(",");
    out.append(r);
    out.append(" 0 1,0 -");
    push_num(&mut out, dr);
    out.append(",0 a ");
    out.append(r);
    out.append(",");
    out.append(r);
    out.append(" 0 1,0 ");
    push_num(&mut out, dr);
    out.append(",0");
    proof {
        assert(out@ =~= seq!['M', ' '] + cx@ + seq![' '] + cy@ + seq![' ', 'm', ' '] + r@ + seq![
            ',',
            ' ',
            '0',
            'a',
            ' ',
        ] + r@ + seq![','] + r@ + seq![' ', '0', ' ', '1', ',', '0', ' ', '-'] + render_num(
            2 * num_lit(r@).unwrap(),
        ) + seq![',', '0', ' ', 'a', ' '] + r@ + seq![','] + r@ + seq![
            ' ',
            '0',
            ' ',
            '1',
            ',',
            '0',
            ' ',
        ] + render_num(2 * num_lit(r@).unwrap()) + seq![',', '0']);
    }
    out
}

/// Converts an ellipse's centre and radii to path data: a move to the left
/// edge and two arcs. The centre's x and the x radius must be numeric
/// literals whose difference and double are representable.
pub fn ellipse_to_path(cx: &str, cy: &str, rx: &str, ry: &str) -> (res: String)
    requires
        num_lit(cx@) is Some,
        num_lit(rx@) is Some,
        num_in_range(num_lit(cx@).unwrap() - num_lit(rx@).unwrap()),
        num_in_range(2 * num_lit(rx@).unwrap()),
    ensures
        res@ == seq!['M'] + render_num(num_lit(cx@).unwrap() - num_lit(rx@).unwrap()) + seq![' ']
            + cy@ + seq![' ', 'a'] + rx@ + seq![' '] + ry@ + seq![' ', '0', ' ', '1', ',', '0', ' ']
            + render_num(2 * num_lit(rx@).unwrap()) + seq![' ', '0', ' ', 'a'] + rx@ + seq![' ']
            + ry@ + seq![' ', '0', ' ', '1', ',', '0', ' ', '-'] + render_num(
            2 * num_lit(rx@).unwrap(),
        ) + seq![' ', '0', ' ', 'Z'],
{
    proof {
        reveal_strlit("M");
        reveal_strlit(" ");
        reveal_strlit(" a");
        reveal_strlit(" 0 1,0 ");
        reveal_strlit(" 0 a");
        reveal_strlit(" 0 1,0 -");
        reveal_strlit(" 0 Z");
    }
    let cx_chars = str_to_chars(cx);
    let cxv: i64 = match lex_num_exec(&cx_chars, 0) {
        Some(t) => t.0,
        None => {
            proof {
                assert(false);
            }
            0
        },
    };
    let rx_chars = str_to_chars(rx);
    let rxv: i64 = match lex_num_exec(&rx_chars, 0) {
        Some(t) => t.0,
        None => {
            proof {
                assert(false);
            }
            0
        },
    };
    let start_x: Num = Num::from_raw_in_range(cxv - rxv);
    let drx: Num = Num::from_raw_in_range(rxv + rxv);
    let mut out = String::new();
    out.append("M");
    push_num(&mut out, start_x);
    out.append(" ");
    out.append(cy);
    out.append(" a");
    out.append(rx);
    out.append(" ");
    out.append(ry);
    out.append(" 0 1,0 ");
    push_num(&mut out, drx);
    out.append(" 0 a");
    out.append(rx);
    out.append(" ");
    out.append(ry);
    out.append(" 0 1,0 -");
    push_num(&mut out, drx);
    out.append(" 0 Z");
    proof {
        assert(out@ =~= seq!['M'] + render_num(num_lit(cx@).unwrap() - num_lit(rx@).unwrap())
            + seq![' '] + cy@ + seq![' ', 'a'] + rx@ + seq![' '] + ry@ + seq![
            ' ',
            '0',
            ' ',
            '1',
            ',',
            '0',
            ' ',
        ] + render_num(2 * num_lit(rx@).unwrap()) + seq![' ', '0', ' ', 'a'] + rx@ + seq![' ']
            + ry@ + seq![' ', '0', ' ', '1', ',', '0', ' ', '-'] + render_num(
            2 * num_lit(rx@).unwrap(),
        ) + seq![' ', '0', ' ', 'Z']);
    }
    out
}

} // verus!
