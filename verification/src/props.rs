//! The library's laws: proofs that conversion preserves every resolved
//! endpoint, that conversion is idempotent, that translation is undone by
//! the opposite translation, and that toggling a segment's mode twice
//! restores it.

use vstd::prelude::*;
use crate::convert::abs_seg;
use crate::convert::conv_from;
use crate::convert::conv_seg;
use crate::convert::flip_seg;
use crate::convert::rel_seg;
use crate::convert::spec_to_abs;
use crate::convert::spec_to_rel;
use crate::convert::spec_toggle;
use crate::seg::SegV;
use crate::seg::seg_abs;
use crate::track::PosState;
use crate::track::all_abs;
use crate::track::all_rel;
use crate::track::endpoints;
use crate::track::init_state;
use crate::track::seg_target;
use crate::track::state_after;
use crate::track::step_state;
use crate::track::targets_from;
use crate::transform::seg_translate;
use crate::transform::spec_translate;

verus! {

/// Rewriting a segment's mode changes neither the point it designates nor
/// how the replay state steps over it, and lands it in the requested mode.
pub proof fn lemma_conv_seg_preserves(s: SegV, st: PosState, to_abs: bool)
    ensures
        seg_target(conv_seg(s, st, to_abs), st) == seg_target(s, st),
        step_state(st, conv_seg(s, st, to_abs)) == step_state(st, s),
        seg_abs(conv_seg(s, st, to_abs)) == to_abs,
{
    assert(seg_target(abs_seg(s, st), st) == seg_target(s, st));
    assert(seg_target(rel_seg(s, st), st) == seg_target(s, st));
}

/// Whole-document conversion preserves the resolved endpoint of every
/// segment, replaying from any state.
pub proof fn lemma_conv_preserves_targets(d: Seq<SegV>, st: PosState, to_abs: bool)
    ensures
        targets_from(conv_from(d, st, to_abs), st) == targets_from(d, st),
    decreases d.len(),
{
    if d.len() == 0 {
    } else {
        let c = conv_seg(d[0], st, to_abs);
        let rest = conv_from(d.skip(1), step_state(st, d[0]), to_abs);
        lemma_conv_seg_preserves(d[0], st, to_abs);
        assert((seq![c] + rest)[0] == c);
        assert((seq![c] + rest).skip(1) =~= rest);
        lemma_conv_preserves_targets(d.skip(1), step_state(st, d[0]), to_abs);
        assert(targets_from(conv_from(d, st, to_abs), st) =~= targets_from(d, st));
    }
}

/// Conversion puts every segment into the requested mode.
pub proof fn lemma_conv_mode(d: Seq<SegV>, st: PosState, to_abs: bool)
    ensures
        to_abs ==> all_abs(conv_from(d, st, to_abs)),
        !to_abs ==> all_rel(conv_from(d, st, to_abs)),
    decreases d.len(),
{
    if d.len() == 0 {
    } else {
        let c = conv_seg(d[0], st, to_abs);
        let st1 = step_state(st, d[0]);
        let rest = conv_from(d.skip(1), st1, to_abs);
        lemma_conv_seg_preserves(d[0], st, to_abs);
        lemma_conv_mode(d.skip(1), st1, to_abs);
        assert forall|i: int| 0 <= i < conv_from(d, st, to_abs).len() implies seg_abs(
            #[trigger] conv_from(d, st, to_abs)[i],
        ) == to_abs by {
            if i == 0 {
                assert(conv_from(d, st, to_abs)[0] == c);
            } else {
                assert(conv_from(d, st, to_abs)[i] == rest[i - 1]);
            }
        }
    }
}

/// Converting a document that is already wholly in the requested mode
/// changes nothing, from any state.
pub proof fn lemma_conv_identity(d: Seq<SegV>, st: PosState, to_abs: bool)
    requires
        to_abs ==> all_abs(d),
        !to_abs ==> all_rel(d),
    ensures
        conv_from(d, st, to_abs) == d,
    decreases d.len(),
{
    if d.len() == 0 {
        assert(conv_from(d, st, to_abs) =~= d);
    } else {
        assert(seg_abs(d[0]) == seg_abs(d[0]));
        assert(conv_seg(d[0], st, to_abs) == d[0]);
        assert(forall|j: int| 0 <= j < d.skip(1).len() ==> #[trigger] d.skip(1)[j] == d[j + 1]);
        lemma_conv_identity(d.skip(1), step_state(st, d[0]), to_abs);
        assert(conv_from(d, st, to_abs) =~= d);
    }
}

/// Idempotence: converting to absolute twice gives the same document as
/// converting once, and the same holds for relative.
pub proof fn lemma_convert_idempotent(d: Seq<SegV>)
    ensures
        spec_to_abs(spec_to_abs(d)) == spec_to_abs(d),
        spec_to_rel(spec_to_rel(d)) == spec_to_rel(d),
{
    lemma_conv_mode(d, init_state(), true);
    lemma_conv_identity(spec_to_abs(d), init_state(), true);
    lemma_conv_mode(d, init_state(), false);
    lemma_conv_identity(spec_to_rel(d), init_state(), false);
}

/// Round trip: converting to absolute and back to relative, or the other
/// way round, preserves every segment's resolved absolute endpoint.
pub proof fn lemma_convert_round_trip(d: Seq<SegV>)
    ensures
        endpoints(spec_to_rel(spec_to_abs(d))) == endpoints(d),
        endpoints(spec_to_abs(spec_to_rel(d))) == endpoints(d),
{
    lemma_conv_preserves_targets(d, init_state(), true);
    lemma_conv_preserves_targets(spec_to_abs(d), init_state(), false);
    lemma_conv_preserves_targets(d, init_state(), false);
    lemma_conv_preserves_targets(spec_to_rel(d), init_state(), true);
}

/// Shifting one segment by `(dx, dy)` and back restores it exactly.
proof fn lemma_translate_seg_inverse(s: SegV, dx: int, dy: int)
    ensures
        seg_translate(seg_translate(s, dx, dy), -dx, -dy) == s,
{
}

/// Translating an all-absolute document by `(dx, dy)` and then by
/// `(-dx, -dy)` restores the original coordinates exactly.
pub proof fn lemma_translate_inverse(d: Seq<SegV>, dx: int, dy: int)
    requires
        all_abs(d),
    ensures
        spec_translate(spec_translate(d, dx, dy), -dx, -dy) == d,
{
    assert forall|i: int| 0 <= i < d.len() implies seg_translate(
        seg_translate(#[trigger] d[i], dx, dy),
        -dx,
        -dy,
    ) == d[i] by {
        lemma_translate_seg_inverse(d[i], dx, dy);
    }
    assert(spec_translate(spec_translate(d, dx, dy), -dx, -dy) =~= d);
}

/// The replay state after `n` segments depends only on those segments.
pub proof fn lemma_state_after_prefix(d1: Seq<SegV>, d2: Seq<SegV>, n: int)
    requires
        n <= d1.len(),
        n <= d2.len(),
        forall|j: int| 0 <= j < n ==> d1[j] == d2[j],
    ensures
        state_after(d1, n) == state_after(d2, n),
    decreases n,
{
    if n > 0 {
        lemma_state_after_prefix(d1, d2, n - 1);
    }
}

/// Flipping one segment's mode twice against the same state restores it.
proof fn lemma_flip_seg_twice(s: SegV, st: PosState)
    ensures
        flip_seg(flip_seg(s, st), st) == s,
{
}

/// Toggling the mode of segment `i` twice restores the document exactly:
/// the same flag and the same stored operands.
pub proof fn lemma_toggle_twice(d: Seq<SegV>, i: int)
    requires
        0 <= i < d.len(),
    ensures
        spec_toggle(spec_toggle(d, i), i) == d,
{
    let st = state_after(d, i);
    let d1 = spec_toggle(d, i);
    lemma_state_after_prefix(d1, d, i);
    lemma_flip_seg_twice(d[i], st);
    assert(d1[i] == flip_seg(d[i], st));
    assert(spec_toggle(d1, i) =~= d);
}

} // verus!
