//! Indexed editing by textual substitution: one segment's canonical text is
//! replaced by a caller-supplied literal and the whole candidate is
//! re-parsed. A failed candidate leaves the document untouched, so a bad
//! literal can never corrupt it.

use vstd::prelude::*;
use crate::error::PathError;
use crate::parse::spec_parse;
use crate::render::render_doc;
use crate::render::render_seg;
use crate::seg::SegV;
use crate::seg::SvgPath;

verus! {

/// The candidate text: every segment's canonical text in order, except
/// that segment `i` is replaced by `val`.
pub open spec fn replace_text(d: Seq<SegV>, i: int, val: Seq<char>) -> Seq<char>
    decreases d.len(),
{
    if d.len() == 0 {
        Seq::empty()
    } else {
        (if i == 0 {
            val
        } else {
            render_seg(d[0])
        }) + replace_text(d.skip(1), i - 1, val)
    }
}

impl SvgPath {
    /// Substitutes `val` for the canonical text of segment `idx`, re-parses
    /// the candidate, and returns its canonical text on success. The
    /// document itself is never touched: an invalid index or an unparseable
    /// candidate is reported and nothing changes.
    pub fn try_replace_element_at(&mut self, idx: usize, val: &str) -> (r: Result<
        String,
        PathError,
    >)
        ensures
            *final(self) == *old(self),
            idx >= old(self)@.len() ==> r == Err::<String, PathError>(
                PathError::IndexOutOfRange { index: idx, len: old(self).items@.len() as usize },
            ),
            idx < old(self)@.len() ==> (r is Ok <==> spec_parse(
                replace_text(old(self)@, idx as int, val@),
            ) is Some),
            r is Ok ==> r.unwrap()@ == render_doc(
                spec_parse(replace_text(old(self)@, idx as int, val@)).unwrap(),
            ),
            idx < old(self)@.len() && r is Err ==> r.unwrap_err() is ReplaceValidation,
    {
        let ghost d = self@;
        let n = self.items.len();
        if idx >= n {
            return Err(PathError::IndexOutOfRange { index: idx, len: n });
        }
        let mut cand = String::new();
        let mut j: usize = 0;
        proof {
            assert(d.skip(0) =~= d);
            assert(cand@ + replace_text(d, idx as int, val@) =~= replace_text(
                d,
                idx as int,
                val@,
            ));
        }
        while j < n
            invariant
                *self == *old(self),
                self@ == d,
                n == self.items.len(),
                j <= n,
                idx < n,
                cand@ + replace_text(d.skip(j as int), idx - j, val@) == replace_text(
                    d,
                    idx as int,
                    val@,
                ),
            decreases n - j,
        {
            proof {
                assert(self.items@[j as int]@ == d[j as int]);
                assert(d.skip(j as int)[0] == d[j as int]);
                assert(d.skip(j as int).skip(1) =~= d.skip(j as int + 1));
            }
            if j == idx {
                cand.append(val);
            } else {
                crate::render::push_seg(&mut cand, &self.items[j]);
            }
            proof {
                assert(cand@ + replace_text(d.skip(j as int + 1), idx - j - 1, val@)
                    =~= replace_text(d, idx as int, val@));
            }
            j = j + 1;
        }
        proof {
            assert(d.skip(n as int) =~= Seq::<SegV>::empty());
            assert(cand@ + replace_text(d.skip(n as int), idx - n, val@) =~= cand@);
        }
        match SvgPath::parse(cand.as_str()) {
            Ok(doc) => Ok(doc.to_string()),
            Err(e) => {
                match e {
                    PathError::Syntax { message, offset } => Err(
                        PathError::ReplaceValidation { message, offset },
                    ),
                    _ => Err(
                        PathError::ReplaceValidation {
                            message: String::new(),
                            offset: 0,
                        },
                    ),
                }
            },
        }
    }
}

} // verus!
