//! Picking records out of lists: the positions that match, and refusing to
//! guess when a name matches more than once.
use vstd::prelude::*;

use crate::errors::{ambiguous, ambiguous_message, MigrationError};

verus! {

/// The positions of the elements of `s` that satisfy `pred`, in order.
pub open spec fn indices_where<X>(s: Seq<X>, pred: spec_fn(X) -> bool) -> Seq<int>
    decreases s.len(),
{
    if s.len() == 0 {
        Seq::empty()
    } else {
        let r = indices_where(s.drop_last(), pred);
        if pred(s.last()) {
            r.push(s.len() - 1)
        } else {
            r
        }
    }
}

/// Positions held in a vector, as integers.
pub open spec fn positions(v: Seq<usize>) -> Seq<int> {
    v.map_values(|x: usize| x as int)
}

/// Every position that `indices_where` gives lies in `s` and satisfies `pred`.
pub proof fn lemma_indices_where_valid<X>(s: Seq<X>, pred: spec_fn(X) -> bool)
    ensures
        forall|k: int|
            0 <= k < indices_where(s, pred).len() ==> 0 <= #[trigger] indices_where(s, pred)[k] < s.len()
                && pred(s[indices_where(s, pred)[k]]),
    decreases s.len(),
{
    if s.len() > 0 {
        let t = s.drop_last();
        lemma_indices_where_valid(t, pred);
        let r = indices_where(t, pred);
        assert forall|k: int| 0 <= k < r.len() implies 0 <= #[trigger] r[k] < s.len() && pred(s[r[k]]) by {
            assert(s[r[k]] == t[r[k]]);
        }
    }
}

/// One step of a scan that collects matching positions.
pub proof fn lemma_indices_where_step<X>(s: Seq<X>, pred: spec_fn(X) -> bool, i: int)
    requires
        0 <= i < s.len(),
    ensures
        indices_where(s.take(i + 1), pred) == if pred(s[i]) {
            indices_where(s.take(i), pred).push(i)
        } else {
            indices_where(s.take(i), pred)
        },
{
    assert(s.take(i + 1).drop_last() =~= s.take(i));
}

/// When some element satisfies `pred`, `indices_where` finds at least one.
pub proof fn lemma_indices_where_nonempty<X>(s: Seq<X>, pred: spec_fn(X) -> bool, i: int)
    requires
        0 <= i < s.len(),
        pred(s[i]),
    ensures
        indices_where(s, pred).len() > 0,
    decreases s.len(),
{
    if i < s.len() - 1 {
        lemma_indices_where_nonempty(s.drop_last(), pred, i);
    }
}

/// The only match, none, or an error when there are several.
pub fn single_match<T>(matches: Vec<T>, kind: &str, name: &str) -> (r: Result<Option<T>, MigrationError>)
    ensures
        matches.len() >= 2 ==> (r matches Err(e) && e@ == ambiguous_message(kind@, name@)),
        matches.len() == 1 ==> r == Ok::<Option<T>, MigrationError>(Some(matches@[0])),
        matches.len() == 0 ==> r == Ok::<Option<T>, MigrationError>(None),
{
    if matches.len() > 1 {
        return Err(ambiguous(kind, name));
    }
    let mut matches = matches;
    Ok(matches.pop())
}

} // verus!
