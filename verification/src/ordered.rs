//! Sorted sets, sorted groupings and stable sorting, as the comparison of
//! project structures uses them; each is defined by inserting one element at
//! a time, and lemmas give the position at which an insertion lands.
use vstd::prelude::*;

use crate::text::text_lt;

verus! {

/// `s` with `k` added before the first element not below it, unless that
/// element equals `k`.
pub open spec fn set_insert<K>(s: Seq<K>, k: K, lt: spec_fn(K, K) -> bool) -> Seq<K>
    decreases s.len(),
{
    if s.len() == 0 {
        seq![k]
    } else if lt(s[0], k) {
        seq![s[0]] + set_insert(s.drop_first(), k, lt)
    } else if s[0] == k {
        s
    } else {
        seq![k] + s
    }
}

/// `s` with every element of `q` added, in order.
pub open spec fn set_insert_all<K>(s: Seq<K>, q: Seq<K>, lt: spec_fn(K, K) -> bool) -> Seq<K>
    decreases q.len(),
{
    if q.len() == 0 {
        s
    } else {
        set_insert(set_insert_all(s, q.drop_last(), lt), q.last(), lt)
    }
}

/// Where an insertion into a sorted set lands.
pub proof fn lemma_set_insert_at<K>(s: Seq<K>, k: K, lt: spec_fn(K, K) -> bool, p: int)
    requires
        0 <= p <= s.len(),
        forall|j: int| 0 <= j < p ==> lt(#[trigger] s[j], k),
        p < s.len() ==> !lt(s[p], k),
    ensures
        set_insert(s, k, lt) == if p < s.len() && s[p] == k {
            s
        } else {
            s.take(p).push(k) + s.skip(p)
        },
    decreases p,
{
    if p == 0 {
        if s.len() == 0 {
            assert(s.take(0).push(k) + s.skip(0) =~= seq![k]);
        } else if s[0] != k {
            assert(s.take(0).push(k) + s.skip(0) =~= seq![k] + s);
        }
    } else {
        let t = s.drop_first();
        assert forall|j: int| 0 <= j < p - 1 implies lt(#[trigger] t[j], k) by {
            assert(t[j] == s[j + 1]);
        }
        lemma_set_insert_at(t, k, lt, p - 1);
        if p < s.len() && s[p] == k {
            assert(seq![s[0]] + t =~= s);
        } else {
            assert(seq![s[0]] + (t.take(p - 1).push(k) + t.skip(p - 1)) =~= s.take(p).push(k) + s.skip(p));
        }
    }
}

/// Adds `r` to the group of `g`; a new group goes before the first group
/// whose key is not below `g`.
pub open spec fn group_insert<G, R>(gs: Seq<(G, Seq<R>)>, g: G, r: R, lt: spec_fn(G, G) -> bool) -> Seq<(G, Seq<R>)>
    decreases gs.len(),
{
    if gs.len() == 0 {
        seq![(g, seq![r])]
    } else if lt(gs[0].0, g) {
        seq![gs[0]] + group_insert(gs.drop_first(), g, r, lt)
    } else if gs[0].0 == g {
        seq![(g, gs[0].1.push(r))] + gs.drop_first()
    } else {
        seq![(g, seq![r])] + gs
    }
}

/// `gs` with every keyed element of `q` added to its group, in order.
pub open spec fn group_all<G, R>(gs: Seq<(G, Seq<R>)>, q: Seq<(G, R)>, lt: spec_fn(G, G) -> bool) -> Seq<(G, Seq<R>)>
    decreases q.len(),
{
    if q.len() == 0 {
        gs
    } else {
        group_insert(group_all(gs, q.drop_last(), lt), q.last().0, q.last().1, lt)
    }
}

/// Where an insertion into a sorted grouping lands.
pub proof fn lemma_group_insert_at<G, R>(gs: Seq<(G, Seq<R>)>, g: G, r: R, lt: spec_fn(G, G) -> bool, p: int)
    requires
        0 <= p <= gs.len(),
        forall|j: int| 0 <= j < p ==> lt(#[trigger] gs[j].0, g),
        p < gs.len() ==> !lt(gs[p].0, g),
    ensures
        group_insert(gs, g, r, lt) == if p < gs.len() && gs[p].0 == g {
            gs.update(p, (g, gs[p].1.push(r)))
        } else {
            gs.take(p).push((g, seq![r])) + gs.skip(p)
        },
    decreases p,
{
    if p == 0 {
        if gs.len() == 0 {
            assert(gs.take(0).push((g, seq![r])) + gs.skip(0) =~= seq![(g, seq![r])]);
        } else if gs[0].0 == g {
            assert(gs.update(0, (g, gs[0].1.push(r))) =~= seq![(g, gs[0].1.push(r))] + gs.drop_first());
        } else {
            assert(gs.take(0).push((g, seq![r])) + gs.skip(0) =~= seq![(g, seq![r])] + gs);
        }
    } else {
        let t = gs.drop_first();
        assert forall|j: int| 0 <= j < p - 1 implies lt(#[trigger] t[j].0, g) by {
            assert(t[j] == gs[j + 1]);
        }
        lemma_group_insert_at(t, g, r, lt, p - 1);
        if p < gs.len() && gs[p].0 == g {
            assert(seq![gs[0]] + t.update(p - 1, (g, t[p - 1].1.push(r))) =~= gs.update(p, (g, gs[p].1.push(r))));
        } else {
            assert(seq![gs[0]] + (t.take(p - 1).push((g, seq![r])) + t.skip(p - 1)) =~= gs.take(p).push((g, seq![r])) + gs.skip(p));
        }
    }
}

/// `s` with `x` placed before the first element whose key comes after the key
/// of `x`.
pub open spec fn sort_insert<R>(s: Seq<R>, x: R, key: spec_fn(R) -> Seq<char>) -> Seq<R>
    decreases s.len(),
{
    if s.len() == 0 {
        seq![x]
    } else if text_lt(key(x), key(s[0])) {
        seq![x] + s
    } else {
        seq![s[0]] + sort_insert(s.drop_first(), x, key)
    }
}

/// `s` sorted by `key`; elements with equal keys keep their order.
pub open spec fn stable_sort<R>(s: Seq<R>, key: spec_fn(R) -> Seq<char>) -> Seq<R>
    decreases s.len(),
{
    if s.len() == 0 {
        s
    } else {
        sort_insert(stable_sort(s.drop_last(), key), s.last(), key)
    }
}

/// Where an insertion into a sorted sequence lands.
pub proof fn lemma_sort_insert_at<R>(s: Seq<R>, x: R, key: spec_fn(R) -> Seq<char>, p: int)
    requires
        0 <= p <= s.len(),
        forall|j: int| 0 <= j < p ==> !text_lt(key(x), key(#[trigger] s[j])),
        p < s.len() ==> text_lt(key(x), key(s[p])),
    ensures
        sort_insert(s, x, key) == s.take(p).push(x) + s.skip(p),
    decreases p,
{
    if p == 0 {
        if s.len() == 0 {
            assert(s.take(0).push(x) + s.skip(0) =~= seq![x]);
        } else {
            assert(s.take(0).push(x) + s.skip(0) =~= seq![x] + s);
        }
    } else {
        let t = s.drop_first();
        assert forall|j: int| 0 <= j < p - 1 implies !text_lt(key(x), key(#[trigger] t[j])) by {
            assert(t[j] == s[j + 1]);
        }
        lemma_sort_insert_at(t, x, key, p - 1);
        assert(seq![s[0]] + (t.take(p - 1).push(x) + t.skip(p - 1)) =~= s.take(p).push(x) + s.skip(p));
    }
}

/// Inserting into a set never lengthens it by more than one.
pub proof fn lemma_set_insert_len<K>(s: Seq<K>, k: K, lt: spec_fn(K, K) -> bool)
    ensures
        set_insert(s, k, lt).len() <= s.len() + 1,
    decreases s.len(),
{
    if s.len() > 0 && lt(s[0], k) {
        lemma_set_insert_len(s.drop_first(), k, lt);
    }
}

/// A sorted set holds no more elements than were added.
pub proof fn lemma_set_insert_all_len<K>(s: Seq<K>, q: Seq<K>, lt: spec_fn(K, K) -> bool)
    ensures
        set_insert_all(s, q, lt).len() <= s.len() + q.len(),
    decreases q.len(),
{
    if q.len() > 0 {
        lemma_set_insert_all_len(s, q.drop_last(), lt);
        lemma_set_insert_len(set_insert_all(s, q.drop_last(), lt), q.last(), lt);
    }
}

/// `s` with `x` in key order: an element with the same key is replaced, a new
/// key goes before the first element whose key is not below it.
pub open spec fn keyed_insert<R>(s: Seq<R>, x: R, key: spec_fn(R) -> Seq<char>) -> Seq<R>
    decreases s.len(),
{
    if s.len() == 0 {
        seq![x]
    } else if text_lt(key(s[0]), key(x)) {
        seq![s[0]] + keyed_insert(s.drop_first(), x, key)
    } else if key(s[0]) == key(x) {
        seq![x] + s.drop_first()
    } else {
        seq![x] + s
    }
}

/// `s` with every element of `q` inserted by key, in order.
pub open spec fn keyed_insert_all<R>(s: Seq<R>, q: Seq<R>, key: spec_fn(R) -> Seq<char>) -> Seq<R>
    decreases q.len(),
{
    if q.len() == 0 {
        s
    } else {
        keyed_insert(keyed_insert_all(s, q.drop_last(), key), q.last(), key)
    }
}

/// Where an insertion by key lands.
pub proof fn lemma_keyed_insert_at<R>(s: Seq<R>, x: R, key: spec_fn(R) -> Seq<char>, p: int)
    requires
        0 <= p <= s.len(),
        forall|j: int| 0 <= j < p ==> text_lt(key(#[trigger] s[j]), key(x)),
        p < s.len() ==> !text_lt(key(s[p]), key(x)),
    ensures
        keyed_insert(s, x, key) == if p < s.len() && key(s[p]) == key(x) {
            s.update(p, x)
        } else {
            s.take(p).push(x) + s.skip(p)
        },
    decreases p,
{
    if p == 0 {
        if s.len() == 0 {
            assert(s.take(0).push(x) + s.skip(0) =~= seq![x]);
        } else if key(s[0]) == key(x) {
            assert(s.update(0, x) =~= seq![x] + s.drop_first());
        } else {
            assert(s.take(0).push(x) + s.skip(0) =~= seq![x] + s);
        }
    } else {
        let t = s.drop_first();
        assert forall|j: int| 0 <= j < p - 1 implies text_lt(key(#[trigger] t[j]), key(x)) by {
            assert(t[j] == s[j + 1]);
        }
        lemma_keyed_insert_at(t, x, key, p - 1);
        if p < s.len() && key(s[p]) == key(x) {
            assert(seq![s[0]] + t.update(p - 1, x) =~= s.update(p, x));
        } else {
            assert(seq![s[0]] + (t.take(p - 1).push(x) + t.skip(p - 1)) =~= s.take(p).push(x) + s.skip(p));
        }
    }
}

/// The first element of the group `k` taken out: the element, and the
/// groups with it removed; nothing when the group is absent or empty.
pub open spec fn group_pop<R>(gs: Seq<(Seq<char>, Seq<R>)>, k: Seq<char>) -> (Option<R>, Seq<(Seq<char>, Seq<R>)>)
    decreases gs.len(),
{
    if gs.len() == 0 {
        (None, gs)
    } else if gs[0].0 == k {
        if gs[0].1.len() == 0 {
            (None, gs)
        } else {
            (Some(gs[0].1[0]), gs.update(0, (k, gs[0].1.drop_first())))
        }
    } else {
        (group_pop(gs.drop_first(), k).0, seq![gs[0]] + group_pop(gs.drop_first(), k).1)
    }
}

/// Taking from the first group with key `k`, at position `p`, or from none
/// when `p` is past the end.
pub proof fn lemma_group_pop_at<R>(gs: Seq<(Seq<char>, Seq<R>)>, k: Seq<char>, p: int)
    requires
        0 <= p <= gs.len(),
        forall|j: int| 0 <= j < p ==> (#[trigger] gs[j]).0 != k,
        p < gs.len() ==> gs[p].0 == k,
    ensures
        group_pop(gs, k) == if p < gs.len() && gs[p].1.len() > 0 {
            (Some(gs[p].1[0]), gs.update(p, (k, gs[p].1.drop_first())))
        } else {
            (None::<R>, gs)
        },
    decreases p,
{
    if p > 0 {
        let t = gs.drop_first();
        assert forall|j: int| 0 <= j < p - 1 implies (#[trigger] t[j]).0 != k by {
            assert(t[j] == gs[j + 1]);
        }
        lemma_group_pop_at(t, k, p - 1);
        if p < gs.len() && gs[p].1.len() > 0 {
            assert(seq![gs[0]] + t.update(p - 1, (k, gs[p].1.drop_first())) =~= gs.update(p, (k, gs[p].1.drop_first())));
        } else {
            assert(seq![gs[0]] + t =~= gs);
        }
    }
}

/// Taking from a group that is absent or empty leaves the groups unchanged.
pub proof fn lemma_group_pop_none<R>(gs: Seq<(Seq<char>, Seq<R>)>, k: Seq<char>)
    ensures
        group_pop(gs, k).0 is None ==> group_pop(gs, k).1 == gs,
    decreases gs.len(),
{
    if gs.len() > 0 && gs[0].0 != k {
        lemma_group_pop_none(gs.drop_first(), k);
        assert(seq![gs[0]] + gs.drop_first() =~= gs);
    }
}

} // verus!
