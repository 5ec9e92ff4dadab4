//! A map from text to text that keeps its keys in text order.
use vstd::prelude::*;

use crate::text::{lemma_text_lt_irreflexive, text_eq, text_less, text_lt};

verus! {

/// The value that the first pair with key `k` holds.
pub open spec fn lookup(pairs: Seq<(Seq<char>, Seq<char>)>, k: Seq<char>) -> Option<Seq<char>>
    decreases pairs.len(),
{
    if pairs.len() == 0 {
        None
    } else if pairs[0].0 == k {
        Some(pairs[0].1)
    } else {
        lookup(pairs.drop_first(), k)
    }
}

/// `pairs` with the value of `k` set to `v`: an existing pair is replaced, a
/// new pair goes before the first key that comes after `k`.
pub open spec fn pairs_insert(pairs: Seq<(Seq<char>, Seq<char>)>, k: Seq<char>, v: Seq<char>) -> Seq<(Seq<char>, Seq<char>)>
    decreases pairs.len(),
{
    if pairs.len() == 0 {
        seq![(k, v)]
    } else if text_lt(pairs[0].0, k) {
        seq![pairs[0]] + pairs_insert(pairs.drop_first(), k, v)
    } else if pairs[0].0 == k {
        seq![(k, v)] + pairs.drop_first()
    } else {
        seq![(k, v)] + pairs
    }
}

/// After setting `k` to `v`, `k` maps to `v` and every other key keeps its value.
pub proof fn lemma_pairs_insert_lookup(pairs: Seq<(Seq<char>, Seq<char>)>, k: Seq<char>, v: Seq<char>, q: Seq<char>)
    ensures
        lookup(pairs_insert(pairs, k, v), q) == if q == k { Some(v) } else { lookup(pairs, q) },
    decreases pairs.len(),
{
    let r = pairs_insert(pairs, k, v);
    if pairs.len() == 0 {
        assert(r[0] == (k, v));
        assert(r.drop_first() =~= Seq::<(Seq<char>, Seq<char>)>::empty());
        assert(lookup(r, q) == if q == k { Some(v) } else { lookup(pairs, q) });
    } else if text_lt(pairs[0].0, k) {
        lemma_text_lt_irreflexive(k);
        lemma_pairs_insert_lookup(pairs.drop_first(), k, v, q);
        assert(r[0] == pairs[0]);
        assert(r.drop_first() =~= pairs_insert(pairs.drop_first(), k, v));
        assert(lookup(r, q) == if q == k { Some(v) } else { lookup(pairs, q) });
    } else if pairs[0].0 == k {
        assert(r[0] == (k, v));
        assert(r.drop_first() =~= pairs.drop_first());
        assert(lookup(r, q) == if q == k { Some(v) } else { lookup(pairs, q) });
    } else {
        assert(r[0] == (k, v));
        assert(r.drop_first() =~= pairs);
        assert(lookup(r, q) == if q == k { Some(v) } else { lookup(pairs, q) });
    }
}

/// Every pair after setting `k` to `v` is that pair or a pair of before.
pub proof fn lemma_pairs_insert_members(pairs: Seq<(Seq<char>, Seq<char>)>, k: Seq<char>, v: Seq<char>)
    ensures
        forall|j: int|
            0 <= j < pairs_insert(pairs, k, v).len() ==> #[trigger] pairs_insert(pairs, k, v)[j] == (k, v) || pairs.contains(
                pairs_insert(pairs, k, v)[j],
            ),
    decreases pairs.len(),
{
    let r = pairs_insert(pairs, k, v);
    if pairs.len() == 0 {
    } else if text_lt(pairs[0].0, k) {
        let t = pairs.drop_first();
        lemma_pairs_insert_members(t, k, v);
        assert forall|j: int| 0 <= j < r.len() implies #[trigger] r[j] == (k, v) || pairs.contains(r[j]) by {
            if j == 0 {
                assert(pairs[0] == r[0]);
            } else {
                assert(r[j] == pairs_insert(t, k, v)[j - 1]);
                if t.contains(r[j]) {
                    let q = choose|q: int| 0 <= q < t.len() && t[q] == r[j];
                    assert(pairs[q + 1] == r[j]);
                }
            }
        }
    } else if pairs[0].0 == k {
        assert forall|j: int| 0 <= j < r.len() implies #[trigger] r[j] == (k, v) || pairs.contains(r[j]) by {
            if j > 0 {
                assert(pairs[j] == r[j]);
            }
        }
    } else {
        assert forall|j: int| 0 <= j < r.len() implies #[trigger] r[j] == (k, v) || pairs.contains(r[j]) by {
            if j > 0 {
                assert(pairs[j - 1] == r[j]);
            }
        }
    }
}

proof fn lemma_pairs_insert_at(pairs: Seq<(Seq<char>, Seq<char>)>, k: Seq<char>, v: Seq<char>, p: int)
    requires
        0 <= p <= pairs.len(),
        forall|j: int| 0 <= j < p ==> text_lt(#[trigger] pairs[j].0, k),
        p < pairs.len() ==> !text_lt(pairs[p].0, k),
    ensures
        pairs_insert(pairs, k, v) == if p < pairs.len() && pairs[p].0 == k {
            pairs.update(p, (k, v))
        } else {
            pairs.take(p).push((k, v)) + pairs.skip(p)
        },
    decreases p,
{
    if p == 0 {
        if pairs.len() == 0 {
            assert(pairs.take(0).push((k, v)) + pairs.skip(0) =~= seq![(k, v)]);
        } else if pairs[0].0 == k {
            assert(pairs.update(0, (k, v)) =~= seq![(k, v)] + pairs.drop_first());
        } else {
            assert(pairs.take(0).push((k, v)) + pairs.skip(0) =~= seq![(k, v)] + pairs);
        }
    } else {
        let t = pairs.drop_first();
        assert forall|j: int| 0 <= j < p - 1 implies text_lt(#[trigger] t[j].0, k) by {
            assert(t[j] == pairs[j + 1]);
        }
        lemma_pairs_insert_at(t, k, v, p - 1);
        if p < pairs.len() && pairs[p].0 == k {
            assert(seq![pairs[0]] + t.update(p - 1, (k, v)) =~= pairs.update(p, (k, v)));
        } else {
            assert(seq![pairs[0]] + (t.take(p - 1).push((k, v)) + t.skip(p - 1)) =~= pairs.take(p).push((k, v)) + pairs.skip(p));
        }
    }
}

/// Whether some pair holds the value `v`.
pub open spec fn has_value(pairs: Seq<(Seq<char>, Seq<char>)>, v: Seq<char>) -> bool {
    exists|i: int| 0 <= i < pairs.len() && #[trigger] pairs[i].1 == v
}

/// A map from text keys to text values, iterated in key order.
#[derive(Debug)]
pub struct StringMap {
    entries: Vec<(String, String)>,
}

impl View for StringMap {
    type V = Seq<(Seq<char>, Seq<char>)>;

    closed spec fn view(&self) -> Seq<(Seq<char>, Seq<char>)> {
        self.entries@.map_values(|e: (String, String)| (e.0@, e.1@))
    }
}

impl StringMap {
    /// An empty map.
    pub fn new() -> (m: StringMap)
        ensures
            m@ == Seq::<(Seq<char>, Seq<char>)>::empty(),
    {
        let m = StringMap { entries: Vec::new() };
        assert(m@ =~= Seq::<(Seq<char>, Seq<char>)>::empty());
        m
    }

    /// The value of `key`, if the map holds it.
    pub fn get(&self, key: &str) -> (r: Option<&String>)
        ensures
            match lookup(self@, key@) {
                Some(v) => r matches Some(s) && s@ == v,
                None => r is None,
            },
    {
        let mut i: usize = 0;
        assert(self@.skip(0) =~= self@);
        while i < self.entries.len()
            invariant
                i <= self.entries.len(),
                lookup(self@, key@) == lookup(self@.skip(i as int), key@),
            decreases self.entries.len() - i,
        {
            if text_eq(self.entries[i].0.as_str(), key) {
                return Some(&self.entries[i].1);
            }
            assert(self@.skip(i as int).drop_first() =~= self@.skip(i + 1));
            i = i + 1;
        }
        None
    }

    /// Whether the map holds `key`.
    pub fn contains_key(&self, key: &str) -> (r: bool)
        ensures
            r == lookup(self@, key@) is Some,
    {
        self.get(key).is_some()
    }

    /// Sets the value of `key`.
    pub fn insert(&mut self, key: String, value: String)
        ensures
            final(self)@ == pairs_insert(old(self)@, key@, value@),
    {
        let ghost before = self@;
        let mut p: usize = 0;
        while p < self.entries.len() && text_less(self.entries[p].0.as_str(), key.as_str())
            invariant
                p <= self.entries.len(),
                before == self@,
                forall|j: int| 0 <= j < p ==> text_lt(#[trigger] before[j].0, key@),
            decreases self.entries.len() - p,
        {
            p = p + 1;
        }
        proof {
            lemma_pairs_insert_at(before, key@, value@, p as int);
        }
        if p < self.entries.len() && self.entries[p].0.eq(&key) {
            self.entries.set(p, (key, value));
            assert(self@ =~= before.update(p as int, (key@, value@)));
        } else {
            self.entries.insert(p, (key, value));
            assert(self@ =~= before.take(p as int).push((key@, value@)) + before.skip(p as int));
        }
    }

    /// Whether some key maps to `value`.
    pub fn contains_value(&self, value: &str) -> (r: bool)
        ensures
            r == has_value(self@, value@),
    {
        let mut i: usize = 0;
        while i < self.entries.len()
            invariant
                i <= self.entries.len(),
                forall|j: int| 0 <= j < i ==> #[trigger] self@[j].1 != value@,
            decreases self.entries.len() - i,
        {
            if text_eq(self.entries[i].1.as_str(), value) {
                assert(self@[i as int].1 == value@);
                return true;
            }
            i = i + 1;
        }
        false
    }

    /// The number of keys.
    pub fn len(&self) -> (n: usize)
        ensures
            n == self@.len(),
    {
        self.entries.len()
    }

    /// Whether the map holds no keys.
    pub fn is_empty(&self) -> (r: bool)
        ensures
            r == (self@.len() == 0),
    {
        self.entries.len() == 0
    }

    /// The pairs, in key order.
    pub fn entries(&self) -> (r: &Vec<(String, String)>)
        ensures
            r@.map_values(|e: (String, String)| (e.0@, e.1@)) == self@,
    {
        &self.entries
    }
}

} // verus!
