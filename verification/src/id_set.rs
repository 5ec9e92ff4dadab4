//! A set of record ids.
use vstd::prelude::*;

use crate::text::{owned, text_eq};

verus! {

/// The views of owned texts.
pub open spec fn text_views(v: Seq<String>) -> Seq<Seq<char>> {
    v.map_values(|s: String| s@)
}

/// A set of ids, each held once.
#[derive(Debug)]
pub struct IdSet {
    items: Vec<String>,
}

impl View for IdSet {
    type V = Set<Seq<char>>;

    closed spec fn view(&self) -> Set<Seq<char>> {
        text_views(self.items@).to_set()
    }
}

impl IdSet {
    #[verifier::type_invariant]
    closed spec fn distinct(self) -> bool {
        text_views(self.items@).no_duplicates()
    }

    /// The empty set.
    pub fn new() -> (s: IdSet)
        ensures
            s@ == Set::<Seq<char>>::empty(),
    {
        let s = IdSet { items: Vec::new() };
        assert(text_views(s.items@) =~= Seq::<Seq<char>>::empty());
        assert(s@ =~= Set::<Seq<char>>::empty());
        s
    }

    /// Whether `id` is in the set.
    pub fn contains(&self, id: &str) -> (r: bool)
        ensures
            r == self@.contains(id@),
    {
        let ghost v = text_views(self.items@);
        let mut i: usize = 0;
        while i < self.items.len()
            invariant
                i <= self.items.len(),
                v == text_views(self.items@),
                forall|j: int| 0 <= j < i ==> #[trigger] v[j] != id@,
            decreases self.items.len() - i,
        {
            if text_eq(self.items[i].as_str(), id) {
                assert(v[i as int] == id@);
                assert(v.contains(id@));
                return true;
            }
            i = i + 1;
        }
        assert(!v.contains(id@));
        false
    }

    /// Adds `id` to the set.
    pub fn insert(&mut self, id: &str)
        ensures
            final(self)@ == old(self)@.insert(id@),
    {
        proof {
            use_type_invariant(&*self);
        }
        if !self.contains(id) {
            let ghost before = text_views(self.items@);
            let mut items: Vec<String> = Vec::new();
            std::mem::swap(&mut items, &mut self.items);
            assert(text_views(items@) == before);
            items.push(owned(id));
            assert(text_views(items@) =~= before.push(id@));
            proof {
                before.lemma_push_to_set_commute(id@);
                assert forall|a: int, b: int| 0 <= a < b < before.push(id@).len() implies before.push(id@)[a] != before.push(id@)[b] by {
                    if b == before.len() {
                        assert(before.contains(before[a]));
                    }
                }
            }
            self.items = items;
        } else {
            assert(old(self)@.insert(id@) =~= old(self)@);
        }
    }

    /// Whether the set is empty.
    pub fn is_empty(&self) -> (r: bool)
        ensures
            r == (self@ == Set::<Seq<char>>::empty()),
    {
        let r = self.items.len() == 0;
        proof {
            text_views(self.items@).lemma_cardinality_of_empty_set_is_0();
            if !r {
                assert(self@.contains(text_views(self.items@)[0]));
            } else {
                assert(text_views(self.items@) =~= Seq::<Seq<char>>::empty());
                assert(self@ =~= Set::<Seq<char>>::empty());
            }
        }
        r
    }

    /// The number of ids in the set.
    pub fn len(&self) -> (n: usize)
        ensures
            self@.finite(),
            n == self@.len(),
    {
        proof {
            use_type_invariant(self);
            text_views(self.items@).unique_seq_to_set();
        }
        self.items.len()
    }
}

} // verus!
