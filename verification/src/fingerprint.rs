//! The fingerprint by which a time entry is recognised in Solidtime.
use vstd::prelude::*;

use crate::calendar::{format_rfc3339, spec_rfc3339};
use crate::compare::text_order;
use crate::id_set::text_views;
use crate::models::{EntryView, SolidtimeTimeEntry, SolidtimeTimeEntryCreate};
use crate::ordered::{group_all, group_insert, group_pop, lemma_group_insert_at, lemma_group_pop_at};
use crate::text::{lemma_text_lt_irreflexive, lemma_text_lt_total, lemma_text_lt_transitive, text_less, text_lt};
use crate::text::{
    join, join_strings, join_strs, lemma_sort_texts_multiset, opt_str_view, opt_view, owned, sort_strs,
    sort_texts, trim, trimmed,
};

verus! {

/// Present text, or the empty text.
pub open spec fn or_empty(o: Option<Seq<char>>) -> Seq<char> {
    match o {
        Some(s) => s,
        None => Seq::empty(),
    }
}

/// `true` or `false`, as `bool::to_string` writes it.
pub open spec fn bool_text(b: bool) -> Seq<char> {
    if b { "true"@ } else { "false"@ }
}

/// The views of borrowed texts.
pub open spec fn str_views(v: Seq<&str>) -> Seq<Seq<char>> {
    v.map_values(|t: &str| t@)
}

/// The fingerprint of a time entry: member, project, task, start, end, billable
/// flag, trimmed description and the tags in text order, separated by `|`;
/// the tags are separated by `,`, and absent values are empty.
pub open spec fn fingerprint_text(e: EntryView) -> Seq<char> {
    join(
        seq![
            e.member,
            or_empty(e.project),
            or_empty(e.task),
            e.start,
            or_empty(e.end),
            bool_text(e.billable),
            trimmed(or_empty(e.description)),
            join(sort_texts(e.tags), ","@),
        ],
        "|"@,
    )
}

/// The fingerprint of a time entry to create.
pub open spec fn fingerprint_of(e: SolidtimeTimeEntryCreate) -> Seq<char> {
    fingerprint_text(e@)
}

fn opt_str_or_empty(o: Option<&str>) -> (r: String)
    ensures
        r@ == or_empty(opt_str_view(o)),
{
    match o {
        Some(s) => owned(s),
        None => String::new(),
    }
}

/// The fingerprint of a time entry, by which reruns find the Solidtime entry
/// that an earlier run created.
pub fn time_entry_fingerprint(entry: &SolidtimeTimeEntryCreate<'_>) -> (r: String)
    ensures
        r@ == fingerprint_of(*entry),
{
    let tags = sort_strs(&entry.tags);
    let mut parts: Vec<String> = Vec::new();
    parts.push(owned(entry.member_id));
    parts.push(opt_str_or_empty(entry.project_id));
    parts.push(opt_str_or_empty(entry.task_id));
    parts.push(owned(entry.start.as_str()));
    parts.push(
        match &entry.end {
            Some(end) => owned(end.as_str()),
            None => String::new(),
        },
    );
    parts.push(owned(if entry.billable { "true" } else { "false" }));
    let description = match entry.description {
        Some(d) => d,
        None => "",
    };
    proof {
        assert(""@ =~= Seq::<char>::empty()) by {
            reveal_strlit("");
        }
    }
    parts.push(owned(trim(description)));
    parts.push(join_strs(&tags, ","));
    let r = join_strings(&parts, "|");
    assert(entry@.tags == str_views(entry.tags@));
    assert(parts@.map_values(|p: String| p@) =~= seq![
        entry.member_id@,
        or_empty(opt_str_view(entry.project_id)),
        or_empty(opt_str_view(entry.task_id)),
        entry.start@,
        or_empty(opt_view(entry.end)),
        bool_text(entry.billable),
        trimmed(or_empty(opt_str_view(entry.description))),
        join(sort_texts(str_views(entry.tags@)), ","@),
    ]);
    r
}

/// The fingerprint does not depend on the order of the tags: two entries that
/// agree on every field and carry the same tags, in any order, have the same
/// fingerprint.
pub proof fn fingerprint_ignores_tag_order(a: SolidtimeTimeEntryCreate, b: SolidtimeTimeEntryCreate)
    requires
        a.member_id@ == b.member_id@,
        opt_str_view(a.project_id) == opt_str_view(b.project_id),
        opt_str_view(a.task_id) == opt_str_view(b.task_id),
        a.start@ == b.start@,
        opt_view(a.end) == opt_view(b.end),
        a.billable == b.billable,
        opt_str_view(a.description) == opt_str_view(b.description),
        str_views(a.tags@).to_multiset() == str_views(b.tags@).to_multiset(),
    ensures
        fingerprint_of(a) == fingerprint_of(b),
{
    lemma_sort_texts_multiset(str_views(a.tags@), str_views(b.tags@));
}

/// For each fingerprint, the ids of the Solidtime entries that carry it, in
/// the order they were read; the fingerprints in text order.
#[derive(Debug)]
pub struct FingerprintIndex {
    groups: Vec<(String, Vec<String>)>,
}

impl View for FingerprintIndex {
    type V = Seq<(Seq<char>, Seq<Seq<char>>)>;

    closed spec fn view(&self) -> Seq<(Seq<char>, Seq<Seq<char>>)> {
        self.groups@.map_values(|g: (String, Vec<String>)| (g.0@, text_views(g.1@)))
    }
}

impl FingerprintIndex {
    /// No fingerprints.
    pub fn new() -> (r: FingerprintIndex)
        ensures
            r@ == Seq::<(Seq<char>, Seq<Seq<char>>)>::empty(),
            keys_ordered(r@),
    {
        let r = FingerprintIndex { groups: Vec::new() };
        assert(r@ =~= Seq::<(Seq<char>, Seq<Seq<char>>)>::empty());
        r
    }

    /// Adds `id` at the end of the ids with fingerprint `key`.
    pub fn push_back(&mut self, key: String, id: String)
        requires
            keys_ordered(old(self)@),
        ensures
            final(self)@ == group_insert(old(self)@, key@, id@, text_order()),
            keys_ordered(final(self)@),
    {
        let ghost before = self@;
        let mut p: usize = 0;
        while p < self.groups.len() && text_less(self.groups[p].0.as_str(), key.as_str())
            invariant
                p <= self.groups.len(),
                before == self@,
                forall|j: int| 0 <= j < p ==> text_lt(#[trigger] before[j].0, key@),
            decreases self.groups.len() - p,
        {
            p = p + 1;
        }
        proof {
            lemma_group_insert_at(before, key@, id@, text_order(), p as int);
        }
        if p < self.groups.len() && self.groups[p].0.eq(&key) {
            let ghost g0 = self.groups@;
            let (k, mut ids) = self.groups.remove(p);
            let ghost old_ids = text_views(ids@);
            assert(old_ids == before[p as int].1);
            ids.push(id);
            assert(text_views(ids@) =~= old_ids.push(id@));
            let ghost entry = (k, ids);
            self.groups.insert(p, (k, ids));
            assert(self.groups@ =~= g0.update(p as int, entry));
            assert(self@ =~= before.update(p as int, (key@, before[p as int].1.push(id@))));
        } else {
            let mut ids: Vec<String> = Vec::new();
            ids.push(id);
            assert(text_views(ids@) =~= seq![id@]);
            let ghost g0 = self.groups@;
            self.groups.insert(p, (key, ids));
            assert(self.groups@ =~= g0.take(p as int).push((key, ids)) + g0.skip(p as int));
            assert(self@ =~= before.take(p as int).push((key@, seq![id@])) + before.skip(p as int));
            proof {
                if p < before.len() {
                    lemma_text_lt_total(before[p as int].0, key@);
                }
                let after = self@;
                assert forall|i: int, j: int| 0 <= i < j < after.len() implies text_lt(#[trigger] after[i].0, #[trigger] after[j].0) by {
                    if j < p {
                        assert(after[i] == before[i] && after[j] == before[j]);
                    } else if j == p {
                        assert(after[i] == before[i]);
                    } else if i < p {
                        assert(after[i] == before[i] && after[j] == before[j - 1]);
                    } else if i == p {
                        assert(after[j] == before[j - 1]);
                        if j - 1 > p {
                            lemma_text_lt_transitive(key@, before[p as int].0, before[j - 1].0);
                        }
                    } else {
                        assert(after[i] == before[i - 1] && after[j] == before[j - 1]);
                    }
                }
            }
        }
    }

    /// Takes the first id with fingerprint `key`, if any is left.
    pub fn pop_front(&mut self, key: &str) -> (r: Option<String>)
        ensures
            opt_view(r) == group_pop(old(self)@, key@).0,
            final(self)@ == group_pop(old(self)@, key@).1,
            keys_ordered(old(self)@) ==> keys_ordered(final(self)@),
    {
        let ghost before = self@;
        let mut p: usize = 0;
        while p < self.groups.len() && !crate::text::text_eq(self.groups[p].0.as_str(), key)
            invariant
                p <= self.groups.len(),
                before == self@,
                forall|j: int| 0 <= j < p ==> (#[trigger] before[j]).0 != key@,
            decreases self.groups.len() - p,
        {
            p = p + 1;
        }
        proof {
            lemma_group_pop_at(before, key@, p as int);
        }
        if p == self.groups.len() || self.groups[p].1.len() == 0 {
            return None;
        }
        let ghost g0 = self.groups@;
        let (k, mut ids) = self.groups.remove(p);
        let ghost old_ids = text_views(ids@);
        assert(old_ids == before[p as int].1);
        let first = ids.remove(0);
        assert(text_views(ids@) =~= old_ids.drop_first());
        let ghost entry = (k, ids);
        self.groups.insert(p, (k, ids));
        assert(self.groups@ =~= g0.update(p as int, entry));
        assert(self@ =~= before.update(p as int, (key@, before[p as int].1.drop_first())));
        assert(keys_ordered(before) ==> keys_ordered(self@)) by {
            if keys_ordered(before) {
                let after = self@;
                assert forall|i: int, j: int| 0 <= i < j < after.len() implies text_lt(#[trigger] after[i].0, #[trigger] after[j].0) by {
                    assert(after[i].0 == before[i].0 && after[j].0 == before[j].0);
                }
            }
        }
        Some(first)
    }

    /// The fingerprints, in text order.
    pub fn keys(&self) -> (r: Vec<String>)
        ensures
            text_views(r@) == self@.map_values(|g: (Seq<char>, Seq<Seq<char>>)| g.0),
    {
        let mut r: Vec<String> = Vec::new();
        let mut i: usize = 0;
        while i < self.groups.len()
            invariant
                i <= self.groups.len(),
                text_views(r@) == self@.take(i as int).map_values(|g: (Seq<char>, Seq<Seq<char>>)| g.0),
            decreases self.groups.len() - i,
        {
            let ghost old_r = r@;
            r.push(self.groups[i].0.clone());
            assert(self@[i as int].0 == self.groups@[i as int].0@);
            assert(text_views(r@) =~= text_views(old_r).push(self@[i as int].0));
            assert(self@.take(i + 1).map_values(|g: (Seq<char>, Seq<Seq<char>>)| g.0) =~= self@.take(i as int).map_values(
                |g: (Seq<char>, Seq<Seq<char>>)| g.0,
            ).push(self@[i as int].0));
            i = i + 1;
        }
        assert(self@.take(self.groups.len() as int) =~= self@);
        r
    }
}

/// The content of a time entry read from Solidtime, as the entry that `member`
/// would create for it.
pub open spec fn existing_entry_view(e: SolidtimeTimeEntry, member: Seq<char>) -> EntryView {
    EntryView {
        member,
        project: opt_view(e.project_id),
        task: opt_view(e.task_id),
        start: spec_rfc3339(e.start.seconds),
        end: match e.end {
            Some(t) => Some(spec_rfc3339(t.seconds)),
            None => None,
        },
        billable: e.billable,
        description: opt_view(e.description),
        tags: text_views(e.tags@),
    }
}

/// Each existing entry's fingerprint with its id, in order.
pub open spec fn existing_fingerprints(es: Seq<SolidtimeTimeEntry>, member: Seq<char>) -> Seq<(Seq<char>, Seq<char>)> {
    es.map_values(|e: SolidtimeTimeEntry| (fingerprint_text(existing_entry_view(e, member)), e.id@))
}

/// Whether every instant of an entry read from Solidtime is in the handled range.
pub open spec fn entry_times_wf(e: SolidtimeTimeEntry) -> bool {
    e.start.wf() && (e.end matches Some(t) ==> t.wf())
}

fn tag_refs(tags: &Vec<String>) -> (r: Vec<&str>)
    ensures
        str_views(r@) == text_views(tags@),
{
    let mut r: Vec<&str> = Vec::new();
    let mut i: usize = 0;
    while i < tags.len()
        invariant
            i <= tags.len(),
            str_views(r@) == text_views(tags@.take(i as int)),
        decreases tags.len() - i,
    {
        let ghost old_r = r@;
        r.push(tags[i].as_str());
        assert(str_views(r@) =~= str_views(old_r).push(tags@[i as int]@));
        assert(text_views(tags@.take(i + 1)) =~= text_views(tags@.take(i as int)).push(tags@[i as int]@));
        i = i + 1;
    }
    assert(tags@.take(tags.len() as int) =~= tags@);
    r
}

fn opt_text_ref(o: &Option<String>) -> (r: Option<&str>)
    ensures
        opt_str_view(r) == opt_view(*o),
{
    match o {
        Some(s) => Some(s.as_str()),
        None => None,
    }
}

/// The ids of the time entries read from Solidtime, filed under the
/// fingerprint each would have as an entry of `member_id`.
pub fn fingerprint_existing_entries(entries: &[SolidtimeTimeEntry], member_id: &str) -> (r: FingerprintIndex)
    requires
        forall|i: int| 0 <= i < entries@.len() ==> entry_times_wf(#[trigger] entries@[i]),
    ensures
        r@ == group_all(Seq::empty(), existing_fingerprints(entries@, member_id@), text_order()),
        keys_ordered(r@),
{
    let ghost q = existing_fingerprints(entries@, member_id@);
    let mut r = FingerprintIndex::new();
    let mut i: usize = 0;
    assert(q.take(0) =~= Seq::<(Seq<char>, Seq<char>)>::empty());
    while i < entries.len()
        invariant
            i <= entries.len(),
            q == existing_fingerprints(entries@, member_id@),
            forall|j: int| 0 <= j < entries@.len() ==> entry_times_wf(#[trigger] entries@[j]),
            r@ == group_all(Seq::empty(), q.take(i as int), text_order()),
            keys_ordered(r@),
        decreases entries.len() - i,
    {
        let entry = &entries[i];
        assert(entry_times_wf(entries@[i as int]));
        let body = SolidtimeTimeEntryCreate {
            member_id,
            project_id: opt_text_ref(&entry.project_id),
            task_id: opt_text_ref(&entry.task_id),
            start: format_rfc3339(entry.start),
            end: match entry.end {
                Some(t) => Some(format_rfc3339(t)),
                None => None,
            },
            billable: entry.billable,
            description: opt_text_ref(&entry.description),
            tags: tag_refs(&entry.tags),
        };
        assert(body@ == existing_entry_view(*entry, member_id@));
        let fingerprint = time_entry_fingerprint(&body);
        assert(q.take(i + 1).drop_last() =~= q.take(i as int));
        assert(q.take(i + 1).last() == (fingerprint@, entry.id@));
        r.push_back(fingerprint, entry.id.clone());
        i = i + 1;
    }
    assert(q.take(entries.len() as int) =~= q);
    r
}

/// Fingerprints in strictly increasing text order, as the index keeps them.
pub open spec fn keys_ordered(gs: Seq<(Seq<char>, Seq<Seq<char>>)>) -> bool {
    forall|i: int, j: int| 0 <= i < j < gs.len() ==> text_lt(#[trigger] gs[i].0, #[trigger] gs[j].0)
}

proof fn lemma_no_group_below(gs: Seq<(Seq<char>, Seq<Seq<char>>)>, k: Seq<char>)
    requires
        keys_ordered(gs),
        gs.len() > 0,
        text_lt(k, gs[0].0),
    ensures
        group_pop(gs, k).0 is None,
{
    assert forall|j: int| 0 <= j < gs.len() implies (#[trigger] gs[j]).0 != k by {
        if j > 0 {
            lemma_text_lt_transitive(k, gs[0].0, gs[j].0);
        }
        lemma_text_lt_irreflexive(k);
    }
    lemma_group_pop_at(gs, k, gs.len() as int);
}

/// Existing entries are claimed in the order they were read: adding an id
/// under a fingerprint leaves the next claim of that fingerprint unchanged
/// when earlier ids wait there, and makes it the new id otherwise.
pub proof fn fingerprint_claims_are_first_in_first_out(gs: Seq<(Seq<char>, Seq<Seq<char>>)>, k: Seq<char>, id: Seq<char>)
    requires
        keys_ordered(gs),
    ensures
        group_pop(group_insert(gs, k, id, text_order()), k).0 == match group_pop(gs, k).0 {
            Some(first) => Some(first),
            None => Some(id),
        },
    decreases gs.len(),
{
    if gs.len() > 0 {
        if text_lt(gs[0].0, k) {
            lemma_text_lt_irreflexive(k);
            let t = gs.drop_first();
            assert(keys_ordered(t)) by {
                assert forall|i: int, j: int| 0 <= i < j < t.len() implies text_lt(#[trigger] t[i].0, #[trigger] t[j].0) by {
                    assert(t[i] == gs[i + 1] && t[j] == gs[j + 1]);
                }
            }
            fingerprint_claims_are_first_in_first_out(t, k, id);
            let ins = group_insert(gs, k, id, text_order());
            assert(ins == seq![gs[0]] + group_insert(t, k, id, text_order()));
            assert(ins[0] == gs[0]);
            assert(ins.drop_first() =~= group_insert(t, k, id, text_order()));
        } else if gs[0].0 != k {
            lemma_text_lt_total(gs[0].0, k);
            lemma_no_group_below(gs, k);
        }
    }
}

proof fn lemma_group_insert_bound(gs: Seq<(Seq<char>, Seq<Seq<char>>)>, k: Seq<char>, id: Seq<char>, a: Seq<char>)
    requires
        forall|i: int| 0 <= i < gs.len() ==> text_lt(a, #[trigger] gs[i].0),
        text_lt(a, k),
    ensures
        forall|j: int|
            0 <= j < group_insert(gs, k, id, text_order()).len() ==> text_lt(a, #[trigger] group_insert(gs, k, id, text_order())[j].0),
    decreases gs.len(),
{
    let ins = group_insert(gs, k, id, text_order());
    if gs.len() > 0 {
        if text_lt(gs[0].0, k) {
            let t = gs.drop_first();
            lemma_group_insert_bound(t, k, id, a);
            assert forall|j: int| 0 <= j < ins.len() implies text_lt(a, #[trigger] ins[j].0) by {
                if j > 0 {
                    assert(ins[j] == group_insert(t, k, id, text_order())[j - 1]);
                }
            }
        } else if gs[0].0 == k {
            assert forall|j: int| 0 <= j < ins.len() implies text_lt(a, #[trigger] ins[j].0) by {
                if j > 0 {
                    assert(ins[j] == gs[j]);
                }
            }
        } else {
            assert forall|j: int| 0 <= j < ins.len() implies text_lt(a, #[trigger] ins[j].0) by {
                if j > 0 {
                    assert(ins[j] == gs[j - 1]);
                }
            }
        }
    }
}

proof fn lemma_group_insert_ordered(gs: Seq<(Seq<char>, Seq<Seq<char>>)>, k: Seq<char>, id: Seq<char>)
    requires
        keys_ordered(gs),
    ensures
        keys_ordered(group_insert(gs, k, id, text_order())),
    decreases gs.len(),
{
    let ins = group_insert(gs, k, id, text_order());
    if gs.len() > 0 {
        if text_lt(gs[0].0, k) {
            let t = gs.drop_first();
            assert(keys_ordered(t)) by {
                assert forall|i: int, j: int| 0 <= i < j < t.len() implies text_lt(#[trigger] t[i].0, #[trigger] t[j].0) by {
                    assert(t[i] == gs[i + 1] && t[j] == gs[j + 1]);
                }
            }
            lemma_group_insert_ordered(t, k, id);
            assert forall|i: int| 0 <= i < t.len() implies text_lt(gs[0].0, #[trigger] t[i].0) by {
                assert(t[i] == gs[i + 1]);
            }
            lemma_group_insert_bound(t, k, id, gs[0].0);
            let it = group_insert(t, k, id, text_order());
            assert forall|i: int, j: int| 0 <= i < j < ins.len() implies text_lt(#[trigger] ins[i].0, #[trigger] ins[j].0) by {
                assert(ins[j] == it[j - 1]);
                if i > 0 {
                    assert(ins[i] == it[i - 1]);
                }
            }
        } else if gs[0].0 == k {
            assert forall|i: int, j: int| 0 <= i < j < ins.len() implies text_lt(#[trigger] ins[i].0, #[trigger] ins[j].0) by {
                assert(ins[i].0 == gs[i].0 && ins[j].0 == gs[j].0);
            }
        } else {
            lemma_text_lt_total(gs[0].0, k);
            assert forall|i: int, j: int| 0 <= i < j < ins.len() implies text_lt(#[trigger] ins[i].0, #[trigger] ins[j].0) by {
                assert(ins[j] == gs[j - 1]);
                if i > 0 {
                    assert(ins[i] == gs[i - 1]);
                } else if j - 1 > 0 {
                    lemma_text_lt_transitive(k, gs[0].0, gs[j - 1].0);
                }
            }
        }
    }
}

proof fn lemma_group_insert_other(gs: Seq<(Seq<char>, Seq<Seq<char>>)>, k2: Seq<char>, id: Seq<char>, k: Seq<char>)
    requires
        keys_ordered(gs),
        k2 != k,
    ensures
        group_pop(group_insert(gs, k2, id, text_order()), k).0 == group_pop(gs, k).0,
    decreases gs.len(),
{
    let ins = group_insert(gs, k2, id, text_order());
    if gs.len() == 0 {
        assert(ins == seq![(k2, seq![id])]);
        assert(ins.drop_first().len() == 0);
        assert(group_pop(ins, k).0 == group_pop(ins.drop_first(), k).0);
    } else if text_lt(gs[0].0, k2) {
        let t = gs.drop_first();
        assert(keys_ordered(t)) by {
            assert forall|i: int, j: int| 0 <= i < j < t.len() implies text_lt(#[trigger] t[i].0, #[trigger] t[j].0) by {
                assert(t[i] == gs[i + 1] && t[j] == gs[j + 1]);
            }
        }
        lemma_group_insert_other(t, k2, id, k);
        assert(ins[0] == gs[0]);
        assert(ins.drop_first() =~= group_insert(t, k2, id, text_order()));
        if gs[0].0 != k {
            assert(group_pop(ins, k).0 == group_pop(ins.drop_first(), k).0);
            assert(group_pop(gs, k).0 == group_pop(t, k).0);
        }
    } else if gs[0].0 == k2 {
        assert(ins[0].0 == k2);
        assert(ins.drop_first() =~= gs.drop_first());
        assert(group_pop(ins, k).0 == group_pop(ins.drop_first(), k).0);
        assert(group_pop(gs, k).0 == group_pop(gs.drop_first(), k).0);
    } else {
        assert(ins[0].0 == k2);
        assert(ins.drop_first() =~= gs);
        assert(group_pop(ins, k).0 == group_pop(ins.drop_first(), k).0);
    }
}

proof fn lemma_group_all_ordered(q: Seq<(Seq<char>, Seq<char>)>)
    ensures
        keys_ordered(group_all(Seq::empty(), q, text_order())),
    decreases q.len(),
{
    if q.len() > 0 {
        lemma_group_all_ordered(q.drop_last());
        lemma_group_insert_ordered(group_all(Seq::empty(), q.drop_last(), text_order()), q.last().0, q.last().1);
    }
}

proof fn lemma_group_all_finds(q: Seq<(Seq<char>, Seq<char>)>, i: int, k: Seq<char>)
    requires
        0 <= i < q.len(),
        q[i].0 == k,
    ensures
        group_pop(group_all(Seq::empty(), q, text_order()), k).0 is Some,
    decreases q.len(),
{
    let before = group_all(Seq::empty(), q.drop_last(), text_order());
    lemma_group_all_ordered(q.drop_last());
    if i == q.len() - 1 {
        fingerprint_claims_are_first_in_first_out(before, k, q.last().1);
    } else {
        lemma_group_all_finds(q.drop_last(), i, k);
        if q.last().0 == k {
            fingerprint_claims_are_first_in_first_out(before, k, q.last().1);
        } else {
            lemma_group_insert_other(before, q.last().0, q.last().1, k);
        }
    }
}

/// A time entry that a Solidtime entry already holds is claimed, not created
/// again, even without a state file: every existing entry is filed under its
/// fingerprint, and a fingerprint with an entry filed under it gives one.
pub proof fn existing_entry_is_found_by_fingerprint(
    entries: Seq<SolidtimeTimeEntry>,
    member: Seq<char>,
    i: int,
    content: EntryView,
)
    requires
        0 <= i < entries.len(),
        fingerprint_text(existing_entry_view(entries[i], member)) == fingerprint_text(content),
    ensures
        group_pop(group_all(Seq::empty(), existing_fingerprints(entries, member), text_order()), fingerprint_text(content)).0 is Some,
{
    let q = existing_fingerprints(entries, member);
    assert(q[i].0 == fingerprint_text(content));
    lemma_group_all_finds(q, i, fingerprint_text(content));
}

} // verus!
