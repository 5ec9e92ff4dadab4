//! The Clockify side: which projects are left out, how listed records merge,
//! and when paging stops.
use vstd::prelude::*;

use crate::id_set::IdSet;
use crate::models::{ClockifyClient, ClockifyProject};
use crate::ordered::{keyed_insert, keyed_insert_all, lemma_keyed_insert_at};
use crate::text::{text_eq, text_less, text_lt};

verus! {

/// The ids of the archived projects among `ps`.
pub open spec fn archived_ids(ps: Seq<ClockifyProject>) -> Set<Seq<char>>
    decreases ps.len(),
{
    if ps.len() == 0 {
        Set::empty()
    } else if ps.last().archived {
        archived_ids(ps.drop_last()).insert(ps.last().id@)
    } else {
        archived_ids(ps.drop_last())
    }
}

/// The archived projects' ids are exactly the ids of the archived projects:
/// every archived project's id is among them, and each of them is the id of
/// an archived project.
pub proof fn archived_ids_are_the_archived_projects(ps: Seq<ClockifyProject>)
    ensures
        forall|i: int| 0 <= i < ps.len() && (#[trigger] ps[i]).archived ==> archived_ids(ps).contains(ps[i].id@),
        forall|x: Seq<char>|
            #[trigger] archived_ids(ps).contains(x) ==> exists|i: int| 0 <= i < ps.len() && (#[trigger] ps[i]).archived && ps[i].id@ == x,
    decreases ps.len(),
{
    if ps.len() > 0 {
        let t = ps.drop_last();
        archived_ids_are_the_archived_projects(t);
        assert forall|i: int| 0 <= i < ps.len() && (#[trigger] ps[i]).archived implies archived_ids(ps).contains(ps[i].id@) by {
            if i < ps.len() - 1 {
                assert(t[i] == ps[i]);
            }
        }
        assert forall|x: Seq<char>| #[trigger] archived_ids(ps).contains(x) implies exists|i: int|
            0 <= i < ps.len() && (#[trigger] ps[i]).archived && ps[i].id@ == x by {
            if archived_ids(t).contains(x) {
                let i = choose|i: int| 0 <= i < t.len() && (#[trigger] t[i]).archived && t[i].id@ == x;
                assert(ps[i] == t[i]);
            } else {
                assert(ps[ps.len() - 1] == ps.last());
            }
        }
    }
}

/// The ids of the archived projects when archived projects are to be ignored,
/// and no ids otherwise.
pub fn ignored_archived_project_ids(projects: &[ClockifyProject], ignore_archived: bool) -> (r: IdSet)
    ensures
        r@ == if ignore_archived { archived_ids(projects@) } else { Set::<Seq<char>>::empty() },
        ignore_archived ==> forall|i: int| 0 <= i < projects@.len() && (#[trigger] projects@[i]).archived ==> r@.contains(projects@[i].id@),
        forall|x: Seq<char>|
            #[trigger] r@.contains(x) ==> ignore_archived && exists|i: int|
                0 <= i < projects@.len() && (#[trigger] projects@[i]).archived && projects@[i].id@ == x,
{
    proof {
        archived_ids_are_the_archived_projects(projects@);
    }
    let mut r = IdSet::new();
    if !ignore_archived {
        return r;
    }
    let mut i: usize = 0;
    while i < projects.len()
        invariant
            i <= projects.len(),
            r@ == archived_ids(projects@.take(i as int)),
        decreases projects.len() - i,
    {
        assert(projects@.take(i + 1).drop_last() =~= projects@.take(i as int));
        if projects[i].archived {
            r.insert(projects[i].id.as_str());
        }
        i = i + 1;
    }
    assert(projects@.take(projects.len() as int) =~= projects@);
    r
}

/// Whether a project is kept when the ids in `ignored` are left out.
pub open spec fn kept_project(ignored: Set<Seq<char>>) -> spec_fn(ClockifyProject) -> bool {
    |p: ClockifyProject| !ignored.contains(p.id@)
}

/// The projects whose ids are not in `ignored`, in their order.
pub fn without_ignored_projects(projects: Vec<ClockifyProject>, ignored: &IdSet) -> (r: Vec<ClockifyProject>)
    ensures
        r@ == projects@.filter(kept_project(ignored@)),
{
    let ghost v = projects@;
    let ghost pred = kept_project(ignored@);
    let mut r: Vec<ClockifyProject> = Vec::new();
    for p in iter: projects
        invariant
            iter.seq() == v,
            pred == kept_project(ignored@),
            r@ == v.take(iter.index() as int).filter(pred),
    {
        assert(v.take(iter.index() + 1).drop_last() =~= v.take(iter.index() as int));
        assert(v.take(iter.index() + 1).last() == p);
        let ghost k = iter.index();
        let ghost before = r@;
        proof {
            reveal(Seq::filter);
        }
        let keep = !ignored.contains(p.id.as_str());
        assert(pred(p) == keep);
        if keep {
            r.push(p);
        }
        assert(r@ == v.take(k + 1).filter(pred));
    }
    assert(v.take(v.len() as int) =~= v);
    r
}

/// A record that a listing identifies by its id.
pub trait Listed: Sized {
    /// The record's id.
    spec fn id_view(&self) -> Seq<char>;

    /// The record's id.
    fn id_text(&self) -> (r: &str)
        ensures
            r@ == self.id_view();
}

impl Listed for ClockifyClient {
    open spec fn id_view(&self) -> Seq<char> {
        self.id@
    }

    fn id_text(&self) -> (r: &str) {
        self.id.as_str()
    }
}

impl Listed for ClockifyProject {
    open spec fn id_view(&self) -> Seq<char> {
        self.id@
    }

    fn id_text(&self) -> (r: &str) {
        self.id.as_str()
    }
}

/// The id of a listed record, as a spec function.
pub open spec fn listed_id<R: Listed>() -> spec_fn(R) -> Seq<char> {
    |r: R| r.id_view()
}

fn insert_by_id<R: Listed>(v: &mut Vec<R>, x: R)
    ensures
        final(v)@ == keyed_insert(old(v)@, x, listed_id::<R>()),
{
    let ghost before = v@;
    let ghost key = listed_id::<R>();
    let mut p: usize = 0;
    while p < v.len() && text_less(v[p].id_text(), x.id_text())
        invariant
            p <= v.len(),
            before == v@,
            key == listed_id::<R>(),
            forall|j: int| 0 <= j < p ==> text_lt(key(#[trigger] before[j]), key(x)),
        decreases v.len() - p,
    {
        p = p + 1;
    }
    proof {
        lemma_keyed_insert_at(before, x, key, p as int);
    }
    if p < v.len() && text_eq(v[p].id_text(), x.id_text()) {
        v.set(p, x);
    } else {
        v.insert(p, x);
        assert(v@ =~= before.take(p as int).push(x) + before.skip(p as int));
    }
}

/// The records of both listings, one per id, in id order; a record of the
/// second listing replaces one of the first with the same id, and a later
/// record of a listing replaces an earlier one.
pub fn merge_by_id<R: Listed>(first: Vec<R>, second: Vec<R>) -> (r: Vec<R>)
    ensures
        r@ == keyed_insert_all(keyed_insert_all(Seq::empty(), first@, listed_id::<R>()), second@, listed_id::<R>()),
{
    let ghost key = listed_id::<R>();
    let ghost f = first@;
    let ghost g = second@;
    let mut r: Vec<R> = Vec::new();
    for x in iter: first
        invariant
            iter.seq() == f,
            key == listed_id::<R>(),
            r@ == keyed_insert_all(Seq::empty(), f.take(iter.index() as int), key),
    {
        assert(f.take(iter.index() + 1).drop_last() =~= f.take(iter.index() as int));
        assert(f.take(iter.index() + 1).last() == x);
        insert_by_id(&mut r, x);
    }
    assert(f.take(f.len() as int) =~= f);
    let ghost base = r@;
    for x in iter: second
        invariant
            iter.seq() == g,
            key == listed_id::<R>(),
            base == keyed_insert_all(Seq::empty(), f, key),
            r@ == keyed_insert_all(base, g.take(iter.index() as int), key),
    {
        assert(g.take(iter.index() + 1).drop_last() =~= g.take(iter.index() as int));
        assert(g.take(iter.index() + 1).last() == x);
        insert_by_id(&mut r, x);
    }
    assert(g.take(g.len() as int) =~= g);
    r
}

/// Whether a header value is `true`, ignoring ASCII case.
pub open spec fn is_true_text(v: Seq<char>) -> bool {
    &&& v.len() == 4
    &&& (v[0] == 't' || v[0] == 'T')
    &&& (v[1] == 'r' || v[1] == 'R')
    &&& (v[2] == 'u' || v[2] == 'U')
    &&& (v[3] == 'e' || v[3] == 'E')
}

/// Whether the `X-Last-Page` header marks the last page: it is present and
/// reads `true` in any ASCII case.
pub fn is_last_page_header(value: Option<&str>) -> (r: bool)
    ensures
        r == (value matches Some(v) && is_true_text(v@)),
{
    match value {
        None => false,
        Some(v) => {
            let c = crate::text::chars_of(v);
            c.len() == 4 && (c[0] == 't' || c[0] == 'T') && (c[1] == 'r' || c[1] == 'R') && (c[2] == 'u' || c[2] == 'U') && (
            c[3] == 'e' || c[3] == 'E')
        },
    }
}

/// Whether another Clockify page is requested: the page read was not empty
/// and not marked as the last one.
pub fn fetch_next_clockify_page(page_was_empty: bool, last_page_header: Option<&str>) -> (r: bool)
    ensures
        r == (!page_was_empty && !(last_page_header matches Some(v) && is_true_text(v@))),
{
    !page_was_empty && !is_last_page_header(last_page_header)
}

} // verus!
