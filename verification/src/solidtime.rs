//! The Solidtime side: when paging goes on, and which membership is the target.
use vstd::prelude::*;

use crate::api_envelope::ListPage;
use crate::errors::{message, MigrationError};
use crate::models::SolidtimeMembership;
use crate::text::text_eq;
use crate::validate::{no_organization_message, organization_missing_message, resolve_solidtime_membership};

verus! {

/// The number of records that one page of a Solidtime list holds.
pub const SOLIDTIME_PAGE_SIZE: usize = 100;

/// The number of time entries that one request for them asks for.
pub const SOLIDTIME_TIME_ENTRY_PAGE_SIZE: usize = 500;

/// Whether another page of a list is requested: as the pagination metadata
/// says when there is any, else when the page was full.
pub fn should_fetch_next_page<T>(list_page: &ListPage<T>) -> (r: bool)
    ensures
        r == if list_page.has_pagination_metadata {
            list_page.has_next
        } else {
            list_page.items@.len() == SOLIDTIME_PAGE_SIZE
        },
{
    if list_page.has_pagination_metadata {
        list_page.has_next
    } else {
        list_page.items.len() == SOLIDTIME_PAGE_SIZE
    }
}

/// The offset of the next request for time entries, or none when the last
/// response held fewer than a full page or the offset would not fit.
pub fn next_time_entry_offset(offset: usize, count: usize) -> (r: Option<usize>)
    ensures
        count < SOLIDTIME_TIME_ENTRY_PAGE_SIZE ==> r is None,
        count >= SOLIDTIME_TIME_ENTRY_PAGE_SIZE && offset + count <= usize::MAX ==> r == Some((offset + count) as usize),
        count >= SOLIDTIME_TIME_ENTRY_PAGE_SIZE && offset + count > usize::MAX ==> r is None,
{
    if count < SOLIDTIME_TIME_ENTRY_PAGE_SIZE {
        None
    } else {
        offset.checked_add(count)
    }
}

/// The position of the first membership in the organization `id`.
pub open spec fn first_membership_in(ms: Seq<SolidtimeMembership>, id: Seq<char>) -> Option<int>
    decreases ms.len(),
{
    if ms.len() == 0 {
        None
    } else {
        match first_membership_in(ms.drop_last(), id) {
            Some(i) => Some(i),
            None => if ms.last().organization.id@ == id {
                Some(ms.len() - 1)
            } else {
                None
            },
        }
    }
}

pub(crate) proof fn lemma_first_membership_bound(ms: Seq<SolidtimeMembership>, id: Seq<char>)
    ensures
        first_membership_in(ms, id) matches Some(i) ==> 0 <= i < ms.len(),
    decreases ms.len(),
{
    if ms.len() > 0 {
        lemma_first_membership_bound(ms.drop_last(), id);
    }
}

pub(crate) fn find_membership(memberships: &Vec<SolidtimeMembership>, id: &str) -> (r: Option<usize>)
    ensures
        r matches Some(i) ==> i < memberships@.len() && first_membership_in(memberships@, id@) == Some(i as int),
        r is None ==> first_membership_in(memberships@, id@) is None,
{
    let mut i: usize = 0;
    while i < memberships.len()
        invariant
            i <= memberships.len(),
            first_membership_in(memberships@.take(i as int), id@) is None,
        decreases memberships.len() - i,
    {
        assert(memberships@.take(i + 1).drop_last() =~= memberships@.take(i as int));
        if text_eq(memberships[i].organization.id.as_str(), id) {
            proof {
                lemma_first_membership_prefix(memberships@, id@, i + 1);
                lemma_first_membership_bound(memberships@, id@);
            }
            return Some(i);
        }
        i = i + 1;
    }
    assert(memberships@.take(memberships.len() as int) =~= memberships@);
    None
}

proof fn lemma_first_membership_prefix(ms: Seq<SolidtimeMembership>, id: Seq<char>, n: int)
    requires
        0 <= n <= ms.len(),
        first_membership_in(ms.take(n), id) is Some,
    ensures
        first_membership_in(ms, id) == first_membership_in(ms.take(n), id),
    decreases ms.len() - n,
{
    if n < ms.len() {
        assert(ms.take(n + 1).drop_last() =~= ms.take(n));
        lemma_first_membership_prefix(ms, id, n + 1);
    } else {
        assert(ms.take(n) =~= ms);
    }
}

pub(crate) fn take_membership(memberships: Vec<SolidtimeMembership>, i: usize) -> (r: SolidtimeMembership)
    requires
        i < memberships@.len(),
    ensures
        r == memberships@[i as int],
{
    let mut memberships = memberships;
    memberships.swap_remove(i)
}

/// The membership of the target organization, chosen as validation chooses
/// it: the first in the configured organization, or the only one when none is
/// configured; otherwise the documented error.
pub fn select_membership(memberships: Vec<SolidtimeMembership>, organization_id: Option<&str>) -> (r: Result<
    SolidtimeMembership,
    MigrationError,
>)
    ensures
        match organization_id {
            Some(id) => match first_membership_in(memberships@, id@) {
                Some(i) => r == Ok::<SolidtimeMembership, MigrationError>(memberships@[i]),
                None => r matches Err(e) && e@ == organization_missing_message(id@),
            },
            None => if memberships@.len() == 1 {
                r == Ok::<SolidtimeMembership, MigrationError>(memberships@[0])
            } else {
                r matches Err(e) && e@ == no_organization_message()
            },
        },
{
    resolve_solidtime_membership(memberships, organization_id)
}

} // verus!
