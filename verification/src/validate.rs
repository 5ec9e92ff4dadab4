//! Confirming the source workspace and target organization, and describing
//! why a service could not confirm access.
use vstd::prelude::*;

use crate::errors::{message, MigrationError};
use crate::http::{spec_status_text, status_text};
use crate::models::{ClockifyWorkspace, SolidtimeMembership};
use crate::solidtime::{find_membership, first_membership_in, lemma_first_membership_bound, take_membership};
use crate::text::{concat, decimal, opt_view, text_eq};

verus! {

/// The message when no Clockify workspace can be chosen.
pub open spec fn no_workspace_message() -> Seq<char> {
    "A Clockify workspace must be selected; set CLOCKIFY_WORKSPACE_ID or provide a default workspace"@
}

/// The configured workspace, else the account's default workspace.
pub fn selected_workspace_id(configured: Option<String>, account_default: Option<String>) -> (r: Result<String, MigrationError>)
    ensures
        match opt_view(configured) {
            Some(id) => r matches Ok(s) && s@ == id,
            None => match opt_view(account_default) {
                Some(id) => r matches Ok(s) && s@ == id,
                None => r matches Err(e) && e@ == no_workspace_message(),
            },
        },
{
    match configured {
        Some(id) => Ok(id),
        None => match account_default {
            Some(id) => Ok(id),
            None => Err(message("A Clockify workspace must be selected; set CLOCKIFY_WORKSPACE_ID or provide a default workspace")),
        },
    }
}

/// The position of the first workspace with id `id`.
pub open spec fn first_workspace_with(ws: Seq<ClockifyWorkspace>, id: Seq<char>) -> Option<int>
    decreases ws.len(),
{
    if ws.len() == 0 {
        None
    } else {
        match first_workspace_with(ws.drop_last(), id) {
            Some(i) => Some(i),
            None => if ws.last().id@ == id {
                Some(ws.len() - 1)
            } else {
                None
            },
        }
    }
}

proof fn lemma_first_workspace_prefix(ws: Seq<ClockifyWorkspace>, id: Seq<char>, n: int)
    requires
        0 <= n <= ws.len(),
        first_workspace_with(ws.take(n), id) is Some,
    ensures
        first_workspace_with(ws, id) == first_workspace_with(ws.take(n), id),
    decreases ws.len() - n,
{
    if n < ws.len() {
        assert(ws.take(n + 1).drop_last() =~= ws.take(n));
        lemma_first_workspace_prefix(ws, id, n + 1);
    } else {
        assert(ws.take(n) =~= ws);
    }
}

/// The message when the chosen workspace is not visible to the key.
pub open spec fn workspace_missing_message(id: Seq<char>) -> Seq<char> {
    "Clockify workspace `"@ + id + "` is not among your workspaces"@
}

fn take_workspace(workspaces: Vec<ClockifyWorkspace>, i: usize) -> (r: ClockifyWorkspace)
    requires
        i < workspaces@.len(),
    ensures
        r == workspaces@[i as int],
{
    let mut workspaces = workspaces;
    workspaces.swap_remove(i)
}

/// The workspace with the chosen id among those the account can see.
pub fn resolve_clockify_workspace(workspaces: Vec<ClockifyWorkspace>, workspace_id: &str) -> (r: Result<ClockifyWorkspace, MigrationError>)
    ensures
        match first_workspace_with(workspaces@, workspace_id@) {
            Some(i) => r == Ok::<ClockifyWorkspace, MigrationError>(workspaces@[i]),
            None => r matches Err(e) && e@ == workspace_missing_message(workspace_id@),
        },
{
    let ghost ws = workspaces@;
    let mut i: usize = 0;
    while i < workspaces.len()
        invariant
            i <= workspaces.len(),
            ws == workspaces@,
            first_workspace_with(ws.take(i as int), workspace_id@) is None,
        decreases workspaces.len() - i,
    {
        assert(ws.take(i + 1).drop_last() =~= ws.take(i as int));
        if text_eq(workspaces[i].id.as_str(), workspace_id) {
            proof {
                assert(ws.take(i + 1).last() == ws[i as int]);
                assert(first_workspace_with(ws.take(i + 1), workspace_id@) == Some(i as int));
                lemma_first_workspace_prefix(ws, workspace_id@, i + 1);
            }
            let w = take_workspace(workspaces, i);
            return Ok(w);
        }
        i = i + 1;
    }
    assert(ws.take(ws.len() as int) =~= ws);
    let m = concat("Clockify workspace `", workspace_id);
    Err(message(concat(m.as_str(), "` is not among your workspaces").as_str()))
}

/// The message when a configured organization has no membership.
pub open spec fn organization_missing_message(id: Seq<char>) -> Seq<char> {
    "Solidtime organization `"@ + id + "` is not among your memberships"@
}

/// The message when the target organization cannot be chosen alone.
pub open spec fn no_organization_message() -> Seq<char> {
    "A Solidtime organization must be selected; set SOLIDTIME_ORGANIZATION_ID"@
}

/// The membership of the target organization: the first in the configured
/// organization, or the only one when none is configured.
pub fn resolve_solidtime_membership(memberships: Vec<SolidtimeMembership>, organization_id: Option<&str>) -> (r: Result<
    SolidtimeMembership,
    MigrationError,
>)
    ensures
        match organization_id {
            Some(id) => match first_membership_in(memberships@, id@) {
                Some(i) => r == Ok::<SolidtimeMembership, MigrationError>(memberships@[i]),
                None => r matches Err(e) && e@ == organization_missing_message(id@),
            },
            None => if memberships@.len() == 1 {
                r == Ok::<SolidtimeMembership, MigrationError>(memberships@[0])
            } else {
                r matches Err(e) && e@ == no_organization_message()
            },
        },
{
    proof {
        if let Some(id) = organization_id {
            lemma_first_membership_bound(memberships@, id@);
        }
    }
    match organization_id {
        Some(id) => match find_membership(&memberships, id) {
            Some(i) => Ok(take_membership(memberships, i)),
            None => {
                let m = concat("Solidtime organization `", id);
                Err(message(concat(m.as_str(), "` is not among your memberships").as_str()))
            },
        },
        None => if memberships.len() == 1 {
            Ok(take_membership(memberships, 0))
        } else {
            Err(message("A Solidtime organization must be selected; set SOLIDTIME_ORGANIZATION_ID"))
        },
    }
}

/// Why a service could not confirm access: a rejected credential (401 or
/// 403), another status, or no status at all.
pub open spec fn service_failure_text(service: Seq<char>, subject: Seq<char>, status: Option<u16>) -> Seq<char> {
    match status {
        Some(code) => if code == 401 || code == 403 {
            service + " rejected the configured credential; "@ + subject + " access could not be confirmed"@
        } else {
            service + " returned "@ + spec_status_text(code) + "; "@ + subject + " access could not be confirmed"@
        },
        None => service + " "@ + subject + " access could not be confirmed"@,
    }
}

/// The message that tells why `service` could not confirm `subject` access,
/// from the HTTP status of the failure when there was one.
pub fn service_failure_message(service: &str, subject: &str, status: Option<u16>) -> (r: String)
    requires
        status matches Some(code) ==> 100 <= code <= 999,
    ensures
        r@ == service_failure_text(service@, subject@, status),
{
    let mut r = String::new();
    r.append(service);
    match status {
        Some(code) => {
            if code == 401 || code == 403 {
                r.append(" rejected the configured credential; ");
            } else {
                r.append(" returned ");
                r.append(status_text(code).as_str());
                r.append("; ");
            }
        },
        None => {
            r.append(" ");
        },
    }
    r.append(subject);
    r.append(" access could not be confirmed");
    r
}

/// The error that reports a failed access check of `service`: the message of
/// `service_failure_message`, which the caller attaches to the failure.
pub fn describe_service_failure(service: &str, subject: &str, status: Option<u16>) -> (e: MigrationError)
    requires
        status matches Some(code) ==> 100 <= code <= 999,
    ensures
        e@ == service_failure_text(service@, subject@, status),
{
    message(service_failure_message(service, subject, status).as_str())
}

} // verus!
