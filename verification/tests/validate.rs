use clockify_to_solidtime::models::{ClockifyWorkspace, SolidtimeMembership, SolidtimeOrganization};
use clockify_to_solidtime::validate::{
    describe_service_failure, resolve_clockify_workspace, resolve_solidtime_membership, selected_workspace_id, service_failure_message,
};

fn membership(member: &str, org: &str) -> SolidtimeMembership {
    SolidtimeMembership { organization: SolidtimeOrganization { id: org.to_string(), name: format!("Org {org}") }, member_id: member.to_string() }
}

#[test]
fn describes_service_failures_from_status() {
    assert_eq!(
        service_failure_message("Clockify", "account", Some(401)),
        "Clockify rejected the configured credential; account access could not be confirmed"
    );
    assert_eq!(
        service_failure_message("Solidtime", "account", Some(500)),
        "Solidtime returned 500 Internal Server Error; account access could not be confirmed"
    );
    assert_eq!(service_failure_message("Clockify", "workspace", None), "Clockify workspace access could not be confirmed");
}

#[test]
fn forbidden_counts_as_rejected_credential() {
    assert_eq!(
        describe_service_failure("Solidtime", "workspace", Some(403)).to_string(),
        "Solidtime rejected the configured credential; workspace access could not be confirmed"
    );
    assert_eq!(
        service_failure_message("Clockify", "account", Some(404)),
        "Clockify returned 404 Not Found; account access could not be confirmed"
    );
}

#[test]
fn requires_solidtime_organization_when_multiple_memberships_exist() {
    let err = resolve_solidtime_membership(vec![membership("member-a", "organization-a"), membership("member-b", "organization-b")], None)
        .expect_err("multiple memberships should require explicit organization");
    assert!(err.to_string().contains("A Solidtime organization must be selected"));
}

#[test]
fn resolves_configured_membership_and_workspace() {
    let chosen = resolve_solidtime_membership(vec![membership("member-a", "organization-a"), membership("member-b", "organization-b")], Some("organization-b")).unwrap();
    assert_eq!(chosen.member_id, "member-b");
    let err = resolve_solidtime_membership(vec![membership("member-a", "organization-a")], Some("other")).unwrap_err();
    assert_eq!(err.to_string(), "Solidtime organization `other` is not among your memberships");

    let workspaces = vec![
        ClockifyWorkspace { id: "w-1".to_string(), name: "One".to_string() },
        ClockifyWorkspace { id: "w-2".to_string(), name: "Two".to_string() },
    ];
    assert_eq!(resolve_clockify_workspace(workspaces, "w-2").unwrap().name, "Two");
    let err = resolve_clockify_workspace(vec![], "w-9").unwrap_err();
    assert_eq!(err.to_string(), "Clockify workspace `w-9` is not among your workspaces");
}

#[test]
fn workspace_comes_from_configuration_then_account() {
    assert_eq!(selected_workspace_id(Some("cfg".to_string()), Some("acct".to_string())).unwrap(), "cfg");
    assert_eq!(selected_workspace_id(None, Some("acct".to_string())).unwrap(), "acct");
    assert!(selected_workspace_id(None, None).unwrap_err().to_string().starts_with("A Clockify workspace must be selected"));
}
