use clockify_to_solidtime::api_envelope::ListPage;
use clockify_to_solidtime::models::{SolidtimeMembership, SolidtimeOrganization};
use clockify_to_solidtime::solidtime::{next_time_entry_offset, select_membership, should_fetch_next_page, SOLIDTIME_PAGE_SIZE};

fn membership(member: &str, org: &str) -> SolidtimeMembership {
    SolidtimeMembership {
        organization: SolidtimeOrganization { id: org.to_string(), name: format!("Organization {org}") },
        member_id: member.to_string(),
    }
}

#[test]
fn stops_when_explicit_pagination_metadata_has_no_next_page() {
    let page = ListPage { items: vec![(); SOLIDTIME_PAGE_SIZE], has_next: false, has_pagination_metadata: true };

    assert!(!should_fetch_next_page(&page));
}

#[test]
fn follows_explicit_pagination_metadata_when_next_page_exists() {
    let page = ListPage { items: Vec::<()>::new(), has_next: true, has_pagination_metadata: true };

    assert!(should_fetch_next_page(&page));
}

#[test]
fn falls_back_to_full_page_heuristic_without_pagination_metadata() {
    let full_page = ListPage { items: vec![(); SOLIDTIME_PAGE_SIZE], has_next: false, has_pagination_metadata: false };
    let short_page = ListPage { items: vec![(); SOLIDTIME_PAGE_SIZE - 1], has_next: false, has_pagination_metadata: false };

    assert!(should_fetch_next_page(&full_page));
    assert!(!should_fetch_next_page(&short_page));
}

#[test]
fn time_entry_offsets_advance_by_full_pages_only() {
    assert_eq!(next_time_entry_offset(0, 500), Some(500));
    assert_eq!(next_time_entry_offset(500, 499), None);
    assert_eq!(next_time_entry_offset(usize::MAX - 10, 500), None);
}

#[test]
fn membership_is_chosen_by_organization_or_when_alone() {
    let chosen = select_membership(vec![membership("m-a", "a"), membership("m-b", "b")], Some("b")).unwrap();
    assert_eq!(chosen.member_id, "m-b");
    let err = select_membership(vec![membership("m-a", "a")], Some("c")).unwrap_err();
    assert_eq!(err.to_string(), "Solidtime organization `c` is not among your memberships");
    let only = select_membership(vec![membership("m-a", "a")], None).unwrap();
    assert_eq!(only.member_id, "m-a");
    let err = select_membership(vec![membership("m-a", "a"), membership("m-b", "b")], None).unwrap_err();
    assert_eq!(err.to_string(), "A Solidtime organization must be selected; set SOLIDTIME_ORGANIZATION_ID");
    let err = select_membership(Vec::new(), None).unwrap_err();
    assert_eq!(err.to_string(), "A Solidtime organization must be selected; set SOLIDTIME_ORGANIZATION_ID");
}
