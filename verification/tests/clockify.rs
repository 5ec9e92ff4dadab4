use clockify_to_solidtime::calendar::{format_rfc3339, month_windows, parse_datetime};
use clockify_to_solidtime::clockify::{fetch_next_clockify_page, ignored_archived_project_ids, is_last_page_header, merge_by_id, without_ignored_projects};
use clockify_to_solidtime::models::{ClockifyClient, ClockifyProject, Timestamp};
use clockify_to_solidtime::text::trim_trailing_slashes;

fn at(seconds: i64) -> Timestamp {
    Timestamp { seconds, nanos: 0 }
}

fn project(id: &str, name: &str, archived: bool) -> ClockifyProject {
    ClockifyProject {
        id: id.to_string(),
        name: name.to_string(),
        client_id: None,
        color: None,
        billable: false,
        archived,
        estimate: None,
    }
}

#[test]
fn creates_month_windows() {
    // 2024-01-15T10:00:00Z to 2024-03-02T00:00:00Z
    let from = at(1_705_312_800);
    let to = at(1_709_337_600);
    let windows = month_windows(from, to);

    assert_eq!(windows.len(), 3);
    assert_eq!(windows[0].start, from);
    // 2024-02-01T00:00:00Z
    assert_eq!(windows[0].end, at(1_706_745_600));
    assert_eq!(windows[2].end, to);
}

#[test]
fn month_windows_are_contiguous_and_empty_for_an_empty_range() {
    let from = at(1_705_312_800);
    let to = at(1_709_337_600);
    let windows = month_windows(from, to);
    assert_eq!(windows[1].start, at(1_706_745_600));
    // 2024-03-01T00:00:00Z
    assert_eq!(windows[1].end, at(1_709_251_200));
    assert_eq!(windows[2].start, at(1_709_251_200));
    assert!(month_windows(to, from).is_empty());
    assert!(month_windows(to, to).is_empty());
    // December rolls over into January of the next year.
    let december = month_windows(at(1_733_011_200), at(1_736_000_000));
    assert_eq!(december[0].end, at(1_735_689_600));
}

#[test]
fn clockify_collects_archived_project_ids_only_when_ignore_archived_is_enabled() {
    let projects = vec![project("active", "Active Project", false), project("archived", "Archived Project", true)];

    let ignored = ignored_archived_project_ids(&projects, true);

    assert!(ignored.contains("archived"));
    assert!(!ignored.contains("active"));
    assert!(ignored_archived_project_ids(&projects, false).is_empty());
}

#[test]
fn ignored_projects_are_filtered_out_in_order() {
    let projects = vec![project("a", "A", false), project("b", "B", true), project("c", "C", false)];
    let ignored = ignored_archived_project_ids(&projects, true);
    assert_eq!(ignored.len(), 1);
    let kept = without_ignored_projects(projects, &ignored);
    let ids: Vec<&str> = kept.iter().map(|p| p.id.as_str()).collect();
    assert_eq!(ids, vec!["a", "c"]);
}

#[test]
fn listings_merge_by_id_with_later_records_winning() {
    let client = |id: &str, name: &str| ClockifyClient { id: id.to_string(), name: name.to_string() };
    let merged = merge_by_id(vec![client("b", "Bee"), client("a", "Ay")], vec![client("b", "Bee archived"), client("c", "Sea")]);
    let pairs: Vec<(&str, &str)> = merged.iter().map(|c| (c.id.as_str(), c.name.as_str())).collect();
    assert_eq!(pairs, vec![("a", "Ay"), ("b", "Bee archived"), ("c", "Sea")]);
}

#[test]
fn clockify_paging_stops_on_empty_or_last_page() {
    assert!(is_last_page_header(Some("true")));
    assert!(is_last_page_header(Some("TRUE")));
    assert!(is_last_page_header(Some("True")));
    assert!(!is_last_page_header(Some("false")));
    assert!(!is_last_page_header(Some("true ")));
    assert!(!is_last_page_header(None));
    assert!(fetch_next_clockify_page(false, None));
    assert!(!fetch_next_clockify_page(true, None));
    assert!(!fetch_next_clockify_page(false, Some("true")));
}

#[test]
fn trailing_slashes_are_removed_from_base_urls() {
    assert_eq!(trim_trailing_slashes("https://api.clockify.me/api/v1//"), "https://api.clockify.me/api/v1");
    assert_eq!(trim_trailing_slashes("https://x.test"), "https://x.test");
    assert_eq!(trim_trailing_slashes("///"), "");
}

#[test]
fn command_line_timestamps_accept_rfc3339_and_dates() {
    assert_eq!(parse_datetime("2024-01-01"), Some(at(1_704_067_200)));
    assert_eq!(parse_datetime("2024-01-01T10:00:00+01:00"), Some(at(1_704_099_600)));
    assert_eq!(parse_datetime("2024-01-01T09:00:00.5Z"), Some(Timestamp { seconds: 1_704_099_600, nanos: 500_000_000 }));
    assert_eq!(parse_datetime("01/02/2024"), None);
}

#[test]
fn instants_are_written_in_rfc3339_whole_seconds() {
    assert_eq!(format_rfc3339(Timestamp { seconds: 1_704_099_600, nanos: 500_000_000 }), "2024-01-01T09:00:00Z");
    assert_eq!(format_rfc3339(at(0)), "1970-01-01T00:00:00Z");
}
