use clockify_to_solidtime::fingerprint::{fingerprint_existing_entries, time_entry_fingerprint, FingerprintIndex};
use clockify_to_solidtime::models::{SolidtimeTimeEntry, SolidtimeTimeEntryCreate, Timestamp};

#[test]
fn fingerprint_is_stable_for_tag_order() {
    let left = SolidtimeTimeEntryCreate {
        member_id: "member",
        project_id: Some("project"),
        task_id: Some("task"),
        start: "2024-01-01T10:00:00Z".to_string(),
        end: Some("2024-01-01T11:00:00Z".to_string()),
        billable: true,
        description: Some(" work "),
        tags: vec!["b", "a"],
    };
    let right = SolidtimeTimeEntryCreate { tags: vec!["a", "b"], ..left };

    assert_eq!(time_entry_fingerprint(&right), "member|project|task|2024-01-01T10:00:00Z|2024-01-01T11:00:00Z|true|work|a,b");
}

#[test]
fn absent_fields_are_empty_in_the_fingerprint() {
    let entry = SolidtimeTimeEntryCreate {
        member_id: "m",
        project_id: None,
        task_id: None,
        start: "s".to_string(),
        end: None,
        billable: false,
        description: None,
        tags: vec![],
    };
    assert_eq!(time_entry_fingerprint(&entry), "m|||s||false||");
}

#[test]
fn keeps_all_existing_time_entry_fingerprint_matches() {
    // 2024-01-01T09:00:00Z and 10:00:00Z
    let start = Timestamp { seconds: 1_704_099_600, nanos: 0 };
    let end = Timestamp { seconds: 1_704_103_200, nanos: 0 };
    let entry = |id: &str| SolidtimeTimeEntry {
        id: id.to_string(),
        project_id: Some("project".to_string()),
        task_id: Some("task".to_string()),
        start,
        end: Some(end),
        billable: true,
        description: Some("work".to_string()),
        tags: vec!["tag".to_string()],
    };
    let entries = vec![entry("first"), entry("second")];

    let mut fingerprints = fingerprint_existing_entries(&entries, "member");
    let keys = fingerprints.keys();
    let key = keys.first().expect("one fingerprint");

    assert_eq!(keys.len(), 1);
    assert_eq!(key, "member|project|task|2024-01-01T09:00:00Z|2024-01-01T10:00:00Z|true|work|tag");
    assert_eq!(fingerprints.pop_front(key).as_deref(), Some("first"));
    assert_eq!(fingerprints.pop_front(key).as_deref(), Some("second"));
    assert_eq!(fingerprints.pop_front(key), None);
}

#[test]
fn fingerprint_index_keeps_keys_sorted_and_queues_in_order() {
    let mut index = FingerprintIndex::new();
    index.push_back("b".to_string(), "1".to_string());
    index.push_back("a".to_string(), "2".to_string());
    index.push_back("b".to_string(), "3".to_string());
    assert_eq!(index.keys(), vec!["a".to_string(), "b".to_string()]);
    assert_eq!(index.pop_front("b").as_deref(), Some("1"));
    assert_eq!(index.pop_front("c"), None);
    assert_eq!(index.pop_front("b").as_deref(), Some("3"));
    assert_eq!(index.pop_front("a").as_deref(), Some("2"));
}
