use clockify_to_solidtime::mapping::MigrationState;

#[test]
fn recording_marks_the_state_for_saving_once() {
    let mut state = MigrationState::default();
    assert!(state.put_client("clockify", "solidtime"));
    state.mark_persisted();
    assert!(!state.put_client("clockify", "solidtime"));
    assert!(!state.is_dirty());
    assert!(state.put_project("p", "sp"));
    assert_eq!(state.projects.get("p").map(String::as_str), Some("sp"));
}

#[test]
fn dry_run_state_never_asks_to_be_saved() {
    let mut state = MigrationState::new(true);
    assert!(!state.put_client("clockify", "solidtime"));
    assert!(!state.put_time_entry("e", "se"));
    assert!(!state.set_cutoff("2024-01-01T00:00:00Z".to_string()));
    assert!(state.is_dirty());
    assert!(!state.needs_persist());
    assert_eq!(state.clients.get("clockify").map(String::as_str), Some("solidtime"));
}

#[test]
fn cutoff_changes_only_when_different() {
    let mut state = MigrationState::default();
    assert!(state.set_cutoff("a".to_string()));
    state.mark_persisted();
    assert!(!state.set_cutoff("a".to_string()));
    assert!(state.set_cutoff("b".to_string()));
    assert_eq!(state.last_cutoff.as_deref(), Some("b"));
}
