use clockify_to_solidtime::models::{ClockifyProject, ClockifyTask, SolidtimeProject, SolidtimeTask};
use clockify_to_solidtime::project_mapping::{
    insert_mapping, resolve_clockify_project, resolve_clockify_task, resolve_solidtime_project, resolve_solidtime_task, ProjectMappingRow,
};
use clockify_to_solidtime::string_map::StringMap;

fn clockify_project(id: &str, name: &str) -> ClockifyProject {
    ClockifyProject { id: id.to_string(), name: name.to_string(), client_id: None, color: None, billable: false, archived: false, estimate: None }
}

fn clockify_task(id: &str, name: &str, project_id: &str) -> ClockifyTask {
    ClockifyTask { id: id.to_string(), name: name.to_string(), project_id: Some(project_id.to_string()), estimate: None }
}

fn solid_project(id: &str, name: &str) -> SolidtimeProject {
    SolidtimeProject { id: id.to_string(), name: name.to_string(), client_id: None, is_archived: false }
}

fn solid_task(id: &str, name: &str, project_id: &str) -> SolidtimeTask {
    SolidtimeTask { id: id.to_string(), name: name.to_string(), project_id: project_id.to_string() }
}

fn mapping_row(clockify_project: &str, clockify_task: &str, solidtime_project: &str, solidtime_task: &str) -> ProjectMappingRow {
    ProjectMappingRow {
        clockify_project: clockify_project.to_string(),
        clockify_task: clockify_task.to_string(),
        solidtime_project: solidtime_project.to_string(),
        solidtime_task: solidtime_task.to_string(),
        clockify_project_id: String::new(),
        clockify_task_id: String::new(),
        solidtime_project_id: String::new(),
        solidtime_task_id: String::new(),
    }
}

#[test]
fn rejects_unresolved_and_ambiguous_mapping_references() {
    let row = mapping_row("Project", "Task", "Target", "Target Task");

    assert!(resolve_clockify_project(&row, &[]).unwrap_err().to_string().contains("Clockify project"));
    assert!(resolve_clockify_task(&row, "cp-1", &[]).unwrap_err().to_string().contains("Clockify task"));
    assert!(resolve_solidtime_project(&row, &[]).unwrap_err().to_string().contains("Solidtime project"));
    assert!(resolve_solidtime_task(&row, &solid_project("sp-1", "Target"), &[]).unwrap_err().to_string().contains("Solidtime task"));

    assert!(resolve_clockify_project(&row, &[clockify_project("cp-1", "Project"), clockify_project("cp-2", "Project")]).is_err());
    assert!(resolve_clockify_task(&row, "cp-1", &[clockify_task("ct-1", "Task", "cp-1"), clockify_task("ct-2", "Task", "cp-1")]).is_err());
    assert!(resolve_solidtime_project(&row, &[solid_project("sp-1", "Target"), solid_project("sp-2", "Target")]).is_err());
    assert!(resolve_solidtime_task(
        &row,
        &solid_project("sp-1", "Target"),
        &[solid_task("st-1", "Target Task", "sp-1"), solid_task("st-2", "Target Task", "sp-1")]
    )
    .is_err());
}

#[test]
fn detects_csv_internal_mapping_conflicts() {
    let mut map = StringMap::new();

    insert_mapping(&mut map, None, "clockify", "solidtime-1", "project").unwrap();
    let err = insert_mapping(&mut map, None, "clockify", "solidtime-2", "project").unwrap_err();

    assert!(err.to_string().contains("CSV points to both solidtime-1 and solidtime-2"));
}

#[test]
fn mapping_messages_quote_names_and_ids() {
    let row = mapping_row("Project", "Task", "Target", "Target Task");
    assert_eq!(resolve_clockify_project(&row, &[]).unwrap_err().to_string(), "Clockify project \"Project\" from mapping was not found");
    let err = resolve_clockify_project(&row, &[clockify_project("cp-1", "Project"), clockify_project("cp-2", "Project")]).unwrap_err();
    assert_eq!(err.to_string(), "multiple Solidtime Clockify project records match \"Project\"; refusing to guess");
    let mut by_id = mapping_row("", "", "", "");
    by_id.clockify_project_id = "cp-9".to_string();
    assert_eq!(resolve_clockify_project(&by_id, &[]).unwrap_err().to_string(), "Clockify project ID \"cp-9\" from mapping was not found");
    let mut task_by_id = mapping_row("", "", "", "");
    task_by_id.clockify_task_id = "ct-1".to_string();
    let err = resolve_clockify_task(&task_by_id, "cp-2", &[clockify_task("ct-1", "Task", "cp-1")]).unwrap_err();
    assert_eq!(err.to_string(), "Clockify task ID \"ct-1\" from mapping does not belong to Clockify project cp-2");
}

#[test]
fn state_and_csv_conflicts_are_refused() {
    let mut map = StringMap::new();
    let err = insert_mapping(&mut map, Some("old"), "c-1", "new", "task").unwrap_err();
    assert_eq!(err.to_string(), "mapping conflict for Clockify task c-1: migration-state.json points to old, but CSV points to new");
    assert_eq!(map.len(), 0);
    insert_mapping(&mut map, Some("same"), "c-1", "same", "task").unwrap();
    insert_mapping(&mut map, None, "c-1", "same", "task").unwrap();
    assert_eq!(map.get("c-1").map(String::as_str), Some("same"));
    assert_eq!(map.len(), 1);
}

#[test]
fn rows_report_which_tasks_they_name() {
    let row = mapping_row("P", " ", "T", "");
    assert!(!row.has_clockify_task());
    assert!(!row.has_solidtime_task());
    let mut by_id = mapping_row("P", "", "T", "");
    by_id.solidtime_task_id = "st-1".to_string();
    assert!(by_id.has_solidtime_task());
}
