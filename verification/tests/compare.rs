use clockify_to_solidtime::compare::{build_comparison, resolve_compare_mappings, CompareMappings, ProjectStatus};
use clockify_to_solidtime::models::{ClockifyClient, ClockifyProject, ClockifyTask, SolidtimeClient, SolidtimeProject, SolidtimeTask};
use clockify_to_solidtime::project_mapping::ProjectMappingRow;
use clockify_to_solidtime::report::render_comparison;

fn clockify_client(id: &str, name: &str) -> ClockifyClient {
    ClockifyClient { id: id.to_string(), name: name.to_string() }
}

fn solidtime_client(id: &str, name: &str) -> SolidtimeClient {
    SolidtimeClient { id: id.to_string(), name: name.to_string() }
}

fn clockify_project(id: &str, name: &str, client_id: Option<&str>) -> ClockifyProject {
    ClockifyProject {
        id: id.to_string(),
        name: name.to_string(),
        client_id: client_id.map(str::to_string),
        color: None,
        billable: false,
        archived: false,
        estimate: None,
    }
}

fn solidtime_project(id: &str, name: &str, client_id: Option<&str>) -> SolidtimeProject {
    SolidtimeProject { id: id.to_string(), name: name.to_string(), client_id: client_id.map(str::to_string), is_archived: false }
}

fn clockify_task(id: &str, name: &str, project_id: &str) -> ClockifyTask {
    ClockifyTask { id: id.to_string(), name: name.to_string(), project_id: Some(project_id.to_string()), estimate: None }
}

fn solidtime_task(id: &str, name: &str, project_id: &str) -> SolidtimeTask {
    SolidtimeTask { id: id.to_string(), name: name.to_string(), project_id: project_id.to_string() }
}

fn archived_clockify_project(id: &str, name: &str, client_id: Option<&str>) -> ClockifyProject {
    let mut project = clockify_project(id, name, client_id);
    project.archived = true;
    project
}

fn archived_solidtime_project(id: &str, name: &str, client_id: Option<&str>) -> SolidtimeProject {
    let mut project = solidtime_project(id, name, client_id);
    project.is_archived = true;
    project
}

fn mapping_row(clockify_project: &str, clockify_task: &str, solidtime_project: &str, solidtime_task: &str) -> ProjectMappingRow {
    ProjectMappingRow {
        clockify_project: clockify_project.to_string(),
        clockify_task: clockify_task.to_string(),
        solidtime_project: solidtime_project.to_string(),
        solidtime_task: solidtime_task.to_string(),
        clockify_project_id: String::new(),
        clockify_task_id: String::new(),
        solidtime_project_id: String::new(),
        solidtime_task_id: String::new(),
    }
}

#[test]
fn matches_projects_by_name_under_same_client_and_compares_tasks() {
    let comparison = build_comparison(
        &[clockify_client("cc-1", "Client A")],
        &[clockify_project("cp-1", "Shared", Some("cc-1")), clockify_project("cp-2", "Clockify Only", Some("cc-1"))],
        &[clockify_task("ct-1", "Design", "cp-1"), clockify_task("ct-2", "Build", "cp-1")],
        &[solidtime_client("sc-1", "Client A")],
        &[solidtime_project("sp-1", "Shared", Some("sc-1")), solidtime_project("sp-2", "Solidtime Only", Some("sc-1"))],
        &[solidtime_task("st-1", "Design", "sp-1"), solidtime_task("st-2", "Review", "sp-1")],
        &CompareMappings::default(),
    );

    assert_eq!(comparison.summary.projects_matched, 1);
    assert_eq!(comparison.summary.projects_clockify_only, 1);
    assert_eq!(comparison.summary.projects_solidtime_only, 1);
    assert_eq!(comparison.summary.tasks_matched, 1);
    assert_eq!(comparison.summary.tasks_clockify_only, 1);
    assert_eq!(comparison.summary.tasks_solidtime_only, 1);
}

#[test]
fn renders_matched_project_with_mixed_task_relations() {
    let comparison = build_comparison(
        &[clockify_client("cc-1", "Client A")],
        &[clockify_project("cp-1", "Shared", Some("cc-1"))],
        &[clockify_task("ct-1", "Design", "cp-1"), clockify_task("ct-2", "Build", "cp-1")],
        &[solidtime_client("sc-1", "Client A")],
        &[solidtime_project("sp-1", "Shared", Some("sc-1"))],
        &[solidtime_task("st-1", "Design", "sp-1"), solidtime_task("st-2", "Review", "sp-1")],
        &CompareMappings::default(),
    );

    let output = render_comparison(&comparison);

    assert!(output.contains("Legend: = both, -> Clockify only, <- Solidtime only, ! manual review, A archived"));
    assert!(output.contains("Client: Client A"));
    assert!(output.contains("| Project | Shared   | =  | Shared    |"));
    assert!(output.contains("| Task    | Build    | -> |           |"));
    assert!(output.contains("| Task    | Design   | =  | Design    |"));
    assert!(output.contains("| Task    |          | <- | Review    |"));
    assert!(output.contains("| Projects | 1       | 0             | 0              | 0             |"));
    assert!(output.contains("| Tasks    | 1       | 1             | 1              | 0             |"));
}

#[test]
fn renders_clockify_only_archived_project_with_tasks() {
    let comparison = build_comparison(
        &[clockify_client("cc-1", "Client A")],
        &[archived_clockify_project("cp-1", "Legacy", Some("cc-1"))],
        &[clockify_task("ct-1", "Fallback Host", "cp-1")],
        &[solidtime_client("sc-1", "Client A")],
        &[],
        &[],
        &CompareMappings::default(),
    );

    let output = render_comparison(&comparison);

    assert!(output.contains("| Project | Legacy [A]    | -> |           |"));
    assert!(output.contains("| Task    | Fallback Host | -> |           |"));
}

#[test]
fn renders_solidtime_only_project() {
    let comparison = build_comparison(
        &[clockify_client("cc-1", "Client A")],
        &[],
        &[],
        &[solidtime_client("sc-1", "Client A")],
        &[archived_solidtime_project("sp-1", "Target", Some("sc-1"))],
        &[solidtime_task("st-1", "Services", "sp-1")],
        &CompareMappings::default(),
    );

    let output = render_comparison(&comparison);

    assert!(output.contains("| Project |          | <- | Target [A] |"));
    assert!(output.contains("| Task    |          | <- | Services   |"));
}

#[test]
fn flags_ambiguous_project_names_without_guessing() {
    let comparison = build_comparison(
        &[],
        &[clockify_project("cp-1", "Ambiguous", None), clockify_project("cp-2", "Ambiguous", None)],
        &[clockify_task("ct-1", "Task", "cp-1")],
        &[],
        &[solidtime_project("sp-1", "Ambiguous", None)],
        &[solidtime_task("st-1", "Task", "sp-1")],
        &CompareMappings::default(),
    );

    let projects = comparison.group(None).expect("no-client group");

    assert_eq!(comparison.summary.projects_manual_review, 1);
    assert_eq!(comparison.summary.tasks_matched, 0);
    assert!(matches!(projects[0].status, ProjectStatus::ManualReview(_)));
    assert!(projects[0].tasks.is_empty());
}

#[test]
fn renders_manual_review_project_with_reason_row() {
    let comparison = build_comparison(
        &[],
        &[clockify_project("cp-1", "Ambiguous", None), clockify_project("cp-2", "Ambiguous", None)],
        &[],
        &[],
        &[solidtime_project("sp-1", "Ambiguous", None)],
        &[],
        &CompareMappings::default(),
    );

    let output = render_comparison(&comparison);

    assert!(output.contains("| Project | Ambiguous"));
    assert!(output.contains("| ! | Ambiguous |"));
    assert!(output.contains("| Note    | ambiguous project name: 2 Clockify match(es), 1 Solidtime match(es) | ! |"));
}

#[test]
fn renders_manual_review_task_with_reason_row() {
    let comparison = build_comparison(
        &[clockify_client("cc-1", "Client A")],
        &[clockify_project("cp-1", "Shared", Some("cc-1"))],
        &[clockify_task("ct-1", "Ambiguous", "cp-1"), clockify_task("ct-2", "Ambiguous", "cp-1")],
        &[solidtime_client("sc-1", "Client A")],
        &[solidtime_project("sp-1", "Shared", Some("sc-1"))],
        &[solidtime_task("st-1", "Ambiguous", "sp-1")],
        &CompareMappings::default(),
    );

    let output = render_comparison(&comparison);

    assert!(output.contains("| Task    | Ambiguous"));
    assert!(output.contains("| ! | Ambiguous |"));
    assert!(output.contains("| Note    | ambiguous task name: 2 Clockify match(es), 1 Solidtime match(es) | ! |"));
    assert!(output.contains("| Tasks    | 0       | 0             | 0              | 1             |"));
}

#[test]
fn renders_no_differences_message_when_structures_match() {
    let comparison = build_comparison(
        &[clockify_client("cc-1", "Client A")],
        &[clockify_project("cp-1", "Shared", Some("cc-1"))],
        &[clockify_task("ct-1", "Design", "cp-1")],
        &[solidtime_client("sc-1", "Client A")],
        &[solidtime_project("sp-1", "Shared", Some("sc-1"))],
        &[solidtime_task("st-1", "Design", "sp-1")],
        &CompareMappings::default(),
    );

    let output = render_comparison(&comparison);

    assert!(output.contains("Clockify and Solidtime project structures match with no differences."));
    assert!(output.contains("| Projects | 1       | 0             | 0              | 0             |"));
    assert!(output.contains("| Tasks    | 1       | 0             | 0              | 0             |"));
}

#[test]
fn mapping_pairs_differently_named_projects_and_tasks() {
    let mut mappings = CompareMappings::default();
    mappings.projects.insert("cp-1".to_string(), "sp-1".to_string());
    mappings.tasks.insert("ct-1".to_string(), "st-1".to_string());
    let comparison = build_comparison(
        &[clockify_client("cc-1", "Client A")],
        &[clockify_project("cp-1", "Clockify Name", Some("cc-1"))],
        &[clockify_task("ct-1", "Clockify Task", "cp-1")],
        &[solidtime_client("sc-1", "Client A")],
        &[solidtime_project("sp-1", "Solidtime Name", Some("sc-1"))],
        &[solidtime_task("st-1", "Solidtime Task", "sp-1")],
        &mappings,
    );

    let output = render_comparison(&comparison);

    assert!(output.contains("Clockify Name"));
    assert!(output.contains("Solidtime Name"));
    assert!(output.contains("Clockify Task"));
    assert!(output.contains("Solidtime Task"));
    assert_eq!(comparison.summary.projects_matched, 1);
    assert_eq!(comparison.summary.tasks_matched, 1);
}

#[test]
fn mapping_override_bypasses_name_ambiguity() {
    let mut mappings = CompareMappings::default();
    mappings.projects.insert("cp-1".to_string(), "sp-1".to_string());
    let comparison = build_comparison(
        &[],
        &[clockify_project("cp-1", "Ambiguous", None), clockify_project("cp-2", "Ambiguous", None)],
        &[],
        &[],
        &[solidtime_project("sp-1", "Renamed", None)],
        &[],
        &mappings,
    );

    assert_eq!(comparison.summary.projects_matched, 1);
    assert_eq!(comparison.summary.projects_clockify_only, 1);
    assert_eq!(comparison.summary.projects_manual_review, 0);
}

#[test]
fn default_task_mapping_row_does_not_affect_task_pairing() {
    let rows = vec![mapping_row("Clockify Project", "", "Solidtime Project", "Missing Default Task")];
    let mappings = resolve_compare_mappings(
        rows,
        &[clockify_project("cp-1", "Clockify Project", None)],
        &[clockify_task("ct-1", "Build", "cp-1")],
        &[solidtime_project("sp-1", "Solidtime Project", None)],
        &[],
    )
    .unwrap();

    assert_eq!(mappings.projects.get("cp-1").map(String::as_str), Some("sp-1"));
    assert!(mappings.tasks.is_empty());
}

#[test]
fn resolves_compare_mappings_by_name_and_id_and_rejects_conflicts() {
    let rows = vec![mapping_row("Clockify Project", "Clockify Task", "Solidtime Project", "Solidtime Task")];
    let mappings = resolve_compare_mappings(
        rows,
        &[clockify_project("cp-1", "Clockify Project", None)],
        &[clockify_task("ct-1", "Clockify Task", "cp-1")],
        &[solidtime_project("sp-1", "Solidtime Project", None)],
        &[solidtime_task("st-1", "Solidtime Task", "sp-1")],
    )
    .unwrap();
    assert_eq!(mappings.projects.get("cp-1").map(String::as_str), Some("sp-1"));
    assert_eq!(mappings.tasks.get("ct-1").map(String::as_str), Some("st-1"));

    let mut id_row = mapping_row("", "", "", "");
    id_row.clockify_project_id = "cp-1".to_string();
    id_row.clockify_task_id = "ct-1".to_string();
    id_row.solidtime_project_id = "sp-1".to_string();
    id_row.solidtime_task_id = "st-1".to_string();
    assert!(
        resolve_compare_mappings(
            vec![id_row],
            &[clockify_project("cp-1", "Clockify Project", None)],
            &[clockify_task("ct-1", "Clockify Task", "cp-1")],
            &[solidtime_project("sp-1", "Solidtime Project", None)],
            &[solidtime_task("st-1", "Solidtime Task", "sp-1")],
        )
        .is_ok()
    );

    let err = resolve_compare_mappings(
        vec![
            mapping_row("Clockify Project", "", "Solidtime Project", ""),
            mapping_row("Clockify Project", "", "Other Solidtime Project", ""),
        ],
        &[clockify_project("cp-1", "Clockify Project", None)],
        &[],
        &[solidtime_project("sp-1", "Solidtime Project", None), solidtime_project("sp-2", "Other Solidtime Project", None)],
        &[],
    )
    .unwrap_err();

    assert!(err.to_string().contains("mapping conflict"));
}

#[test]
fn comparison_inputs_are_checked_before_building() {
    let mut mappings = CompareMappings::default();
    mappings.projects.insert("cp-1".to_string(), "sp-missing".to_string());
    let cps = [clockify_project("cp-1", "A", None)];
    let sps = [solidtime_project("sp-1", "A", None)];
    assert!(!clockify_to_solidtime::compare::comparison_inputs_valid(&cps, &sps, &mappings));
    assert!(clockify_to_solidtime::compare::comparison_inputs_valid(&cps, &sps, &CompareMappings::default()));
}

#[test]
fn groups_are_ordered_with_no_client_first_and_lines_by_name() {
    let comparison = build_comparison(
        &[clockify_client("cc-1", "Zeta"), clockify_client("cc-2", "Alpha")],
        &[
            clockify_project("cp-1", "Beta", Some("cc-1")),
            clockify_project("cp-2", "Alpha", Some("cc-1")),
            clockify_project("cp-3", "Solo", None),
            clockify_project("cp-4", "Gamma", Some("cc-2")),
        ],
        &[],
        &[],
        &[],
        &[],
        &CompareMappings::default(),
    );
    let clients: Vec<Option<String>> = comparison.groups.iter().map(|g| g.0.clone()).collect();
    assert_eq!(clients, vec![None, Some("Alpha".to_string()), Some("Zeta".to_string())]);
    let zeta = comparison.group(Some("Zeta")).expect("Zeta group");
    assert_eq!(zeta[0].clockify_name.as_deref(), Some("Alpha"));
    assert_eq!(zeta[1].clockify_name.as_deref(), Some("Beta"));
    assert_eq!(comparison.summary.projects_clockify_only, 4);
}

#[test]
fn unknown_clients_are_named_by_their_ids() {
    let comparison = build_comparison(&[], &[clockify_project("cp-1", "P", Some("cc-9"))], &[], &[], &[], &[], &CompareMappings::default());
    assert!(comparison.group(Some("(Unknown Clockify client cc-9)")).is_some());
    let output = render_comparison(&comparison);
    assert!(output.contains("Client: (Unknown Clockify client cc-9)"));
}
