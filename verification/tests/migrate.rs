use clockify_to_solidtime::clockify::ignored_archived_project_ids;
use clockify_to_solidtime::duration::parse_iso8601_duration_seconds;
use clockify_to_solidtime::fingerprint::FingerprintIndex;
use clockify_to_solidtime::id_set::IdSet;
use clockify_to_solidtime::mapping::MigrationState;
use clockify_to_solidtime::migrate::{
    adopt_client, check_range, default_from, is_create_conflict, normalized_color, plan_client, plan_task, plan_time_entry, project_create_body,
    projects_to_archive, record_entry, record_structure, render_summary, resolve_mapping_row, resolve_project_mapping_rows, resolve_row_with_created_task, time_entry_body, time_entry_uses_ignored_project,
    Counted, EntryPlan, ProjectMappingContext, ProjectMappings, RowProgress, StructurePlan, Summary,
};
use clockify_to_solidtime::models::{
    ClockifyClient, ClockifyEstimate, ClockifyProject, ClockifyTask, ClockifyTimeEntry, ClockifyTimeInterval, SolidtimeClient, SolidtimeProject,
    SolidtimeTask, Timestamp,
};
use clockify_to_solidtime::project_mapping::ProjectMappingRow;

// 2024-01-01T09:00:00Z
const NINE: Timestamp = Timestamp { seconds: 1_704_099_600, nanos: 0 };

fn clockify_project(id: &str, name: &str) -> ClockifyProject {
    ClockifyProject { id: id.to_string(), name: name.to_string(), client_id: None, color: None, billable: false, archived: false, estimate: None }
}

fn clockify_archived_project(id: &str, name: &str) -> ClockifyProject {
    ClockifyProject { archived: true, ..clockify_project(id, name) }
}

fn clockify_task(id: &str, name: &str, project_id: &str) -> ClockifyTask {
    ClockifyTask { id: id.to_string(), name: name.to_string(), project_id: Some(project_id.to_string()), estimate: None }
}

fn clockify_time_entry(id: &str, project_id: Option<&str>) -> ClockifyTimeEntry {
    ClockifyTimeEntry {
        id: id.to_string(),
        description: None,
        billable: false,
        project_id: project_id.map(str::to_string),
        task_id: None,
        tag_ids: vec![],
        time_interval: ClockifyTimeInterval { start: NINE, end: None },
    }
}

fn solid_project(id: &str, name: &str) -> SolidtimeProject {
    SolidtimeProject { id: id.to_string(), name: name.to_string(), client_id: None, is_archived: false }
}

fn solid_task(id: &str, name: &str, project_id: &str) -> SolidtimeTask {
    SolidtimeTask { id: id.to_string(), name: name.to_string(), project_id: project_id.to_string() }
}

fn mapping_row(clockify_project: &str, clockify_task: &str, solidtime_project: &str, solidtime_task: &str) -> ProjectMappingRow {
    ProjectMappingRow {
        clockify_project: clockify_project.to_string(),
        clockify_task: clockify_task.to_string(),
        solidtime_project: solidtime_project.to_string(),
        solidtime_task: solidtime_task.to_string(),
        clockify_project_id: String::new(),
        clockify_task_id: String::new(),
        solidtime_project_id: String::new(),
        solidtime_task_id: String::new(),
    }
}

fn mapping_context<'a>(
    clockify_projects: &'a [ClockifyProject],
    clockify_tasks: &'a [ClockifyTask],
    solid_projects: &'a [SolidtimeProject],
    solid_tasks: &'a [SolidtimeTask],
    state: &'a MigrationState,
    dry_run: bool,
) -> ProjectMappingContext<'a> {
    ProjectMappingContext { clockify_projects, clockify_tasks, solid_projects, solid_tasks, state, dry_run, create_structure: false }
}

#[test]
fn parses_clockify_duration_subset() {
    assert_eq!(parse_iso8601_duration_seconds("PT1H30M"), Some(5_400));
    assert_eq!(parse_iso8601_duration_seconds("P1DT2H3M4S"), Some(93_784));
    assert_eq!(parse_iso8601_duration_seconds("P1M"), None);
}

#[test]
fn migrate_collects_archived_project_ids_only_when_ignore_archived_is_enabled() {
    let projects = vec![clockify_project("active", "Active Project"), clockify_archived_project("archived", "Archived Project")];

    let ignored = ignored_archived_project_ids(&projects, true);

    assert!(ignored.contains("archived"));
    assert!(!ignored.contains("active"));
    assert!(ignored_archived_project_ids(&projects, false).is_empty());
}

#[test]
fn detects_time_entries_for_ignored_archived_projects() {
    let mut ignored = IdSet::new();
    ignored.insert("archived");

    assert!(time_entry_uses_ignored_project(&clockify_time_entry("entry-1", Some("archived")), &ignored));
    assert!(!time_entry_uses_ignored_project(&clockify_time_entry("entry-2", Some("active")), &ignored));
}

#[test]
fn keeps_time_entries_without_project_when_archived_projects_are_ignored() {
    let mut ignored = IdSet::new();
    ignored.insert("archived");

    assert!(!time_entry_uses_ignored_project(&clockify_time_entry("entry", None), &ignored));
}

#[test]
fn applies_blank_clockify_task_as_project_default_mapping() {
    let clockify_projects = vec![clockify_project("cp-1", "Clockify Project")];
    let clockify_tasks = vec![clockify_task("ct-1", "Clockify Task", "cp-1")];
    let solid_projects = vec![solid_project("sp-1", "Solidtime Project")];
    let solid_tasks = vec![solid_task("st-default", "Default Task", "sp-1"), solid_task("st-specific", "Specific Task", "sp-1")];
    let state = MigrationState::default();
    let rows = vec![
        mapping_row("Clockify Project", "", "Solidtime Project", "Default Task"),
        mapping_row("Clockify Project", "Clockify Task", "Solidtime Project", "Specific Task"),
    ];
    let mut mappings = ProjectMappings::default();

    let stopped = resolve_project_mapping_rows(
        &rows,
        0,
        &mapping_context(&clockify_projects, &clockify_tasks, &solid_projects, &solid_tasks, &state, false),
        &mut mappings,
    )
    .unwrap();

    assert_eq!(stopped, None);
    assert_eq!(mappings.projects.get("cp-1").map(String::as_str), Some("sp-1"));
    assert_eq!(mappings.default_tasks.get("cp-1").map(String::as_str), Some("st-default"));
    assert_eq!(mappings.tasks.get("ct-1").map(String::as_str), Some("st-specific"));
}

#[test]
fn uses_project_default_task_for_time_entries_without_specific_mapping() {
    let entry = ClockifyTimeEntry {
        id: "entry".to_string(),
        description: None,
        billable: false,
        project_id: Some("cp-1".to_string()),
        task_id: Some("ct-1".to_string()),
        tag_ids: vec![],
        time_interval: ClockifyTimeInterval { start: NINE, end: None },
    };
    let mut state = MigrationState::default();
    state.projects.insert("cp-1".to_string(), "sp-1".to_string());
    state.tasks.insert("ct-1".to_string(), "st-original".to_string());
    let mut mappings = ProjectMappings::default();
    mappings.default_tasks.insert("cp-1".to_string(), "st-default".to_string());

    let body = time_entry_body(&entry, "member", &state, &mappings).unwrap().unwrap();

    assert_eq!(body.project_id, Some("sp-1"));
    assert_eq!(body.task_id, Some("st-default"));
}

#[test]
fn specific_task_mapping_overrides_project_default_task() {
    let entry = ClockifyTimeEntry {
        id: "entry".to_string(),
        description: None,
        billable: false,
        project_id: Some("cp-1".to_string()),
        task_id: Some("ct-1".to_string()),
        tag_ids: vec![],
        time_interval: ClockifyTimeInterval { start: NINE, end: None },
    };
    let mut state = MigrationState::default();
    state.projects.insert("cp-1".to_string(), "sp-1".to_string());
    let mut mappings = ProjectMappings::default();
    mappings.default_tasks.insert("cp-1".to_string(), "st-default".to_string());
    mappings.tasks.insert("ct-1".to_string(), "st-specific".to_string());

    let body = time_entry_body(&entry, "member", &state, &mappings).unwrap().unwrap();

    assert_eq!(body.task_id, Some("st-specific"));
}

#[test]
fn rejects_missing_mapped_solidtime_task_with_no_create_structure() {
    let clockify_projects = vec![clockify_project("cp-1", "Clockify Project")];
    let clockify_tasks = Vec::new();
    let solid_projects = vec![solid_project("sp-1", "Solidtime Project")];
    let solid_tasks = Vec::new();
    let state = MigrationState::default();
    let mut mappings = ProjectMappings::default();

    let err = resolve_project_mapping_rows(
        &vec![mapping_row("Clockify Project", "", "Solidtime Project", "Missing Task")],
        0,
        &mapping_context(&clockify_projects, &clockify_tasks, &solid_projects, &solid_tasks, &state, false),
        &mut mappings,
    )
    .unwrap_err();

    assert!(err.to_string().contains("mapped Solidtime task"));
}

#[test]
fn reports_missing_mapped_solidtime_task_in_dry_run() {
    let clockify_projects = vec![clockify_project("cp-1", "Clockify Project")];
    let clockify_tasks = Vec::new();
    let solid_projects = vec![solid_project("sp-1", "Solidtime Project")];
    let solid_tasks = Vec::new();
    let state = MigrationState::default();
    let mut mappings = ProjectMappings::default();

    resolve_project_mapping_rows(
        &vec![mapping_row("Clockify Project", "", "Solidtime Project", "Missing Task")],
        0,
        &mapping_context(&clockify_projects, &clockify_tasks, &solid_projects, &solid_tasks, &state, true),
        &mut mappings,
    )
    .unwrap();

    assert_eq!(mappings.default_tasks.get("cp-1").map(String::as_str), Some("dry-run-mapped-task-sp-1-Missing Task"));
}

#[test]
fn rejects_state_conflict_with_csv_mapping() {
    let clockify_projects = vec![clockify_project("cp-1", "Clockify Project")];
    let clockify_tasks = Vec::new();
    let solid_projects = vec![solid_project("sp-1", "Solidtime Project")];
    let solid_tasks = Vec::new();
    let mut state = MigrationState::default();
    state.projects.insert("cp-1".to_string(), "different-project".to_string());
    let mut mappings = ProjectMappings::default();

    let err = resolve_project_mapping_rows(
        &vec![mapping_row("Clockify Project", "", "Solidtime Project", "")],
        0,
        &mapping_context(&clockify_projects, &clockify_tasks, &solid_projects, &solid_tasks, &state, false),
        &mut mappings,
    )
    .unwrap_err();

    assert!(err.to_string().contains("mapping conflict"));
}

#[test]
fn a_missing_mapped_task_is_created_then_the_row_is_resolved_again() {
    let clockify_projects = vec![clockify_project("cp-1", "Clockify Project")];
    let solid_projects = vec![solid_project("sp-1", "Solidtime Project")];
    let state = MigrationState::default();
    let rows = vec![mapping_row("Clockify Project", "", "Solidtime Project", "New Task")];
    let mut ctx = mapping_context(&clockify_projects, &[], &solid_projects, &[], &state, false);
    ctx.create_structure = true;
    let mut mappings = ProjectMappings::default();

    assert_eq!(resolve_project_mapping_rows(&rows, 0, &ctx, &mut mappings).unwrap(), Some(0));
    assert_eq!(mappings.projects.get("cp-1").map(String::as_str), Some("sp-1"));
    assert_eq!(resolve_mapping_row(&rows[0], &ctx, Some("st-new"), &mut mappings).unwrap(), RowProgress::Done);
    assert_eq!(mappings.default_tasks.get("cp-1").map(String::as_str), Some("st-new"));
    assert_eq!(resolve_project_mapping_rows(&rows, 1, &ctx, &mut mappings).unwrap(), None);
}

#[test]
fn structure_plans_reuse_recorded_then_matching_records() {
    let client = ClockifyClient { id: "cc-1".to_string(), name: "Client A".to_string() };
    let solid = vec![SolidtimeClient { id: "sc-1".to_string(), name: "Client A".to_string() }];
    let mut state = MigrationState::default();

    assert!(matches!(plan_client(&state, &client, &solid, false, true).unwrap(), StructurePlan::Reuse(id) if id == "sc-1"));
    assert!(matches!(plan_client(&state, &client, &[], true, true).unwrap(), StructurePlan::DryRun(id) if id == "dry-run-client-cc-1"));
    assert!(matches!(plan_client(&state, &client, &[], false, true).unwrap(), StructurePlan::Create));
    let err = plan_client(&state, &client, &[], false, false).unwrap_err();
    assert_eq!(
        err.to_string(),
        "missing Solidtime client \"Client A\" for Clockify client cc-1; rerun without --no-create-structure to create it"
    );
    let twice = vec![solid[0].clone(), SolidtimeClient { id: "sc-2".to_string(), name: "Client A".to_string() }];
    assert_eq!(plan_client(&state, &client, &twice, false, true).unwrap_err().to_string(), "multiple Solidtime client records match \"Client A\"; refusing to guess");

    state.put_client("cc-1", "sc-1");
    assert!(matches!(plan_client(&state, &client, &twice, false, true).unwrap(), StructurePlan::Recorded));
}

#[test]
fn tasks_without_a_mapped_project_are_skipped() {
    let state = MigrationState::default();
    let task = clockify_task("ct-1", "Task", "cp-1");
    assert!(matches!(plan_task(&state, &task, &[], false, true).unwrap(), StructurePlan::Skip));
}

#[test]
fn adopts_the_one_matching_client_after_a_conflict() {
    let clients = vec![SolidtimeClient { id: "solid-client-1".to_string(), name: "Client A".to_string() }];
    assert_eq!(adopt_client(&clients, "Client A").unwrap().id, "solid-client-1");
    assert_eq!(
        adopt_client(&clients, "Client B").unwrap_err().to_string(),
        "client \"Client B\" create conflicted, but no matching Solidtime client was found"
    );
    let twice = vec![clients[0].clone(), SolidtimeClient { id: "solid-client-2".to_string(), name: "Client A".to_string() }];
    assert!(adopt_client(&twice, "Client A").unwrap_err().to_string().contains("multiple Solidtime client records match"));
    assert!(is_create_conflict(Some(422)));
    assert!(is_create_conflict(Some(409)));
    assert!(!is_create_conflict(Some(500)));
    assert!(!is_create_conflict(None));
}

#[test]
fn project_bodies_use_an_accepted_color_and_the_estimate() {
    assert_eq!(normalized_color(Some("#123456")), "#123456");
    assert_eq!(normalized_color(Some("123456")), "#4F46E5");
    assert_eq!(normalized_color(Some("#12345")), "#4F46E5");
    assert_eq!(normalized_color(None), "#4F46E5");
    assert_eq!(normalized_color(Some("#zzzzzz")), "#4F46E5");
    assert_eq!(normalized_color(Some("#12345g")), "#4F46E5");
    assert_eq!(normalized_color(Some("#abcDEF")), "#abcDEF");
    let mut project = clockify_project("cp-1", "P");
    project.color = Some("#abcdef".to_string());
    project.billable = true;
    project.estimate = Some(ClockifyEstimate { estimate: Some("PT2H".to_string()) });
    let body = project_create_body(&project, Some("sc-1"));
    assert_eq!(body.color, "#abcdef");
    assert!(body.is_billable);
    assert_eq!(body.estimated_time, Some(7_200));
    assert_eq!(body.client_id, Some("sc-1"));
    assert!(!body.is_public);
}

#[test]
fn time_entries_are_reused_by_fingerprint_before_being_created() {
    let mut entry = clockify_time_entry("entry-1", Some("cp-1"));
    entry.description = Some("work".to_string());
    let mut state = MigrationState::default();
    state.projects.insert("cp-1".to_string(), "sp-1".to_string());
    let mappings = ProjectMappings::default();
    let ignored = IdSet::new();
    let key = "member|sp-1||2024-01-01T09:00:00Z||false|work|".to_string();
    let mut fingerprints = FingerprintIndex::new();
    fingerprints.push_back(key.clone(), "solid-entry-1".to_string());

    let plan = plan_time_entry(&entry, "member", &state, &mappings, &ignored, &mut fingerprints, false).unwrap();
    assert!(matches!(plan, EntryPlan::Reuse(ref id) if id == "solid-entry-1"));
    let plan = plan_time_entry(&entry, "member", &state, &mappings, &ignored, &mut fingerprints, false).unwrap();
    assert!(matches!(plan, EntryPlan::Create(ref body) if body.start == "2024-01-01T09:00:00Z" && body.project_id == Some("sp-1")));
    let plan = plan_time_entry(&entry, "member", &state, &mappings, &ignored, &mut fingerprints, true).unwrap();
    assert!(matches!(plan, EntryPlan::DryRun(ref id) if id == "dry-run-time-entry-entry-1"));
}

#[test]
fn recorded_and_unmapped_time_entries() {
    let entry = clockify_time_entry("entry-1", Some("cp-1"));
    let mut state = MigrationState::default();
    let mappings = ProjectMappings::default();
    let ignored = IdSet::new();
    let mut fingerprints = FingerprintIndex::new();
    let err = plan_time_entry(&entry, "member", &state, &mappings, &ignored, &mut fingerprints, false).unwrap_err();
    assert_eq!(err.to_string(), "missing project mapping for Clockify project cp-1");
    state.put_time_entry("entry-1", "solid-entry-1");
    assert!(matches!(plan_time_entry(&entry, "member", &state, &mappings, &ignored, &mut fingerprints, false).unwrap(), EntryPlan::Recorded));

    let mut task_only = clockify_time_entry("entry-2", None);
    task_only.task_id = Some("ct-1".to_string());
    state.tasks.insert("ct-1".to_string(), "st-1".to_string());
    assert!(matches!(plan_time_entry(&task_only, "member", &state, &mappings, &ignored, &mut fingerprints, false).unwrap(), EntryPlan::NoProject));
    let mut unrecorded_task = clockify_time_entry("entry-4", None);
    unrecorded_task.task_id = Some("ct-unknown".to_string());
    assert!(time_entry_body(&unrecorded_task, "member", &state, &mappings).unwrap().is_none());
    assert!(matches!(
        plan_time_entry(&unrecorded_task, "member", &state, &mappings, &ignored, &mut fingerprints, false).unwrap(),
        EntryPlan::NoProject
    ));
    let mut tagged = clockify_time_entry("entry-3", None);
    tagged.tag_ids = vec!["tag-1".to_string()];
    assert_eq!(time_entry_body(&tagged, "member", &state, &mappings).unwrap_err().to_string(), "missing tag mapping for Clockify tag tag-1");
}

#[test]
fn archived_mapped_projects_are_archived_and_the_summary_is_printed() {
    let projects = vec![clockify_archived_project("cp-1", "Old"), clockify_project("cp-2", "New"), clockify_archived_project("cp-3", "Unmapped")];
    let mut state = MigrationState::default();
    state.put_project("cp-1", "sp-1");
    state.put_project("cp-2", "sp-2");
    assert_eq!(projects_to_archive(&projects, &state), vec![("Old".to_string(), "sp-1".to_string())]);

    let mut summary = Summary::default();
    summary.count(Counted::Client, false);
    summary.count(Counted::Project, true);
    summary.count(Counted::TimeEntry, false);
    summary.count(Counted::TimeEntry, false);
    summary.count_archive(false);
    assert_eq!(
        render_summary(&summary),
        "Migration summary\n  clients: 1 created, 0 reused\n  projects: 0 created, 1 reused, 0 archived, 1 archive failures\n  tasks: 0 created, 0 reused\n  tags: 0 created, 0 reused\n  time entries: 2 created, 0 reused\n"
    );
}

#[test]
fn the_range_must_not_be_empty() {
    let from = default_from();
    assert_eq!(from, Timestamp { seconds: 946_684_800, nanos: 0 });
    assert!(check_range(&from, &NINE).is_ok());
    assert_eq!(check_range(&NINE, &NINE).unwrap_err().to_string(), "--from must be before --to");
}

#[test]
fn plans_are_counted_as_created_or_reused() {
    let mut summary = Summary::default();
    summary.count_structure(Counted::Client, &StructurePlan::Recorded, false);
    summary.count_structure(Counted::Client, &StructurePlan::Reuse("sc-1".to_string()), false);
    summary.count_structure(Counted::Project, &StructurePlan::DryRun("dry".to_string()), false);
    summary.count_structure(Counted::Project, &StructurePlan::Create, true);
    summary.count_structure(Counted::Task, &StructurePlan::Create, false);
    summary.count_structure(Counted::Task, &StructurePlan::Skip, false);
    summary.count_entry(&EntryPlan::Recorded);
    summary.count_entry(&EntryPlan::Ignored);
    summary.count_entry(&EntryPlan::NoProject);
    summary.count_entry(&EntryPlan::DryRun("dry".to_string()));
    assert!(!summary.begin_archive(true));
    assert!(summary.begin_archive(false));
    assert_eq!(
        render_summary(&summary),
        "Migration summary\n  clients: 0 created, 2 reused\n  projects: 1 created, 1 reused, 1 archived, 0 archive failures\n  tasks: 1 created, 0 reused\n  tags: 0 created, 0 reused\n  time entries: 1 created, 1 reused\n"
    );
}

#[test]
fn a_created_mapped_task_is_used_by_its_row_and_later_rows() {
    let clockify_projects = vec![clockify_project("cp-1", "Clockify Project"), clockify_project("cp-2", "Other Project")];
    let solid_projects = vec![solid_project("sp-1", "Solidtime Project")];
    let state = MigrationState::default();
    let rows = vec![
        mapping_row("Clockify Project", "", "Solidtime Project", "New Task"),
        mapping_row("Other Project", "", "Solidtime Project", "New Task"),
    ];
    let mut solid_tasks: Vec<SolidtimeTask> = Vec::new();
    let mut mappings = ProjectMappings::default();
    let mut ctx = mapping_context(&clockify_projects, &[], &solid_projects, &solid_tasks, &state, false);
    ctx.create_structure = true;
    assert_eq!(resolve_project_mapping_rows(&rows, 0, &ctx, &mut mappings).unwrap(), Some(0));

    let progress = resolve_row_with_created_task(
        &rows[0],
        &clockify_projects,
        &[],
        &solid_projects,
        &mut solid_tasks,
        &state,
        false,
        true,
        solid_task("st-new", "New Task", "sp-1"),
        &mut mappings,
    )
    .unwrap();
    assert_eq!(progress, RowProgress::Done);
    assert_eq!(solid_tasks.len(), 1);
    assert_eq!(solid_tasks[0].id, "st-new");
    assert_eq!(mappings.default_tasks.get("cp-1").map(String::as_str), Some("st-new"));

    let mut ctx = mapping_context(&clockify_projects, &[], &solid_projects, &solid_tasks, &state, false);
    ctx.create_structure = true;
    assert_eq!(resolve_project_mapping_rows(&rows, 1, &ctx, &mut mappings).unwrap(), None);
    assert_eq!(mappings.default_tasks.get("cp-2").map(String::as_str), Some("st-new"));
}

#[test]
fn a_second_run_plans_what_the_first_recorded_as_recorded() {
    let client = ClockifyClient { id: "cc-1".to_string(), name: "Client A".to_string() };
    let mut state = MigrationState::default();

    let plan = plan_client(&state, &client, &[], false, true).unwrap();
    assert!(matches!(plan, StructurePlan::Create));
    record_structure(&mut state, Counted::Client, &client.id, &plan, "sc-new");
    assert_eq!(state.clients.get("cc-1").map(String::as_str), Some("sc-new"));
    assert!(matches!(plan_client(&state, &client, &[], false, true).unwrap(), StructurePlan::Recorded));
    record_structure(&mut state, Counted::Client, &client.id, &StructurePlan::Recorded, "other");
    record_structure(&mut state, Counted::Tag, "tag-1", &StructurePlan::Skip, "other");
    assert_eq!(state.clients.get("cc-1").map(String::as_str), Some("sc-new"));
    assert!(state.tags.get("tag-1").is_none());

    state.put_project("cp-1", "sp-1");
    let entry = clockify_time_entry("entry-1", Some("cp-1"));
    let mappings = ProjectMappings::default();
    let ignored = IdSet::new();
    let mut fingerprints = FingerprintIndex::new();
    let plan = plan_time_entry(&entry, "member", &state, &mappings, &ignored, &mut fingerprints, false).unwrap();
    assert!(matches!(plan, EntryPlan::Create(_)));
    let records = plan.records();
    record_entry(&mut state, &entry.id, records, "solid-entry-1");
    assert!(!EntryPlan::NoProject.records());
    record_entry(&mut state, "entry-2", EntryPlan::NoProject.records(), "unused");
    assert_eq!(state.time_entries.get("entry-1").map(String::as_str), Some("solid-entry-1"));
    assert!(state.time_entries.get("entry-2").is_none());
    assert!(matches!(plan_time_entry(&entry, "member", &state, &mappings, &ignored, &mut fingerprints, false).unwrap(), EntryPlan::Recorded));
}
