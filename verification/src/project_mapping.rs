//! Rows of the project/task mapping file and their resolution against the
//! projects and tasks read from both services.
use vstd::prelude::*;

use crate::errors::{
    clockify_task_missing, clockify_task_missing_message, clockify_task_outside, clockify_task_outside_message,
    csv_conflict, csv_conflict_message, id_not_found, id_not_found_message, name_not_found, name_not_found_message,
    solidtime_task_missing, solidtime_task_missing_message, solidtime_task_outside, solidtime_task_outside_message,
    state_conflict, state_conflict_message, ambiguous_message, MigrationError,
};
use crate::models::{ClockifyProject, ClockifyTask, SolidtimeProject, SolidtimeTask};
use crate::select::{indices_where, lemma_indices_where_step, lemma_indices_where_valid, positions, single_match};
use crate::string_map::{lookup, pairs_insert, StringMap};
use crate::text::{blank, is_blank, opt_str_view, opt_view, owned, text_eq};

verus! {

/// One row of the mapping file; absent columns are empty text.
#[derive(Debug)]
pub struct ProjectMappingRow {
    pub clockify_project: String,
    pub clockify_task: String,
    pub solidtime_project: String,
    pub solidtime_task: String,
    pub clockify_project_id: String,
    pub clockify_task_id: String,
    pub solidtime_project_id: String,
    pub solidtime_task_id: String,
}

impl ProjectMappingRow {
    /// The row names a Solidtime task, by name or id.
    pub open spec fn spec_has_solidtime_task(&self) -> bool {
        !is_blank(self.solidtime_task@) || !is_blank(self.solidtime_task_id@)
    }

    /// The row names a Clockify task, by name or id.
    pub open spec fn spec_has_clockify_task(&self) -> bool {
        !is_blank(self.clockify_task@) || !is_blank(self.clockify_task_id@)
    }

    /// Whether the row names a Solidtime task.
    pub fn has_solidtime_task(&self) -> (r: bool)
        ensures
            r == self.spec_has_solidtime_task(),
    {
        !blank(self.solidtime_task.as_str()) || !blank(self.solidtime_task_id.as_str())
    }

    /// Whether the row names a Clockify task.
    pub fn has_clockify_task(&self) -> (r: bool)
        ensures
            r == self.spec_has_clockify_task(),
    {
        !blank(self.clockify_task.as_str()) || !blank(self.clockify_task_id.as_str())
    }
}

/// A Clockify project with the given id.
pub open spec fn clockify_project_has_id(id: Seq<char>) -> spec_fn(ClockifyProject) -> bool {
    |p: ClockifyProject| p.id@ == id
}

/// A Clockify project with the given name.
pub open spec fn clockify_project_has_name(name: Seq<char>) -> spec_fn(ClockifyProject) -> bool {
    |p: ClockifyProject| p.name@ == name
}

/// A Clockify task with the given id.
pub open spec fn clockify_task_has_id(id: Seq<char>) -> spec_fn(ClockifyTask) -> bool {
    |t: ClockifyTask| t.id@ == id
}

/// A Clockify task with the given name under the given project.
pub open spec fn clockify_task_named_in(name: Seq<char>, project_id: Seq<char>) -> spec_fn(ClockifyTask) -> bool {
    |t: ClockifyTask| t.name@ == name && opt_view(t.project_id) == Some(project_id)
}

/// A Solidtime project with the given id.
pub open spec fn solidtime_project_has_id(id: Seq<char>) -> spec_fn(SolidtimeProject) -> bool {
    |p: SolidtimeProject| p.id@ == id
}

/// A Solidtime project with the given name.
pub open spec fn solidtime_project_has_name(name: Seq<char>) -> spec_fn(SolidtimeProject) -> bool {
    |p: SolidtimeProject| p.name@ == name
}

/// A Solidtime task with the given id.
pub open spec fn solidtime_task_has_id(id: Seq<char>) -> spec_fn(SolidtimeTask) -> bool {
    |t: SolidtimeTask| t.id@ == id
}

/// A Solidtime task with the given name under the given project.
pub open spec fn solidtime_task_named_in(name: Seq<char>, project_id: Seq<char>) -> spec_fn(SolidtimeTask) -> bool {
    |t: SolidtimeTask| t.name@ == name && t.project_id@ == project_id
}

/// The position of the Clockify project that a row names, or the message of
/// why it names none: an id, when given, is looked up first-match; a name must
/// match exactly one project.
pub open spec fn clockify_project_choice(row: ProjectMappingRow, projects: Seq<ClockifyProject>) -> Result<int, Seq<char>> {
    if !is_blank(row.clockify_project_id@) {
        let ix = indices_where(projects, clockify_project_has_id(row.clockify_project_id@));
        if ix.len() == 0 {
            Err(id_not_found_message("Clockify project"@, row.clockify_project_id@))
        } else {
            Ok(ix[0])
        }
    } else {
        let ix = indices_where(projects, clockify_project_has_name(row.clockify_project@));
        if ix.len() >= 2 {
            Err(ambiguous_message("Clockify project"@, row.clockify_project@))
        } else if ix.len() == 0 {
            Err(name_not_found_message("Clockify project"@, row.clockify_project@))
        } else {
            Ok(ix[0])
        }
    }
}

/// The position of the Clockify task that a row names under project
/// `project_id`, or the message of why it names none.
pub open spec fn clockify_task_choice(row: ProjectMappingRow, project_id: Seq<char>, tasks: Seq<ClockifyTask>) -> Result<int, Seq<char>> {
    if !is_blank(row.clockify_task_id@) {
        let ix = indices_where(tasks, clockify_task_has_id(row.clockify_task_id@));
        if ix.len() == 0 {
            Err(id_not_found_message("Clockify task"@, row.clockify_task_id@))
        } else if opt_view(tasks[ix[0]].project_id) != Some(project_id) {
            Err(clockify_task_outside_message(row.clockify_task_id@, project_id))
        } else {
            Ok(ix[0])
        }
    } else {
        let ix = indices_where(tasks, clockify_task_named_in(row.clockify_task@, project_id));
        if ix.len() >= 2 {
            Err(ambiguous_message("Clockify task"@, row.clockify_task@))
        } else if ix.len() == 0 {
            Err(clockify_task_missing_message(row.clockify_task@, project_id))
        } else {
            Ok(ix[0])
        }
    }
}

/// The position of the Solidtime project that a row names, or the message of
/// why it names none.
pub open spec fn solidtime_project_choice(row: ProjectMappingRow, projects: Seq<SolidtimeProject>) -> Result<int, Seq<char>> {
    if !is_blank(row.solidtime_project_id@) {
        let ix = indices_where(projects, solidtime_project_has_id(row.solidtime_project_id@));
        if ix.len() == 0 {
            Err(id_not_found_message("Solidtime project"@, row.solidtime_project_id@))
        } else {
            Ok(ix[0])
        }
    } else {
        let ix = indices_where(projects, solidtime_project_has_name(row.solidtime_project@));
        if ix.len() >= 2 {
            Err(ambiguous_message("Solidtime project"@, row.solidtime_project@))
        } else if ix.len() == 0 {
            Err(name_not_found_message("Solidtime project"@, row.solidtime_project@))
        } else {
            Ok(ix[0])
        }
    }
}

/// The position of the Solidtime task that a row names under `project`, none
/// when a name matches no task there, or the message of why the row is wrong.
pub open spec fn solidtime_task_choice(row: ProjectMappingRow, project: SolidtimeProject, tasks: Seq<SolidtimeTask>) -> Result<Option<int>, Seq<char>> {
    if !is_blank(row.solidtime_task_id@) {
        let ix = indices_where(tasks, solidtime_task_has_id(row.solidtime_task_id@));
        if ix.len() == 0 {
            Err(id_not_found_message("Solidtime task"@, row.solidtime_task_id@))
        } else if tasks[ix[0]].project_id@ != project.id@ {
            Err(solidtime_task_outside_message(row.solidtime_task_id@, project.name@))
        } else {
            Ok(Some(ix[0]))
        }
    } else {
        let ix = indices_where(tasks, solidtime_task_named_in(row.solidtime_task@, project.id@));
        if ix.len() >= 2 {
            Err(ambiguous_message("Solidtime task"@, row.solidtime_task@))
        } else if ix.len() == 0 {
            Ok(None)
        } else {
            Ok(Some(ix[0]))
        }
    }
}

fn clockify_projects_where(projects: &[ClockifyProject], text: &str, by_id: bool) -> (v: Vec<usize>)
    ensures
        positions(v@) == indices_where(
            projects@,
            if by_id { clockify_project_has_id(text@) } else { clockify_project_has_name(text@) },
        ),
{
    let ghost pred = if by_id { clockify_project_has_id(text@) } else { clockify_project_has_name(text@) };
    let mut v: Vec<usize> = Vec::new();
    let mut i: usize = 0;
    while i < projects.len()
        invariant
            i <= projects.len(),
            pred == (if by_id { clockify_project_has_id(text@) } else { clockify_project_has_name(text@) }),
            positions(v@) == indices_where(projects@.take(i as int), pred),
        decreases projects.len() - i,
    {
        proof {
            lemma_indices_where_step(projects@, pred, i as int);
        }
        let hit = if by_id { text_eq(projects[i].id.as_str(), text) } else { text_eq(projects[i].name.as_str(), text) };
        if hit {
            v.push(i);
        }
        assert(positions(v@) =~= indices_where(projects@.take(i + 1), pred));
        i = i + 1;
    }
    assert(projects@.take(projects.len() as int) =~= projects@);
    v
}

fn solidtime_projects_where(projects: &[SolidtimeProject], text: &str, by_id: bool) -> (v: Vec<usize>)
    ensures
        positions(v@) == indices_where(
            projects@,
            if by_id { solidtime_project_has_id(text@) } else { solidtime_project_has_name(text@) },
        ),
{
    let ghost pred = if by_id { solidtime_project_has_id(text@) } else { solidtime_project_has_name(text@) };
    let mut v: Vec<usize> = Vec::new();
    let mut i: usize = 0;
    while i < projects.len()
        invariant
            i <= projects.len(),
            pred == (if by_id { solidtime_project_has_id(text@) } else { solidtime_project_has_name(text@) }),
            positions(v@) == indices_where(projects@.take(i as int), pred),
        decreases projects.len() - i,
    {
        proof {
            lemma_indices_where_step(projects@, pred, i as int);
        }
        let hit = if by_id { text_eq(projects[i].id.as_str(), text) } else { text_eq(projects[i].name.as_str(), text) };
        if hit {
            v.push(i);
        }
        assert(positions(v@) =~= indices_where(projects@.take(i + 1), pred));
        i = i + 1;
    }
    assert(projects@.take(projects.len() as int) =~= projects@);
    v
}

fn clockify_tasks_with_id(tasks: &[ClockifyTask], id: &str) -> (v: Vec<usize>)
    ensures
        positions(v@) == indices_where(tasks@, clockify_task_has_id(id@)),
{
    let ghost pred = clockify_task_has_id(id@);
    let mut v: Vec<usize> = Vec::new();
    let mut i: usize = 0;
    while i < tasks.len()
        invariant
            i <= tasks.len(),
            pred == clockify_task_has_id(id@),
            positions(v@) == indices_where(tasks@.take(i as int), pred),
        decreases tasks.len() - i,
    {
        proof {
            lemma_indices_where_step(tasks@, pred, i as int);
        }
        if text_eq(tasks[i].id.as_str(), id) {
            v.push(i);
        }
        assert(positions(v@) =~= indices_where(tasks@.take(i + 1), pred));
        i = i + 1;
    }
    assert(tasks@.take(tasks.len() as int) =~= tasks@);
    v
}

fn clockify_tasks_named_in(tasks: &[ClockifyTask], name: &str, project_id: &str) -> (v: Vec<usize>)
    ensures
        positions(v@) == indices_where(tasks@, clockify_task_named_in(name@, project_id@)),
{
    let ghost pred = clockify_task_named_in(name@, project_id@);
    let mut v: Vec<usize> = Vec::new();
    let mut i: usize = 0;
    while i < tasks.len()
        invariant
            i <= tasks.len(),
            pred == clockify_task_named_in(name@, project_id@),
            positions(v@) == indices_where(tasks@.take(i as int), pred),
        decreases tasks.len() - i,
    {
        proof {
            lemma_indices_where_step(tasks@, pred, i as int);
        }
        let in_project = match task_project_id(&tasks[i]) {
            Some(p) => text_eq(p, project_id),
            None => false,
        };
        if text_eq(tasks[i].name.as_str(), name) && in_project {
            v.push(i);
        }
        assert(positions(v@) =~= indices_where(tasks@.take(i + 1), pred));
        i = i + 1;
    }
    assert(tasks@.take(tasks.len() as int) =~= tasks@);
    v
}

fn solidtime_tasks_where(tasks: &[SolidtimeTask], text: &str, project_id: &str, by_id: bool) -> (v: Vec<usize>)
    ensures
        positions(v@) == indices_where(
            tasks@,
            if by_id { solidtime_task_has_id(text@) } else { solidtime_task_named_in(text@, project_id@) },
        ),
{
    let ghost pred = if by_id { solidtime_task_has_id(text@) } else { solidtime_task_named_in(text@, project_id@) };
    let mut v: Vec<usize> = Vec::new();
    let mut i: usize = 0;
    while i < tasks.len()
        invariant
            i <= tasks.len(),
            pred == (if by_id { solidtime_task_has_id(text@) } else { solidtime_task_named_in(text@, project_id@) }),
            positions(v@) == indices_where(tasks@.take(i as int), pred),
        decreases tasks.len() - i,
    {
        proof {
            lemma_indices_where_step(tasks@, pred, i as int);
        }
        let hit = if by_id {
            text_eq(tasks[i].id.as_str(), text)
        } else {
            text_eq(tasks[i].name.as_str(), text) && text_eq(tasks[i].project_id.as_str(), project_id)
        };
        if hit {
            v.push(i);
        }
        assert(positions(v@) =~= indices_where(tasks@.take(i + 1), pred));
        i = i + 1;
    }
    assert(tasks@.take(tasks.len() as int) =~= tasks@);
    v
}

/// The Clockify project that a mapping row names.
pub fn resolve_clockify_project<'a>(row: &ProjectMappingRow, projects: &'a [ClockifyProject]) -> (r: Result<&'a ClockifyProject, MigrationError>)
    ensures
        match clockify_project_choice(*row, projects@) {
            Ok(i) => r matches Ok(p) && 0 <= i < projects@.len() && *p == projects@[i],
            Err(m) => r matches Err(e) && e@ == m,
        },
{
    if !blank(row.clockify_project_id.as_str()) {
        let ix = clockify_projects_where(projects, row.clockify_project_id.as_str(), true);
        proof {
            lemma_indices_where_valid(projects@, clockify_project_has_id(row.clockify_project_id@));
        }
        if ix.len() == 0 {
            return Err(id_not_found("Clockify project", row.clockify_project_id.as_str()));
        }
        return Ok(&projects[ix[0]]);
    }
    let ix = clockify_projects_where(projects, row.clockify_project.as_str(), false);
    proof {
        lemma_indices_where_valid(projects@, clockify_project_has_name(row.clockify_project@));
    }
    match single_match(ix, "Clockify project", row.clockify_project.as_str()) {
        Err(e) => Err(e),
        Ok(Some(i)) => Ok(&projects[i]),
        Ok(None) => Err(name_not_found("Clockify project", row.clockify_project.as_str())),
    }
}

/// The Clockify task that a mapping row names under project `project_id`.
pub fn resolve_clockify_task<'a>(row: &ProjectMappingRow, project_id: &str, tasks: &'a [ClockifyTask]) -> (r: Result<&'a ClockifyTask, MigrationError>)
    ensures
        match clockify_task_choice(*row, project_id@, tasks@) {
            Ok(i) => r matches Ok(t) && 0 <= i < tasks@.len() && *t == tasks@[i],
            Err(m) => r matches Err(e) && e@ == m,
        },
{
    if !blank(row.clockify_task_id.as_str()) {
        let ix = clockify_tasks_with_id(tasks, row.clockify_task_id.as_str());
        proof {
            lemma_indices_where_valid(tasks@, clockify_task_has_id(row.clockify_task_id@));
        }
        if ix.len() == 0 {
            return Err(id_not_found("Clockify task", row.clockify_task_id.as_str()));
        }
        let task = &tasks[ix[0]];
        let inside = match task_project_id(task) {
            Some(p) => text_eq(p, project_id),
            None => false,
        };
        if !inside {
            return Err(clockify_task_outside(row.clockify_task_id.as_str(), project_id));
        }
        return Ok(task);
    }
    let ix = clockify_tasks_named_in(tasks, row.clockify_task.as_str(), project_id);
    proof {
        lemma_indices_where_valid(tasks@, clockify_task_named_in(row.clockify_task@, project_id@));
    }
    match single_match(ix, "Clockify task", row.clockify_task.as_str()) {
        Err(e) => Err(e),
        Ok(Some(i)) => Ok(&tasks[i]),
        Ok(None) => Err(clockify_task_missing(row.clockify_task.as_str(), project_id)),
    }
}

/// The Solidtime project that a mapping row names.
pub fn resolve_solidtime_project<'a>(row: &ProjectMappingRow, projects: &'a [SolidtimeProject]) -> (r: Result<&'a SolidtimeProject, MigrationError>)
    ensures
        match solidtime_project_choice(*row, projects@) {
            Ok(i) => r matches Ok(p) && 0 <= i < projects@.len() && *p == projects@[i],
            Err(m) => r matches Err(e) && e@ == m,
        },
{
    if !blank(row.solidtime_project_id.as_str()) {
        let ix = solidtime_projects_where(projects, row.solidtime_project_id.as_str(), true);
        proof {
            lemma_indices_where_valid(projects@, solidtime_project_has_id(row.solidtime_project_id@));
        }
        if ix.len() == 0 {
            return Err(id_not_found("Solidtime project", row.solidtime_project_id.as_str()));
        }
        return Ok(&projects[ix[0]]);
    }
    let ix = solidtime_projects_where(projects, row.solidtime_project.as_str(), false);
    proof {
        lemma_indices_where_valid(projects@, solidtime_project_has_name(row.solidtime_project@));
    }
    match single_match(ix, "Solidtime project", row.solidtime_project.as_str()) {
        Err(e) => Err(e),
        Ok(Some(i)) => Ok(&projects[i]),
        Ok(None) => Err(name_not_found("Solidtime project", row.solidtime_project.as_str())),
    }
}

/// The Solidtime task that a mapping row names under `project`; none when a
/// task name matches no task there.
pub fn try_resolve_solidtime_task<'a>(row: &ProjectMappingRow, project: &SolidtimeProject, tasks: &'a [SolidtimeTask]) -> (r: Result<Option<&'a SolidtimeTask>, MigrationError>)
    ensures
        match solidtime_task_choice(*row, *project, tasks@) {
            Ok(Some(i)) => r matches Ok(Some(t)) && 0 <= i < tasks@.len() && *t == tasks@[i],
            Ok(None) => r matches Ok(None),
            Err(m) => r matches Err(e) && e@ == m,
        },
        r matches Ok(Some(t)) ==> t.project_id@ == project.id@,
{
    proof {
        chosen_solidtime_task_lies_in_the_project(*row, *project, tasks@, tasks@[0]);
    }
    if !blank(row.solidtime_task_id.as_str()) {
        let ix = solidtime_tasks_where(tasks, row.solidtime_task_id.as_str(), project.id.as_str(), true);
        proof {
            lemma_indices_where_valid(tasks@, solidtime_task_has_id(row.solidtime_task_id@));
        }
        if ix.len() == 0 {
            return Err(id_not_found("Solidtime task", row.solidtime_task_id.as_str()));
        }
        let task = &tasks[ix[0]];
        if !task.project_id.eq(&project.id) {
            return Err(solidtime_task_outside(row.solidtime_task_id.as_str(), project.name.as_str()));
        }
        return Ok(Some(task));
    }
    let ix = solidtime_tasks_where(tasks, row.solidtime_task.as_str(), project.id.as_str(), false);
    proof {
        lemma_indices_where_valid(tasks@, solidtime_task_named_in(row.solidtime_task@, project.id@));
    }
    match single_match(ix, "Solidtime task", row.solidtime_task.as_str()) {
        Err(e) => Err(e),
        Ok(Some(i)) => Ok(Some(&tasks[i])),
        Ok(None) => Ok(None),
    }
}

/// The Solidtime task that a mapping row names under `project`.
pub fn resolve_solidtime_task<'a>(row: &ProjectMappingRow, project: &SolidtimeProject, tasks: &'a [SolidtimeTask]) -> (r: Result<&'a SolidtimeTask, MigrationError>)
    ensures
        match solidtime_task_choice(*row, *project, tasks@) {
            Ok(Some(i)) => r matches Ok(t) && 0 <= i < tasks@.len() && *t == tasks@[i],
            Ok(None) => r matches Err(e) && e@ == solidtime_task_missing_message(row.solidtime_task@, project.name@),
            Err(m) => r matches Err(e) && e@ == m,
        },
{
    match try_resolve_solidtime_task(row, project, tasks) {
        Err(e) => Err(e),
        Ok(Some(t)) => Ok(t),
        Ok(None) => Err(solidtime_task_missing(row.solidtime_task.as_str(), project.name.as_str())),
    }
}

/// What `insert_mapping` makes of a map: an error when the state or the map
/// already points the Clockify id elsewhere, else the map with the pair set.
pub open spec fn insert_mapping_result(
    map: Seq<(Seq<char>, Seq<char>)>,
    state_value: Option<Seq<char>>,
    clockify_id: Seq<char>,
    solidtime_id: Seq<char>,
    kind: Seq<char>,
) -> Result<Seq<(Seq<char>, Seq<char>)>, Seq<char>> {
    if state_value matches Some(existing) && existing != solidtime_id {
        Err(state_conflict_message(kind, clockify_id, state_value->0, solidtime_id))
    } else if lookup(map, clockify_id) matches Some(existing) && existing != solidtime_id {
        Err(csv_conflict_message(kind, clockify_id, lookup(map, clockify_id)->0, solidtime_id))
    } else {
        Ok(pairs_insert(map, clockify_id, solidtime_id))
    }
}

/// Records that `clockify_id` maps to `solidtime_id`, refusing a second,
/// different target from the state file or from the CSV itself.
pub fn insert_mapping(map: &mut StringMap, state_value: Option<&str>, clockify_id: &str, solidtime_id: &str, kind: &str) -> (r: Result<(), MigrationError>)
    ensures
        match insert_mapping_result(old(map)@, opt_str_view(state_value), clockify_id@, solidtime_id@, kind@) {
            Ok(m) => r is Ok && final(map)@ == m,
            Err(msg) => (r matches Err(e) && e@ == msg) && final(map)@ == old(map)@,
        },
{
    if let Some(existing) = state_value {
        if !text_eq(existing, solidtime_id) {
            return Err(state_conflict(kind, clockify_id, existing, solidtime_id));
        }
    }
    if let Some(existing) = map.get(clockify_id) {
        if !text_eq(existing.as_str(), solidtime_id) {
            return Err(csv_conflict(kind, clockify_id, existing.as_str(), solidtime_id));
        }
    }
    map.insert(owned(clockify_id), owned(solidtime_id));
    Ok(())
}

/// The project a Clockify task belongs to.
pub fn task_project_id(task: &ClockifyTask) -> (r: Option<&str>)
    ensures
        opt_str_view(r) == opt_view(task.project_id),
{
    match &task.project_id {
        Some(p) => Some(p.as_str()),
        None => None,
    }
}

/// A mapping that agrees with itself is accepted again, and the state that
/// results is the same: repeating a mapping row changes nothing.
pub proof fn insert_mapping_repeatable(
    map: Seq<(Seq<char>, Seq<char>)>,
    clockify_id: Seq<char>,
    solidtime_id: Seq<char>,
    kind: Seq<char>,
)
    requires
        insert_mapping_result(map, None, clockify_id, solidtime_id, kind) is Ok,
    ensures
        insert_mapping_result(
            insert_mapping_result(map, None, clockify_id, solidtime_id, kind)->Ok_0,
            None,
            clockify_id,
            solidtime_id,
            kind,
        ) is Ok,
        lookup(insert_mapping_result(map, None, clockify_id, solidtime_id, kind)->Ok_0, clockify_id) == Some(solidtime_id),
{
    crate::string_map::lemma_pairs_insert_lookup(map, clockify_id, solidtime_id, clockify_id);
}

/// Once the CSV maps a Clockify id to one target, mapping it to a different
/// target is refused.
pub proof fn insert_mapping_refuses_second_target(
    map: Seq<(Seq<char>, Seq<char>)>,
    clockify_id: Seq<char>,
    first: Seq<char>,
    second: Seq<char>,
    kind: Seq<char>,
)
    requires
        insert_mapping_result(map, None, clockify_id, first, kind) is Ok,
        first != second,
    ensures
        insert_mapping_result(
            insert_mapping_result(map, None, clockify_id, first, kind)->Ok_0,
            None,
            clockify_id,
            second,
            kind,
        ) == Err::<Seq<(Seq<char>, Seq<char>)>, Seq<char>>(csv_conflict_message(kind, clockify_id, first, second)),
{
    crate::string_map::lemma_pairs_insert_lookup(map, clockify_id, first, clockify_id);
}

/// A Solidtime task that a mapping row resolves lies in the row's Solidtime
/// project and is the one the row names, by name or by id; and a task read
/// from another project (or, for a row naming its task by id, a task with
/// another id) changes nothing about the choice.
pub proof fn chosen_solidtime_task_lies_in_the_project(
    row: ProjectMappingRow,
    project: SolidtimeProject,
    tasks: Seq<SolidtimeTask>,
    other: SolidtimeTask,
)
    ensures
        solidtime_task_choice(row, project, tasks) matches Ok(Some(i)) ==> 0 <= i < tasks.len() && tasks[i].project_id@
            == project.id@ && if is_blank(row.solidtime_task_id@) {
            tasks[i].name@ == row.solidtime_task@
        } else {
            tasks[i].id@ == row.solidtime_task_id@
        },
        is_blank(row.solidtime_task_id@) && other.project_id@ != project.id@ ==> solidtime_task_choice(row, project, tasks.push(other))
            == solidtime_task_choice(row, project, tasks),
        !is_blank(row.solidtime_task_id@) && other.id@ != row.solidtime_task_id@ ==> solidtime_task_choice(row, project, tasks.push(other))
            == solidtime_task_choice(row, project, tasks),
{
    lemma_indices_where_valid(tasks, solidtime_task_has_id(row.solidtime_task_id@));
    lemma_indices_where_valid(tasks, solidtime_task_named_in(row.solidtime_task@, project.id@));
    let t2 = tasks.push(other);
    assert(t2.drop_last() =~= tasks);
    let by_id = indices_where(tasks, solidtime_task_has_id(row.solidtime_task_id@));
    let by_name = indices_where(tasks, solidtime_task_named_in(row.solidtime_task@, project.id@));
    if by_id.len() > 0 {
        assert(0 <= by_id[0] < tasks.len());
        assert(t2[by_id[0]] == tasks[by_id[0]]);
    }
    if by_name.len() > 0 {
        assert(0 <= by_name[0] < tasks.len());
    }
}

} // verus!
