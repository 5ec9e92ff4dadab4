//! The printed form of a project comparison: one table per client group and a
//! summary table.
use vstd::prelude::*;

use crate::compare::{
    project_rows, Comparison, ProjectComparison, ProjectRow, ProjectStatus, RowStatus, Summary, TaskComparison, TaskRow,
    TaskStatus, group_rows,
};
use crate::fingerprint::or_empty;
use crate::table::{render_table_with_extra, row_views, cell_views, table_text};
use crate::text::{concat, decimal, decimal_text, opt_view, owned};

verus! {

/// One line of a comparison table: the kind of item, its Clockify side, how
/// the two sides relate, and its Solidtime side.
#[derive(Debug)]
pub struct TableRow {
    pub item_type: String,
    pub clockify: String,
    pub relation: &'static str,
    pub solidtime: String,
}

impl View for TableRow {
    type V = Seq<Seq<char>>;

    open spec fn view(&self) -> Seq<Seq<char>> {
        seq![self.item_type@, self.clockify@, self.relation@, self.solidtime@]
    }
}

/// A name, marked ` [A]` when the item is known to be archived.
pub open spec fn archived_text(name: Seq<char>, archived: Option<bool>) -> Seq<char> {
    if archived == Some(true) {
        name + " [A]"@
    } else {
        name
    }
}

/// The cells of a project line.
pub open spec fn project_cells(p: ProjectRow) -> Seq<Seq<char>> {
    let c = or_empty(p.clockify_name);
    let s = or_empty(p.solidtime_name);
    match p.status {
        RowStatus::Both => seq!["Project"@, archived_text(c, p.clockify_archived), "="@, archived_text(s, p.solidtime_archived)],
        RowStatus::ClockifyOnly => seq!["Project"@, archived_text(c, p.clockify_archived), "->"@, Seq::empty()],
        RowStatus::SolidtimeOnly => seq!["Project"@, Seq::empty(), "<-"@, archived_text(s, p.solidtime_archived)],
        RowStatus::ManualReview(_) => seq!["Project"@, c, "!"@, s],
    }
}

/// The cells of a task line.
pub open spec fn task_cells(t: TaskRow) -> Seq<Seq<char>> {
    let c = or_empty(t.clockify_name);
    let s = or_empty(t.solidtime_name);
    match t.status {
        RowStatus::Both => seq!["Task"@, c, "="@, s],
        RowStatus::ClockifyOnly => seq!["Task"@, c, "->"@, Seq::empty()],
        RowStatus::SolidtimeOnly => seq!["Task"@, Seq::empty(), "<-"@, s],
        RowStatus::ManualReview(_) => seq!["Task"@, c, "!"@, s],
    }
}

/// The cells of the note line that gives a review reason.
pub open spec fn note_cells(reason: Seq<char>) -> Seq<Seq<char>> {
    seq!["Note"@, reason, "!"@, Seq::empty()]
}

/// The note line under an item flagged for review, if it is.
pub open spec fn note_lines(status: RowStatus) -> Seq<Seq<Seq<char>>> {
    match status {
        RowStatus::ManualReview(reason) => seq![note_cells(reason)],
        _ => Seq::empty(),
    }
}

/// The lines of a list of tasks: each task, then its note.
pub open spec fn task_lines(ts: Seq<TaskRow>) -> Seq<Seq<Seq<char>>>
    decreases ts.len(),
{
    if ts.len() == 0 {
        Seq::empty()
    } else {
        task_lines(ts.drop_last()) + seq![task_cells(ts.last())] + note_lines(ts.last().status)
    }
}

/// The lines of a list of projects: each project, its note, then its tasks.
pub open spec fn project_lines(ps: Seq<ProjectRow>) -> Seq<Seq<Seq<char>>>
    decreases ps.len(),
{
    if ps.len() == 0 {
        Seq::empty()
    } else {
        project_lines(ps.drop_last()) + seq![project_cells(ps.last())] + note_lines(ps.last().status) + task_lines(
            ps.last().tasks,
        )
    }
}

/// The headers of a project table.
pub open spec fn project_headers() -> Seq<Seq<char>> {
    seq!["Type"@, "Clockify"@, ""@, "Solidtime"@]
}

/// The headers of the summary table.
pub open spec fn summary_headers() -> Seq<Seq<char>> {
    seq!["Type"@, "Matched"@, "Clockify only"@, "Solidtime only"@, "Manual review"@]
}

/// The two lines of the summary table.
pub open spec fn summary_lines(s: Summary) -> Seq<Seq<Seq<char>>> {
    seq![
        seq![
            "Projects"@,
            decimal(s.projects_matched as nat),
            decimal(s.projects_clockify_only as nat),
            decimal(s.projects_solidtime_only as nat),
            decimal(s.projects_manual_review as nat),
        ],
        seq![
            "Tasks"@,
            decimal(s.tasks_matched as nat),
            decimal(s.tasks_clockify_only as nat),
            decimal(s.tasks_solidtime_only as nat),
            decimal(s.tasks_manual_review as nat),
        ],
    ]
}

/// The label of a client group.
pub open spec fn client_label(client: Option<Seq<char>>) -> Seq<char> {
    match client {
        Some(name) => name,
        None => "(No client)"@,
    }
}

/// The client groups, each as its heading line and its project table.
pub open spec fn groups_text(gs: Seq<(Option<Seq<char>>, Seq<ProjectRow>)>) -> Seq<char>
    decreases gs.len(),
{
    if gs.len() == 0 {
        Seq::empty()
    } else {
        groups_text(gs.drop_last()) + "Client: "@ + client_label(gs.last().0) + "\n"@ + table_text(
            project_headers(),
            project_lines(gs.last().1),
        ) + "\n"@
    }
}

/// Whether the summary counts nothing but matches.
pub open spec fn no_differences(s: Summary) -> bool {
    &&& s.projects_clockify_only == 0
    &&& s.projects_solidtime_only == 0
    &&& s.projects_manual_review == 0
    &&& s.tasks_clockify_only == 0
    &&& s.tasks_solidtime_only == 0
    &&& s.tasks_manual_review == 0
}

/// The whole report: title, legend, the client groups, the no-differences
/// line when it applies, and the summary.
pub open spec fn comparison_text(gs: Seq<(Option<Seq<char>>, Seq<ProjectRow>)>, s: Summary) -> Seq<char> {
    "Project comparison\n\n"@ + "Legend: = both, -> Clockify only, <- Solidtime only, ! manual review, A archived\n\n"@
        + groups_text(gs) + (if no_differences(s) {
        "Clockify and Solidtime project structures match with no differences.\n\n"@
    } else {
        Seq::empty()
    }) + "Summary\n"@ + table_text(summary_headers(), summary_lines(s)) + "\n"@
}

/// The views of table lines.
pub open spec fn table_row_views(rows: Seq<TableRow>) -> Seq<Seq<Seq<char>>> {
    rows.map_values(|r: TableRow| r@)
}

/// A name, marked ` [A]` when the item is known to be archived.
pub fn archived_name(name: &str, archived: Option<bool>) -> (r: String)
    ensures
        r@ == archived_text(name@, archived),
{
    if archived == Some(true) {
        concat(name, " [A]")
    } else {
        owned(name)
    }
}

fn name_or_blank(name: &Option<String>) -> (r: &str)
    ensures
        r@ == or_empty(opt_view(*name)),
{
    proof {
        lemma_empty_literal();
    }
    match name {
        Some(n) => n.as_str(),
        None => "",
    }
}

proof fn lemma_empty_literal()
    ensures
        ""@ == Seq::<char>::empty(),
{
    reveal_strlit("");
}

/// The table line of a project.
pub fn project_table_row(project: &ProjectComparison) -> (r: TableRow)
    ensures
        r@ == project_cells(project@),
{
    proof {
        lemma_empty_literal();
    }
    let clockify_name = name_or_blank(&project.clockify_name);
    let solidtime_name = name_or_blank(&project.solidtime_name);
    let r = match &project.status {
        ProjectStatus::Both => TableRow {
            item_type: owned("Project"),
            clockify: archived_name(clockify_name, project.clockify_archived),
            relation: "=",
            solidtime: archived_name(solidtime_name, project.solidtime_archived),
        },
        ProjectStatus::ClockifyOnly => TableRow {
            item_type: owned("Project"),
            clockify: archived_name(clockify_name, project.clockify_archived),
            relation: "->",
            solidtime: String::new(),
        },
        ProjectStatus::SolidtimeOnly => TableRow {
            item_type: owned("Project"),
            clockify: String::new(),
            relation: "<-",
            solidtime: archived_name(solidtime_name, project.solidtime_archived),
        },
        ProjectStatus::ManualReview(_) => TableRow {
            item_type: owned("Project"),
            clockify: owned(clockify_name),
            relation: "!",
            solidtime: owned(solidtime_name),
        },
    };
    assert(r@ =~= project_cells(project@));
    r
}

/// The table line of a task.
pub fn task_table_row(task: &TaskComparison) -> (r: TableRow)
    ensures
        r@ == task_cells(task@),
{
    proof {
        lemma_empty_literal();
    }
    let clockify_name = name_or_blank(&task.clockify_name);
    let solidtime_name = name_or_blank(&task.solidtime_name);
    let r = match &task.status {
        TaskStatus::Both => TableRow {
            item_type: owned("Task"),
            clockify: owned(clockify_name),
            relation: "=",
            solidtime: owned(solidtime_name),
        },
        TaskStatus::ClockifyOnly => TableRow {
            item_type: owned("Task"),
            clockify: owned(clockify_name),
            relation: "->",
            solidtime: String::new(),
        },
        TaskStatus::SolidtimeOnly => TableRow {
            item_type: owned("Task"),
            clockify: String::new(),
            relation: "<-",
            solidtime: owned(solidtime_name),
        },
        TaskStatus::ManualReview(_) => TableRow {
            item_type: owned("Task"),
            clockify: owned(clockify_name),
            relation: "!",
            solidtime: owned(solidtime_name),
        },
    };
    assert(r@ =~= task_cells(task@));
    r
}

/// The note line that gives a review reason.
pub fn note_table_row(reason: &str) -> (r: TableRow)
    ensures
        r@ == note_cells(reason@),
{
    proof {
        lemma_empty_literal();
    }
    let r = TableRow { item_type: owned("Note"), clockify: owned(reason), relation: "!", solidtime: String::new() };
    assert(r@ =~= note_cells(reason@));
    r
}

/// A table of comparison lines under the given headers.
pub fn render_table(headers: &Vec<String>, rows: Vec<TableRow>) -> (r: String)
    requires
        headers@.len() == 4,
    ensures
        r@ == table_text(cell_views(headers@), table_row_views(rows@)),
{
    let mut cells: Vec<Vec<String>> = Vec::new();
    let mut i: usize = 0;
    while i < rows.len()
        invariant
            i <= rows.len(),
            cells@.len() == i,
            forall|j: int| 0 <= j < i ==> (#[trigger] cells@[j])@.len() == 4,
            row_views(cells@) == table_row_views(rows@.take(i as int)),
        decreases rows.len() - i,
    {
        let row = &rows[i];
        let mut line: Vec<String> = Vec::new();
        line.push(row.item_type.clone());
        line.push(row.clockify.clone());
        line.push(owned(row.relation));
        line.push(row.solidtime.clone());
        assert(cell_views(line@) =~= row@);
        let ghost old_cells = cells@;
        cells.push(line);
        assert(row_views(cells@) =~= row_views(old_cells).push(cell_views(line@)));
        assert(table_row_views(rows@.take(i + 1)) =~= table_row_views(rows@.take(i as int)).push(rows@[i as int]@));
        i = i + 1;
    }
    assert(rows@.take(rows.len() as int) =~= rows@);
    render_table_with_extra(headers, &cells)
}

fn project_header_cells() -> (r: Vec<String>)
    ensures
        cell_views(r@) == project_headers(),
        r@.len() == 4,
{
    let mut r: Vec<String> = Vec::new();
    r.push(owned("Type"));
    r.push(owned("Clockify"));
    r.push(owned(""));
    r.push(owned("Solidtime"));
    assert(cell_views(r@) =~= project_headers());
    r
}

fn push_task_lines(rows: &mut Vec<TableRow>, tasks: &Vec<TaskComparison>)
    ensures
        table_row_views(final(rows)@) == table_row_views(old(rows)@) + task_lines(crate::compare::task_rows(tasks@)),
{
    let ghost ts = crate::compare::task_rows(tasks@);
    let ghost start = table_row_views(rows@);
    let mut j: usize = 0;
    assert(ts.take(0) =~= Seq::<TaskRow>::empty());
    assert(start + task_lines(ts.take(0)) =~= start);
    while j < tasks.len()
        invariant
            j <= tasks.len(),
            ts == crate::compare::task_rows(tasks@),
            table_row_views(rows@) == start + task_lines(ts.take(j as int)),
        decreases tasks.len() - j,
    {
        let task = &tasks[j];
        assert(ts.take(j + 1).drop_last() =~= ts.take(j as int));
        assert(ts.take(j + 1).last() == task@);
        let ghost before = table_row_views(rows@);
        rows.push(task_table_row(task));
        assert(table_row_views(rows@) =~= before + seq![task_cells(task@)]);
        let ghost mid = table_row_views(rows@);
        if let TaskStatus::ManualReview(reason) = &task.status {
            rows.push(note_table_row(reason.as_str()));
            assert(table_row_views(rows@) =~= mid + note_lines(task@.status));
        } else {
            assert(mid + note_lines(task@.status) =~= mid);
        }
        assert(table_row_views(rows@) =~= start + task_lines(ts.take(j + 1)));
        j = j + 1;
    }
    assert(ts.take(tasks.len() as int) =~= ts);
}

/// The table of a client group's projects, with their notes and tasks.
pub fn render_project_table(projects: &Vec<ProjectComparison>) -> (r: String)
    ensures
        r@ == table_text(project_headers(), project_lines(project_rows(projects@))),
{
    let ghost ps = project_rows(projects@);
    let mut rows: Vec<TableRow> = Vec::new();
    let mut i: usize = 0;
    assert(ps.take(0) =~= Seq::<ProjectRow>::empty());
    assert(table_row_views(rows@) =~= project_lines(ps.take(0)));
    while i < projects.len()
        invariant
            i <= projects.len(),
            ps == project_rows(projects@),
            table_row_views(rows@) == project_lines(ps.take(i as int)),
        decreases projects.len() - i,
    {
        let project = &projects[i];
        assert(ps.take(i + 1).drop_last() =~= ps.take(i as int));
        assert(ps.take(i + 1).last() == project@);
        let ghost before = table_row_views(rows@);
        rows.push(project_table_row(project));
        assert(table_row_views(rows@) =~= before + seq![project_cells(project@)]);
        let ghost mid = table_row_views(rows@);
        if let ProjectStatus::ManualReview(reason) = &project.status {
            rows.push(note_table_row(reason.as_str()));
            assert(table_row_views(rows@) =~= mid + note_lines(project@.status));
        } else {
            assert(mid + note_lines(project@.status) =~= mid);
        }
        push_task_lines(&mut rows, &project.tasks);
        assert(table_row_views(rows@) =~= project_lines(ps.take(i + 1)));
        i = i + 1;
    }
    assert(ps.take(projects.len() as int) =~= ps);
    let headers = project_header_cells();
    render_table(&headers, rows)
}

/// The summary table: project and task lines counted by status.
pub fn render_summary_table(summary: &Summary) -> (r: String)
    ensures
        r@ == table_text(summary_headers(), summary_lines(*summary)),
{
    let mut headers: Vec<String> = Vec::new();
    headers.push(owned("Type"));
    headers.push(owned("Matched"));
    headers.push(owned("Clockify only"));
    headers.push(owned("Solidtime only"));
    headers.push(owned("Manual review"));
    let mut projects: Vec<String> = Vec::new();
    projects.push(owned("Projects"));
    projects.push(decimal_text(summary.projects_matched));
    projects.push(decimal_text(summary.projects_clockify_only));
    projects.push(decimal_text(summary.projects_solidtime_only));
    projects.push(decimal_text(summary.projects_manual_review));
    let mut tasks: Vec<String> = Vec::new();
    tasks.push(owned("Tasks"));
    tasks.push(decimal_text(summary.tasks_matched));
    tasks.push(decimal_text(summary.tasks_clockify_only));
    tasks.push(decimal_text(summary.tasks_solidtime_only));
    tasks.push(decimal_text(summary.tasks_manual_review));
    let mut rows: Vec<Vec<String>> = Vec::new();
    rows.push(projects);
    rows.push(tasks);
    assert(cell_views(headers@) =~= summary_headers());
    assert(cell_views(rows@[0]@) =~= summary_lines(*summary)[0]);
    assert(cell_views(rows@[1]@) =~= summary_lines(*summary)[1]);
    assert(row_views(rows@) =~= summary_lines(*summary));
    render_table_with_extra(&headers, &rows)
}

fn client_text(client: &Option<String>) -> (r: &str)
    ensures
        r@ == client_label(opt_view(*client)),
{
    match client {
        Some(name) => name.as_str(),
        None => "(No client)",
    }
}

/// The printed report of a comparison.
pub fn render_comparison(comparison: &Comparison) -> (r: String)
    ensures
        r@ == comparison_text(group_rows(comparison.groups@), comparison.summary),
{
    let ghost gs = group_rows(comparison.groups@);
    let mut output = String::new();
    output.append("Project comparison\n\n");
    output.append("Legend: = both, -> Clockify only, <- Solidtime only, ! manual review, A archived\n\n");
    let ghost head = output@;
    let mut i: usize = 0;
    assert(gs.take(0) =~= Seq::<(Option<Seq<char>>, Seq<ProjectRow>)>::empty());
    assert(output@ =~= head + groups_text(gs.take(0)));
    while i < comparison.groups.len()
        invariant
            i <= comparison.groups.len(),
            gs == group_rows(comparison.groups@),
            output@ == head + groups_text(gs.take(i as int)),
        decreases comparison.groups.len() - i,
    {
        let group = &comparison.groups[i];
        assert(gs.take(i + 1).drop_last() =~= gs.take(i as int));
        assert(gs.take(i + 1).last() == (opt_view(group.0), project_rows(group.1@)));
        output.append("Client: ");
        output.append(client_text(&group.0));
        output.append("\n");
        output.append(render_project_table(&group.1).as_str());
        output.append("\n");
        assert(output@ =~= head + groups_text(gs.take(i + 1)));
        i = i + 1;
    }
    assert(gs.take(comparison.groups.len() as int) =~= gs);
    let summary = &comparison.summary;
    let ghost before_note = output@;
    if summary.projects_clockify_only == 0 && summary.projects_solidtime_only == 0 && summary.projects_manual_review == 0
        && summary.tasks_clockify_only == 0 && summary.tasks_solidtime_only == 0 && summary.tasks_manual_review == 0 {
        output.append("Clockify and Solidtime project structures match with no differences.\n\n");
    } else {
        assert(before_note + Seq::<char>::empty() =~= before_note);
    }
    output.append("Summary\n");
    output.append(render_summary_table(summary).as_str());
    output.append("\n");
    assert(output@ =~= comparison_text(gs, *summary));
    output
}

} // verus!
