//! Side-by-side comparison of the Clockify and Solidtime project structures.
use vstd::prelude::*;

use crate::models::{ClockifyClient, ClockifyProject, ClockifyTask, SolidtimeClient, SolidtimeProject, SolidtimeTask};
use crate::ordered::{
    group_all, group_insert, lemma_group_insert_at, lemma_set_insert_at, lemma_sort_insert_at, set_insert,
    set_insert_all, sort_insert, stable_sort,
};
use crate::select::{indices_where, lemma_indices_where_step, lemma_indices_where_valid, positions};
use crate::string_map::{has_value, lookup, pairs_insert, StringMap};
use crate::text::{decimal, decimal_text, opt_text_lt, opt_view, text_eq, text_less, text_lt};
use crate::errors::{solidtime_task_missing_message, MigrationError};
use crate::project_mapping::{
    clockify_project_choice, clockify_task_choice, insert_mapping, insert_mapping_result, resolve_clockify_project,
    resolve_clockify_task, resolve_solidtime_project, resolve_solidtime_task, solidtime_project_choice,
    solidtime_task_choice, ProjectMappingRow,
};
use crate::select::lemma_indices_where_nonempty;
use crate::string_map::lemma_pairs_insert_members;

verus! {

/// How an item of one system relates to the other.
pub enum RowStatus {
    Both,
    ClockifyOnly,
    SolidtimeOnly,
    ManualReview(Seq<char>),
}

/// One task line of the comparison.
pub struct TaskRow {
    pub clockify_name: Option<Seq<char>>,
    pub solidtime_name: Option<Seq<char>>,
    pub status: RowStatus,
}

/// One project line of the comparison, with its task lines.
pub struct ProjectRow {
    pub clockify_name: Option<Seq<char>>,
    pub solidtime_name: Option<Seq<char>>,
    pub status: RowStatus,
    pub clockify_archived: Option<bool>,
    pub solidtime_archived: Option<bool>,
    pub tasks: Seq<TaskRow>,
}

#[derive(Debug)]
pub enum TaskStatus {
    Both,
    ClockifyOnly,
    SolidtimeOnly,
    ManualReview(String),
}

#[derive(Debug)]
pub enum ProjectStatus {
    Both,
    ClockifyOnly,
    SolidtimeOnly,
    ManualReview(String),
}

#[derive(Debug)]
pub struct TaskComparison {
    pub clockify_name: Option<String>,
    pub solidtime_name: Option<String>,
    pub status: TaskStatus,
}

#[derive(Debug)]
pub struct ProjectComparison {
    pub clockify_name: Option<String>,
    pub solidtime_name: Option<String>,
    pub status: ProjectStatus,
    pub clockify_archived: Option<bool>,
    pub solidtime_archived: Option<bool>,
    pub tasks: Vec<TaskComparison>,
}

impl View for TaskStatus {
    type V = RowStatus;

    open spec fn view(&self) -> RowStatus {
        match self {
            TaskStatus::Both => RowStatus::Both,
            TaskStatus::ClockifyOnly => RowStatus::ClockifyOnly,
            TaskStatus::SolidtimeOnly => RowStatus::SolidtimeOnly,
            TaskStatus::ManualReview(reason) => RowStatus::ManualReview(reason@),
        }
    }
}

impl View for ProjectStatus {
    type V = RowStatus;

    open spec fn view(&self) -> RowStatus {
        match self {
            ProjectStatus::Both => RowStatus::Both,
            ProjectStatus::ClockifyOnly => RowStatus::ClockifyOnly,
            ProjectStatus::SolidtimeOnly => RowStatus::SolidtimeOnly,
            ProjectStatus::ManualReview(reason) => RowStatus::ManualReview(reason@),
        }
    }
}

impl View for TaskComparison {
    type V = TaskRow;

    open spec fn view(&self) -> TaskRow {
        TaskRow { clockify_name: opt_view(self.clockify_name), solidtime_name: opt_view(self.solidtime_name), status: self.status@ }
    }
}

/// The views of task comparisons.
pub open spec fn task_rows(v: Seq<TaskComparison>) -> Seq<TaskRow> {
    v.map_values(|t: TaskComparison| t@)
}

impl View for ProjectComparison {
    type V = ProjectRow;

    open spec fn view(&self) -> ProjectRow {
        ProjectRow {
            clockify_name: opt_view(self.clockify_name),
            solidtime_name: opt_view(self.solidtime_name),
            status: self.status@,
            clockify_archived: self.clockify_archived,
            solidtime_archived: self.solidtime_archived,
            tasks: task_rows(self.tasks@),
        }
    }
}

/// The views of project comparisons.
pub open spec fn project_rows(v: Seq<ProjectComparison>) -> Seq<ProjectRow> {
    v.map_values(|p: ProjectComparison| p@)
}

/// The mappings of the mapping file, resolved to ids: Clockify project id to
/// Solidtime project id, and Clockify task id to Solidtime task id.
#[derive(Debug)]
pub struct CompareMappings {
    pub projects: StringMap,
    pub tasks: StringMap,
}

impl CompareMappings {
    /// No mappings.
    pub fn new() -> (m: CompareMappings)
        ensures
            m.projects@.len() == 0,
            m.tasks@.len() == 0,
    {
        CompareMappings { projects: StringMap::new(), tasks: StringMap::new() }
    }
}

impl Default for CompareMappings {
    fn default() -> (m: CompareMappings)
        ensures
            m.projects@.len() == 0,
            m.tasks@.len() == 0,
    {
        CompareMappings::new()
    }
}

/// The name by which lines are ordered: the Clockify name, else the Solidtime
/// name, else empty.
pub open spec fn sort_name(clockify_name: Option<Seq<char>>, solidtime_name: Option<Seq<char>>) -> Seq<char> {
    match clockify_name {
        Some(n) => n,
        None => match solidtime_name {
            Some(n) => n,
            None => Seq::empty(),
        },
    }
}

/// The order key of a task line.
pub open spec fn task_key() -> spec_fn(TaskRow) -> Seq<char> {
    |t: TaskRow| sort_name(t.clockify_name, t.solidtime_name)
}

/// The order key of a project line.
pub open spec fn project_key() -> spec_fn(ProjectRow) -> Seq<char> {
    |p: ProjectRow| sort_name(p.clockify_name, p.solidtime_name)
}

/// The order of text.
pub open spec fn text_order() -> spec_fn(Seq<char>, Seq<char>) -> bool {
    |a: Seq<char>, b: Seq<char>| text_lt(a, b)
}

/// The order of optional text: absent first.
pub open spec fn opt_text_order() -> spec_fn(Option<Seq<char>>, Option<Seq<char>>) -> bool {
    |a: Option<Seq<char>>, b: Option<Seq<char>>| opt_text_lt(a, b)
}

/// The name by which comparison lines are ordered.
pub fn comparison_sort_name<'a>(clockify_name: Option<&'a str>, solidtime_name: Option<&'a str>) -> (r: &'a str)
    ensures
        r@ == sort_name(crate::text::opt_str_view(clockify_name), crate::text::opt_str_view(solidtime_name)),
{
    match clockify_name {
        Some(n) => n,
        None => match solidtime_name {
            Some(n) => n,
            None => {
                proof {
                    reveal_strlit("");
                }
                ""
            },
        },
    }
}

fn opt_string_as_str(o: &Option<String>) -> (r: Option<&str>)
    ensures
        crate::text::opt_str_view(r) == opt_view(*o),
{
    match o {
        Some(s) => Some(s.as_str()),
        None => None,
    }
}

/// The reason shown for an ambiguous name.
pub open spec fn ambiguity_reason(what: Seq<char>, clockify: nat, solidtime: nat) -> Seq<char> {
    "ambiguous "@ + what + " name: "@ + decimal(clockify) + " Clockify match(es), "@ + decimal(solidtime) + " Solidtime match(es)"@
}

fn ambiguity_text(what: &str, clockify: usize, solidtime: usize) -> (r: String)
    ensures
        r@ == ambiguity_reason(what@, clockify as nat, solidtime as nat),
{
    let mut r = String::new();
    r.append("ambiguous ");
    r.append(what);
    r.append(" name: ");
    r.append(decimal_text(clockify).as_str());
    r.append(" Clockify match(es), ");
    r.append(decimal_text(solidtime).as_str());
    r.append(" Solidtime match(es)");
    r
}

// ---------------------------------------------------------------------------
// Tasks of a matched project pair

/// A Clockify task of project `pid` that no task mapping names.
pub open spec fn unmapped_ctask(pid: Seq<char>, mt: Seq<(Seq<char>, Seq<char>)>) -> spec_fn(ClockifyTask) -> bool {
    |t: ClockifyTask| opt_view(t.project_id) == Some(pid) && lookup(mt, t.id@) is None
}

/// A Solidtime task of project `pid` that no task mapping names.
pub open spec fn unmapped_stask(pid: Seq<char>, mt: Seq<(Seq<char>, Seq<char>)>) -> spec_fn(SolidtimeTask) -> bool {
    |t: SolidtimeTask| t.project_id@ == pid && !has_value(mt, t.id@)
}

/// An unmapped Clockify task of project `pid` named `n`.
pub open spec fn unmapped_ctask_named(pid: Seq<char>, mt: Seq<(Seq<char>, Seq<char>)>, n: Seq<char>) -> spec_fn(ClockifyTask) -> bool {
    |t: ClockifyTask| unmapped_ctask(pid, mt)(t) && t.name@ == n
}

/// An unmapped Solidtime task of project `pid` named `n`.
pub open spec fn unmapped_stask_named(pid: Seq<char>, mt: Seq<(Seq<char>, Seq<char>)>, n: Seq<char>) -> spec_fn(SolidtimeTask) -> bool {
    |t: SolidtimeTask| unmapped_stask(pid, mt)(t) && t.name@ == n
}

/// A Clockify task of project `pid` with id `id`.
pub open spec fn ctask_with_id(pid: Seq<char>, id: Seq<char>) -> spec_fn(ClockifyTask) -> bool {
    |t: ClockifyTask| opt_view(t.project_id) == Some(pid) && t.id@ == id
}

/// A Solidtime task of project `pid` with id `id`.
pub open spec fn stask_with_id(pid: Seq<char>, id: Seq<char>) -> spec_fn(SolidtimeTask) -> bool {
    |t: SolidtimeTask| t.project_id@ == pid && t.id@ == id
}

/// The names of the unmapped Clockify tasks of project `pid`, in order.
pub open spec fn unmapped_ctask_names(ts: Seq<ClockifyTask>, pid: Seq<char>, mt: Seq<(Seq<char>, Seq<char>)>) -> Seq<Seq<char>>
    decreases ts.len(),
{
    if ts.len() == 0 {
        Seq::empty()
    } else {
        let r = unmapped_ctask_names(ts.drop_last(), pid, mt);
        if unmapped_ctask(pid, mt)(ts.last()) { r.push(ts.last().name@) } else { r }
    }
}

/// The names of the unmapped Solidtime tasks of project `pid`, in order.
pub open spec fn unmapped_stask_names(ts: Seq<SolidtimeTask>, pid: Seq<char>, mt: Seq<(Seq<char>, Seq<char>)>) -> Seq<Seq<char>>
    decreases ts.len(),
{
    if ts.len() == 0 {
        Seq::empty()
    } else {
        let r = unmapped_stask_names(ts.drop_last(), pid, mt);
        if unmapped_stask(pid, mt)(ts.last()) { r.push(ts.last().name@) } else { r }
    }
}

/// The distinct names of the unmapped tasks of both projects, in text order.
pub open spec fn task_names(
    cts: Seq<ClockifyTask>,
    cpid: Seq<char>,
    sts: Seq<SolidtimeTask>,
    spid: Seq<char>,
    mt: Seq<(Seq<char>, Seq<char>)>,
) -> Seq<Seq<char>> {
    set_insert_all(
        set_insert_all(Seq::empty(), unmapped_ctask_names(cts, cpid, mt), text_order()),
        unmapped_stask_names(sts, spid, mt),
        text_order(),
    )
}

/// The line of a task name with `c` Clockify and `s` Solidtime matches.
pub open spec fn name_task_row(n: Seq<char>, c: nat, s: nat) -> TaskRow {
    if c == 1 && s == 1 {
        TaskRow { clockify_name: Some(n), solidtime_name: Some(n), status: RowStatus::Both }
    } else if c == 1 && s == 0 {
        TaskRow { clockify_name: Some(n), solidtime_name: None, status: RowStatus::ClockifyOnly }
    } else if c == 0 && s == 1 {
        TaskRow { clockify_name: None, solidtime_name: Some(n), status: RowStatus::SolidtimeOnly }
    } else {
        TaskRow { clockify_name: Some(n), solidtime_name: Some(n), status: RowStatus::ManualReview(ambiguity_reason("task"@, c, s)) }
    }
}

/// The lines of the task names, in name order.
pub open spec fn name_task_rows(
    cts: Seq<ClockifyTask>,
    cpid: Seq<char>,
    sts: Seq<SolidtimeTask>,
    spid: Seq<char>,
    mt: Seq<(Seq<char>, Seq<char>)>,
) -> Seq<TaskRow> {
    task_names(cts, cpid, sts, spid, mt).map_values(
        |n: Seq<char>|
            name_task_row(
                n,
                indices_where(cts, unmapped_ctask_named(cpid, mt, n)).len(),
                indices_where(sts, unmapped_stask_named(spid, mt, n)).len(),
            ),
    )
}

/// The lines of the task mappings whose two tasks belong to the two projects;
/// a task id that occurs more than once is taken at its last occurrence.
pub open spec fn mapped_task_rows(
    pairs: Seq<(Seq<char>, Seq<char>)>,
    cts: Seq<ClockifyTask>,
    cpid: Seq<char>,
    sts: Seq<SolidtimeTask>,
    spid: Seq<char>,
) -> Seq<TaskRow>
    decreases pairs.len(),
{
    if pairs.len() == 0 {
        Seq::empty()
    } else {
        let r = mapped_task_rows(pairs.drop_last(), cts, cpid, sts, spid);
        let ci = indices_where(cts, ctask_with_id(cpid, pairs.last().0));
        let si = indices_where(sts, stask_with_id(spid, pairs.last().1));
        if ci.len() > 0 && si.len() > 0 {
            r.push(TaskRow { clockify_name: Some(cts[ci.last()].name@), solidtime_name: Some(sts[si.last()].name@), status: RowStatus::Both })
        } else {
            r
        }
    }
}

/// The task lines of a matched project pair: tasks paired by name, then the
/// mapped task pairs, all in order of their sort name.
pub open spec fn compared_tasks(
    cts: Seq<ClockifyTask>,
    cpid: Seq<char>,
    sts: Seq<SolidtimeTask>,
    spid: Seq<char>,
    mt: Seq<(Seq<char>, Seq<char>)>,
) -> Seq<TaskRow> {
    stable_sort(name_task_rows(cts, cpid, sts, spid, mt) + mapped_task_rows(mt, cts, cpid, sts, spid), task_key())
}

fn text_set_insert(v: &mut Vec<String>, k: String)
    ensures
        final(v)@.map_values(|s: String| s@) == set_insert(old(v)@.map_values(|s: String| s@), k@, text_order()),
{
    let ghost before = v@.map_values(|s: String| s@);
    let mut p: usize = 0;
    while p < v.len() && text_less(v[p].as_str(), k.as_str())
        invariant
            p <= v.len(),
            before == v@.map_values(|s: String| s@),
            forall|j: int| 0 <= j < p ==> text_lt(#[trigger] before[j], k@),
        decreases v.len() - p,
    {
        p = p + 1;
    }
    proof {
        lemma_set_insert_at(before, k@, text_order(), p as int);
    }
    if p < v.len() && v[p].eq(&k) {
        return;
    }
    v.insert(p, k);
    assert(v@.map_values(|s: String| s@) =~= before.take(p as int).push(k@) + before.skip(p as int));
}

fn count_unmapped_ctasks_named(ts: &[ClockifyTask], pid: &str, mt: &StringMap, n: &str) -> (c: usize)
    ensures
        c == indices_where(ts@, unmapped_ctask_named(pid@, mt@, n@)).len(),
{
    let ghost pred = unmapped_ctask_named(pid@, mt@, n@);
    let mut c: usize = 0;
    let mut i: usize = 0;
    while i < ts.len()
        invariant
            i <= ts.len(),
            pred == unmapped_ctask_named(pid@, mt@, n@),
            c == indices_where(ts@.take(i as int), pred).len(),
            c <= i,
        decreases ts.len() - i,
    {
        proof {
            lemma_indices_where_step(ts@, pred, i as int);
        }
        let t = &ts[i];
        let in_project = match &t.project_id {
            Some(p) => text_eq(p.as_str(), pid),
            None => false,
        };
        if in_project && !mt.contains_key(t.id.as_str()) && text_eq(t.name.as_str(), n) {
            c = c + 1;
        }
        i = i + 1;
    }
    assert(ts@.take(ts.len() as int) =~= ts@);
    c
}

fn count_unmapped_stasks_named(ts: &[SolidtimeTask], pid: &str, mt: &StringMap, n: &str) -> (c: usize)
    ensures
        c == indices_where(ts@, unmapped_stask_named(pid@, mt@, n@)).len(),
{
    let ghost pred = unmapped_stask_named(pid@, mt@, n@);
    let mut c: usize = 0;
    let mut i: usize = 0;
    while i < ts.len()
        invariant
            i <= ts.len(),
            pred == unmapped_stask_named(pid@, mt@, n@),
            c == indices_where(ts@.take(i as int), pred).len(),
            c <= i,
        decreases ts.len() - i,
    {
        proof {
            lemma_indices_where_step(ts@, pred, i as int);
        }
        let t = &ts[i];
        if text_eq(t.project_id.as_str(), pid) && !mt.contains_value(t.id.as_str()) && text_eq(t.name.as_str(), n) {
            c = c + 1;
        }
        i = i + 1;
    }
    assert(ts@.take(ts.len() as int) =~= ts@);
    c
}

fn last_ctask_with_id(ts: &[ClockifyTask], pid: &str, id: &str) -> (r: Option<usize>)
    ensures
        ({
            let ix = indices_where(ts@, ctask_with_id(pid@, id@));
            match r {
                Some(i) => ix.len() > 0 && i == ix.last(),
                None => ix.len() == 0,
            }
        }),
{
    let ghost pred = ctask_with_id(pid@, id@);
    let mut r: Option<usize> = None;
    let mut i: usize = 0;
    while i < ts.len()
        invariant
            i <= ts.len(),
            pred == ctask_with_id(pid@, id@),
            ({
                let ix = indices_where(ts@.take(i as int), pred);
                match r {
                    Some(k) => ix.len() > 0 && k == ix.last(),
                    None => ix.len() == 0,
                }
            }),
        decreases ts.len() - i,
    {
        proof {
            lemma_indices_where_step(ts@, pred, i as int);
        }
        let t = &ts[i];
        let in_project = match &t.project_id {
            Some(p) => text_eq(p.as_str(), pid),
            None => false,
        };
        if in_project && text_eq(t.id.as_str(), id) {
            r = Some(i);
        }
        i = i + 1;
    }
    assert(ts@.take(ts.len() as int) =~= ts@);
    r
}

fn last_stask_with_id(ts: &[SolidtimeTask], pid: &str, id: &str) -> (r: Option<usize>)
    ensures
        ({
            let ix = indices_where(ts@, stask_with_id(pid@, id@));
            match r {
                Some(i) => ix.len() > 0 && i == ix.last(),
                None => ix.len() == 0,
            }
        }),
{
    let ghost pred = stask_with_id(pid@, id@);
    let mut r: Option<usize> = None;
    let mut i: usize = 0;
    while i < ts.len()
        invariant
            i <= ts.len(),
            pred == stask_with_id(pid@, id@),
            ({
                let ix = indices_where(ts@.take(i as int), pred);
                match r {
                    Some(k) => ix.len() > 0 && k == ix.last(),
                    None => ix.len() == 0,
                }
            }),
        decreases ts.len() - i,
    {
        proof {
            lemma_indices_where_step(ts@, pred, i as int);
        }
        let t = &ts[i];
        if text_eq(t.project_id.as_str(), pid) && text_eq(t.id.as_str(), id) {
            r = Some(i);
        }
        i = i + 1;
    }
    assert(ts@.take(ts.len() as int) =~= ts@);
    r
}

fn sort_task_rows(rows: Vec<TaskComparison>) -> (r: Vec<TaskComparison>)
    ensures
        task_rows(r@) == stable_sort(task_rows(rows@), task_key()),
{
    let ghost all = task_rows(rows@);
    let mut rest = rows;
    let mut r: Vec<TaskComparison> = Vec::new();
    let mut i: usize = 0;
    let n = rest.len();
    assert(task_rows(rest@) =~= all.skip(0));
    assert(task_rows(r@) =~= stable_sort(all.take(0), task_key()));
    while rest.len() > 0
        invariant
            all.len() == i + rest.len(),
            all.len() == n,
            task_rows(rest@) == all.skip(i as int),
            task_rows(r@) == stable_sort(all.take(i as int), task_key()),
        decreases rest.len(),
    {
        let ghost old_rest = rest@;
        assert(task_rows(old_rest)[0] == old_rest[0]@);
        assert(all.skip(i as int)[0] == all[i as int]);
        let x = rest.remove(0);
        assert(x@ == all[i as int]);
        let ghost rs = task_rows(r@);
        let key = comparison_sort_name(opt_string_as_str(&x.clockify_name), opt_string_as_str(&x.solidtime_name));
        let mut p: usize = 0;
        while p < r.len()
            && !text_less(
                key,
                comparison_sort_name(opt_string_as_str(&r[p].clockify_name), opt_string_as_str(&r[p].solidtime_name)),
            )
            invariant
                p <= r.len(),
                rs == task_rows(r@),
                key@ == task_key()(x@),
                forall|j: int| 0 <= j < p ==> !text_lt(task_key()(x@), task_key()(#[trigger] rs[j])),
            decreases r.len() - p,
        {
            p = p + 1;
        }
        proof {
            lemma_sort_insert_at(rs, x@, task_key(), p as int);
        }
        r.insert(p, x);
        assert(task_rows(r@) =~= rs.take(p as int).push(all[i as int]) + rs.skip(p as int));
        assert(all.take(i + 1).drop_last() =~= all.take(i as int));
        assert forall|q: int| 0 <= q < rest@.len() implies #[trigger] task_rows(rest@)[q] == all.skip(i + 1)[q] by {
            assert(rest@[q] == old_rest[q + 1]);
            assert(task_rows(old_rest)[q + 1] == old_rest[q + 1]@);
            assert(all.skip(i as int)[q + 1] == all.skip(i + 1)[q]);
        }
        assert(task_rows(rest@) =~= all.skip(i + 1));
        i = i + 1;
    }
    assert(all.take(i as int) =~= all);
    r
}

/// Compares the tasks of Clockify project `clockify_project_id` with those of
/// Solidtime project `solidtime_project_id`: unmapped tasks pair by name, a name
/// with several matches on a side is flagged for review, mapped tasks pair by
/// the mapping; the lines come in order of their sort name.
pub fn compare_tasks(
    clockify_tasks: &[ClockifyTask],
    clockify_project_id: &str,
    solidtime_tasks: &[SolidtimeTask],
    solidtime_project_id: &str,
    mappings: &CompareMappings,
) -> (r: Vec<TaskComparison>)
    ensures
        task_rows(r@) == compared_tasks(
            clockify_tasks@,
            clockify_project_id@,
            solidtime_tasks@,
            solidtime_project_id@,
            mappings.tasks@,
        ),
        r.len() <= clockify_tasks.len() + solidtime_tasks.len() + mappings.tasks@.len(),
{
    let ghost cts = clockify_tasks@;
    let ghost sts = solidtime_tasks@;
    let ghost cpid = clockify_project_id@;
    let ghost spid = solidtime_project_id@;
    let ghost mt = mappings.tasks@;

    // The distinct names of the unmapped tasks, in order.
    let mut names: Vec<String> = Vec::new();
    let mut i: usize = 0;
    while i < clockify_tasks.len()
        invariant
            i <= clockify_tasks.len(),
            cts == clockify_tasks@,
            mt == mappings.tasks@,
            cpid == clockify_project_id@,
            spid == solidtime_project_id@,
            names@.map_values(|s: String| s@) == set_insert_all(Seq::empty(), unmapped_ctask_names(cts.take(i as int), cpid, mt), text_order()),
        decreases clockify_tasks.len() - i,
    {
        assert(cts.take(i + 1).drop_last() =~= cts.take(i as int));
        assert(cts.take(i + 1).last() == cts[i as int]);
        let ghost q = unmapped_ctask_names(cts.take(i as int), cpid, mt);
        let t = &clockify_tasks[i];
        let in_project = match &t.project_id {
            Some(p) => text_eq(p.as_str(), clockify_project_id),
            None => false,
        };
        if in_project && !mappings.tasks.contains_key(t.id.as_str()) {
            proof { lemma_ctask_names_step(cts, cpid, mt, i as int); }
            assert(unmapped_ctask(cpid, mt)(cts[i as int]));
            assert(unmapped_ctask_names(cts.take(i + 1), cpid, mt) == q.push(t.name@));
            assert(q.push(t.name@).drop_last() =~= q);
            text_set_insert(&mut names, t.name.clone());
        } else {
            proof { lemma_ctask_names_step(cts, cpid, mt, i as int); }
        }
        i = i + 1;
    }
    assert(cts.take(clockify_tasks.len() as int) =~= cts);
    let ghost after_clockify = names@.map_values(|s: String| s@);
    let mut i: usize = 0;
    while i < solidtime_tasks.len()
        invariant
            i <= solidtime_tasks.len(),
            sts == solidtime_tasks@,
            mt == mappings.tasks@,
            cpid == clockify_project_id@,
            spid == solidtime_project_id@,
            names@.map_values(|s: String| s@) == set_insert_all(after_clockify, unmapped_stask_names(sts.take(i as int), spid, mt), text_order()),
        decreases solidtime_tasks.len() - i,
    {
        assert(sts.take(i + 1).drop_last() =~= sts.take(i as int));
        assert(sts.take(i + 1).last() == sts[i as int]);
        let ghost q = unmapped_stask_names(sts.take(i as int), spid, mt);
        let t = &solidtime_tasks[i];
        if text_eq(t.project_id.as_str(), solidtime_project_id) && !mappings.tasks.contains_value(t.id.as_str()) {
            proof { lemma_stask_names_step(sts, spid, mt, i as int); }
            assert(q.push(t.name@).drop_last() =~= q);
            text_set_insert(&mut names, t.name.clone());
        } else {
            proof { lemma_stask_names_step(sts, spid, mt, i as int); }
        }
        i = i + 1;
    }
    assert(sts.take(solidtime_tasks.len() as int) =~= sts);
    let ghost name_views = names@.map_values(|s: String| s@);
    assert(name_views == task_names(cts, cpid, sts, spid, mt));

    // One line per name.
    let mut rows: Vec<TaskComparison> = Vec::new();
    let mut k: usize = 0;
    while k < names.len()
        invariant
            k <= names.len(),
            name_views == names@.map_values(|s: String| s@),
            name_views == task_names(cts, cpid, sts, spid, mt),
            cts == clockify_tasks@,
            sts == solidtime_tasks@,
            mt == mappings.tasks@,
            cpid == clockify_project_id@,
            spid == solidtime_project_id@,
            task_rows(rows@) == name_task_rows(cts, cpid, sts, spid, mt).take(k as int),
        decreases names.len() - k,
    {
        let n = names[k].as_str();
        let c = count_unmapped_ctasks_named(clockify_tasks, clockify_project_id, &mappings.tasks, n);
        let s = count_unmapped_stasks_named(solidtime_tasks, solidtime_project_id, &mappings.tasks, n);
        let row = if c == 1 && s == 1 {
            TaskComparison { clockify_name: Some(names[k].clone()), solidtime_name: Some(names[k].clone()), status: TaskStatus::Both }
        } else if c == 1 && s == 0 {
            TaskComparison { clockify_name: Some(names[k].clone()), solidtime_name: None, status: TaskStatus::ClockifyOnly }
        } else if c == 0 && s == 1 {
            TaskComparison { clockify_name: None, solidtime_name: Some(names[k].clone()), status: TaskStatus::SolidtimeOnly }
        } else {
            TaskComparison {
                clockify_name: Some(names[k].clone()),
                solidtime_name: Some(names[k].clone()),
                status: TaskStatus::ManualReview(ambiguity_text("task", c, s)),
            }
        };
        assert(name_views[k as int] == names@[k as int]@);
        assert(name_task_rows(cts, cpid, sts, spid, mt)[k as int] == name_task_row(
            name_views[k as int],
            indices_where(cts, unmapped_ctask_named(cpid, mt, name_views[k as int])).len(),
            indices_where(sts, unmapped_stask_named(spid, mt, name_views[k as int])).len(),
        ));
        assert(row@ == name_task_rows(cts, cpid, sts, spid, mt)[k as int]);
        let ghost before = task_rows(rows@);
        rows.push(row);
        assert(task_rows(rows@) =~= before.push(name_task_rows(cts, cpid, sts, spid, mt)[k as int]));
        assert(name_task_rows(cts, cpid, sts, spid, mt).take(k + 1) =~= name_task_rows(cts, cpid, sts, spid, mt).take(k as int).push(name_task_rows(cts, cpid, sts, spid, mt)[k as int]));
        assert(task_rows(rows@) =~= name_task_rows(cts, cpid, sts, spid, mt).take(k + 1));
        k = k + 1;
    }
    assert(name_task_rows(cts, cpid, sts, spid, mt).take(names.len() as int) =~= name_task_rows(cts, cpid, sts, spid, mt));
    let ghost named = task_rows(rows@);

    // One line per mapping whose tasks belong to the two projects.
    let pairs = mappings.tasks.entries();
    let ghost pv = pairs@.map_values(|e: (String, String)| (e.0@, e.1@));
    let mut j: usize = 0;
    while j < pairs.len()
        invariant
            j <= pairs.len(),
            pv == pairs@.map_values(|e: (String, String)| (e.0@, e.1@)),
            pv == mt,
            cpid == clockify_project_id@,
            spid == solidtime_project_id@,
            cts == clockify_tasks@,
            sts == solidtime_tasks@,
            task_rows(rows@) == named + mapped_task_rows(pv.take(j as int), cts, cpid, sts, spid),
            rows.len() <= named.len() + j,
        decreases pairs.len() - j,
    {
        assert(pv.take(j + 1).drop_last() =~= pv.take(j as int));
        assert(pv.take(j + 1).last() == pv[j as int]);
        assert(pv[j as int] == (pairs@[j as int].0@, pairs@[j as int].1@));
        let c = last_ctask_with_id(clockify_tasks, clockify_project_id, pairs[j].0.as_str());
        let s = last_stask_with_id(solidtime_tasks, solidtime_project_id, pairs[j].1.as_str());
        proof {
            lemma_indices_where_valid(cts, ctask_with_id(cpid, pv[j as int].0));
            lemma_indices_where_valid(sts, stask_with_id(spid, pv[j as int].1));
        }
        let ghost before = task_rows(rows@);
        let ghost prev = mapped_task_rows(pv.take(j as int), cts, cpid, sts, spid);
        let ghost cix = indices_where(cts, ctask_with_id(cpid, pv[j as int].0));
        let ghost six = indices_where(sts, stask_with_id(spid, pv[j as int].1));
        match c {
            Some(ci) => match s {
                Some(si) => {
                    proof {
                        let cix = indices_where(cts, ctask_with_id(cpid, pv[j as int].0));
                        let six = indices_where(sts, stask_with_id(spid, pv[j as int].1));
                        assert(cix.len() > 0);
                        assert(ci == cix[cix.len() - 1]);
                        assert(six.len() > 0);
                        assert(si == six[six.len() - 1]);
                    }
                    let row = TaskComparison {
                        clockify_name: Some(clockify_tasks[ci].name.clone()),
                        solidtime_name: Some(solidtime_tasks[si].name.clone()),
                        status: TaskStatus::Both,
                    };
                    let ghost rv = TaskRow { clockify_name: Some(cts[cix.last()].name@), solidtime_name: Some(sts[six.last()].name@), status: RowStatus::Both };
                    assert(row@ == rv);
                    assert(mapped_task_rows(pv.take(j + 1), cts, cpid, sts, spid) == prev.push(rv));
                    rows.push(row);
                    assert(task_rows(rows@) =~= before.push(rv));
                    assert(named + prev.push(rv) =~= (named + prev).push(rv));
                },
                None => {
                    assert(mapped_task_rows(pv.take(j + 1), cts, cpid, sts, spid) == prev);
                },
            },
            None => {
                assert(mapped_task_rows(pv.take(j + 1), cts, cpid, sts, spid) == prev);
            },
        }
        assert(task_rows(rows@) =~= named + mapped_task_rows(pv.take(j + 1), cts, cpid, sts, spid));
        j = j + 1;
    }
    assert(pv.take(pairs.len() as int) =~= pv);
    proof {
        crate::ordered::lemma_set_insert_all_len(Seq::<Seq<char>>::empty(), unmapped_ctask_names(cts, cpid, mt), text_order());
        crate::ordered::lemma_set_insert_all_len(after_clockify, unmapped_stask_names(sts, spid, mt), text_order());
        lemma_unmapped_ctask_names_len(cts, cpid, mt);
        lemma_unmapped_stask_names_len(sts, spid, mt);
    }
    let r = sort_task_rows(rows);
    proof {
        lemma_stable_sort_len(task_rows(rows@), task_key());
    }
    r
}

proof fn lemma_ctask_names_step(ts: Seq<ClockifyTask>, pid: Seq<char>, mt: Seq<(Seq<char>, Seq<char>)>, i: int)
    requires
        0 <= i < ts.len(),
    ensures
        unmapped_ctask_names(ts.take(i + 1), pid, mt) == if unmapped_ctask(pid, mt)(ts[i]) {
            unmapped_ctask_names(ts.take(i), pid, mt).push(ts[i].name@)
        } else {
            unmapped_ctask_names(ts.take(i), pid, mt)
        },
{
    assert(ts.take(i + 1).drop_last() =~= ts.take(i));
    assert(ts.take(i + 1).last() == ts[i]);
}

proof fn lemma_stask_names_step(ts: Seq<SolidtimeTask>, pid: Seq<char>, mt: Seq<(Seq<char>, Seq<char>)>, i: int)
    requires
        0 <= i < ts.len(),
    ensures
        unmapped_stask_names(ts.take(i + 1), pid, mt) == if unmapped_stask(pid, mt)(ts[i]) {
            unmapped_stask_names(ts.take(i), pid, mt).push(ts[i].name@)
        } else {
            unmapped_stask_names(ts.take(i), pid, mt)
        },
{
    assert(ts.take(i + 1).drop_last() =~= ts.take(i));
    assert(ts.take(i + 1).last() == ts[i]);
}

proof fn lemma_unmapped_ctask_names_len(ts: Seq<ClockifyTask>, pid: Seq<char>, mt: Seq<(Seq<char>, Seq<char>)>)
    ensures
        unmapped_ctask_names(ts, pid, mt).len() <= ts.len(),
    decreases ts.len(),
{
    if ts.len() > 0 {
        lemma_unmapped_ctask_names_len(ts.drop_last(), pid, mt);
    }
}

proof fn lemma_unmapped_stask_names_len(ts: Seq<SolidtimeTask>, pid: Seq<char>, mt: Seq<(Seq<char>, Seq<char>)>)
    ensures
        unmapped_stask_names(ts, pid, mt).len() <= ts.len(),
    decreases ts.len(),
{
    if ts.len() > 0 {
        lemma_unmapped_stask_names_len(ts.drop_last(), pid, mt);
    }
}

proof fn lemma_sort_insert_len<R>(s: Seq<R>, x: R, key: spec_fn(R) -> Seq<char>)
    ensures
        sort_insert(s, x, key).len() == s.len() + 1,
    decreases s.len(),
{
    if s.len() > 0 && !text_lt(key(x), key(s[0])) {
        lemma_sort_insert_len(s.drop_first(), x, key);
    }
}

proof fn lemma_stable_sort_len<R>(s: Seq<R>, key: spec_fn(R) -> Seq<char>)
    ensures
        stable_sort(s, key).len() == s.len(),
    decreases s.len(),
{
    if s.len() > 0 {
        lemma_stable_sort_len(s.drop_last(), key);
        lemma_sort_insert_len(stable_sort(s.drop_last(), key), s.last(), key);
    }
}

// ---------------------------------------------------------------------------
// Projects

/// The name of the last Clockify client with id `id`.
pub open spec fn clockify_client_name(clients: Seq<ClockifyClient>, id: Seq<char>) -> Option<Seq<char>>
    decreases clients.len(),
{
    if clients.len() == 0 {
        None
    } else if clients.last().id@ == id {
        Some(clients.last().name@)
    } else {
        clockify_client_name(clients.drop_last(), id)
    }
}

/// The name of the last Solidtime client with id `id`.
pub open spec fn solidtime_client_name(clients: Seq<SolidtimeClient>, id: Seq<char>) -> Option<Seq<char>>
    decreases clients.len(),
{
    if clients.len() == 0 {
        None
    } else if clients.last().id@ == id {
        Some(clients.last().name@)
    } else {
        solidtime_client_name(clients.drop_last(), id)
    }
}

/// The client under which a Clockify project is listed: none without a
/// client, the client's name, or a placeholder naming an unknown client id.
pub open spec fn clockify_client_group(client_id: Option<Seq<char>>, clients: Seq<ClockifyClient>) -> Option<Seq<char>> {
    match client_id {
        None => None,
        Some(id) => Some(
            match clockify_client_name(clients, id) {
                Some(n) => n,
                None => "(Unknown Clockify client "@ + id + ")"@,
            },
        ),
    }
}

/// The client under which a Solidtime project is listed.
pub open spec fn solidtime_client_group(client_id: Option<Seq<char>>, clients: Seq<SolidtimeClient>) -> Option<Seq<char>> {
    match client_id {
        None => None,
        Some(id) => Some(
            match solidtime_client_name(clients, id) {
                Some(n) => n,
                None => "(Unknown Solidtime client "@ + id + ")"@,
            },
        ),
    }
}

/// The key by which projects are matched: client group, then project name.
pub type ProjectKeyView = (Option<Seq<char>>, Seq<char>);

/// The order of project keys: by client group, then by name.
pub open spec fn key_lt(a: ProjectKeyView, b: ProjectKeyView) -> bool {
    opt_text_lt(a.0, b.0) || (a.0 == b.0 && text_lt(a.1, b.1))
}

/// The order of project keys.
pub open spec fn key_order() -> spec_fn(ProjectKeyView, ProjectKeyView) -> bool {
    |a: ProjectKeyView, b: ProjectKeyView| key_lt(a, b)
}

/// The key of a Clockify project.
pub open spec fn cproject_key(p: ClockifyProject, clients: Seq<ClockifyClient>) -> ProjectKeyView {
    (clockify_client_group(opt_view(p.client_id), clients), p.name@)
}

/// The key of a Solidtime project.
pub open spec fn sproject_key(p: SolidtimeProject, clients: Seq<SolidtimeClient>) -> ProjectKeyView {
    (solidtime_client_group(opt_view(p.client_id), clients), p.name@)
}

/// A Clockify project that no project mapping names, with key `k`.
pub open spec fn cproject_keyed(mp: Seq<(Seq<char>, Seq<char>)>, clients: Seq<ClockifyClient>, k: ProjectKeyView) -> spec_fn(ClockifyProject) -> bool {
    |p: ClockifyProject| lookup(mp, p.id@) is None && cproject_key(p, clients) == k
}

/// A Solidtime project that no project mapping names, with key `k`.
pub open spec fn sproject_keyed(mp: Seq<(Seq<char>, Seq<char>)>, clients: Seq<SolidtimeClient>, k: ProjectKeyView) -> spec_fn(SolidtimeProject) -> bool {
    |p: SolidtimeProject| !has_value(mp, p.id@) && sproject_key(p, clients) == k
}

/// The keys of the Clockify projects that no mapping names, in order.
pub open spec fn unmapped_ckeys(ps: Seq<ClockifyProject>, clients: Seq<ClockifyClient>, mp: Seq<(Seq<char>, Seq<char>)>) -> Seq<ProjectKeyView>
    decreases ps.len(),
{
    if ps.len() == 0 {
        Seq::empty()
    } else {
        let r = unmapped_ckeys(ps.drop_last(), clients, mp);
        if lookup(mp, ps.last().id@) is None { r.push(cproject_key(ps.last(), clients)) } else { r }
    }
}

/// The keys of the Solidtime projects that no mapping names, in order.
pub open spec fn unmapped_skeys(ps: Seq<SolidtimeProject>, clients: Seq<SolidtimeClient>, mp: Seq<(Seq<char>, Seq<char>)>) -> Seq<ProjectKeyView>
    decreases ps.len(),
{
    if ps.len() == 0 {
        Seq::empty()
    } else {
        let r = unmapped_skeys(ps.drop_last(), clients, mp);
        if !has_value(mp, ps.last().id@) { r.push(sproject_key(ps.last(), clients)) } else { r }
    }
}

/// The distinct keys of the unmapped projects of both systems, in key order.
pub open spec fn project_keys(
    cclients: Seq<ClockifyClient>,
    cps: Seq<ClockifyProject>,
    sclients: Seq<SolidtimeClient>,
    sps: Seq<SolidtimeProject>,
    mp: Seq<(Seq<char>, Seq<char>)>,
) -> Seq<ProjectKeyView> {
    set_insert_all(
        set_insert_all(Seq::empty(), unmapped_ckeys(cps, cclients, mp), key_order()),
        unmapped_skeys(sps, sclients, mp),
        key_order(),
    )
}

/// Task lines for the tasks of a Clockify project that has no counterpart.
pub open spec fn clockify_only_tasks(ts: Seq<ClockifyTask>, pid: Seq<char>) -> Seq<TaskRow>
    decreases ts.len(),
{
    if ts.len() == 0 {
        Seq::empty()
    } else {
        let r = clockify_only_tasks(ts.drop_last(), pid);
        if opt_view(ts.last().project_id) == Some(pid) {
            r.push(TaskRow { clockify_name: Some(ts.last().name@), solidtime_name: None, status: RowStatus::ClockifyOnly })
        } else {
            r
        }
    }
}

/// Task lines for the tasks of a Solidtime project that has no counterpart.
pub open spec fn solidtime_only_tasks(ts: Seq<SolidtimeTask>, pid: Seq<char>) -> Seq<TaskRow>
    decreases ts.len(),
{
    if ts.len() == 0 {
        Seq::empty()
    } else {
        let r = solidtime_only_tasks(ts.drop_last(), pid);
        if ts.last().project_id@ == pid {
            r.push(TaskRow { clockify_name: None, solidtime_name: Some(ts.last().name@), status: RowStatus::SolidtimeOnly })
        } else {
            r
        }
    }
}

/// The inputs of a comparison, as views.
pub struct CompareInput {
    pub cclients: Seq<ClockifyClient>,
    pub cps: Seq<ClockifyProject>,
    pub cts: Seq<ClockifyTask>,
    pub sclients: Seq<SolidtimeClient>,
    pub sps: Seq<SolidtimeProject>,
    pub sts: Seq<SolidtimeTask>,
    pub mp: Seq<(Seq<char>, Seq<char>)>,
    pub mt: Seq<(Seq<char>, Seq<char>)>,
}

/// The line of a project key: matched when exactly one unmapped project on
/// each side has the key, one-sided when one side has exactly one and the
/// other none, flagged for review otherwise.
pub open spec fn name_project_row(inp: CompareInput, k: ProjectKeyView) -> ProjectRow {
    let ci = indices_where(inp.cps, cproject_keyed(inp.mp, inp.cclients, k));
    let si = indices_where(inp.sps, sproject_keyed(inp.mp, inp.sclients, k));
    if ci.len() == 1 && si.len() == 1 {
        let c = inp.cps[ci[0]];
        let s = inp.sps[si[0]];
        ProjectRow {
            clockify_name: Some(k.1),
            solidtime_name: Some(k.1),
            status: RowStatus::Both,
            clockify_archived: Some(c.archived),
            solidtime_archived: Some(s.is_archived),
            tasks: compared_tasks(inp.cts, c.id@, inp.sts, s.id@, inp.mt),
        }
    } else if ci.len() == 1 && si.len() == 0 {
        let c = inp.cps[ci[0]];
        ProjectRow {
            clockify_name: Some(k.1),
            solidtime_name: None,
            status: RowStatus::ClockifyOnly,
            clockify_archived: Some(c.archived),
            solidtime_archived: None,
            tasks: clockify_only_tasks(inp.cts, c.id@),
        }
    } else if ci.len() == 0 && si.len() == 1 {
        let s = inp.sps[si[0]];
        ProjectRow {
            clockify_name: None,
            solidtime_name: Some(k.1),
            status: RowStatus::SolidtimeOnly,
            clockify_archived: None,
            solidtime_archived: Some(s.is_archived),
            tasks: solidtime_only_tasks(inp.sts, s.id@),
        }
    } else {
        ProjectRow {
            clockify_name: Some(k.1),
            solidtime_name: Some(k.1),
            status: RowStatus::ManualReview(ambiguity_reason("project"@, ci.len(), si.len())),
            clockify_archived: None,
            solidtime_archived: None,
            tasks: Seq::empty(),
        }
    }
}

/// A Clockify project with id `id`.
pub open spec fn cproject_with_id(id: Seq<char>) -> spec_fn(ClockifyProject) -> bool {
    |p: ClockifyProject| p.id@ == id
}

/// A Solidtime project with id `id`.
pub open spec fn sproject_with_id(id: Seq<char>) -> spec_fn(SolidtimeProject) -> bool {
    |p: SolidtimeProject| p.id@ == id
}

/// The grouped line of a project mapping: both projects, taken at the last
/// occurrence of their ids, under the client of the Clockify project.
pub open spec fn mapped_project_row(inp: CompareInput, pair: (Seq<char>, Seq<char>)) -> (Option<Seq<char>>, ProjectRow) {
    let c = inp.cps[indices_where(inp.cps, cproject_with_id(pair.0)).last()];
    let s = inp.sps[indices_where(inp.sps, sproject_with_id(pair.1)).last()];
    (
        clockify_client_group(opt_view(c.client_id), inp.cclients),
        ProjectRow {
            clockify_name: Some(c.name@),
            solidtime_name: Some(s.name@),
            status: RowStatus::Both,
            clockify_archived: Some(c.archived),
            solidtime_archived: Some(s.is_archived),
            tasks: compared_tasks(inp.cts, c.id@, inp.sts, s.id@, inp.mt),
        },
    )
}

/// Every line of the comparison with its client group: one per project key,
/// then one per project mapping.
pub open spec fn flat_rows(inp: CompareInput) -> Seq<(Option<Seq<char>>, ProjectRow)> {
    project_keys(inp.cclients, inp.cps, inp.sclients, inp.sps, inp.mp).map_values(
        |k: ProjectKeyView| (k.0, name_project_row(inp, k)),
    ) + inp.mp.map_values(|pair: (Seq<char>, Seq<char>)| mapped_project_row(inp, pair))
}

/// The lines grouped by client, groups in client order (no client first),
/// lines of a group in order of their sort name.
pub open spec fn comparison_groups(inp: CompareInput) -> Seq<(Option<Seq<char>>, Seq<ProjectRow>)> {
    group_all(Seq::empty(), flat_rows(inp), opt_text_order()).map_values(
        |g: (Option<Seq<char>>, Seq<ProjectRow>)| (g.0, stable_sort(g.1, project_key())),
    )
}

/// Whether a status is the one counted under `which`: 0 both, 1 Clockify
/// only, 2 Solidtime only, 3 manual review.
pub open spec fn status_is(s: RowStatus, which: int) -> bool {
    match s {
        RowStatus::Both => which == 0,
        RowStatus::ClockifyOnly => which == 1,
        RowStatus::SolidtimeOnly => which == 2,
        RowStatus::ManualReview(_) => which == 3,
    }
}

/// The number of task lines with a status.
pub open spec fn count_task_lines(ts: Seq<TaskRow>, which: int) -> nat
    decreases ts.len(),
{
    if ts.len() == 0 {
        0
    } else {
        count_task_lines(ts.drop_last(), which) + if status_is(ts.last().status, which) { 1nat } else { 0nat }
    }
}

/// The number of project lines with a status.
pub open spec fn count_project_lines(rows: Seq<ProjectRow>, which: int) -> nat
    decreases rows.len(),
{
    if rows.len() == 0 {
        0
    } else {
        count_project_lines(rows.drop_last(), which) + if status_is(rows.last().status, which) { 1nat } else { 0nat }
    }
}

/// The number of task lines with a status, over all project lines.
pub open spec fn count_all_task_lines(rows: Seq<ProjectRow>, which: int) -> nat
    decreases rows.len(),
{
    if rows.len() == 0 {
        0
    } else {
        count_all_task_lines(rows.drop_last(), which) + count_task_lines(rows.last().tasks, which)
    }
}

/// A count as a `usize` counter holds it: stopped at `usize::MAX`.
pub open spec fn capped(n: nat) -> nat {
    if n <= usize::MAX { n } else { usize::MAX as nat }
}

/// The project lines of the comparison, without their groups.
pub open spec fn lines_of(flat: Seq<(Option<Seq<char>>, ProjectRow)>) -> Seq<ProjectRow> {
    flat.map_values(|x: (Option<Seq<char>>, ProjectRow)| x.1)
}

/// Counts of project and task lines by status.
#[derive(Debug)]
pub struct Summary {
    pub projects_matched: usize,
    pub projects_clockify_only: usize,
    pub projects_solidtime_only: usize,
    pub projects_manual_review: usize,
    pub tasks_matched: usize,
    pub tasks_clockify_only: usize,
    pub tasks_solidtime_only: usize,
    pub tasks_manual_review: usize,
}

impl Summary {
    /// The summary counts the lines of `rows` by status; a task count stops
    /// at `usize::MAX`, which the task lines held in memory never reach.
    pub open spec fn counts(&self, rows: Seq<ProjectRow>) -> bool {
        &&& self.projects_matched == count_project_lines(rows, 0)
        &&& self.projects_clockify_only == count_project_lines(rows, 1)
        &&& self.projects_solidtime_only == count_project_lines(rows, 2)
        &&& self.projects_manual_review == count_project_lines(rows, 3)
        &&& self.tasks_matched == capped(count_all_task_lines(rows, 0))
        &&& self.tasks_clockify_only == capped(count_all_task_lines(rows, 1))
        &&& self.tasks_solidtime_only == capped(count_all_task_lines(rows, 2))
        &&& self.tasks_manual_review == capped(count_all_task_lines(rows, 3))
    }
}

/// The comparison: project lines grouped by client, and the summary counts.
#[derive(Debug)]
pub struct Comparison {
    pub groups: Vec<(Option<String>, Vec<ProjectComparison>)>,
    pub summary: Summary,
}

/// The views of grouped project lines.
pub open spec fn group_rows(v: Seq<(Option<String>, Vec<ProjectComparison>)>) -> Seq<(Option<Seq<char>>, Seq<ProjectRow>)> {
    v.map_values(|g: (Option<String>, Vec<ProjectComparison>)| (opt_view(g.0), project_rows(g.1@)))
}

impl Comparison {
    /// The project lines of the client group `client`, if there is one.
    pub fn group(&self, client: Option<&str>) -> (r: Option<&Vec<ProjectComparison>>)
        ensures
            match r {
                Some(rows) => exists|i: int|
                    0 <= i < self.groups@.len() && opt_view(#[trigger] self.groups@[i].0) == crate::text::opt_str_view(client)
                        && self.groups@[i].1 == *rows,
                None => forall|i: int| 0 <= i < self.groups@.len() ==> opt_view(#[trigger] self.groups@[i].0) != crate::text::opt_str_view(client),
            },
    {
        let mut i: usize = 0;
        while i < self.groups.len()
            invariant
                i <= self.groups.len(),
                forall|j: int| 0 <= j < i ==> opt_view(#[trigger] self.groups@[j].0) != crate::text::opt_str_view(client),
            decreases self.groups.len() - i,
        {
            if crate::text::opt_str_eq(opt_string_as_str(&self.groups[i].0), client) {
                return Some(&self.groups[i].1);
            }
            i = i + 1;
        }
        None
    }
}

/// The view of an exec project key.
pub open spec fn key_view(k: (Option<String>, String)) -> ProjectKeyView {
    (opt_view(k.0), k.1@)
}

/// The views of exec project keys.
pub open spec fn key_views(v: Seq<(Option<String>, String)>) -> Seq<ProjectKeyView> {
    v.map_values(|k: (Option<String>, String)| key_view(k))
}

/// The views of grouped exec lines.
pub open spec fn flat_views(v: Seq<(Option<String>, ProjectComparison)>) -> Seq<(Option<Seq<char>>, ProjectRow)> {
    v.map_values(|x: (Option<String>, ProjectComparison)| (opt_view(x.0), x.1@))
}

/// The client group of a Clockify project's client id.
pub fn clockify_client_key(client_id: Option<&str>, clients: &[ClockifyClient]) -> (r: Option<String>)
    ensures
        opt_view(r) == clockify_client_group(crate::text::opt_str_view(client_id), clients@),
{
    match client_id {
        None => None,
        Some(id) => {
            let mut found: Option<usize> = None;
            let mut i: usize = 0;
            while i < clients.len()
                invariant
                    i <= clients.len(),
                    match found {
                        Some(j) => j < i && clockify_client_name(clients@.take(i as int), id@) == Some(clients@[j as int].name@),
                        None => clockify_client_name(clients@.take(i as int), id@) is None,
                    },
                decreases clients.len() - i,
            {
                assert(clients@.take(i + 1).drop_last() =~= clients@.take(i as int));
                if text_eq(clients[i].id.as_str(), id) {
                    found = Some(i);
                }
                i = i + 1;
            }
            assert(clients@.take(clients.len() as int) =~= clients@);
            match found {
                Some(j) => Some(clients[j].name.clone()),
                None => {
                    let mut r = String::new();
                    r.append("(Unknown Clockify client ");
                    r.append(id);
                    r.append(")");
                    Some(r)
                },
            }
        },
    }
}

/// The client group of a Solidtime project's client id.
pub fn solidtime_client_key(client_id: Option<&str>, clients: &[SolidtimeClient]) -> (r: Option<String>)
    ensures
        opt_view(r) == solidtime_client_group(crate::text::opt_str_view(client_id), clients@),
{
    match client_id {
        None => None,
        Some(id) => {
            let mut found: Option<usize> = None;
            let mut i: usize = 0;
            while i < clients.len()
                invariant
                    i <= clients.len(),
                    match found {
                        Some(j) => j < i && solidtime_client_name(clients@.take(i as int), id@) == Some(clients@[j as int].name@),
                        None => solidtime_client_name(clients@.take(i as int), id@) is None,
                    },
                decreases clients.len() - i,
            {
                assert(clients@.take(i + 1).drop_last() =~= clients@.take(i as int));
                if text_eq(clients[i].id.as_str(), id) {
                    found = Some(i);
                }
                i = i + 1;
            }
            assert(clients@.take(clients.len() as int) =~= clients@);
            match found {
                Some(j) => Some(clients[j].name.clone()),
                None => {
                    let mut r = String::new();
                    r.append("(Unknown Solidtime client ");
                    r.append(id);
                    r.append(")");
                    Some(r)
                },
            }
        },
    }
}

fn key_less(a: &(Option<String>, String), b: &(Option<String>, String)) -> (r: bool)
    ensures
        r == key_lt(key_view(*a), key_view(*b)),
{
    crate::text::opt_text_less(&a.0, &b.0) || (crate::text::opt_text_eq(&a.0, &b.0) && text_less(a.1.as_str(), b.1.as_str()))
}

fn key_set_insert(v: &mut Vec<(Option<String>, String)>, k: (Option<String>, String))
    ensures
        key_views(final(v)@) == set_insert(key_views(old(v)@), key_view(k), key_order()),
{
    let ghost before = key_views(v@);
    let mut p: usize = 0;
    while p < v.len() && key_less(&v[p], &k)
        invariant
            p <= v.len(),
            before == key_views(v@),
            forall|j: int| 0 <= j < p ==> key_lt(#[trigger] before[j], key_view(k)),
        decreases v.len() - p,
    {
        p = p + 1;
    }
    proof {
        lemma_set_insert_at(before, key_view(k), key_order(), p as int);
    }
    if p < v.len() && crate::text::opt_text_eq(&v[p].0, &k.0) && v[p].1.eq(&k.1) {
        return;
    }
    v.insert(p, k);
    assert(key_views(v@) =~= before.take(p as int).push(key_view(k)) + before.skip(p as int));
}

fn project_client_id(p: &ClockifyProject) -> (r: Option<&str>)
    ensures
        crate::text::opt_str_view(r) == opt_view(p.client_id),
{
    opt_string_as_str(&p.client_id)
}

fn cprojects_keyed(ps: &[ClockifyProject], clients: &[ClockifyClient], mp: &StringMap, k: &(Option<String>, String)) -> (v: Vec<usize>)
    ensures
        positions(v@) == indices_where(ps@, cproject_keyed(mp@, clients@, key_view(*k))),
        v.len() <= ps.len(),
{
    let ghost pred = cproject_keyed(mp@, clients@, key_view(*k));
    let mut v: Vec<usize> = Vec::new();
    let mut i: usize = 0;
    while i < ps.len()
        invariant
            i <= ps.len(),
            v.len() <= i,
            pred == cproject_keyed(mp@, clients@, key_view(*k)),
            positions(v@) == indices_where(ps@.take(i as int), pred),
        decreases ps.len() - i,
    {
        proof {
            lemma_indices_where_step(ps@, pred, i as int);
        }
        let p = &ps[i];
        if !mp.contains_key(p.id.as_str()) {
            let ck = clockify_client_key(project_client_id(p), clients);
            if crate::text::opt_text_eq(&ck, &k.0) && text_eq(p.name.as_str(), k.1.as_str()) {
                v.push(i);
            }
        }
        assert(positions(v@) =~= indices_where(ps@.take(i + 1), pred));
        i = i + 1;
    }
    assert(ps@.take(ps.len() as int) =~= ps@);
    v
}

fn sprojects_keyed(ps: &[SolidtimeProject], clients: &[SolidtimeClient], mp: &StringMap, k: &(Option<String>, String)) -> (v: Vec<usize>)
    ensures
        positions(v@) == indices_where(ps@, sproject_keyed(mp@, clients@, key_view(*k))),
        v.len() <= ps.len(),
{
    let ghost pred = sproject_keyed(mp@, clients@, key_view(*k));
    let mut v: Vec<usize> = Vec::new();
    let mut i: usize = 0;
    while i < ps.len()
        invariant
            i <= ps.len(),
            v.len() <= i,
            pred == sproject_keyed(mp@, clients@, key_view(*k)),
            positions(v@) == indices_where(ps@.take(i as int), pred),
        decreases ps.len() - i,
    {
        proof {
            lemma_indices_where_step(ps@, pred, i as int);
        }
        let p = &ps[i];
        if !mp.contains_value(p.id.as_str()) {
            let sk = solidtime_client_key(opt_string_as_str(&p.client_id), clients);
            if crate::text::opt_text_eq(&sk, &k.0) && text_eq(p.name.as_str(), k.1.as_str()) {
                v.push(i);
            }
        }
        assert(positions(v@) =~= indices_where(ps@.take(i + 1), pred));
        i = i + 1;
    }
    assert(ps@.take(ps.len() as int) =~= ps@);
    v
}

fn clockify_only_task_rows(ts: &[ClockifyTask], pid: &str) -> (r: Vec<TaskComparison>)
    ensures
        task_rows(r@) == clockify_only_tasks(ts@, pid@),
        r.len() <= ts.len(),
{
    let mut r: Vec<TaskComparison> = Vec::new();
    let mut i: usize = 0;
    while i < ts.len()
        invariant
            i <= ts.len(),
            r.len() <= i,
            task_rows(r@) == clockify_only_tasks(ts@.take(i as int), pid@),
        decreases ts.len() - i,
    {
        assert(ts@.take(i + 1).drop_last() =~= ts@.take(i as int));
        assert(ts@.take(i + 1).last() == ts@[i as int]);
        let in_project = match &ts[i].project_id {
            Some(p) => text_eq(p.as_str(), pid),
            None => false,
        };
        let ghost before = task_rows(r@);
        if in_project {
            r.push(TaskComparison { clockify_name: Some(ts[i].name.clone()), solidtime_name: None, status: TaskStatus::ClockifyOnly });
            assert(task_rows(r@) =~= before.push(TaskRow { clockify_name: Some(ts@[i as int].name@), solidtime_name: None, status: RowStatus::ClockifyOnly }));
        }
        i = i + 1;
    }
    assert(ts@.take(ts.len() as int) =~= ts@);
    r
}

fn solidtime_only_task_rows(ts: &[SolidtimeTask], pid: &str) -> (r: Vec<TaskComparison>)
    ensures
        task_rows(r@) == solidtime_only_tasks(ts@, pid@),
        r.len() <= ts.len(),
{
    let mut r: Vec<TaskComparison> = Vec::new();
    let mut i: usize = 0;
    while i < ts.len()
        invariant
            i <= ts.len(),
            r.len() <= i,
            task_rows(r@) == solidtime_only_tasks(ts@.take(i as int), pid@),
        decreases ts.len() - i,
    {
        assert(ts@.take(i + 1).drop_last() =~= ts@.take(i as int));
        assert(ts@.take(i + 1).last() == ts@[i as int]);
        let ghost before = task_rows(r@);
        if text_eq(ts[i].project_id.as_str(), pid) {
            r.push(TaskComparison { clockify_name: None, solidtime_name: Some(ts[i].name.clone()), status: TaskStatus::SolidtimeOnly });
            assert(task_rows(r@) =~= before.push(TaskRow { clockify_name: None, solidtime_name: Some(ts@[i as int].name@), status: RowStatus::SolidtimeOnly }));
        }
        i = i + 1;
    }
    assert(ts@.take(ts.len() as int) =~= ts@);
    r
}

/// The inputs of a comparison, as views.
pub open spec fn input_of(
    clockify_clients: Seq<ClockifyClient>,
    clockify_projects: Seq<ClockifyProject>,
    clockify_tasks: Seq<ClockifyTask>,
    solidtime_clients: Seq<SolidtimeClient>,
    solidtime_projects: Seq<SolidtimeProject>,
    solidtime_tasks: Seq<SolidtimeTask>,
    mappings: CompareMappings,
) -> CompareInput {
    CompareInput {
        cclients: clockify_clients,
        cps: clockify_projects,
        cts: clockify_tasks,
        sclients: solidtime_clients,
        sps: solidtime_projects,
        sts: solidtime_tasks,
        mp: mappings.projects@,
        mt: mappings.tasks@,
    }
}

fn name_row(
    clockify_clients: &[ClockifyClient],
    clockify_projects: &[ClockifyProject],
    clockify_tasks: &[ClockifyTask],
    solidtime_clients: &[SolidtimeClient],
    solidtime_projects: &[SolidtimeProject],
    solidtime_tasks: &[SolidtimeTask],
    mappings: &CompareMappings,
    k: &(Option<String>, String),
) -> (r: ProjectComparison)
    ensures
        r@ == name_project_row(
            input_of(clockify_clients@, clockify_projects@, clockify_tasks@, solidtime_clients@, solidtime_projects@, solidtime_tasks@, *mappings),
            key_view(*k),
        ),
        r.tasks.len() <= clockify_tasks.len() + solidtime_tasks.len() + mappings.tasks@.len(),
{
    let ghost inp = input_of(clockify_clients@, clockify_projects@, clockify_tasks@, solidtime_clients@, solidtime_projects@, solidtime_tasks@, *mappings);
    let ci = cprojects_keyed(clockify_projects, clockify_clients, &mappings.projects, k);
    let si = sprojects_keyed(solidtime_projects, solidtime_clients, &mappings.projects, k);
    proof {
        lemma_indices_where_valid(clockify_projects@, cproject_keyed(mappings.projects@, clockify_clients@, key_view(*k)));
        lemma_indices_where_valid(solidtime_projects@, sproject_keyed(mappings.projects@, solidtime_clients@, key_view(*k)));
    }
    if ci.len() == 1 && si.len() == 1 {
        let c = &clockify_projects[ci[0]];
        let s = &solidtime_projects[si[0]];
        let tasks = compare_tasks(clockify_tasks, c.id.as_str(), solidtime_tasks, s.id.as_str(), mappings);
        ProjectComparison {
            clockify_name: Some(k.1.clone()),
            solidtime_name: Some(k.1.clone()),
            status: ProjectStatus::Both,
            clockify_archived: Some(c.archived),
            solidtime_archived: Some(s.is_archived),
            tasks,
        }
    } else if ci.len() == 1 && si.len() == 0 {
        let c = &clockify_projects[ci[0]];
        let tasks = clockify_only_task_rows(clockify_tasks, c.id.as_str());
        ProjectComparison {
            clockify_name: Some(k.1.clone()),
            solidtime_name: None,
            status: ProjectStatus::ClockifyOnly,
            clockify_archived: Some(c.archived),
            solidtime_archived: None,
            tasks,
        }
    } else if ci.len() == 0 && si.len() == 1 {
        let s = &solidtime_projects[si[0]];
        let tasks = solidtime_only_task_rows(solidtime_tasks, s.id.as_str());
        ProjectComparison {
            clockify_name: None,
            solidtime_name: Some(k.1.clone()),
            status: ProjectStatus::SolidtimeOnly,
            clockify_archived: None,
            solidtime_archived: Some(s.is_archived),
            tasks,
        }
    } else {
        let r = ProjectComparison {
            clockify_name: Some(k.1.clone()),
            solidtime_name: Some(k.1.clone()),
            status: ProjectStatus::ManualReview(ambiguity_text("project", ci.len(), si.len())),
            clockify_archived: None,
            solidtime_archived: None,
            tasks: Vec::new(),
        };
        assert(task_rows(r.tasks@) =~= Seq::<TaskRow>::empty());
        r
    }
}

fn last_cproject_with_id(ps: &[ClockifyProject], id: &str) -> (r: Option<usize>)
    ensures
        ({
            let ix = indices_where(ps@, cproject_with_id(id@));
            match r {
                Some(i) => ix.len() > 0 && i == ix.last(),
                None => ix.len() == 0,
            }
        }),
{
    let ghost pred = cproject_with_id(id@);
    let mut r: Option<usize> = None;
    let mut i: usize = 0;
    while i < ps.len()
        invariant
            i <= ps.len(),
            pred == cproject_with_id(id@),
            ({
                let ix = indices_where(ps@.take(i as int), pred);
                match r {
                    Some(k) => ix.len() > 0 && k == ix.last(),
                    None => ix.len() == 0,
                }
            }),
        decreases ps.len() - i,
    {
        proof {
            lemma_indices_where_step(ps@, pred, i as int);
        }
        if text_eq(ps[i].id.as_str(), id) {
            r = Some(i);
        }
        i = i + 1;
    }
    assert(ps@.take(ps.len() as int) =~= ps@);
    r
}

fn last_sproject_with_id(ps: &[SolidtimeProject], id: &str) -> (r: Option<usize>)
    ensures
        ({
            let ix = indices_where(ps@, sproject_with_id(id@));
            match r {
                Some(i) => ix.len() > 0 && i == ix.last(),
                None => ix.len() == 0,
            }
        }),
{
    let ghost pred = sproject_with_id(id@);
    let mut r: Option<usize> = None;
    let mut i: usize = 0;
    while i < ps.len()
        invariant
            i <= ps.len(),
            pred == sproject_with_id(id@),
            ({
                let ix = indices_where(ps@.take(i as int), pred);
                match r {
                    Some(k) => ix.len() > 0 && k == ix.last(),
                    None => ix.len() == 0,
                }
            }),
        decreases ps.len() - i,
    {
        proof {
            lemma_indices_where_step(ps@, pred, i as int);
        }
        if text_eq(ps[i].id.as_str(), id) {
            r = Some(i);
        }
        i = i + 1;
    }
    assert(ps@.take(ps.len() as int) =~= ps@);
    r
}

fn mapped_row(
    clockify_clients: &[ClockifyClient],
    clockify_projects: &[ClockifyProject],
    clockify_tasks: &[ClockifyTask],
    solidtime_projects: &[SolidtimeProject],
    solidtime_tasks: &[SolidtimeTask],
    mappings: &CompareMappings,
    clockify_id: &str,
    solidtime_id: &str,
) -> (r: (Option<String>, ProjectComparison))
    requires
        indices_where(clockify_projects@, cproject_with_id(clockify_id@)).len() > 0,
        indices_where(solidtime_projects@, sproject_with_id(solidtime_id@)).len() > 0,
    ensures
        (opt_view(r.0), r.1@) == mapped_project_row(
            CompareInput {
                cclients: clockify_clients@,
                cps: clockify_projects@,
                cts: clockify_tasks@,
                sclients: Seq::empty(),
                sps: solidtime_projects@,
                sts: solidtime_tasks@,
                mp: mappings.projects@,
                mt: mappings.tasks@,
            },
            (clockify_id@, solidtime_id@),
        ),
        r.1.tasks.len() <= clockify_tasks.len() + solidtime_tasks.len() + mappings.tasks@.len(),
{
    let ci = last_cproject_with_id(clockify_projects, clockify_id);
    let si = last_sproject_with_id(solidtime_projects, solidtime_id);
    proof {
        lemma_indices_where_valid(clockify_projects@, cproject_with_id(clockify_id@));
        lemma_indices_where_valid(solidtime_projects@, sproject_with_id(solidtime_id@));
    }
    let ci = match ci {
        Some(i) => i,
        None => 0,
    };
    let si = match si {
        Some(i) => i,
        None => 0,
    };
    proof {
        let cix = indices_where(clockify_projects@, cproject_with_id(clockify_id@));
        let six = indices_where(solidtime_projects@, sproject_with_id(solidtime_id@));
        assert(cix[cix.len() - 1] < clockify_projects@.len());
        assert(six[six.len() - 1] < solidtime_projects@.len());
    }
    let c = &clockify_projects[ci];
    let s = &solidtime_projects[si];
    let group = clockify_client_key(project_client_id(c), clockify_clients);
    let tasks = compare_tasks(clockify_tasks, c.id.as_str(), solidtime_tasks, s.id.as_str(), mappings);
    (
        group,
        ProjectComparison {
            clockify_name: Some(c.name.clone()),
            solidtime_name: Some(s.name.clone()),
            status: ProjectStatus::Both,
            clockify_archived: Some(c.archived),
            solidtime_archived: Some(s.is_archived),
            tasks,
        },
    )
}

fn group_insert_row(groups: &mut Vec<(Option<String>, Vec<ProjectComparison>)>, g: Option<String>, row: ProjectComparison)
    ensures
        group_rows(final(groups)@) == group_insert(group_rows(old(groups)@), opt_view(g), row@, opt_text_order()),
{
    let ghost before = group_rows(groups@);
    let mut p: usize = 0;
    while p < groups.len() && crate::text::opt_text_less(&groups[p].0, &g)
        invariant
            p <= groups.len(),
            before == group_rows(groups@),
            forall|j: int| 0 <= j < p ==> opt_text_lt(#[trigger] before[j].0, opt_view(g)),
        decreases groups.len() - p,
    {
        p = p + 1;
    }
    proof {
        lemma_group_insert_at(before, opt_view(g), row@, opt_text_order(), p as int);
    }
    if p < groups.len() && crate::text::opt_text_eq(&groups[p].0, &g) {
        let ghost g0 = groups@;
        let (key, mut rows) = groups.remove(p);
        let ghost old_rows = project_rows(rows@);
        assert(old_rows == before[p as int].1);
        rows.push(row);
        assert(project_rows(rows@) =~= old_rows.push(row@));
        let ghost entry = (key, rows);
        groups.insert(p, (key, rows));
        proof {
            assert(groups@ =~= g0.update(p as int, entry));
            assert(group_rows(g0.update(p as int, entry)) =~= group_rows(g0).update(p as int, (opt_view(entry.0), project_rows(entry.1@))));
        }
    } else {
        let mut rows: Vec<ProjectComparison> = Vec::new();
        rows.push(row);
        assert(project_rows(rows@) =~= seq![row@]);
        groups.insert(p, (g, rows));
        assert(group_rows(groups@) =~= before.take(p as int).push((opt_view(g), seq![row@])) + before.skip(p as int));
    }
}

fn sort_project_rows(rows: Vec<ProjectComparison>) -> (r: Vec<ProjectComparison>)
    ensures
        project_rows(r@) == stable_sort(project_rows(rows@), project_key()),
{
    let ghost all = project_rows(rows@);
    let mut rest = rows;
    let mut r: Vec<ProjectComparison> = Vec::new();
    let mut i: usize = 0;
    let n = rest.len();
    assert(project_rows(rest@) =~= all.skip(0));
    assert(project_rows(r@) =~= stable_sort(all.take(0), project_key()));
    while rest.len() > 0
        invariant
            all.len() == i + rest.len(),
            all.len() == n,
            project_rows(rest@) == all.skip(i as int),
            project_rows(r@) == stable_sort(all.take(i as int), project_key()),
        decreases rest.len(),
    {
        let ghost old_rest = rest@;
        assert(project_rows(old_rest)[0] == old_rest[0]@);
        assert(all.skip(i as int)[0] == all[i as int]);
        let x = rest.remove(0);
        assert(x@ == all[i as int]);
        let ghost rs = project_rows(r@);
        let key = comparison_sort_name(opt_string_as_str(&x.clockify_name), opt_string_as_str(&x.solidtime_name));
        let mut p: usize = 0;
        while p < r.len()
            && !text_less(
                key,
                comparison_sort_name(opt_string_as_str(&r[p].clockify_name), opt_string_as_str(&r[p].solidtime_name)),
            )
            invariant
                p <= r.len(),
                rs == project_rows(r@),
                key@ == project_key()(x@),
                forall|j: int| 0 <= j < p ==> !text_lt(project_key()(x@), project_key()(#[trigger] rs[j])),
            decreases r.len() - p,
        {
            p = p + 1;
        }
        proof {
            lemma_sort_insert_at(rs, x@, project_key(), p as int);
        }
        r.insert(p, x);
        assert(project_rows(r@) =~= rs.take(p as int).push(all[i as int]) + rs.skip(p as int));
        assert(all.take(i + 1).drop_last() =~= all.take(i as int));
        assert forall|q: int| 0 <= q < rest@.len() implies #[trigger] project_rows(rest@)[q] == all.skip(i + 1)[q] by {
            assert(rest@[q] == old_rest[q + 1]);
            assert(project_rows(old_rest)[q + 1] == old_rest[q + 1]@);
            assert(all.skip(i as int)[q + 1] == all.skip(i + 1)[q]);
        }
        assert(project_rows(rest@) =~= all.skip(i + 1));
        i = i + 1;
    }
    assert(all.take(i as int) =~= all);
    r
}

proof fn lemma_count_step(lines: Seq<ProjectRow>, i: int, which: int)
    requires
        0 <= i < lines.len(),
    ensures
        count_project_lines(lines.take(i + 1), which) == count_project_lines(lines.take(i), which)
            + if status_is(lines[i].status, which) { 1nat } else { 0nat },
        count_all_task_lines(lines.take(i + 1), which) == count_all_task_lines(lines.take(i), which)
            + count_task_lines(lines[i].tasks, which),
{
    assert(lines.take(i + 1).drop_last() =~= lines.take(i));
    assert(lines.take(i + 1).last() == lines[i]);
}

proof fn lemma_task_count_step(ts: Seq<TaskRow>, j: int, which: int)
    requires
        0 <= j < ts.len(),
    ensures
        count_task_lines(ts.take(j + 1), which) == count_task_lines(ts.take(j), which)
            + if status_is(ts[j].status, which) { 1nat } else { 0nat },
{
    assert(ts.take(j + 1).drop_last() =~= ts.take(j));
    assert(ts.take(j + 1).last() == ts[j]);
}

proof fn lemma_count_task_lines_bound(ts: Seq<TaskRow>, which: int)
    ensures
        count_task_lines(ts, which) <= ts.len(),
    decreases ts.len(),
{
    if ts.len() > 0 {
        lemma_count_task_lines_bound(ts.drop_last(), which);
    }
}

fn summarize(flat: &Vec<(Option<String>, ProjectComparison)>) -> (s: Summary)
    ensures
        s.counts(lines_of(flat_views(flat@))),
{
    let ghost lines = lines_of(flat_views(flat@));
    let mut s = Summary {
        projects_matched: 0,
        projects_clockify_only: 0,
        projects_solidtime_only: 0,
        projects_manual_review: 0,
        tasks_matched: 0,
        tasks_clockify_only: 0,
        tasks_solidtime_only: 0,
        tasks_manual_review: 0,
    };
    assert(lines.take(0) =~= Seq::<ProjectRow>::empty());
    let mut i: usize = 0;
    while i < flat.len()
        invariant
            i <= flat.len(),
            lines == lines_of(flat_views(flat@)),
            s.counts(lines.take(i as int)),
            s.projects_matched + s.projects_clockify_only + s.projects_solidtime_only + s.projects_manual_review <= i,
        decreases flat.len() - i,
    {
        let row = &flat[i].1;
        assert(lines[i as int] == row@);
        proof {
            lemma_count_step(lines, i as int, 0);
            lemma_count_step(lines, i as int, 1);
            lemma_count_step(lines, i as int, 2);
            lemma_count_step(lines, i as int, 3);
        }
        match &row.status {
            ProjectStatus::Both => s.projects_matched = s.projects_matched + 1,
            ProjectStatus::ClockifyOnly => s.projects_clockify_only = s.projects_clockify_only + 1,
            ProjectStatus::SolidtimeOnly => s.projects_solidtime_only = s.projects_solidtime_only + 1,
            ProjectStatus::ManualReview(_) => s.projects_manual_review = s.projects_manual_review + 1,
        }
        let ghost ts = task_rows(row.tasks@);
        let ghost base_lines = lines.take(i as int);
        let ghost base = s;
        assert(ts.take(0) =~= Seq::<TaskRow>::empty());
        let mut j: usize = 0;
        while j < row.tasks.len()
            invariant
                j <= row.tasks.len(),
                ts == task_rows(row.tasks@),
                s.projects_matched == base.projects_matched,
                s.projects_clockify_only == base.projects_clockify_only,
                s.projects_solidtime_only == base.projects_solidtime_only,
                s.projects_manual_review == base.projects_manual_review,
                s.tasks_matched == capped(count_all_task_lines(base_lines, 0) + count_task_lines(ts.take(j as int), 0)),
                s.tasks_clockify_only == capped(count_all_task_lines(base_lines, 1) + count_task_lines(ts.take(j as int), 1)),
                s.tasks_solidtime_only == capped(count_all_task_lines(base_lines, 2) + count_task_lines(ts.take(j as int), 2)),
                s.tasks_manual_review == capped(count_all_task_lines(base_lines, 3) + count_task_lines(ts.take(j as int), 3)),
            decreases row.tasks.len() - j,
        {
            assert(ts[j as int] == row.tasks@[j as int]@);
            proof {
                lemma_task_count_step(ts, j as int, 0);
                lemma_task_count_step(ts, j as int, 1);
                lemma_task_count_step(ts, j as int, 2);
                lemma_task_count_step(ts, j as int, 3);
            }
            match &row.tasks[j].status {
                TaskStatus::Both => s.tasks_matched = s.tasks_matched.saturating_add(1),
                TaskStatus::ClockifyOnly => s.tasks_clockify_only = s.tasks_clockify_only.saturating_add(1),
                TaskStatus::SolidtimeOnly => s.tasks_solidtime_only = s.tasks_solidtime_only.saturating_add(1),
                TaskStatus::ManualReview(_) => s.tasks_manual_review = s.tasks_manual_review.saturating_add(1),
            }
            j = j + 1;
        }
        assert(ts.take(row.tasks.len() as int) =~= ts);
        i = i + 1;
    }
    assert(lines.take(flat.len() as int) =~= lines);
    s
}

proof fn lemma_ckeys_step(ps: Seq<ClockifyProject>, clients: Seq<ClockifyClient>, mp: Seq<(Seq<char>, Seq<char>)>, i: int)
    requires
        0 <= i < ps.len(),
    ensures
        unmapped_ckeys(ps.take(i + 1), clients, mp) == if lookup(mp, ps[i].id@) is None {
            unmapped_ckeys(ps.take(i), clients, mp).push(cproject_key(ps[i], clients))
        } else {
            unmapped_ckeys(ps.take(i), clients, mp)
        },
{
    assert(ps.take(i + 1).drop_last() =~= ps.take(i));
    assert(ps.take(i + 1).last() == ps[i]);
}

proof fn lemma_skeys_step(ps: Seq<SolidtimeProject>, clients: Seq<SolidtimeClient>, mp: Seq<(Seq<char>, Seq<char>)>, i: int)
    requires
        0 <= i < ps.len(),
    ensures
        unmapped_skeys(ps.take(i + 1), clients, mp) == if !has_value(mp, ps[i].id@) {
            unmapped_skeys(ps.take(i), clients, mp).push(sproject_key(ps[i], clients))
        } else {
            unmapped_skeys(ps.take(i), clients, mp)
        },
{
    assert(ps.take(i + 1).drop_last() =~= ps.take(i));
    assert(ps.take(i + 1).last() == ps[i]);
}

proof fn lemma_ckeys_len(ps: Seq<ClockifyProject>, clients: Seq<ClockifyClient>, mp: Seq<(Seq<char>, Seq<char>)>)
    ensures
        unmapped_ckeys(ps, clients, mp).len() <= ps.len(),
    decreases ps.len(),
{
    if ps.len() > 0 {
        lemma_ckeys_len(ps.drop_last(), clients, mp);
    }
}

proof fn lemma_skeys_len(ps: Seq<SolidtimeProject>, clients: Seq<SolidtimeClient>, mp: Seq<(Seq<char>, Seq<char>)>)
    ensures
        unmapped_skeys(ps, clients, mp).len() <= ps.len(),
    decreases ps.len(),
{
    if ps.len() > 0 {
        lemma_skeys_len(ps.drop_last(), clients, mp);
    }
}

/// Compares the project structures: unmapped projects pair by client and
/// name, a key with several projects on a side is flagged for review, each
/// project mapping pairs its two projects; matched pairs compare their tasks.
/// The lines are grouped by client, and the summary counts the lines by status.
/// Every project mapping must name projects that were read from both systems.
pub fn build_comparison(
    clockify_clients: &[ClockifyClient],
    clockify_projects: &[ClockifyProject],
    clockify_tasks: &[ClockifyTask],
    solidtime_clients: &[SolidtimeClient],
    solidtime_projects: &[SolidtimeProject],
    solidtime_tasks: &[SolidtimeTask],
    mappings: &CompareMappings,
) -> (c: Comparison)
    requires
        project_pairs_resolved(mappings.projects@, clockify_projects@, solidtime_projects@),
    ensures
        group_rows(c.groups@) == comparison_groups(
            input_of(clockify_clients@, clockify_projects@, clockify_tasks@, solidtime_clients@, solidtime_projects@, solidtime_tasks@, *mappings),
        ),
        c.summary.counts(
            lines_of(flat_rows(input_of(clockify_clients@, clockify_projects@, clockify_tasks@, solidtime_clients@, solidtime_projects@, solidtime_tasks@, *mappings))),
        ),
{
    let ghost inp = input_of(clockify_clients@, clockify_projects@, clockify_tasks@, solidtime_clients@, solidtime_projects@, solidtime_tasks@, *mappings);
    let ghost mp = mappings.projects@;

    // The distinct keys of the unmapped projects.
    let mut keys: Vec<(Option<String>, String)> = Vec::new();
    assert(key_views(keys@) =~= Seq::<ProjectKeyView>::empty());
    let mut i: usize = 0;
    while i < clockify_projects.len()
        invariant
            i <= clockify_projects.len(),
            mp == mappings.projects@,
            key_views(keys@) == set_insert_all(Seq::empty(), unmapped_ckeys(clockify_projects@.take(i as int), clockify_clients@, mp), key_order()),
        decreases clockify_projects.len() - i,
    {
        proof {
            lemma_ckeys_step(clockify_projects@, clockify_clients@, mp, i as int);
        }
        let ghost q = unmapped_ckeys(clockify_projects@.take(i as int), clockify_clients@, mp);
        let p = &clockify_projects[i];
        if !mappings.projects.contains_key(p.id.as_str()) {
            let k = (clockify_client_key(project_client_id(p), clockify_clients), p.name.clone());
            assert(key_view(k) == cproject_key(clockify_projects@[i as int], clockify_clients@));
            assert(q.push(key_view(k)).drop_last() =~= q);
            key_set_insert(&mut keys, k);
        }
        i = i + 1;
    }
    assert(clockify_projects@.take(clockify_projects.len() as int) =~= clockify_projects@);
    let ghost after_clockify = key_views(keys@);
    let mut i: usize = 0;
    while i < solidtime_projects.len()
        invariant
            i <= solidtime_projects.len(),
            mp == mappings.projects@,
            key_views(keys@) == set_insert_all(after_clockify, unmapped_skeys(solidtime_projects@.take(i as int), solidtime_clients@, mp), key_order()),
        decreases solidtime_projects.len() - i,
    {
        proof {
            lemma_skeys_step(solidtime_projects@, solidtime_clients@, mp, i as int);
        }
        let ghost q = unmapped_skeys(solidtime_projects@.take(i as int), solidtime_clients@, mp);
        let p = &solidtime_projects[i];
        if !mappings.projects.contains_value(p.id.as_str()) {
            let k = (solidtime_client_key(opt_string_as_str(&p.client_id), solidtime_clients), p.name.clone());
            assert(key_view(k) == sproject_key(solidtime_projects@[i as int], solidtime_clients@));
            assert(q.push(key_view(k)).drop_last() =~= q);
            key_set_insert(&mut keys, k);
        }
        i = i + 1;
    }
    assert(solidtime_projects@.take(solidtime_projects.len() as int) =~= solidtime_projects@);
    let ghost kv = key_views(keys@);
    assert(kv == project_keys(clockify_clients@, clockify_projects@, solidtime_clients@, solidtime_projects@, mp));
    proof {
        crate::ordered::lemma_set_insert_all_len(Seq::<ProjectKeyView>::empty(), unmapped_ckeys(clockify_projects@, clockify_clients@, mp), key_order());
        crate::ordered::lemma_set_insert_all_len(after_clockify, unmapped_skeys(solidtime_projects@, solidtime_clients@, mp), key_order());
        lemma_ckeys_len(clockify_projects@, clockify_clients@, mp);
        lemma_skeys_len(solidtime_projects@, solidtime_clients@, mp);
    }

    // One line per key, then one per project mapping.
    let ghost name_part = kv.map_values(|k: ProjectKeyView| (k.0, name_project_row(inp, k)));
    let mut flat: Vec<(Option<String>, ProjectComparison)> = Vec::new();
    let mut k: usize = 0;
    assert(flat_views(flat@) =~= name_part.take(0));
    while k < keys.len()
        invariant
            k <= keys.len(),
            kv == key_views(keys@),
            inp == input_of(clockify_clients@, clockify_projects@, clockify_tasks@, solidtime_clients@, solidtime_projects@, solidtime_tasks@, *mappings),
            name_part == kv.map_values(|k: ProjectKeyView| (k.0, name_project_row(inp, k))),
            flat_views(flat@) == name_part.take(k as int),
            flat.len() == k,
        decreases keys.len() - k,
    {
        let row = name_row(
            clockify_clients,
            clockify_projects,
            clockify_tasks,
            solidtime_clients,
            solidtime_projects,
            solidtime_tasks,
            mappings,
            &keys[k],
        );
        assert(kv[k as int] == key_view(keys@[k as int]));
        let ghost before = flat_views(flat@);
        flat.push((keys[k].0.clone(), row));
        assert(flat_views(flat@) =~= before.push(name_part[k as int]));
        assert(name_part.take(k + 1) =~= name_part.take(k as int).push(name_part[k as int]));
        k = k + 1;
    }
    assert(name_part.take(keys.len() as int) =~= name_part);
    let pairs = mappings.projects.entries();
    let ghost pv = pairs@.map_values(|e: (String, String)| (e.0@, e.1@));
    let ghost map_part = mp.map_values(|pair: (Seq<char>, Seq<char>)| mapped_project_row(inp, pair));
    let mut j: usize = 0;
    assert(name_part + map_part.take(0) =~= name_part);
    while j < pairs.len()
        invariant
            j <= pairs.len(),
            pv == pairs@.map_values(|e: (String, String)| (e.0@, e.1@)),
            pv == mp,
            mp == mappings.projects@,
            inp == input_of(clockify_clients@, clockify_projects@, clockify_tasks@, solidtime_clients@, solidtime_projects@, solidtime_tasks@, *mappings),
            map_part == mp.map_values(|pair: (Seq<char>, Seq<char>)| mapped_project_row(inp, pair)),
            flat_views(flat@) == name_part + map_part.take(j as int),
            flat.len() == keys.len() + j,
            forall|i: int|
                0 <= i < mappings.projects@.len() ==> indices_where(clockify_projects@, cproject_with_id(#[trigger] mappings.projects@[i].0)).len() > 0
                    && indices_where(solidtime_projects@, sproject_with_id(mappings.projects@[i].1)).len() > 0,
        decreases pairs.len() - j,
    {
        assert(pv[j as int] == (pairs@[j as int].0@, pairs@[j as int].1@));
        assert(mappings.projects@[j as int] == pv[j as int]);
        assert(indices_where(clockify_projects@, cproject_with_id(mappings.projects@[j as int].0)).len() > 0);
        let entry = mapped_row(
            clockify_clients,
            clockify_projects,
            clockify_tasks,
            solidtime_projects,
            solidtime_tasks,
            mappings,
            pairs[j].0.as_str(),
            pairs[j].1.as_str(),
        );
        assert((opt_view(entry.0), entry.1@) == map_part[j as int]);
        let ghost before = flat_views(flat@);
        flat.push(entry);
        assert(flat_views(flat@) =~= before.push(map_part[j as int]));
        assert(name_part + map_part.take(j + 1) =~= (name_part + map_part.take(j as int)).push(map_part[j as int]));
        j = j + 1;
    }
    assert(map_part.take(pairs.len() as int) =~= map_part);
    let ghost fv = flat_views(flat@);
    assert(fv == flat_rows(inp));

    proof {
        let a = clockify_projects@.len() + solidtime_projects@.len() + mappings.projects@.len();
        let b = clockify_tasks@.len() + solidtime_tasks@.len() + mappings.tasks@.len();
        assert(flat@.len() <= a);
        assert(flat@.len() * b <= (a + 1) * (b + 1)) by (nonlinear_arith)
            requires flat@.len() <= a, b >= 0;
    }
    let summary = summarize(&flat);

    // Group the lines by client.
    let mut groups: Vec<(Option<String>, Vec<ProjectComparison>)> = Vec::new();
    let mut i: usize = 0;
    let n = flat.len();
    assert(group_rows(groups@) =~= group_all(Seq::empty(), fv.take(0), opt_text_order()));
    assert(flat_views(flat@) =~= fv.skip(0));
    while flat.len() > 0
        invariant
            fv.len() == i + flat.len(),
            fv.len() == n,
            flat_views(flat@) == fv.skip(i as int),
            group_rows(groups@) == group_all(Seq::empty(), fv.take(i as int), opt_text_order()),
        decreases flat.len(),
    {
        let ghost old_flat = flat@;
        assert(flat_views(old_flat)[0] == (opt_view(old_flat[0].0), old_flat[0].1@));
        assert(fv.skip(i as int)[0] == fv[i as int]);
        let (g, row) = flat.remove(0);
        assert(fv.take(i + 1).drop_last() =~= fv.take(i as int));
        assert(fv.take(i + 1).last() == fv[i as int]);
        group_insert_row(&mut groups, g, row);
        assert forall|q: int| 0 <= q < flat@.len() implies #[trigger] flat_views(flat@)[q] == fv.skip(i + 1)[q] by {
            assert(flat@[q] == old_flat[q + 1]);
            assert(flat_views(old_flat)[q + 1] == (opt_view(old_flat[q + 1].0), old_flat[q + 1].1@));
            assert(fv.skip(i as int)[q + 1] == fv.skip(i + 1)[q]);
        }
        assert(flat_views(flat@) =~= fv.skip(i + 1));
        i = i + 1;
    }
    assert(fv.take(i as int) =~= fv);
    let ghost gv = group_rows(groups@);

    // Order the lines of each group.
    let mut sorted: Vec<(Option<String>, Vec<ProjectComparison>)> = Vec::new();
    let ghost target = gv.map_values(|g: (Option<Seq<char>>, Seq<ProjectRow>)| (g.0, stable_sort(g.1, project_key())));
    let mut i: usize = 0;
    let m = groups.len();
    assert(group_rows(groups@) =~= gv.skip(0));
    assert(group_rows(sorted@) =~= target.take(0));
    while groups.len() > 0
        invariant
            gv.len() == i + groups.len(),
            gv.len() == m,
            group_rows(groups@) == gv.skip(i as int),
            target == gv.map_values(|g: (Option<Seq<char>>, Seq<ProjectRow>)| (g.0, stable_sort(g.1, project_key()))),
            group_rows(sorted@) == target.take(i as int),
        decreases groups.len(),
    {
        let ghost old_groups = groups@;
        assert(group_rows(old_groups)[0] == (opt_view(old_groups[0].0), project_rows(old_groups[0].1@)));
        assert(gv.skip(i as int)[0] == gv[i as int]);
        let (g, rows) = groups.remove(0);
        let ordered = sort_project_rows(rows);
        let ghost before = group_rows(sorted@);
        sorted.push((g, ordered));
        assert(group_rows(sorted@) =~= before.push(target[i as int]));
        assert(target.take(i + 1) =~= target.take(i as int).push(target[i as int]));
        assert forall|q: int| 0 <= q < groups@.len() implies #[trigger] group_rows(groups@)[q] == gv.skip(i + 1)[q] by {
            assert(groups@[q] == old_groups[q + 1]);
            assert(group_rows(old_groups)[q + 1] == (opt_view(old_groups[q + 1].0), project_rows(old_groups[q + 1].1@)));
            assert(gv.skip(i as int)[q + 1] == gv.skip(i + 1)[q]);
        }
        assert(group_rows(groups@) =~= gv.skip(i + 1));
        i = i + 1;
    }
    assert(target.take(i as int) =~= target);
    Comparison { groups: sorted, summary }
}

/// Every project mapping names a Clockify project and a Solidtime project
/// that were read.
pub open spec fn project_pairs_resolved(
    mp: Seq<(Seq<char>, Seq<char>)>,
    cps: Seq<ClockifyProject>,
    sps: Seq<SolidtimeProject>,
) -> bool {
    forall|i: int|
        0 <= i < mp.len() ==> indices_where(cps, cproject_with_id(#[trigger] mp[i].0)).len() > 0 && indices_where(
            sps,
            sproject_with_id(mp[i].1),
        ).len() > 0
}

/// What one mapping row adds to the project and task mappings, or the message
/// of why it is refused: both projects must resolve and agree with earlier
/// rows; a row that names both tasks also maps its two tasks.
pub open spec fn compare_row_step(
    row: ProjectMappingRow,
    acc: (Seq<(Seq<char>, Seq<char>)>, Seq<(Seq<char>, Seq<char>)>),
    cps: Seq<ClockifyProject>,
    cts: Seq<ClockifyTask>,
    sps: Seq<SolidtimeProject>,
    sts: Seq<SolidtimeTask>,
) -> Result<(Seq<(Seq<char>, Seq<char>)>, Seq<(Seq<char>, Seq<char>)>), Seq<char>> {
    match clockify_project_choice(row, cps) {
        Err(m) => Err(m),
        Ok(ci) => match solidtime_project_choice(row, sps) {
            Err(m) => Err(m),
            Ok(si) => match insert_mapping_result(acc.0, None, cps[ci].id@, sps[si].id@, "project"@) {
                Err(m) => Err(m),
                Ok(mp) => if !row.spec_has_solidtime_task() || !row.spec_has_clockify_task() {
                    Ok((mp, acc.1))
                } else {
                    match clockify_task_choice(row, cps[ci].id@, cts) {
                        Err(m) => Err(m),
                        Ok(cti) => match solidtime_task_choice(row, sps[si], sts) {
                            Err(m) => Err(m),
                            Ok(None) => Err(solidtime_task_missing_message(row.solidtime_task@, sps[si].name@)),
                            Ok(Some(sti)) => match insert_mapping_result(acc.1, None, cts[cti].id@, sts[sti].id@, "task"@) {
                                Err(m) => Err(m),
                                Ok(mt) => Ok((mp, mt)),
                            },
                        },
                    }
                },
            },
        },
    }
}

/// The project and task mappings of all rows, in order, or the message of the
/// first row that is refused.
pub open spec fn compare_mappings_result(
    rows: Seq<ProjectMappingRow>,
    cps: Seq<ClockifyProject>,
    cts: Seq<ClockifyTask>,
    sps: Seq<SolidtimeProject>,
    sts: Seq<SolidtimeTask>,
) -> Result<(Seq<(Seq<char>, Seq<char>)>, Seq<(Seq<char>, Seq<char>)>), Seq<char>>
    decreases rows.len(),
{
    if rows.len() == 0 {
        Ok((Seq::empty(), Seq::empty()))
    } else {
        match compare_mappings_result(rows.drop_last(), cps, cts, sps, sts) {
            Err(m) => Err(m),
            Ok(acc) => compare_row_step(rows.last(), acc, cps, cts, sps, sts),
        }
    }
}

proof fn lemma_compare_mappings_err_stays(
    rows: Seq<ProjectMappingRow>,
    n: int,
    cps: Seq<ClockifyProject>,
    cts: Seq<ClockifyTask>,
    sps: Seq<SolidtimeProject>,
    sts: Seq<SolidtimeTask>,
)
    requires
        0 <= n <= rows.len(),
        compare_mappings_result(rows.take(n), cps, cts, sps, sts) is Err,
    ensures
        compare_mappings_result(rows, cps, cts, sps, sts) == compare_mappings_result(rows.take(n), cps, cts, sps, sts),
    decreases rows.len() - n,
{
    if n < rows.len() {
        assert(rows.take(n + 1).drop_last() =~= rows.take(n));
        lemma_compare_mappings_err_stays(rows, n + 1, cps, cts, sps, sts);
    } else {
        assert(rows.take(n) =~= rows);
    }
}

proof fn lemma_resolved_after_insert(
    mp: Seq<(Seq<char>, Seq<char>)>,
    cps: Seq<ClockifyProject>,
    sps: Seq<SolidtimeProject>,
    ci: int,
    si: int,
)
    requires
        project_pairs_resolved(mp, cps, sps),
        0 <= ci < cps.len(),
        0 <= si < sps.len(),
    ensures
        project_pairs_resolved(pairs_insert(mp, cps[ci].id@, sps[si].id@), cps, sps),
{
    let k = cps[ci].id@;
    let v = sps[si].id@;
    let r = pairs_insert(mp, k, v);
    lemma_pairs_insert_members(mp, k, v);
    lemma_indices_where_nonempty(cps, cproject_with_id(k), ci);
    lemma_indices_where_nonempty(sps, sproject_with_id(v), si);
    assert forall|j: int| 0 <= j < r.len() implies indices_where(cps, cproject_with_id(#[trigger] r[j].0)).len() > 0
        && indices_where(sps, sproject_with_id(r[j].1)).len() > 0 by {
        if r[j] != (k, v) {
            let q = choose|q: int| 0 <= q < mp.len() && mp[q] == r[j];
            assert(mp[q].0 == r[j].0);
        }
    }
}

/// Resolves the rows of the mapping file to project and task id mappings for
/// the comparison. A row whose Clockify or Solidtime task is blank maps only
/// its projects. Every project mapping that comes out names projects that
/// were read from both systems.
pub fn resolve_compare_mappings(
    rows: Vec<ProjectMappingRow>,
    clockify_projects: &[ClockifyProject],
    clockify_tasks: &[ClockifyTask],
    solidtime_projects: &[SolidtimeProject],
    solidtime_tasks: &[SolidtimeTask],
) -> (r: Result<CompareMappings, MigrationError>)
    ensures
        match compare_mappings_result(rows@, clockify_projects@, clockify_tasks@, solidtime_projects@, solidtime_tasks@) {
            Ok(m) => r matches Ok(c) && c.projects@ == m.0 && c.tasks@ == m.1,
            Err(msg) => r matches Err(e) && e@ == msg,
        },
        r matches Ok(c) ==> project_pairs_resolved(c.projects@, clockify_projects@, solidtime_projects@),
{
    let ghost cps = clockify_projects@;
    let ghost cts = clockify_tasks@;
    let ghost sps = solidtime_projects@;
    let ghost sts = solidtime_tasks@;
    let mut mappings = CompareMappings::new();
    let mut i: usize = 0;
    assert(rows@.take(0) =~= Seq::<ProjectMappingRow>::empty());
    assert(mappings.projects@ =~= Seq::<(Seq<char>, Seq<char>)>::empty());
    assert(mappings.tasks@ =~= Seq::<(Seq<char>, Seq<char>)>::empty());
    while i < rows.len()
        invariant
            i <= rows.len(),
            cps == clockify_projects@,
            cts == clockify_tasks@,
            sps == solidtime_projects@,
            sts == solidtime_tasks@,
            compare_mappings_result(rows@.take(i as int), cps, cts, sps, sts) == Ok::<
                (Seq<(Seq<char>, Seq<char>)>, Seq<(Seq<char>, Seq<char>)>),
                Seq<char>,
            >((mappings.projects@, mappings.tasks@)),
            project_pairs_resolved(mappings.projects@, cps, sps),
        decreases rows.len() - i,
    {
        let row = &rows[i];
        let ghost acc = (mappings.projects@, mappings.tasks@);
        proof {
            assert(rows@.take(i + 1).drop_last() =~= rows@.take(i as int));
            assert(rows@.take(i + 1).last() == *row);
            assert(compare_mappings_result(rows@.take(i + 1), cps, cts, sps, sts) == compare_row_step(*row, acc, cps, cts, sps, sts));
        }
        let clockify_project = match resolve_clockify_project(row, clockify_projects) {
            Ok(p) => p,
            Err(e) => {
                proof {
                    lemma_compare_mappings_err_stays(rows@, i + 1, cps, cts, sps, sts);
                }
                return Err(e);
            },
        };
        let ghost ci = clockify_project_choice(*row, cps)->Ok_0;
        let solidtime_project = match resolve_solidtime_project(row, solidtime_projects) {
            Ok(p) => p,
            Err(e) => {
                proof {
                    lemma_compare_mappings_err_stays(rows@, i + 1, cps, cts, sps, sts);
                }
                return Err(e);
            },
        };
        let ghost si = solidtime_project_choice(*row, sps)->Ok_0;
        match insert_mapping(&mut mappings.projects, None, clockify_project.id.as_str(), solidtime_project.id.as_str(), "project") {
            Ok(()) => {},
            Err(e) => {
                proof {
                    lemma_compare_mappings_err_stays(rows@, i + 1, cps, cts, sps, sts);
                }
                return Err(e);
            },
        }
        proof {
            lemma_resolved_after_insert(acc.0, cps, sps, ci, si);
        }
        if !row.has_solidtime_task() || !row.has_clockify_task() {
            i = i + 1;
            continue;
        }
        let clockify_task = match resolve_clockify_task(row, clockify_project.id.as_str(), clockify_tasks) {
            Ok(t) => t,
            Err(e) => {
                proof {
                    lemma_compare_mappings_err_stays(rows@, i + 1, cps, cts, sps, sts);
                }
                return Err(e);
            },
        };
        let solidtime_task = match resolve_solidtime_task(row, solidtime_project, solidtime_tasks) {
            Ok(t) => t,
            Err(e) => {
                proof {
                    lemma_compare_mappings_err_stays(rows@, i + 1, cps, cts, sps, sts);
                }
                return Err(e);
            },
        };
        match insert_mapping(&mut mappings.tasks, None, clockify_task.id.as_str(), solidtime_task.id.as_str(), "task") {
            Ok(()) => {},
            Err(e) => {
                proof {
                    lemma_compare_mappings_err_stays(rows@, i + 1, cps, cts, sps, sts);
                }
                return Err(e);
            },
        }
        i = i + 1;
    }
    assert(rows@.take(rows.len() as int) =~= rows@);
    Ok(mappings)
}

/// Whether `build_comparison` can take these inputs: every project mapping
/// names projects that were read from both systems.
pub fn comparison_inputs_valid(
    clockify_projects: &[ClockifyProject],
    solidtime_projects: &[SolidtimeProject],
    mappings: &CompareMappings,
) -> (r: bool)
    ensures
        r == project_pairs_resolved(mappings.projects@, clockify_projects@, solidtime_projects@),
{
    let ghost mp = mappings.projects@;
    let entries = mappings.projects.entries();
    assert(entries@.map_values(|e: (String, String)| (e.0@, e.1@)) == mp);
    let mut i: usize = 0;
    while i < entries.len()
        invariant
            i <= entries.len(),
            mp == mappings.projects@,
            entries@.map_values(|e: (String, String)| (e.0@, e.1@)) == mp,
            forall|j: int|
                0 <= j < i ==> indices_where(clockify_projects@, cproject_with_id(#[trigger] mp[j].0)).len() > 0 && indices_where(
                    solidtime_projects@,
                    sproject_with_id(mp[j].1),
                ).len() > 0,
        decreases entries.len() - i,
    {
        assert(mp[i as int] == (entries@[i as int].0@, entries@[i as int].1@));
        let found_clockify = last_cproject_with_id(clockify_projects, entries[i].0.as_str()).is_some();
        let found_solidtime = last_sproject_with_id(solidtime_projects, entries[i].1.as_str()).is_some();
        if !found_clockify || !found_solidtime {
            assert(!(indices_where(clockify_projects@, cproject_with_id(mp[i as int].0)).len() > 0 && indices_where(
                solidtime_projects@,
                sproject_with_id(mp[i as int].1),
            ).len() > 0));
            assert(mp.len() == entries@.len());
            proof {
                if project_pairs_resolved(mp, clockify_projects@, solidtime_projects@) {
                    let k = i as int;
                    assert(0 <= k < mp.len());
                    assert(indices_where(clockify_projects@, cproject_with_id(mp[k].0)).len() > 0 && indices_where(
                        solidtime_projects@,
                        sproject_with_id(mp[k].1),
                    ).len() > 0);
                }
            }
            return false;
        }
        i = i + 1;
    }
    true
}

/// Every line has both a Clockify and a Solidtime side, matched.
pub open spec fn all_matched(rows: Seq<TaskRow>) -> bool {
    forall|k: int| 0 <= k < rows.len() ==> (#[trigger] rows[k]).status == RowStatus::Both
}

proof fn lemma_sort_insert_all_matched(s: Seq<TaskRow>, x: TaskRow, key: spec_fn(TaskRow) -> Seq<char>)
    requires
        all_matched(s),
        x.status == RowStatus::Both,
    ensures
        all_matched(sort_insert(s, x, key)),
    decreases s.len(),
{
    if s.len() > 0 && !text_lt(key(x), key(s[0])) {
        lemma_sort_insert_all_matched(s.drop_first(), x, key);
        let r = sort_insert(s.drop_first(), x, key);
        assert forall|k: int| 0 <= k < (seq![s[0]] + r).len() implies (#[trigger] (seq![s[0]] + r)[k]).status == RowStatus::Both by {
            if k > 0 {
                assert((seq![s[0]] + r)[k] == r[k - 1]);
            }
        }
    } else if s.len() > 0 {
        assert forall|k: int| 0 <= k < (seq![x] + s).len() implies (#[trigger] (seq![x] + s)[k]).status == RowStatus::Both by {
            if k > 0 {
                assert((seq![x] + s)[k] == s[k - 1]);
            }
        }
    }
}

proof fn lemma_stable_sort_all_matched(s: Seq<TaskRow>, key: spec_fn(TaskRow) -> Seq<char>)
    requires
        all_matched(s),
    ensures
        all_matched(stable_sort(s, key)),
    decreases s.len(),
{
    if s.len() > 0 {
        assert(all_matched(s.drop_last()));
        lemma_stable_sort_all_matched(s.drop_last(), key);
        lemma_sort_insert_all_matched(stable_sort(s.drop_last(), key), s.last(), key);
    }
}

proof fn lemma_mapped_task_rows_matched(
    pairs: Seq<(Seq<char>, Seq<char>)>,
    cts: Seq<ClockifyTask>,
    cpid: Seq<char>,
    sts: Seq<SolidtimeTask>,
    spid: Seq<char>,
)
    ensures
        all_matched(mapped_task_rows(pairs, cts, cpid, sts, spid)),
    decreases pairs.len(),
{
    if pairs.len() > 0 {
        lemma_mapped_task_rows_matched(pairs.drop_last(), cts, cpid, sts, spid);
    }
}

proof fn lemma_no_unmapped_ctask_names(cts: Seq<ClockifyTask>, cpid: Seq<char>, mt: Seq<(Seq<char>, Seq<char>)>)
    requires
        forall|i: int| 0 <= i < cts.len() && opt_view((#[trigger] cts[i]).project_id) == Some(cpid) ==> lookup(mt, cts[i].id@) is Some,
    ensures
        unmapped_ctask_names(cts, cpid, mt).len() == 0,
    decreases cts.len(),
{
    if cts.len() > 0 {
        assert(cts.last() == cts[cts.len() - 1]);
        lemma_no_unmapped_ctask_names(cts.drop_last(), cpid, mt);
    }
}

proof fn lemma_no_unmapped_stask_names(sts: Seq<SolidtimeTask>, spid: Seq<char>, mt: Seq<(Seq<char>, Seq<char>)>)
    requires
        forall|j: int| 0 <= j < sts.len() && (#[trigger] sts[j]).project_id@ == spid ==> has_value(mt, sts[j].id@),
    ensures
        unmapped_stask_names(sts, spid, mt).len() == 0,
    decreases sts.len(),
{
    if sts.len() > 0 {
        assert(sts.last() == sts[sts.len() - 1]);
        lemma_no_unmapped_stask_names(sts.drop_last(), spid, mt);
    }
}

/// Mapped tasks show only in their pair lines: when a task mapping names every
/// task of the Clockify project and every task of the Solidtime project, no
/// task is paired by name or shown on one side only, and every task line is a
/// matched pair.
pub proof fn fully_mapped_tasks_show_only_as_pairs(
    cts: Seq<ClockifyTask>,
    cpid: Seq<char>,
    sts: Seq<SolidtimeTask>,
    spid: Seq<char>,
    mt: Seq<(Seq<char>, Seq<char>)>,
)
    requires
        forall|i: int| 0 <= i < cts.len() && opt_view((#[trigger] cts[i]).project_id) == Some(cpid) ==> lookup(mt, cts[i].id@) is Some,
        forall|j: int| 0 <= j < sts.len() && (#[trigger] sts[j]).project_id@ == spid ==> has_value(mt, sts[j].id@),
    ensures
        name_task_rows(cts, cpid, sts, spid, mt).len() == 0,
        all_matched(compared_tasks(cts, cpid, sts, spid, mt)),
        count_task_lines(compared_tasks(cts, cpid, sts, spid, mt), 1) == 0,
        count_task_lines(compared_tasks(cts, cpid, sts, spid, mt), 2) == 0,
{
    lemma_no_unmapped_ctask_names(cts, cpid, mt);
    lemma_no_unmapped_stask_names(sts, spid, mt);
    let e = Seq::<Seq<char>>::empty();
    assert(unmapped_ctask_names(cts, cpid, mt) =~= e);
    assert(unmapped_stask_names(sts, spid, mt) =~= e);
    assert(set_insert_all(e, e, text_order()) == e);
    assert(task_names(cts, cpid, sts, spid, mt).len() == 0);
    let rows = name_task_rows(cts, cpid, sts, spid, mt) + mapped_task_rows(mt, cts, cpid, sts, spid);
    lemma_mapped_task_rows_matched(mt, cts, cpid, sts, spid);
    assert(rows =~= mapped_task_rows(mt, cts, cpid, sts, spid));
    lemma_stable_sort_all_matched(rows, task_key());
    lemma_matched_counts(compared_tasks(cts, cpid, sts, spid, mt));
}

proof fn lemma_matched_counts(rows: Seq<TaskRow>)
    requires
        all_matched(rows),
    ensures
        count_task_lines(rows, 1) == 0,
        count_task_lines(rows, 2) == 0,
        count_task_lines(rows, 3) == 0,
    decreases rows.len(),
{
    if rows.len() > 0 {
        assert(rows.last() == rows[rows.len() - 1]);
        assert(all_matched(rows.drop_last()));
        lemma_matched_counts(rows.drop_last());
    }
}

/// A Clockify task that a task mapping names is never paired by name: adding
/// it to the tasks read leaves every name-paired, one-sided and review line
/// as it was, so it shows only in its mapped pair line.
pub proof fn mapped_clockify_task_is_not_paired_by_name(
    cts: Seq<ClockifyTask>,
    cpid: Seq<char>,
    sts: Seq<SolidtimeTask>,
    spid: Seq<char>,
    mt: Seq<(Seq<char>, Seq<char>)>,
    t: ClockifyTask,
)
    requires
        lookup(mt, t.id@) is Some,
    ensures
        name_task_rows(cts.push(t), cpid, sts, spid, mt) == name_task_rows(cts, cpid, sts, spid, mt),
{
    let c2 = cts.push(t);
    assert(c2.drop_last() =~= cts);
    assert(unmapped_ctask_names(c2, cpid, mt) == unmapped_ctask_names(cts, cpid, mt));
    assert(task_names(c2, cpid, sts, spid, mt) == task_names(cts, cpid, sts, spid, mt));
    assert forall|n: Seq<char>| #[trigger] indices_where(c2, unmapped_ctask_named(cpid, mt, n)) == indices_where(
        cts,
        unmapped_ctask_named(cpid, mt, n),
    ) by {
        assert(!unmapped_ctask_named(cpid, mt, n)(t));
    }
    assert(name_task_rows(c2, cpid, sts, spid, mt) =~= name_task_rows(cts, cpid, sts, spid, mt));
}

/// A Solidtime task that a task mapping names is never paired by name: adding
/// it to the tasks read leaves every name-paired, one-sided and review line
/// as it was.
pub proof fn mapped_solidtime_task_is_not_paired_by_name(
    cts: Seq<ClockifyTask>,
    cpid: Seq<char>,
    sts: Seq<SolidtimeTask>,
    spid: Seq<char>,
    mt: Seq<(Seq<char>, Seq<char>)>,
    t: SolidtimeTask,
)
    requires
        has_value(mt, t.id@),
    ensures
        name_task_rows(cts, cpid, sts.push(t), spid, mt) == name_task_rows(cts, cpid, sts, spid, mt),
{
    let s2 = sts.push(t);
    assert(s2.drop_last() =~= sts);
    assert(unmapped_stask_names(s2, spid, mt) == unmapped_stask_names(sts, spid, mt));
    assert(task_names(cts, cpid, s2, spid, mt) == task_names(cts, cpid, sts, spid, mt));
    assert forall|n: Seq<char>| #[trigger] indices_where(s2, unmapped_stask_named(spid, mt, n)) == indices_where(
        sts,
        unmapped_stask_named(spid, mt, n),
    ) by {
        assert(!unmapped_stask_named(spid, mt, n)(t));
    }
    assert(name_task_rows(cts, cpid, s2, spid, mt) =~= name_task_rows(cts, cpid, sts, spid, mt));
}

} // verus!
