//! The decisions of a migration run: what each Clockify record becomes in
//! Solidtime, what a time entry carries, and what the run reports.
use vstd::prelude::*;

use crate::calendar::{format_rfc3339, spec_rfc3339};
use crate::errors::{ambiguous_message, message, MigrationError};
use crate::compare::text_order;
use crate::fingerprint::{existing_entry_is_found_by_fingerprint, existing_entry_view, existing_fingerprints, fingerprint_of, fingerprint_text, or_empty, str_views, time_entry_fingerprint, FingerprintIndex};
use crate::ordered::{group_all, group_pop, lemma_group_pop_none};
use crate::id_set::{text_views, IdSet};
use crate::mapping::{put_is_idempotent, put_result, MigrationState};
use crate::duration::{duration_seconds, parse_iso8601_duration_seconds};
use crate::models::{
    ClockifyClient, ClockifyProject, ClockifyTag, ClockifyTask, ClockifyTimeEntry, EntryView, SolidtimeClient, Timestamp,
    SolidtimeProject, SolidtimeProjectCreate, SolidtimeTag, SolidtimeTask, SolidtimeTaskCreate, SolidtimeTimeEntry, SolidtimeTimeEntryCreate,
};
use crate::project_mapping::{
    clockify_project_choice, clockify_task_choice, insert_mapping, insert_mapping_result, resolve_clockify_project,
    resolve_clockify_task, resolve_solidtime_project, solidtime_project_choice, solidtime_task_choice,
    try_resolve_solidtime_task, ProjectMappingRow,
};
use crate::select::{indices_where, lemma_indices_where_step, lemma_indices_where_valid, positions, single_match};
use crate::text::{debug_text, owned, spec_debug_text, text_eq};
use crate::string_map::{lookup, StringMap};
use crate::text::{chars_of, concat, decimal, decimal_text, opt_str_view, opt_view};

verus! {

/// The mappings that the mapping file adds: Clockify project to Solidtime
/// project, Clockify task to Solidtime task, and Clockify project to the
/// Solidtime task for its entries without a mapped task.
#[derive(Debug)]
pub struct ProjectMappings {
    pub projects: StringMap,
    pub tasks: StringMap,
    pub default_tasks: StringMap,
}

impl ProjectMappings {
    /// No mappings.
    pub fn new() -> (m: ProjectMappings)
        ensures
            m.projects@.len() == 0,
            m.tasks@.len() == 0,
            m.default_tasks@.len() == 0,
    {
        ProjectMappings { projects: StringMap::new(), tasks: StringMap::new(), default_tasks: StringMap::new() }
    }
}

impl Default for ProjectMappings {
    fn default() -> (m: ProjectMappings)
        ensures
            m.projects@.len() == 0,
            m.tasks@.len() == 0,
            m.default_tasks@.len() == 0,
    {
        ProjectMappings::new()
    }
}

/// An ASCII hexadecimal digit.
pub open spec fn is_hex_digit(c: char) -> bool {
    ('0' <= c && c <= '9') || ('a' <= c && c <= 'f') || ('A' <= c && c <= 'F')
}

/// A valid project color: `#` and six hexadecimal digits.
pub open spec fn color_accepted(c: Seq<char>) -> bool {
    &&& c.len() == 7
    &&& c[0] == '#'
    &&& forall|i: int| 1 <= i < 7 ==> is_hex_digit(#[trigger] c[i])
}

fn hex_digit(c: char) -> (r: bool)
    ensures
        r == is_hex_digit(c),
{
    ('0' <= c && c <= '9') || ('a' <= c && c <= 'f') || ('A' <= c && c <= 'F')
}

/// The color for a project: its own when valid, else the default.
pub fn normalized_color(color: Option<&str>) -> (r: &str)
    ensures
        r@ == match color {
            Some(c) => if color_accepted(c@) { c@ } else { "#4F46E5"@ },
            None => "#4F46E5"@,
        },
{
    match color {
        Some(c) => {
            let chars = chars_of(c);
            let mut accepted = chars.len() == 7 && chars[0] == '#';
            let mut i: usize = 1;
            while accepted && i < 7
                invariant
                    chars@ == c@,
                    1 <= i <= 7,
                    accepted ==> chars@.len() == 7 && chars@[0] == '#',
                    accepted ==> forall|j: int| 1 <= j < i ==> is_hex_digit(#[trigger] chars@[j]),
                    !accepted ==> !color_accepted(c@),
                decreases 7 - i,
            {
                if !hex_digit(chars[i]) {
                    accepted = false;
                }
                i = i + 1;
            }
            if accepted { c } else { "#4F46E5" }
        },
        None => "#4F46E5",
    }
}

/// Whether a failed create met an existing record: Solidtime answered 422 or
/// 409.
pub fn is_create_conflict(status: Option<u16>) -> (r: bool)
    ensures
        r == (status == Some(422u16) || status == Some(409u16)),
{
    match status {
        Some(code) => code == 422 || code == 409,
        None => false,
    }
}

/// Whether a time entry belongs to one of the ignored projects.
pub fn time_entry_uses_ignored_project(entry: &ClockifyTimeEntry, ignored_project_ids: &IdSet) -> (r: bool)
    ensures
        r == (opt_view(entry.project_id) matches Some(p) && ignored_project_ids@.contains(p)),
{
    match &entry.project_id {
        Some(p) => ignored_project_ids.contains(p.as_str()),
        None => false,
    }
}

/// The message for a project without a Solidtime counterpart.
pub open spec fn missing_project_message(id: Seq<char>) -> Seq<char> {
    "missing project mapping for Clockify project "@ + id
}

/// The message for a task without a Solidtime counterpart.
pub open spec fn missing_task_message(id: Seq<char>) -> Seq<char> {
    "missing task mapping for Clockify task "@ + id
}

/// The message for a tag without a Solidtime counterpart.
pub open spec fn missing_tag_message(id: Seq<char>) -> Seq<char> {
    "missing tag mapping for Clockify tag "@ + id
}

/// The Solidtime project of a time entry, or why it has none.
pub open spec fn entry_project(entry: ClockifyTimeEntry, state: MigrationState) -> Result<Option<Seq<char>>, Seq<char>> {
    match opt_view(entry.project_id) {
        Some(id) => match lookup(state.projects@, id) {
            Some(s) => Ok(Some(s)),
            None => Err(missing_project_message(id)),
        },
        None => Ok(None),
    }
}

/// The Solidtime task of a time entry, or why it has none: an explicit task
/// mapping first, then the project's default task, then the recorded task.
pub open spec fn entry_task(entry: ClockifyTimeEntry, state: MigrationState, mappings: ProjectMappings) -> Result<
    Option<Seq<char>>,
    Seq<char>,
> {
    let p = opt_view(entry.project_id);
    let t = opt_view(entry.task_id);
    if p is Some && t is Some && lookup(mappings.tasks@, t->0) is Some {
        Ok(lookup(mappings.tasks@, t->0))
    } else if p is Some && lookup(mappings.default_tasks@, p->0) is Some {
        Ok(lookup(mappings.default_tasks@, p->0))
    } else if t is Some {
        match lookup(state.tasks@, t->0) {
            Some(s) => Ok(Some(s)),
            None => Err(missing_task_message(t->0)),
        }
    } else {
        Ok(None)
    }
}

/// The Solidtime tags of a time entry's tags, in order, or the message for
/// the first tag without a counterpart.
pub open spec fn entry_tags(tag_ids: Seq<Seq<char>>, tags: Seq<(Seq<char>, Seq<char>)>) -> Result<Seq<Seq<char>>, Seq<char>>
    decreases tag_ids.len(),
{
    if tag_ids.len() == 0 {
        Ok(Seq::empty())
    } else {
        match entry_tags(tag_ids.drop_last(), tags) {
            Err(m) => Err(m),
            Ok(done) => match lookup(tags, tag_ids.last()) {
                Some(s) => Ok(done.push(s)),
                None => Err(missing_tag_message(tag_ids.last())),
            },
        }
    }
}

/// Whether the instants of a Clockify time entry are in the handled range.
pub open spec fn clockify_entry_times_wf(entry: ClockifyTimeEntry) -> bool {
    entry.time_interval.start.wf() && (entry.time_interval.end matches Some(t) ==> t.wf())
}

/// Whether a time entry has a task but no project: such an entry cannot be
/// associated in Solidtime and is skipped.
pub open spec fn entry_task_without_project(entry: ClockifyTimeEntry) -> bool {
    entry.project_id is None && entry.task_id is Some
}

/// What a time entry becomes in Solidtime, or why it cannot: `Ok(None)` for
/// an entry with a task but no project, which is skipped whatever is recorded.
pub open spec fn entry_body(entry: ClockifyTimeEntry, member: Seq<char>, state: MigrationState, mappings: ProjectMappings) -> Result<
    Option<EntryView>,
    Seq<char>,
> {
    if entry_task_without_project(entry) {
        Ok(None)
    } else {
    match entry_project(entry, state) {
        Err(m) => Err(m),
        Ok(project) => match entry_task(entry, state, mappings) {
            Err(m) => Err(m),
            Ok(task) => match entry_tags(text_views(entry.tag_ids@), state.tags@) {
                Err(m) => Err(m),
                Ok(tags) => Ok(
                    Some(
                        EntryView {
                            member,
                            project,
                            task,
                            start: spec_rfc3339(entry.time_interval.start.seconds),
                            end: match entry.time_interval.end {
                                Some(t) => Some(spec_rfc3339(t.seconds)),
                                None => None,
                            },
                            billable: entry.billable,
                            description: opt_view(entry.description),
                            tags,
                        },
                    ),
                ),
            },
        },
    }
    }
}

fn lookup_str<'a>(map: &'a StringMap, key: &str) -> (r: Option<&'a str>)
    ensures
        opt_str_view(r) == lookup(map@, key@),
{
    match map.get(key) {
        Some(v) => Some(v.as_str()),
        None => None,
    }
}

fn entry_tag_ids<'a>(tag_ids: &'a Vec<String>, tags: &'a StringMap) -> (r: Result<Vec<&'a str>, MigrationError>)
    ensures
        match entry_tags(text_views(tag_ids@), tags@) {
            Ok(v) => r matches Ok(x) && str_views(x@) == v,
            Err(m) => r matches Err(e) && e@ == m,
        },
{
    let ghost ids = text_views(tag_ids@);
    let mut r: Vec<&str> = Vec::new();
    let mut i: usize = 0;
    assert(ids.take(0) =~= Seq::<Seq<char>>::empty());
    assert(str_views(r@) =~= Seq::<Seq<char>>::empty());
    while i < tag_ids.len()
        invariant
            i <= tag_ids.len(),
            ids == text_views(tag_ids@),
            entry_tags(ids.take(i as int), tags@) == Ok::<Seq<Seq<char>>, Seq<char>>(str_views(r@)),
        decreases tag_ids.len() - i,
    {
        assert(ids.take(i + 1).drop_last() =~= ids.take(i as int));
        assert(ids.take(i + 1).last() == tag_ids@[i as int]@);
        match lookup_str(tags, tag_ids[i].as_str()) {
            Some(s) => {
                let ghost old_r = r@;
                r.push(s);
                assert(str_views(r@) =~= str_views(old_r).push(s@));
            },
            None => {
                proof {
                    lemma_entry_tags_err_stays(ids, i + 1, tags@);
                }
                return Err(message(concat("missing tag mapping for Clockify tag ", tag_ids[i].as_str()).as_str()));
            },
        }
        i = i + 1;
    }
    assert(ids.take(tag_ids.len() as int) =~= ids);
    Ok(r)
}

proof fn lemma_entry_tags_err_stays(ids: Seq<Seq<char>>, n: int, tags: Seq<(Seq<char>, Seq<char>)>)
    requires
        0 <= n <= ids.len(),
        entry_tags(ids.take(n), tags) is Err,
    ensures
        entry_tags(ids, tags) == entry_tags(ids.take(n), tags),
    decreases ids.len() - n,
{
    if n < ids.len() {
        assert(ids.take(n + 1).drop_last() =~= ids.take(n));
        lemma_entry_tags_err_stays(ids, n + 1, tags);
    } else {
        assert(ids.take(n) =~= ids);
    }
}

/// A Solidtime entry body that keeps what the Clockify entry says: its
/// member, the recorded Solidtime project of its project, its own start and
/// end as RFC 3339 text, its billable flag, its description, and the recorded
/// Solidtime tag of each of its tags, in order.
pub open spec fn body_keeps_entry(v: EntryView, entry: ClockifyTimeEntry, member: Seq<char>, state: MigrationState) -> bool {
    &&& v.member == member
    &&& v.project == match opt_view(entry.project_id) {
        Some(p) => lookup(state.projects@, p),
        None => None,
    }
    &&& v.start == spec_rfc3339(entry.time_interval.start.seconds)
    &&& v.end == match entry.time_interval.end {
        Some(t) => Some(spec_rfc3339(t.seconds)),
        None => None,
    }
    &&& v.billable == entry.billable
    &&& v.description == opt_view(entry.description)
    &&& v.tags.len() == entry.tag_ids@.len()
    &&& forall|k: int| 0 <= k < v.tags.len() ==> lookup(state.tags@, entry.tag_ids@[k]@) == Some(#[trigger] v.tags[k])
}

proof fn lemma_entry_tags_each(ids: Seq<Seq<char>>, tags: Seq<(Seq<char>, Seq<char>)>)
    ensures
        entry_tags(ids, tags) matches Ok(v) ==> v.len() == ids.len() && forall|k: int|
            0 <= k < v.len() ==> lookup(tags, ids[k]) == Some(#[trigger] v[k]),
    decreases ids.len(),
{
    if ids.len() > 0 {
        lemma_entry_tags_each(ids.drop_last(), tags);
        if let Ok(v) = entry_tags(ids, tags) {
            if let Ok(prev) = entry_tags(ids.drop_last(), tags) {
                assert forall|k: int| 0 <= k < v.len() implies lookup(tags, ids[k]) == Some(#[trigger] v[k]) by {
                    if k < v.len() - 1 {
                        assert(v[k] == prev[k]);
                        assert(ids[k] == ids.drop_last()[k]);
                    }
                }
            }
        }
    }
}

/// A migrated time entry keeps the Clockify entry's own times and fields: the
/// body of an entry that is migrated carries the entry's start and end (no
/// end while it runs), its member, billable flag and description, the
/// recorded project and the recorded tags; and exactly an entry with a task
/// but no project is skipped.
pub proof fn entry_body_keeps_the_entry(entry: ClockifyTimeEntry, member: Seq<char>, state: MigrationState, mappings: ProjectMappings)
    ensures
        entry_body(entry, member, state, mappings) matches Ok(Some(v)) ==> body_keeps_entry(v, entry, member, state),
        entry_body(entry, member, state, mappings) matches Ok(None) <==> entry_task_without_project(entry),
{
    lemma_entry_tags_each(text_views(entry.tag_ids@), state.tags@);
    if let Ok(Some(v)) = entry_body(entry, member, state, mappings) {
        assert forall|k: int| 0 <= k < v.tags.len() implies lookup(state.tags@, entry.tag_ids@[k]@) == Some(#[trigger] v.tags[k]) by {
            assert(text_views(entry.tag_ids@)[k] == entry.tag_ids@[k]@);
        }
    }
}

/// The Solidtime time entry that a Clockify time entry becomes, through the
/// recorded and mapped projects, tasks and tags; none for an entry with a task
/// but no project.
pub fn time_entry_body<'a>(
    entry: &'a ClockifyTimeEntry,
    member_id: &'a str,
    state: &'a MigrationState,
    project_mappings: &'a ProjectMappings,
) -> (r: Result<Option<SolidtimeTimeEntryCreate<'a>>, MigrationError>)
    requires
        clockify_entry_times_wf(*entry),
    ensures
        match entry_body(*entry, member_id@, *state, *project_mappings) {
            Err(m) => r matches Err(e) && e@ == m,
            Ok(None) => r matches Ok(None),
            Ok(Some(v)) => r matches Ok(Some(b)) && b@ == v,
        },
        r matches Ok(Some(b)) ==> body_keeps_entry(b@, *entry, member_id@, *state),
        r matches Ok(None) <==> entry_task_without_project(*entry),
{
    proof {
        entry_body_keeps_the_entry(*entry, member_id@, *state, *project_mappings);
    }
    if entry.project_id.is_none() && entry.task_id.is_some() {
        return Ok(None);
    }
    let project_id: Option<&str> = match &entry.project_id {
        Some(id) => match lookup_str(&state.projects, id.as_str()) {
            Some(s) => Some(s),
            None => {
                return Err(message(concat("missing project mapping for Clockify project ", id.as_str()).as_str()));
            },
        },
        None => None,
    };
    let task_id: Option<&str> = {
        let explicit = match (&entry.project_id, &entry.task_id) {
            (Some(_), Some(t)) => lookup_str(&project_mappings.tasks, t.as_str()),
            _ => None,
        };
        match explicit {
            Some(s) => Some(s),
            None => {
                let by_default = match &entry.project_id {
                    Some(p) => lookup_str(&project_mappings.default_tasks, p.as_str()),
                    None => None,
                };
                match by_default {
                    Some(s) => Some(s),
                    None => match &entry.task_id {
                        Some(t) => match lookup_str(&state.tasks, t.as_str()) {
                            Some(s) => Some(s),
                            None => {
                                return Err(message(concat("missing task mapping for Clockify task ", t.as_str()).as_str()));
                            },
                        },
                        None => None,
                    },
                }
            },
        }
    };
    let tags = entry_tag_ids(&entry.tag_ids, &state.tags)?;
    let body = SolidtimeTimeEntryCreate {
        member_id,
        project_id,
        task_id,
        start: format_rfc3339(entry.time_interval.start),
        end: match entry.time_interval.end {
            Some(t) => Some(format_rfc3339(t)),
            None => None,
        },
        billable: entry.billable,
        description: match &entry.description {
            Some(d) => Some(d.as_str()),
            None => None,
        },
        tags,
    };
    Ok(Some(body))
}

/// What happens to a Clockify client, project, task or tag.
#[derive(Debug)]
pub enum StructurePlan {
    /// The state already maps it.
    Recorded,
    /// Exactly one Solidtime record matches it; that record is reused.
    Reuse(String),
    /// A dry run counts it as created, under a placeholder id.
    DryRun(String),
    /// It is to be created in Solidtime.
    Create,
    /// A task whose project has no Solidtime counterpart; it is skipped.
    Skip,
}

/// A plan, with text as sequences.
pub enum PlanView {
    Recorded,
    Reuse(Seq<char>),
    DryRun(Seq<char>),
    Create,
    Skip,
}

impl View for StructurePlan {
    type V = PlanView;

    open spec fn view(&self) -> PlanView {
        match self {
            StructurePlan::Recorded => PlanView::Recorded,
            StructurePlan::Reuse(id) => PlanView::Reuse(id@),
            StructurePlan::DryRun(id) => PlanView::DryRun(id@),
            StructurePlan::Create => PlanView::Create,
            StructurePlan::Skip => PlanView::Skip,
        }
    }
}

/// The plan for one structure item: the state's mapping first; then the
/// matching Solidtime records, of which more than one is an error; then a
/// placeholder in a dry run; then an error when creating is not allowed.
pub open spec fn structure_decision(
    recorded: bool,
    matches: nat,
    matched_id: Seq<char>,
    dry_run: bool,
    create_structure: bool,
    kind: Seq<char>,
    name: Seq<char>,
    dry_run_id: Seq<char>,
    missing: Seq<char>,
) -> Result<PlanView, Seq<char>> {
    if recorded {
        Ok(PlanView::Recorded)
    } else if matches >= 2 {
        Err(ambiguous_message(kind, name))
    } else if matches == 1 {
        Ok(PlanView::Reuse(matched_id))
    } else if dry_run {
        Ok(PlanView::DryRun(dry_run_id))
    } else if !create_structure {
        Err(missing)
    } else {
        Ok(PlanView::Create)
    }
}

/// What a plan decision is, as a result.
pub open spec fn plan_result_view(r: Result<StructurePlan, MigrationError>) -> Result<PlanView, Seq<char>> {
    match r {
        Ok(p) => Ok(p@),
        Err(e) => Err(e@),
    }
}

fn decide_structure(
    recorded: bool,
    matches: Vec<usize>,
    matched_id: Option<&str>,
    dry_run: bool,
    create_structure: bool,
    kind: &str,
    name: &str,
    dry_run_id: String,
    missing: String,
) -> (r: Result<StructurePlan, MigrationError>)
    requires
        matches@.len() >= 1 ==> matched_id is Some,
    ensures
        plan_result_view(r) == structure_decision(
            recorded,
            matches@.len(),
            opt_str_view(matched_id)->0,
            dry_run,
            create_structure,
            kind@,
            name@,
            dry_run_id@,
            missing@,
        ),
{
    if recorded {
        return Ok(StructurePlan::Recorded);
    }
    match single_match(matches, kind, name) {
        Err(e) => Err(e),
        Ok(Some(_)) => Ok(StructurePlan::Reuse(owned(matched_id.unwrap()))),
        Ok(None) => if dry_run {
            Ok(StructurePlan::DryRun(dry_run_id))
        } else if !create_structure {
            Err(message(missing.as_str()))
        } else {
            Ok(StructurePlan::Create)
        },
    }
}

/// A Solidtime client with the given name.
pub open spec fn client_named(name: Seq<char>) -> spec_fn(SolidtimeClient) -> bool {
    |c: SolidtimeClient| c.name@ == name
}

/// A Solidtime tag with the given name.
pub open spec fn tag_named(name: Seq<char>) -> spec_fn(SolidtimeTag) -> bool {
    |t: SolidtimeTag| t.name@ == name
}

/// A Solidtime project with the given name under the given client.
pub open spec fn project_named_under(name: Seq<char>, client: Option<Seq<char>>) -> spec_fn(SolidtimeProject) -> bool {
    |p: SolidtimeProject| p.name@ == name && opt_view(p.client_id) == client
}

/// A Solidtime task with the given name in the given project.
pub open spec fn task_named_in(name: Seq<char>, project: Seq<char>) -> spec_fn(SolidtimeTask) -> bool {
    |t: SolidtimeTask| t.name@ == name && t.project_id@ == project
}

fn clients_named(clients: &[SolidtimeClient], name: &str) -> (v: Vec<usize>)
    ensures
        positions(v@) == indices_where(clients@, client_named(name@)),
{
    let ghost pred = client_named(name@);
    let mut v: Vec<usize> = Vec::new();
    let mut i: usize = 0;
    while i < clients.len()
        invariant
            i <= clients.len(),
            pred == client_named(name@),
            positions(v@) == indices_where(clients@.take(i as int), pred),
        decreases clients.len() - i,
    {
        proof {
            lemma_indices_where_step(clients@, pred, i as int);
        }
        let ghost before = v@;
        if text_eq(clients[i].name.as_str(), name) {
            v.push(i);
            assert(positions(v@) =~= positions(before).push(i as int));
        }
        i = i + 1;
    }
    assert(clients@.take(clients.len() as int) =~= clients@);
    v
}

fn tags_named(tags: &[SolidtimeTag], name: &str) -> (v: Vec<usize>)
    ensures
        positions(v@) == indices_where(tags@, tag_named(name@)),
{
    let ghost pred = tag_named(name@);
    let mut v: Vec<usize> = Vec::new();
    let mut i: usize = 0;
    while i < tags.len()
        invariant
            i <= tags.len(),
            pred == tag_named(name@),
            positions(v@) == indices_where(tags@.take(i as int), pred),
        decreases tags.len() - i,
    {
        proof {
            lemma_indices_where_step(tags@, pred, i as int);
        }
        let ghost before = v@;
        if text_eq(tags[i].name.as_str(), name) {
            v.push(i);
            assert(positions(v@) =~= positions(before).push(i as int));
        }
        i = i + 1;
    }
    assert(tags@.take(tags.len() as int) =~= tags@);
    v
}

fn projects_named_under(projects: &[SolidtimeProject], name: &str, client: Option<&str>) -> (v: Vec<usize>)
    ensures
        positions(v@) == indices_where(projects@, project_named_under(name@, opt_str_view(client))),
{
    let ghost pred = project_named_under(name@, opt_str_view(client));
    let mut v: Vec<usize> = Vec::new();
    let mut i: usize = 0;
    while i < projects.len()
        invariant
            i <= projects.len(),
            pred == project_named_under(name@, opt_str_view(client)),
            positions(v@) == indices_where(projects@.take(i as int), pred),
        decreases projects.len() - i,
    {
        proof {
            lemma_indices_where_step(projects@, pred, i as int);
        }
        let ghost before = v@;
        let same_client = match (&projects[i].client_id, client) {
            (Some(a), Some(b)) => text_eq(a.as_str(), b),
            (None, None) => true,
            _ => false,
        };
        if text_eq(projects[i].name.as_str(), name) && same_client {
            v.push(i);
            assert(positions(v@) =~= positions(before).push(i as int));
        }
        i = i + 1;
    }
    assert(projects@.take(projects.len() as int) =~= projects@);
    v
}

fn tasks_named_in(tasks: &[SolidtimeTask], name: &str, project: &str) -> (v: Vec<usize>)
    ensures
        positions(v@) == indices_where(tasks@, task_named_in(name@, project@)),
{
    let ghost pred = task_named_in(name@, project@);
    let mut v: Vec<usize> = Vec::new();
    let mut i: usize = 0;
    while i < tasks.len()
        invariant
            i <= tasks.len(),
            pred == task_named_in(name@, project@),
            positions(v@) == indices_where(tasks@.take(i as int), pred),
        decreases tasks.len() - i,
    {
        proof {
            lemma_indices_where_step(tasks@, pred, i as int);
        }
        let ghost before = v@;
        if text_eq(tasks[i].name.as_str(), name) && text_eq(tasks[i].project_id.as_str(), project) {
            v.push(i);
            assert(positions(v@) =~= positions(before).push(i as int));
        }
        i = i + 1;
    }
    assert(tasks@.take(tasks.len() as int) =~= tasks@);
    v
}

fn missing_text(what: &str, name: &str, clockify_what: &str, id: &str, advice: &str) -> (r: String)
    ensures
        r@ == "missing Solidtime "@ + what@ + " "@ + spec_debug_text(name@) + " for Clockify "@ + clockify_what@ + " "@ + id@
            + advice@,
{
    let mut r = String::new();
    r.append("missing Solidtime ");
    r.append(what);
    r.append(" ");
    r.append(debug_text(name).as_str());
    r.append(" for Clockify ");
    r.append(clockify_what);
    r.append(" ");
    r.append(id);
    r.append(advice);
    r
}

/// The message for a missing client or tag when creating is not allowed.
pub open spec fn missing_create_only_message(what: Seq<char>, name: Seq<char>, id: Seq<char>) -> Seq<char> {
    "missing Solidtime "@ + what + " "@ + spec_debug_text(name) + " for Clockify "@ + what + " "@ + id
        + "; rerun without --no-create-structure to create it"@
}

/// The message for a missing project or task when creating is not allowed.
pub open spec fn missing_mappable_message(what: Seq<char>, name: Seq<char>, id: Seq<char>) -> Seq<char> {
    "missing Solidtime "@ + what + " "@ + spec_debug_text(name) + " for Clockify "@ + what + " "@ + id
        + "; add it to --mapping, create it in Solidtime, or rerun without --no-create-structure"@
}

/// The plan for a Clockify client: the recorded client, the one Solidtime
/// client with its name, a placeholder in a dry run, or a new client.
pub fn plan_client(
    state: &MigrationState,
    client: &ClockifyClient,
    solid_clients: &[SolidtimeClient],
    dry_run: bool,
    create_structure: bool,
) -> (r: Result<StructurePlan, MigrationError>)
    ensures
        ({
            let ix = indices_where(solid_clients@, client_named(client.name@));
            plan_result_view(r) == structure_decision(
                lookup(state.clients@, client.id@) is Some,
                ix.len(),
                solid_clients@[ix[0]].id@,
                dry_run,
                create_structure,
                "client"@,
                client.name@,
                "dry-run-client-"@ + client.id@,
                missing_create_only_message("client"@, client.name@, client.id@),
            )
        }),
{
    let recorded = state.clients.contains_key(client.id.as_str());
    let matches = clients_named(solid_clients, client.name.as_str());
    proof {
        lemma_indices_where_valid(solid_clients@, client_named(client.name@));
    }
    let matched_id = if matches.len() > 0 { Some(solid_clients[matches[0]].id.as_str()) } else { None };
    let dry_run_id = concat("dry-run-client-", client.id.as_str());
    let missing = missing_text("client", client.name.as_str(), "client", client.id.as_str(), "; rerun without --no-create-structure to create it");
    decide_structure(recorded, matches, matched_id, dry_run, create_structure, "client", client.name.as_str(), dry_run_id, missing)
}

/// The plan for a Clockify tag: the recorded tag, the one Solidtime tag with
/// its name, a placeholder in a dry run, or a new tag.
pub fn plan_tag(
    state: &MigrationState,
    tag: &ClockifyTag,
    solid_tags: &[SolidtimeTag],
    dry_run: bool,
    create_structure: bool,
) -> (r: Result<StructurePlan, MigrationError>)
    ensures
        ({
            let ix = indices_where(solid_tags@, tag_named(tag.name@));
            plan_result_view(r) == structure_decision(
                lookup(state.tags@, tag.id@) is Some,
                ix.len(),
                solid_tags@[ix[0]].id@,
                dry_run,
                create_structure,
                "tag"@,
                tag.name@,
                "dry-run-tag-"@ + tag.id@,
                missing_create_only_message("tag"@, tag.name@, tag.id@),
            )
        }),
{
    let recorded = state.tags.contains_key(tag.id.as_str());
    let matches = tags_named(solid_tags, tag.name.as_str());
    proof {
        lemma_indices_where_valid(solid_tags@, tag_named(tag.name@));
    }
    let matched_id = if matches.len() > 0 { Some(solid_tags[matches[0]].id.as_str()) } else { None };
    let dry_run_id = concat("dry-run-tag-", tag.id.as_str());
    let missing = missing_text("tag", tag.name.as_str(), "tag", tag.id.as_str(), "; rerun without --no-create-structure to create it");
    decide_structure(recorded, matches, matched_id, dry_run, create_structure, "tag", tag.name.as_str(), dry_run_id, missing)
}

/// The Solidtime client of a Clockify project: the recorded counterpart of its
/// client, if it has one.
pub open spec fn project_client(project: ClockifyProject, state: MigrationState) -> Option<Seq<char>> {
    match opt_view(project.client_id) {
        Some(c) => lookup(state.clients@, c),
        None => None,
    }
}

/// The Solidtime client of a Clockify project, through the recorded clients.
pub fn project_client_id<'a>(state: &'a MigrationState, project: &ClockifyProject) -> (r: Option<&'a str>)
    ensures
        opt_str_view(r) == project_client(*project, *state),
{
    match &project.client_id {
        Some(c) => lookup_str(&state.clients, c.as_str()),
        None => None,
    }
}

/// The plan for a Clockify project: the recorded project, the one Solidtime
/// project with its name under its client, a placeholder in a dry run, or a
/// new project.
pub fn plan_project(
    state: &MigrationState,
    project: &ClockifyProject,
    solid_projects: &[SolidtimeProject],
    dry_run: bool,
    create_structure: bool,
) -> (r: Result<StructurePlan, MigrationError>)
    ensures
        ({
            let ix = indices_where(solid_projects@, project_named_under(project.name@, project_client(*project, *state)));
            plan_result_view(r) == structure_decision(
                lookup(state.projects@, project.id@) is Some,
                ix.len(),
                solid_projects@[ix[0]].id@,
                dry_run,
                create_structure,
                "project"@,
                project.name@,
                "dry-run-project-"@ + project.id@,
                missing_mappable_message("project"@, project.name@, project.id@),
            )
        }),
{
    let recorded = state.projects.contains_key(project.id.as_str());
    let client_id = project_client_id(state, project);
    let matches = projects_named_under(solid_projects, project.name.as_str(), client_id);
    proof {
        lemma_indices_where_valid(solid_projects@, project_named_under(project.name@, project_client(*project, *state)));
    }
    let matched_id = if matches.len() > 0 { Some(solid_projects[matches[0]].id.as_str()) } else { None };
    let dry_run_id = concat("dry-run-project-", project.id.as_str());
    let missing = missing_text(
        "project",
        project.name.as_str(),
        "project",
        project.id.as_str(),
        "; add it to --mapping, create it in Solidtime, or rerun without --no-create-structure",
    );
    decide_structure(recorded, matches, matched_id, dry_run, create_structure, "project", project.name.as_str(), dry_run_id, missing)
}

/// The Solidtime project of a Clockify task: the recorded counterpart of its
/// project, if it has one.
pub open spec fn task_project(task: ClockifyTask, state: MigrationState) -> Option<Seq<char>> {
    match opt_view(task.project_id) {
        Some(p) => lookup(state.projects@, p),
        None => None,
    }
}

/// The Solidtime project of a Clockify task, through the recorded projects.
pub fn task_solidtime_project<'a>(state: &'a MigrationState, task: &ClockifyTask) -> (r: Option<&'a str>)
    ensures
        opt_str_view(r) == task_project(*task, *state),
{
    match &task.project_id {
        Some(p) => lookup_str(&state.projects, p.as_str()),
        None => None,
    }
}

/// The plan for a Clockify task: skipped when its project has no Solidtime
/// counterpart; else as `structure_decision` decides, over the Solidtime
/// tasks with its name in that counterpart.
pub open spec fn task_plan(
    state: MigrationState,
    task: ClockifyTask,
    solid_tasks: Seq<SolidtimeTask>,
    dry_run: bool,
    create_structure: bool,
) -> Result<PlanView, Seq<char>> {
    match task_project(task, state) {
        None => Ok(PlanView::Skip),
        Some(p) => {
            let ix = indices_where(solid_tasks, task_named_in(task.name@, p));
            structure_decision(
                lookup(state.tasks@, task.id@) is Some,
                ix.len(),
                solid_tasks[ix[0]].id@,
                dry_run,
                create_structure,
                "task"@,
                task.name@,
                "dry-run-task-"@ + task.id@,
                missing_mappable_message("task"@, task.name@, task.id@),
            )
        },
    }
}

/// A task is reused only from the project it is migrated into: a reused
/// Solidtime task has the Clockify task's name and lies in the Solidtime
/// counterpart of the task's project; and a Solidtime task of another project
/// changes nothing about the plan.
pub proof fn reused_task_lies_in_the_mapped_project(
    state: MigrationState,
    task: ClockifyTask,
    solid_tasks: Seq<SolidtimeTask>,
    dry_run: bool,
    create_structure: bool,
    other: SolidtimeTask,
)
    ensures
        task_plan(state, task, solid_tasks, dry_run, create_structure) matches Ok(PlanView::Reuse(id)) ==> (task_project(task, state) matches Some(
            p,
        ) && exists|j: int|
            0 <= j < solid_tasks.len() && (#[trigger] solid_tasks[j]).id@ == id && solid_tasks[j].project_id@ == p && solid_tasks[j].name@
                == task.name@),
        task_project(task, state) matches Some(p) && other.project_id@ != p ==> task_plan(
            state,
            task,
            solid_tasks.push(other),
            dry_run,
            create_structure,
        ) == task_plan(state, task, solid_tasks, dry_run, create_structure),
{
    if let Some(p) = task_project(task, state) {
        let pred = task_named_in(task.name@, p);
        lemma_indices_where_valid(solid_tasks, pred);
        let ix = indices_where(solid_tasks, pred);
        let t2 = solid_tasks.push(other);
        assert(t2.drop_last() =~= solid_tasks);
        if ix.len() > 0 {
            assert(0 <= ix[0] < solid_tasks.len());
            assert(t2[ix[0]] == solid_tasks[ix[0]]);
        }
    }
}

/// The plan for a Clockify task: skipped when its project has no Solidtime
/// counterpart; else the recorded task, the one Solidtime task with its name
/// in that project, a placeholder in a dry run, or a new task.
pub fn plan_task(
    state: &MigrationState,
    task: &ClockifyTask,
    solid_tasks: &[SolidtimeTask],
    dry_run: bool,
    create_structure: bool,
) -> (r: Result<StructurePlan, MigrationError>)
    ensures
        match task_project(*task, *state) {
            None => r matches Ok(StructurePlan::Skip),
            Some(p) => {
                let ix = indices_where(solid_tasks@, task_named_in(task.name@, p));
                plan_result_view(r) == structure_decision(
                    lookup(state.tasks@, task.id@) is Some,
                    ix.len(),
                    solid_tasks@[ix[0]].id@,
                    dry_run,
                    create_structure,
                    "task"@,
                    task.name@,
                    "dry-run-task-"@ + task.id@,
                    missing_mappable_message("task"@, task.name@, task.id@),
                )
            },
        },
        plan_result_view(r) == task_plan(*state, *task, solid_tasks@, dry_run, create_structure),
{
    let project_id = match task_solidtime_project(state, task) {
        Some(p) => p,
        None => {
            return Ok(StructurePlan::Skip);
        },
    };
    let recorded = state.tasks.contains_key(task.id.as_str());
    let matches = tasks_named_in(solid_tasks, task.name.as_str(), project_id);
    proof {
        lemma_indices_where_valid(solid_tasks@, task_named_in(task.name@, project_id@));
    }
    let matched_id = if matches.len() > 0 { Some(solid_tasks[matches[0]].id.as_str()) } else { None };
    let dry_run_id = concat("dry-run-task-", task.id.as_str());
    let missing = missing_text(
        "task",
        task.name.as_str(),
        "task",
        task.id.as_str(),
        "; add it to --mapping, create it in Solidtime, or rerun without --no-create-structure",
    );
    decide_structure(recorded, matches, matched_id, dry_run, create_structure, "task", task.name.as_str(), dry_run_id, missing)
}

/// The estimate of a duration text, in seconds, when it is one.
pub open spec fn estimate_seconds(text: Option<Seq<char>>) -> Option<i64> {
    match text {
        Some(t) => match duration_seconds(t) {
            Some(n) => Some(n as i64),
            None => None,
        },
        None => None,
    }
}

fn estimate_of(text: Option<&str>) -> (r: Option<i64>)
    ensures
        r == estimate_seconds(opt_str_view(text)),
{
    match text {
        Some(t) => parse_iso8601_duration_seconds(t),
        None => None,
    }
}

/// The estimate text of a Clockify project, if it has one.
pub open spec fn project_estimate_text(project: ClockifyProject) -> Option<Seq<char>> {
    match project.estimate {
        Some(e) => opt_view(e.estimate),
        None => None,
    }
}

/// The Solidtime project to create for a Clockify project under the given
/// Solidtime client: same name and billable flag, an accepted color, the
/// estimate in seconds, no rate, not public.
pub fn project_create_body<'a>(project: &'a ClockifyProject, client_id: Option<&'a str>) -> (r: SolidtimeProjectCreate<'a>)
    ensures
        r.name@ == project.name@,
        r.color@ == match opt_view(project.color) {
            Some(c) => if color_accepted(c) { c } else { "#4F46E5"@ },
            None => "#4F46E5"@,
        },
        r.is_billable == project.billable,
        r.billable_rate is None,
        opt_str_view(r.client_id) == opt_str_view(client_id),
        r.estimated_time == estimate_seconds(project_estimate_text(*project)),
        !r.is_public,
{
    let color = match &project.color {
        Some(c) => Some(c.as_str()),
        None => None,
    };
    let estimate = match &project.estimate {
        Some(e) => match &e.estimate {
            Some(t) => Some(t.as_str()),
            None => None,
        },
        None => None,
    };
    SolidtimeProjectCreate {
        name: project.name.as_str(),
        color: normalized_color(color),
        is_billable: project.billable,
        billable_rate: None,
        client_id,
        estimated_time: estimate_of(estimate),
        is_public: false,
    }
}

/// The Solidtime task to create for a Clockify task in the given Solidtime
/// project: same name, the estimate in seconds.
pub fn task_create_body<'a>(task: &'a ClockifyTask, project_id: &'a str) -> (r: SolidtimeTaskCreate<'a>)
    ensures
        r.name@ == task.name@,
        r.project_id@ == project_id@,
        r.estimated_time == estimate_seconds(opt_view(task.estimate)),
{
    let estimate = match &task.estimate {
        Some(t) => Some(t.as_str()),
        None => None,
    };
    SolidtimeTaskCreate { name: task.name.as_str(), project_id, estimated_time: estimate_of(estimate) }
}

/// The message when a create conflicted but no record matches.
pub open spec fn conflict_unmatched_message(what: Seq<char>, name: Seq<char>) -> Seq<char> {
    what + " "@ + spec_debug_text(name) + " create conflicted, but no matching Solidtime "@ + what + " was found"@
}

fn conflict_text(what: &str, name: &str) -> (r: String)
    ensures
        r@ == conflict_unmatched_message(what@, name@),
{
    let mut r = String::new();
    r.append(what);
    r.append(" ");
    r.append(debug_text(name).as_str());
    r.append(" create conflicted, but no matching Solidtime ");
    r.append(what);
    r.append(" was found");
    r
}

/// The record to adopt after a create conflicted: the one record among
/// `matches` positions, an error when there are several or none.
pub open spec fn adoption(matches: Seq<int>, what: Seq<char>, name: Seq<char>) -> Result<int, Seq<char>> {
    if matches.len() >= 2 {
        Err(ambiguous_message(what, name))
    } else if matches.len() == 0 {
        Err(conflict_unmatched_message(what, name))
    } else {
        Ok(matches[0])
    }
}

fn adopt_position(matches: Vec<usize>, what: &str, name: &str) -> (r: Result<usize, MigrationError>)
    ensures
        match adoption(positions(matches@), what@, name@) {
            Ok(i) => r == Ok::<usize, MigrationError>(i as usize),
            Err(m) => r matches Err(e) && e@ == m,
        },
{
    match single_match(matches, what, name) {
        Err(e) => Err(e),
        Ok(Some(i)) => Ok(i),
        Ok(None) => Err(message(conflict_text(what, name).as_str())),
    }
}

/// After creating a client conflicted: the one listed client with the name.
pub fn adopt_client<'a>(clients: &'a [SolidtimeClient], name: &str) -> (r: Result<&'a SolidtimeClient, MigrationError>)
    ensures
        match adoption(indices_where(clients@, client_named(name@)), "client"@, name@) {
            Ok(i) => r matches Ok(c) && 0 <= i < clients@.len() && *c == clients@[i],
            Err(m) => r matches Err(e) && e@ == m,
        },
{
    let matches = clients_named(clients, name);
    proof {
        lemma_indices_where_valid(clients@, client_named(name@));
    }
    let i = adopt_position(matches, "client", name)?;
    Ok(&clients[i])
}

/// After creating a tag conflicted: the one listed tag with the name.
pub fn adopt_tag<'a>(tags: &'a [SolidtimeTag], name: &str) -> (r: Result<&'a SolidtimeTag, MigrationError>)
    ensures
        match adoption(indices_where(tags@, tag_named(name@)), "tag"@, name@) {
            Ok(i) => r matches Ok(t) && 0 <= i < tags@.len() && *t == tags@[i],
            Err(m) => r matches Err(e) && e@ == m,
        },
{
    let matches = tags_named(tags, name);
    proof {
        lemma_indices_where_valid(tags@, tag_named(name@));
    }
    let i = adopt_position(matches, "tag", name)?;
    Ok(&tags[i])
}

/// After creating a project conflicted: the one listed project with the
/// body's name under the body's client.
pub fn adopt_project<'a>(projects: &'a [SolidtimeProject], body: &SolidtimeProjectCreate<'_>) -> (r: Result<
    &'a SolidtimeProject,
    MigrationError,
>)
    ensures
        match adoption(indices_where(projects@, project_named_under(body.name@, opt_str_view(body.client_id))), "project"@, body.name@) {
            Ok(i) => r matches Ok(p) && 0 <= i < projects@.len() && *p == projects@[i],
            Err(m) => r matches Err(e) && e@ == m,
        },
{
    let matches = projects_named_under(projects, body.name, body.client_id);
    proof {
        lemma_indices_where_valid(projects@, project_named_under(body.name@, opt_str_view(body.client_id)));
    }
    let i = adopt_position(matches, "project", body.name)?;
    Ok(&projects[i])
}

/// After creating a task conflicted: the one listed task with the body's name
/// in the body's project.
pub fn adopt_task<'a>(tasks: &'a [SolidtimeTask], body: &SolidtimeTaskCreate<'_>) -> (r: Result<&'a SolidtimeTask, MigrationError>)
    ensures
        match adoption(indices_where(tasks@, task_named_in(body.name@, body.project_id@)), "task"@, body.name@) {
            Ok(i) => r matches Ok(t) && 0 <= i < tasks@.len() && *t == tasks@[i],
            Err(m) => r matches Err(e) && e@ == m,
        },
{
    let matches = tasks_named_in(tasks, body.name, body.project_id);
    proof {
        lemma_indices_where_valid(tasks@, task_named_in(body.name@, body.project_id@));
    }
    let i = adopt_position(matches, "task", body.name)?;
    Ok(&tasks[i])
}

/// What the mapping file is resolved against: the records read from both
/// services, the recorded state, and how the run treats missing records.
pub struct ProjectMappingContext<'a> {
    pub clockify_projects: &'a [ClockifyProject],
    pub clockify_tasks: &'a [ClockifyTask],
    pub solid_projects: &'a [SolidtimeProject],
    pub solid_tasks: &'a [SolidtimeTask],
    pub state: &'a MigrationState,
    pub dry_run: bool,
    pub create_structure: bool,
}

/// What the mapping file is resolved against, as values.
pub struct MappingInputs {
    pub clockify_projects: Seq<ClockifyProject>,
    pub clockify_tasks: Seq<ClockifyTask>,
    pub solid_projects: Seq<SolidtimeProject>,
    pub solid_tasks: Seq<SolidtimeTask>,
    pub state: MigrationState,
    pub dry_run: bool,
    pub create_structure: bool,
}

impl<'a> View for ProjectMappingContext<'a> {
    type V = MappingInputs;

    open spec fn view(&self) -> MappingInputs {
        MappingInputs {
            clockify_projects: self.clockify_projects@,
            clockify_tasks: self.clockify_tasks@,
            solid_projects: self.solid_projects@,
            solid_tasks: self.solid_tasks@,
            state: *self.state,
            dry_run: self.dry_run,
            create_structure: self.create_structure,
        }
    }
}

/// The three mappings of `ProjectMappings`, as sequences of pairs.
pub open spec fn mappings_view(m: ProjectMappings) -> (
    Seq<(Seq<char>, Seq<char>)>,
    Seq<(Seq<char>, Seq<char>)>,
    Seq<(Seq<char>, Seq<char>)>,
) {
    (m.projects@, m.tasks@, m.default_tasks@)
}

/// The message when a mapped Solidtime task is missing and may not be created.
pub open spec fn mapped_task_missing_message(task: Seq<char>, project: Seq<char>) -> Seq<char> {
    "mapped Solidtime task "@ + spec_debug_text(task) + " under project "@ + spec_debug_text(project)
        + " does not exist; create it in Solidtime or rerun without --no-create-structure"@
}

/// How a row of the mapping file got on.
#[derive(Debug, Clone, Copy, PartialEq, Eq)]
pub enum RowProgress {
    /// The row is resolved and its mappings recorded.
    Done,
    /// The row's Solidtime task does not exist and is to be created; the row
    /// is then resolved again with the new task's id.
    NeedsTask,
}

/// The Solidtime task to create for a mapping row that names a missing task:
/// the row's task name in the mapped Solidtime project, without estimate.
pub fn mapped_task_create_body<'a>(row: &'a ProjectMappingRow, project: &'a SolidtimeProject) -> (r: SolidtimeTaskCreate<'a>)
    ensures
        r.name@ == row.solidtime_task@,
        r.project_id@ == project.id@,
        r.estimated_time is None,
{
    SolidtimeTaskCreate { name: row.solidtime_task.as_str(), project_id: project.id.as_str(), estimated_time: None }
}

/// What one mapping row does to the mappings: both projects must resolve and
/// agree with the state and earlier rows; a row that names a Solidtime task
/// resolves it, or uses a placeholder in a dry run, or needs it created
/// (`created` gives the id of the task created for it); the task becomes the
/// project's default task when the row names no Clockify task, else the
/// Clockify task's mapping. The flag tells that the task must be created.
pub open spec fn mapping_row_step(
    row: ProjectMappingRow,
    acc: (Seq<(Seq<char>, Seq<char>)>, Seq<(Seq<char>, Seq<char>)>, Seq<(Seq<char>, Seq<char>)>),
    ctx: MappingInputs,
    created: Option<Seq<char>>,
) -> Result<(bool, (Seq<(Seq<char>, Seq<char>)>, Seq<(Seq<char>, Seq<char>)>, Seq<(Seq<char>, Seq<char>)>)), Seq<char>> {
    let cps = ctx.clockify_projects;
    let sps = ctx.solid_projects;
    match clockify_project_choice(row, cps) {
        Err(m) => Err(m),
        Ok(ci) => match solidtime_project_choice(row, sps) {
            Err(m) => Err(m),
            Ok(si) => match insert_mapping_result(
                acc.0,
                lookup(ctx.state.projects@, cps[ci].id@),
                cps[ci].id@,
                sps[si].id@,
                "project"@,
            ) {
                Err(m) => Err(m),
                Ok(mp) => if !row.spec_has_solidtime_task() {
                    Ok((false, (mp, acc.1, acc.2)))
                } else {
                    let task = match solidtime_task_choice(row, sps[si], ctx.solid_tasks) {
                        Err(m) => Err(m),
                        Ok(Some(sti)) => Ok(Some(ctx.solid_tasks[sti].id@)),
                        Ok(None) => if ctx.dry_run {
                            Ok(Some("dry-run-mapped-task-"@ + sps[si].id@ + "-"@ + row.solidtime_task@))
                        } else if !ctx.create_structure {
                            Err(mapped_task_missing_message(row.solidtime_task@, sps[si].name@))
                        } else {
                            Ok(created)
                        },
                    };
                    match task {
                        Err(m) => Err(m),
                        Ok(None) => Ok((true, (mp, acc.1, acc.2))),
                        Ok(Some(task_id)) => if !row.spec_has_clockify_task() {
                            match insert_mapping_result(acc.2, None, cps[ci].id@, task_id, "project default task"@) {
                                Err(m) => Err(m),
                                Ok(md) => Ok((false, (mp, acc.1, md))),
                            }
                        } else {
                            match clockify_task_choice(row, cps[ci].id@, ctx.clockify_tasks) {
                                Err(m) => Err(m),
                                Ok(cti) => match insert_mapping_result(
                                    acc.1,
                                    lookup(ctx.state.tasks@, ctx.clockify_tasks[cti].id@),
                                    ctx.clockify_tasks[cti].id@,
                                    task_id,
                                    "task"@,
                                ) {
                                    Err(m) => Err(m),
                                    Ok(mt) => Ok((false, (mp, mt, acc.2))),
                                },
                            }
                        },
                    }
                },
            },
        },
    }
}

/// Resolves one row of the mapping file into the mappings. When the row's
/// Solidtime task must be created, the row's projects are mapped and
/// `NeedsTask` is returned; the row is then resolved again with the id of the
/// created task in `created_task`.
pub fn resolve_mapping_row(
    row: &ProjectMappingRow,
    ctx: &ProjectMappingContext<'_>,
    created_task: Option<&str>,
    mappings: &mut ProjectMappings,
) -> (r: Result<RowProgress, MigrationError>)
    ensures
        match mapping_row_step(*row, mappings_view(*old(mappings)), ctx@, opt_str_view(created_task)) {
            Err(m) => r matches Err(e) && e@ == m,
            Ok((needs, acc)) => r == Ok::<RowProgress, MigrationError>(
                if needs { RowProgress::NeedsTask } else { RowProgress::Done },
            ) && mappings_view(*final(mappings)) == acc,
        },
{
    let clockify_project = resolve_clockify_project(row, ctx.clockify_projects)?;
    let solid_project = resolve_solidtime_project(row, ctx.solid_projects)?;
    insert_mapping(
        &mut mappings.projects,
        lookup_str(&ctx.state.projects, clockify_project.id.as_str()),
        clockify_project.id.as_str(),
        solid_project.id.as_str(),
        "project",
    )?;
    if !row.has_solidtime_task() {
        return Ok(RowProgress::Done);
    }
    let task_id: String = match try_resolve_solidtime_task(row, solid_project, ctx.solid_tasks)? {
        Some(task) => task.id.clone(),
        None => if ctx.dry_run {
            let mut id = concat("dry-run-mapped-task-", solid_project.id.as_str());
            id.append("-");
            id.append(row.solidtime_task.as_str());
            id
        } else if !ctx.create_structure {
            let mut m = owned("mapped Solidtime task ");
            m.append(debug_text(row.solidtime_task.as_str()).as_str());
            m.append(" under project ");
            m.append(debug_text(solid_project.name.as_str()).as_str());
            m.append(" does not exist; create it in Solidtime or rerun without --no-create-structure");
            return Err(message(m.as_str()));
        } else {
            match created_task {
                Some(id) => owned(id),
                None => {
                    return Ok(RowProgress::NeedsTask);
                },
            }
        },
    };
    if !row.has_clockify_task() {
        insert_mapping(&mut mappings.default_tasks, None, clockify_project.id.as_str(), task_id.as_str(), "project default task")?;
        return Ok(RowProgress::Done);
    }
    let clockify_task = resolve_clockify_task(row, clockify_project.id.as_str(), ctx.clockify_tasks)?;
    insert_mapping(
        &mut mappings.tasks,
        lookup_str(&ctx.state.tasks, clockify_task.id.as_str()),
        clockify_task.id.as_str(),
        task_id.as_str(),
        "task",
    )?;
    Ok(RowProgress::Done)
}

/// Resolves a mapping row again once the Solidtime task it needed has been
/// created (or an existing one adopted): the task joins the Solidtime tasks
/// that this and later rows are resolved against, and the row maps to its id.
pub fn resolve_row_with_created_task(
    row: &ProjectMappingRow,
    clockify_projects: &[ClockifyProject],
    clockify_tasks: &[ClockifyTask],
    solid_projects: &[SolidtimeProject],
    solid_tasks: &mut Vec<SolidtimeTask>,
    state: &MigrationState,
    dry_run: bool,
    create_structure: bool,
    task: SolidtimeTask,
    mappings: &mut ProjectMappings,
) -> (r: Result<RowProgress, MigrationError>)
    ensures
        final(solid_tasks)@ == old(solid_tasks)@.push(task),
        match mapping_row_step(
            *row,
            mappings_view(*old(mappings)),
            (MappingInputs {
                clockify_projects: clockify_projects@,
                clockify_tasks: clockify_tasks@,
                solid_projects: solid_projects@,
                solid_tasks: final(solid_tasks)@,
                state: *state,
                dry_run,
                create_structure,
            }),
            Some(task.id@),
        ) {
            Err(m) => r matches Err(e) && e@ == m,
            Ok((needs, acc)) => r == Ok::<RowProgress, MigrationError>(
                if needs { RowProgress::NeedsTask } else { RowProgress::Done },
            ) && mappings_view(*final(mappings)) == acc,
        },
{
    let task_id = owned(task.id.as_str());
    solid_tasks.push(task);
    let ctx = ProjectMappingContext {
        clockify_projects,
        clockify_tasks,
        solid_projects,
        solid_tasks: solid_tasks.as_slice(),
        state,
        dry_run,
        create_structure,
    };
    resolve_mapping_row(row, &ctx, Some(task_id.as_str()), mappings)
}

/// The rows `start..n` of the mapping file resolved in order from `acc`: the
/// first error, or the position of the first row whose task must be created
/// (with the mappings up to it), or none when all are resolved.
pub open spec fn mapping_rows_result(
    rows: Seq<ProjectMappingRow>,
    start: int,
    n: int,
    acc: (Seq<(Seq<char>, Seq<char>)>, Seq<(Seq<char>, Seq<char>)>, Seq<(Seq<char>, Seq<char>)>),
    ctx: MappingInputs,
) -> Result<(Option<int>, (Seq<(Seq<char>, Seq<char>)>, Seq<(Seq<char>, Seq<char>)>, Seq<(Seq<char>, Seq<char>)>)), Seq<char>>
    decreases n - start,
{
    if n <= start {
        Ok((None, acc))
    } else {
        match mapping_rows_result(rows, start, n - 1, acc, ctx) {
            Err(m) => Err(m),
            Ok((Some(i), a)) => Ok((Some(i), a)),
            Ok((None, a)) => match mapping_row_step(rows[n - 1], a, ctx, None) {
                Err(m) => Err(m),
                Ok((true, a2)) => Ok((Some(n - 1), a2)),
                Ok((false, a2)) => Ok((None, a2)),
            },
        }
    }
}

proof fn lemma_mapping_rows_stop_stays(
    rows: Seq<ProjectMappingRow>,
    start: int,
    n: int,
    acc: (Seq<(Seq<char>, Seq<char>)>, Seq<(Seq<char>, Seq<char>)>, Seq<(Seq<char>, Seq<char>)>),
    ctx: MappingInputs,
)
    requires
        start <= n <= rows.len(),
        !(mapping_rows_result(rows, start, n, acc, ctx) matches Ok((None, _))),
    ensures
        mapping_rows_result(rows, start, rows.len() as int, acc, ctx) == mapping_rows_result(rows, start, n, acc, ctx),
    decreases rows.len() - n,
{
    if n < rows.len() {
        lemma_mapping_rows_stop_stays(rows, start, n + 1, acc, ctx);
    }
}

/// Resolves the rows of the mapping file from `start` on into the mappings,
/// in order; stops at the first row whose Solidtime task must be created and
/// gives its position, or gives none when every row is resolved.
pub fn resolve_project_mapping_rows(
    rows: &Vec<ProjectMappingRow>,
    start: usize,
    ctx: &ProjectMappingContext<'_>,
    mappings: &mut ProjectMappings,
) -> (r: Result<Option<usize>, MigrationError>)
    requires
        start <= rows@.len(),
    ensures
        match mapping_rows_result(rows@, start as int, rows@.len() as int, mappings_view(*old(mappings)), ctx@) {
            Err(m) => r matches Err(e) && e@ == m,
            Ok((stop, acc)) => (r matches Ok(s) && match stop {
                Some(i) => s == Some(i as usize),
                None => s is None,
            }) && mappings_view(*final(mappings)) == acc,
        },
{
    let ghost acc0 = mappings_view(*mappings);
    let mut i: usize = start;
    while i < rows.len()
        invariant
            start <= i <= rows.len(),
            acc0 == mappings_view(*old(mappings)),
            mapping_rows_result(rows@, start as int, i as int, acc0, ctx@) == Ok::<
                (Option<int>, (Seq<(Seq<char>, Seq<char>)>, Seq<(Seq<char>, Seq<char>)>, Seq<(Seq<char>, Seq<char>)>)),
                Seq<char>,
            >((None, mappings_view(*mappings))),
        decreases rows.len() - i,
    {
        let ghost a = mappings_view(*mappings);
        let ghost step = mapping_row_step(rows@[i as int], a, ctx@, None);
        assert(mapping_rows_result(rows@, start as int, i + 1, acc0, ctx@) == match step {
            Err(m) => Err(m),
            Ok((true, a2)) => Ok((Some(i as int), a2)),
            Ok((false, a2)) => Ok((None, a2)),
        });
        match resolve_mapping_row(&rows[i], ctx, None, mappings) {
            Err(e) => {
                proof {
                    lemma_mapping_rows_stop_stays(rows@, start as int, i + 1, acc0, ctx@);
                }
                return Err(e);
            },
            Ok(RowProgress::NeedsTask) => {
                proof {
                    lemma_mapping_rows_stop_stays(rows@, start as int, i + 1, acc0, ctx@);
                }
                return Ok(Some(i));
            },
            Ok(RowProgress::Done) => {},
        }
        i = i + 1;
    }
    Ok(None)
}

/// What happens to a Clockify time entry.
#[derive(Debug)]
pub enum EntryPlan<'a> {
    /// It belongs to an ignored archived project; it is left out.
    Ignored,
    /// The state already maps it.
    Recorded,
    /// It has a task but no project; it is skipped.
    NoProject,
    /// A Solidtime entry with the same fingerprint exists and is reused.
    Reuse(String),
    /// A dry run counts it as created, under a placeholder id.
    DryRun(String),
    /// It is to be created in Solidtime with this content.
    Create(SolidtimeTimeEntryCreate<'a>),
}

/// A plan for a time entry, with text as sequences.
pub enum EntryPlanView {
    Ignored,
    Recorded,
    NoProject,
    Reuse(Seq<char>),
    DryRun(Seq<char>),
    Create(EntryView),
}

impl<'a> View for EntryPlan<'a> {
    type V = EntryPlanView;

    open spec fn view(&self) -> EntryPlanView {
        match self {
            EntryPlan::Ignored => EntryPlanView::Ignored,
            EntryPlan::Recorded => EntryPlanView::Recorded,
            EntryPlan::NoProject => EntryPlanView::NoProject,
            EntryPlan::Reuse(id) => EntryPlanView::Reuse(id@),
            EntryPlan::DryRun(id) => EntryPlanView::DryRun(id@),
            EntryPlan::Create(b) => EntryPlanView::Create(b@),
        }
    }
}

/// The plan for a time entry and what remains of the existing fingerprints:
/// entries of ignored projects are left out; a recorded entry is reused; an
/// entry with a task but no project is skipped; else the first unclaimed
/// Solidtime entry with the same fingerprint is claimed; else a dry run gives
/// a placeholder, and a real run creates the entry.
pub open spec fn entry_decision(
    entry: ClockifyTimeEntry,
    member: Seq<char>,
    state: MigrationState,
    mappings: ProjectMappings,
    ignored: Set<Seq<char>>,
    fingerprints: Seq<(Seq<char>, Seq<Seq<char>>)>,
    dry_run: bool,
) -> Result<(EntryPlanView, Seq<(Seq<char>, Seq<Seq<char>>)>), Seq<char>> {
    if opt_view(entry.project_id) matches Some(p) && ignored.contains(p) {
        Ok((EntryPlanView::Ignored, fingerprints))
    } else if lookup(state.time_entries@, entry.id@) is Some {
        Ok((EntryPlanView::Recorded, fingerprints))
    } else {
        match entry_body(entry, member, state, mappings) {
            Err(m) => Err(m),
            Ok(None) => Ok((EntryPlanView::NoProject, fingerprints)),
            Ok(Some(body)) => {
                let popped = group_pop(fingerprints, fingerprint_text(body));
                match popped.0 {
                    Some(existing) => Ok((EntryPlanView::Reuse(existing), popped.1)),
                    None => if dry_run {
                        Ok((EntryPlanView::DryRun("dry-run-time-entry-"@ + entry.id@), fingerprints))
                    } else {
                        Ok((EntryPlanView::Create(body), fingerprints))
                    },
                }
            },
        }
    }
}

/// Decides what happens to a Clockify time entry, claiming the matching
/// existing Solidtime entry when there is one.
pub fn plan_time_entry<'a>(
    entry: &'a ClockifyTimeEntry,
    member_id: &'a str,
    state: &'a MigrationState,
    mappings: &'a ProjectMappings,
    ignored: &IdSet,
    fingerprints: &mut FingerprintIndex,
    dry_run: bool,
) -> (r: Result<EntryPlan<'a>, MigrationError>)
    requires
        clockify_entry_times_wf(*entry),
    ensures
        match entry_decision(*entry, member_id@, *state, *mappings, ignored@, old(fingerprints)@, dry_run) {
            Err(m) => r matches Err(e) && e@ == m && final(fingerprints)@ == old(fingerprints)@,
            Ok((plan, rest)) => r matches Ok(p) && p@ == plan && final(fingerprints)@ == rest,
        },
{
    if time_entry_uses_ignored_project(entry, ignored) {
        return Ok(EntryPlan::Ignored);
    }
    if state.time_entries.contains_key(entry.id.as_str()) {
        return Ok(EntryPlan::Recorded);
    }
    let body = match time_entry_body(entry, member_id, state, mappings)? {
        Some(b) => b,
        None => {
            return Ok(EntryPlan::NoProject);
        },
    };
    let fingerprint = time_entry_fingerprint(&body);
    proof {
        lemma_group_pop_none(fingerprints@, fingerprint@);
    }
    match fingerprints.pop_front(fingerprint.as_str()) {
        Some(existing) => Ok(EntryPlan::Reuse(existing)),
        None => if dry_run {
            Ok(EntryPlan::DryRun(concat("dry-run-time-entry-", entry.id.as_str())))
        } else {
            Ok(EntryPlan::Create(body))
        },
    }
}

/// The archived Clockify projects that have a Solidtime counterpart, with
/// their names and counterpart ids, in order.
pub open spec fn archive_targets(ps: Seq<ClockifyProject>, state: MigrationState) -> Seq<(Seq<char>, Seq<char>)>
    decreases ps.len(),
{
    if ps.len() == 0 {
        Seq::empty()
    } else {
        let rest = archive_targets(ps.drop_last(), state);
        if ps.last().archived && lookup(state.projects@, ps.last().id@) is Some {
            rest.push((ps.last().name@, lookup(state.projects@, ps.last().id@)->0))
        } else {
            rest
        }
    }
}

/// The Solidtime projects to archive: those whose Clockify project is
/// archived, with the Clockify name.
pub fn projects_to_archive(projects: &[ClockifyProject], state: &MigrationState) -> (r: Vec<(String, String)>)
    ensures
        r@.map_values(|t: (String, String)| (t.0@, t.1@)) == archive_targets(projects@, *state),
{
    let mut r: Vec<(String, String)> = Vec::new();
    let mut i: usize = 0;
    while i < projects.len()
        invariant
            i <= projects.len(),
            r@.map_values(|t: (String, String)| (t.0@, t.1@)) == archive_targets(projects@.take(i as int), *state),
        decreases projects.len() - i,
    {
        assert(projects@.take(i + 1).drop_last() =~= projects@.take(i as int));
        let p = &projects[i];
        if p.archived {
            if let Some(id) = state.projects.get(p.id.as_str()) {
                let ghost before = r@;
                r.push((p.name.clone(), id.clone()));
                assert(r@.map_values(|t: (String, String)| (t.0@, t.1@)) =~= before.map_values(
                    |t: (String, String)| (t.0@, t.1@),
                ).push((p.name@, id@)));
            }
        }
        i = i + 1;
    }
    assert(projects@.take(projects.len() as int) =~= projects@);
    r
}

/// The start of the migrated range when none is given: 2000-01-01T00:00:00Z.
pub fn default_from() -> (t: Timestamp)
    ensures
        t == (Timestamp { seconds: 946_684_800, nanos: 0 }),
        t.wf(),
{
    Timestamp { seconds: 946_684_800, nanos: 0 }
}

/// The migrated range must not be empty: `from` must be before `to`.
pub fn check_range(from: &Timestamp, to: &Timestamp) -> (r: Result<(), MigrationError>)
    ensures
        from.before(*to) ==> r is Ok,
        !from.before(*to) ==> (r matches Err(e) && e@ == "--from must be before --to"@),
{
    if from.is_before(to) {
        Ok(())
    } else {
        Err(message("--from must be before --to"))
    }
}

/// Counts of what a migration run created, reused and archived.
#[derive(Debug, Default, Clone, Copy, PartialEq, Eq)]
pub struct Summary {
    pub clients_created: usize,
    pub clients_reused: usize,
    pub projects_created: usize,
    pub projects_reused: usize,
    pub tasks_created: usize,
    pub tasks_reused: usize,
    pub tags_created: usize,
    pub tags_reused: usize,
    pub time_entries_created: usize,
    pub time_entries_reused: usize,
    pub projects_archived: usize,
    pub archive_failures: usize,
}

/// One more, stopping at the largest count.
pub open spec fn one_more(n: usize) -> usize {
    if n < usize::MAX { (n + 1) as usize } else { n }
}

/// The kinds of record that a run counts.
#[derive(Debug, Clone, Copy, PartialEq, Eq)]
pub enum Counted {
    Client,
    Project,
    Task,
    Tag,
    TimeEntry,
}

/// How a planned client, project, task or tag counts once its plan is
/// carried out: a recorded or matched record as reused, a dry-run placeholder
/// as created, a created record as created unless the create met an existing
/// record that was adopted; a skipped record is not counted.
pub open spec fn structure_reuse(plan: PlanView, adopted: bool) -> Option<bool> {
    match plan {
        PlanView::Recorded => Some(true),
        PlanView::Reuse(_) => Some(true),
        PlanView::DryRun(_) => Some(false),
        PlanView::Create => Some(adopted),
        PlanView::Skip => None,
    }
}

/// How a planned time entry counts: a recorded or fingerprint-matched entry as
/// reused, a dry-run placeholder or a created entry as created; an entry of an
/// ignored project or one without a project is not counted.
pub open spec fn entry_reuse(plan: EntryPlanView) -> Option<bool> {
    match plan {
        EntryPlanView::Recorded => Some(true),
        EntryPlanView::Reuse(_) => Some(true),
        EntryPlanView::DryRun(_) => Some(false),
        EntryPlanView::Create(_) => Some(false),
        EntryPlanView::Ignored => None,
        EntryPlanView::NoProject => None,
    }
}

/// The summary with one more record of `kind`, reused or created.
pub open spec fn counted(s: Summary, kind: Counted, reused: bool) -> Summary {
    match (kind, reused) {
        (Counted::Client, true) => Summary { clients_reused: one_more(s.clients_reused), ..s },
        (Counted::Client, false) => Summary { clients_created: one_more(s.clients_created), ..s },
        (Counted::Project, true) => Summary { projects_reused: one_more(s.projects_reused), ..s },
        (Counted::Project, false) => Summary { projects_created: one_more(s.projects_created), ..s },
        (Counted::Task, true) => Summary { tasks_reused: one_more(s.tasks_reused), ..s },
        (Counted::Task, false) => Summary { tasks_created: one_more(s.tasks_created), ..s },
        (Counted::Tag, true) => Summary { tags_reused: one_more(s.tags_reused), ..s },
        (Counted::Tag, false) => Summary { tags_created: one_more(s.tags_created), ..s },
        (Counted::TimeEntry, true) => Summary { time_entries_reused: one_more(s.time_entries_reused), ..s },
        (Counted::TimeEntry, false) => Summary { time_entries_created: one_more(s.time_entries_created), ..s },
    }
}

impl Summary {
    /// Counts a record of `kind` as reused, or as created.
    pub fn count(&mut self, kind: Counted, reused: bool)
        ensures
            *final(self) == counted(*old(self), kind, reused),
    {
        match (kind, reused) {
            (Counted::Client, true) => self.clients_reused = self.clients_reused.saturating_add(1),
            (Counted::Client, false) => self.clients_created = self.clients_created.saturating_add(1),
            (Counted::Project, true) => self.projects_reused = self.projects_reused.saturating_add(1),
            (Counted::Project, false) => self.projects_created = self.projects_created.saturating_add(1),
            (Counted::Task, true) => self.tasks_reused = self.tasks_reused.saturating_add(1),
            (Counted::Task, false) => self.tasks_created = self.tasks_created.saturating_add(1),
            (Counted::Tag, true) => self.tags_reused = self.tags_reused.saturating_add(1),
            (Counted::Tag, false) => self.tags_created = self.tags_created.saturating_add(1),
            (Counted::TimeEntry, true) => self.time_entries_reused = self.time_entries_reused.saturating_add(1),
            (Counted::TimeEntry, false) => self.time_entries_created = self.time_entries_created.saturating_add(1),
        }
    }

    /// Counts a client, project, task or tag after its plan is carried out;
    /// `adopted` tells whether a create met an existing record.
    pub fn count_structure(&mut self, kind: Counted, plan: &StructurePlan, adopted: bool)
        ensures
            *final(self) == match structure_reuse(plan@, adopted) {
                Some(reused) => counted(*old(self), kind, reused),
                None => *old(self),
            },
    {
        match plan {
            StructurePlan::Recorded => self.count(kind, true),
            StructurePlan::Reuse(_) => self.count(kind, true),
            StructurePlan::DryRun(_) => self.count(kind, false),
            StructurePlan::Create => self.count(kind, adopted),
            StructurePlan::Skip => {},
        }
    }

    /// Counts a time entry after its plan is carried out.
    pub fn count_entry(&mut self, plan: &EntryPlan)
        ensures
            *final(self) == match entry_reuse(plan@) {
                Some(reused) => counted(*old(self), Counted::TimeEntry, reused),
                None => *old(self),
            },
    {
        match plan {
            EntryPlan::Recorded => self.count(Counted::TimeEntry, true),
            EntryPlan::Reuse(_) => self.count(Counted::TimeEntry, true),
            EntryPlan::DryRun(_) => self.count(Counted::TimeEntry, false),
            EntryPlan::Create(_) => self.count(Counted::TimeEntry, false),
            EntryPlan::Ignored => {},
            EntryPlan::NoProject => {},
        }
    }

    /// Starts archiving one project: a dry run sends no archive request and
    /// counts the project as archived at once; a real run sends the request
    /// (`true`), and its outcome is counted with `count_archive`.
    pub fn begin_archive(&mut self, dry_run: bool) -> (send: bool)
        ensures
            send == !dry_run,
            *final(self) == if dry_run {
                Summary { projects_archived: one_more(old(self).projects_archived), ..*old(self) }
            } else {
                *old(self)
            },
    {
        if dry_run {
            self.count_archive(true);
            false
        } else {
            true
        }
    }

    /// Counts an archive action on a project, that succeeded or failed.
    pub fn count_archive(&mut self, archived: bool)
        ensures
            *final(self) == if archived {
                Summary { projects_archived: one_more(old(self).projects_archived), ..*old(self) }
            } else {
                Summary { archive_failures: one_more(old(self).archive_failures), ..*old(self) }
            },
    {
        if archived {
            self.projects_archived = self.projects_archived.saturating_add(1);
        } else {
            self.archive_failures = self.archive_failures.saturating_add(1);
        }
    }
}

/// The lines of the migration summary.
pub open spec fn summary_text(s: Summary) -> Seq<char> {
    "Migration summary\n"@ + "  clients: "@ + decimal(s.clients_created as nat) + " created, "@ + decimal(s.clients_reused as nat)
        + " reused\n"@ + "  projects: "@ + decimal(s.projects_created as nat) + " created, "@ + decimal(
        s.projects_reused as nat,
    ) + " reused, "@ + decimal(s.projects_archived as nat) + " archived, "@ + decimal(s.archive_failures as nat)
        + " archive failures\n"@ + "  tasks: "@ + decimal(s.tasks_created as nat) + " created, "@ + decimal(
        s.tasks_reused as nat,
    ) + " reused\n"@ + "  tags: "@ + decimal(s.tags_created as nat) + " created, "@ + decimal(s.tags_reused as nat)
        + " reused\n"@ + "  time entries: "@ + decimal(s.time_entries_created as nat) + " created, "@ + decimal(
        s.time_entries_reused as nat,
    ) + " reused\n"@
}

/// The migration summary, one line per kind of record.
pub fn render_summary(summary: &Summary) -> (r: String)
    ensures
        r@ == summary_text(*summary),
{
    let mut r = String::new();
    r.append("Migration summary\n");
    r.append("  clients: ");
    r.append(decimal_text(summary.clients_created).as_str());
    r.append(" created, ");
    r.append(decimal_text(summary.clients_reused).as_str());
    r.append(" reused\n");
    r.append("  projects: ");
    r.append(decimal_text(summary.projects_created).as_str());
    r.append(" created, ");
    r.append(decimal_text(summary.projects_reused).as_str());
    r.append(" reused, ");
    r.append(decimal_text(summary.projects_archived).as_str());
    r.append(" archived, ");
    r.append(decimal_text(summary.archive_failures).as_str());
    r.append(" archive failures\n");
    r.append("  tasks: ");
    r.append(decimal_text(summary.tasks_created).as_str());
    r.append(" created, ");
    r.append(decimal_text(summary.tasks_reused).as_str());
    r.append(" reused\n");
    r.append("  tags: ");
    r.append(decimal_text(summary.tags_created).as_str());
    r.append(" created, ");
    r.append(decimal_text(summary.tags_reused).as_str());
    r.append(" reused\n");
    r.append("  time entries: ");
    r.append(decimal_text(summary.time_entries_created).as_str());
    r.append(" created, ");
    r.append(decimal_text(summary.time_entries_reused).as_str());
    r.append(" reused\n");
    r
}

/// Re-running creates no duplicate client, project, task or tag: once the
/// state records where a Clockify record went, the plan for it is to use that
/// record, in a dry run or not, whatever Solidtime holds.
pub proof fn recorded_structure_is_reused(
    map: Seq<(Seq<char>, Seq<char>)>,
    clockify_id: Seq<char>,
    solidtime_id: Seq<char>,
    matches: nat,
    matched_id: Seq<char>,
    dry_run: bool,
    create_structure: bool,
    kind: Seq<char>,
    name: Seq<char>,
    dry_run_id: Seq<char>,
    missing: Seq<char>,
)
    ensures
        structure_decision(
            lookup(put_result(map, clockify_id, solidtime_id), clockify_id) is Some,
            matches,
            matched_id,
            dry_run,
            create_structure,
            kind,
            name,
            dry_run_id,
            missing,
        ) == Ok::<PlanView, Seq<char>>(PlanView::Recorded),
{
    put_is_idempotent(map, clockify_id, solidtime_id);
}

/// Re-running creates no duplicate time entry: an entry that the state
/// records is reused (or left out with its ignored project), and no existing
/// entry is claimed for it.
pub proof fn recorded_entry_is_reused(
    entry: ClockifyTimeEntry,
    member: Seq<char>,
    state: MigrationState,
    mappings: ProjectMappings,
    ignored: Set<Seq<char>>,
    fingerprints: Seq<(Seq<char>, Seq<Seq<char>>)>,
    dry_run: bool,
)
    requires
        lookup(state.time_entries@, entry.id@) is Some,
    ensures
        entry_decision(entry, member, state, mappings, ignored, fingerprints, dry_run) matches Ok((plan, rest)) && rest
            == fingerprints && (plan is Recorded || plan is Ignored),
{
}

/// The five maps of a migration state.
pub struct StateMaps {
    pub clients: Seq<(Seq<char>, Seq<char>)>,
    pub projects: Seq<(Seq<char>, Seq<char>)>,
    pub tasks: Seq<(Seq<char>, Seq<char>)>,
    pub tags: Seq<(Seq<char>, Seq<char>)>,
    pub time_entries: Seq<(Seq<char>, Seq<char>)>,
}

/// The maps of a migration state.
pub open spec fn state_maps(s: MigrationState) -> StateMaps {
    StateMaps {
        clients: s.clients@,
        projects: s.projects@,
        tasks: s.tasks@,
        tags: s.tags@,
        time_entries: s.time_entries@,
    }
}

/// The map that records records of `kind`.
pub open spec fn kind_map(m: StateMaps, kind: Counted) -> Seq<(Seq<char>, Seq<char>)> {
    match kind {
        Counted::Client => m.clients,
        Counted::Project => m.projects,
        Counted::Task => m.tasks,
        Counted::Tag => m.tags,
        Counted::TimeEntry => m.time_entries,
    }
}

/// The maps after recording `k -> v` for a record of `kind`.
pub open spec fn maps_put(m: StateMaps, kind: Counted, k: Seq<char>, v: Seq<char>) -> StateMaps {
    match kind {
        Counted::Client => StateMaps { clients: put_result(m.clients, k, v), ..m },
        Counted::Project => StateMaps { projects: put_result(m.projects, k, v), ..m },
        Counted::Task => StateMaps { tasks: put_result(m.tasks, k, v), ..m },
        Counted::Tag => StateMaps { tags: put_result(m.tags, k, v), ..m },
        Counted::TimeEntry => StateMaps { time_entries: put_result(m.time_entries, k, v), ..m },
    }
}

/// Whether a run records a client, project, task or tag after its plan: a
/// matched, placeholder or created record is recorded; a record that the
/// state holds already, or a skipped one, is left as it is.
pub open spec fn structure_records(plan: PlanView) -> bool {
    plan is Reuse || plan is DryRun || plan is Create
}

/// Whether a run records a time entry after its plan: a matched, placeholder
/// or created entry is recorded; a recorded, ignored or skipped one is not.
pub open spec fn entry_records(plan: EntryPlanView) -> bool {
    plan is Reuse || plan is DryRun || plan is Create
}

/// Records what the plan for a client, project, task or tag came to, under
/// `solid_id`: the id that the plan gave or that its create returned. Tells
/// whether the state is then to be saved.
pub fn record_structure(state: &mut MigrationState, kind: Counted, clockify_id: &str, plan: &StructurePlan, solid_id: &str) -> (save: bool)
    ensures
        state_maps(*final(state)) == if structure_records(plan@) {
            maps_put(state_maps(*old(state)), kind, clockify_id@, solid_id@)
        } else {
            state_maps(*old(state))
        },
        save == final(state).spec_needs_persist(),
{
    let records = match plan {
        StructurePlan::Reuse(_) | StructurePlan::DryRun(_) | StructurePlan::Create => true,
        StructurePlan::Recorded | StructurePlan::Skip => false,
    };
    if !records {
        return state.needs_persist();
    }
    match kind {
        Counted::Client => state.put_client(clockify_id, solid_id),
        Counted::Project => state.put_project(clockify_id, solid_id),
        Counted::Task => state.put_task(clockify_id, solid_id),
        Counted::Tag => state.put_tag(clockify_id, solid_id),
        Counted::TimeEntry => state.put_time_entry(clockify_id, solid_id),
    }
}

impl<'a> EntryPlan<'a> {
    /// Whether a run records the time entry after this plan.
    pub fn records(&self) -> (r: bool)
        ensures
            r == entry_records(self@),
    {
        match self {
            EntryPlan::Reuse(_) | EntryPlan::DryRun(_) | EntryPlan::Create(_) => true,
            EntryPlan::Recorded | EntryPlan::Ignored | EntryPlan::NoProject => false,
        }
    }
}

/// Records what the plan for a time entry came to, where `records` tells
/// that the plan records it (`EntryPlan::records`), under `solid_id`: the id
/// that the plan gave or that its create returned. Tells whether the state is
/// then to be saved.
pub fn record_entry(state: &mut MigrationState, clockify_id: &str, records: bool, solid_id: &str) -> (save: bool)
    ensures
        state_maps(*final(state)) == if records {
            maps_put(state_maps(*old(state)), Counted::TimeEntry, clockify_id@, solid_id@)
        } else {
            state_maps(*old(state))
        },
        save == final(state).spec_needs_persist(),
{
    if !records {
        return state.needs_persist();
    }
    state.put_time_entry(clockify_id, solid_id)
}

/// The maps after a run has recorded its steps in turn; each step is the kind
/// of record, its Clockify id, whether its plan records it, and the Solidtime
/// id recorded for it.
pub open spec fn run_maps(m: StateMaps, steps: Seq<(Counted, Seq<char>, bool, Seq<char>)>) -> StateMaps
    decreases steps.len(),
{
    if steps.len() == 0 {
        m
    } else {
        let prev = run_maps(m, steps.drop_last());
        let st = steps.last();
        if st.2 {
            maps_put(prev, st.0, st.1, st.3)
        } else {
            prev
        }
    }
}

proof fn lemma_maps_put_keeps(m: StateMaps, kind: Counted, k: Seq<char>, v: Seq<char>, kind2: Counted, q: Seq<char>)
    requires
        lookup(kind_map(m, kind2), q) is Some,
    ensures
        lookup(kind_map(maps_put(m, kind, k, v), kind2), q) is Some,
{
    crate::mapping::put_then_lookup(kind_map(m, kind), k, v, q);
}

proof fn lemma_run_maps_records(
    m: StateMaps,
    steps: Seq<(Counted, Seq<char>, bool, Seq<char>)>,
    n: int,
    kind: Counted,
    id: Seq<char>,
)
    requires
        0 <= n <= steps.len(),
        lookup(kind_map(run_maps(m, steps.take(n)), kind), id) is Some,
    ensures
        lookup(kind_map(run_maps(m, steps), kind), id) is Some,
    decreases steps.len() - n,
{
    if n < steps.len() {
        assert(steps.take(n + 1).drop_last() =~= steps.take(n));
        let st = steps[n];
        if st.2 {
            lemma_maps_put_keeps(run_maps(m, steps.take(n)), st.0, st.1, st.3, kind, id);
        }
        lemma_run_maps_records(m, steps, n + 1, kind, id);
    } else {
        assert(steps.take(n) =~= steps);
    }
}

/// Running a migration twice creates each record at most once: the first run
/// carries out its plans in turn, recording each matched, placeholder or
/// created record under the Solidtime id its plan gave or its create returned
/// (`record_structure`, `record_entry`). Every record the first run recorded,
/// or found recorded already, is then held by the state the second run starts
/// from, and the second run plans it as recorded, whatever Solidtime then
/// holds and in a dry run or not: no client, project, task, tag or time entry
/// is created for it again, and a time entry claims no existing entry.
pub proof fn two_runs_create_each_record_once(
    first: MigrationState,
    steps: Seq<(Counted, Seq<char>, bool, Seq<char>)>,
    second: MigrationState,
    i: int,
)
    requires
        0 <= i < steps.len(),
        state_maps(second) == run_maps(state_maps(first), steps),
        steps[i].2 || lookup(kind_map(run_maps(state_maps(first), steps.take(i)), steps[i].0), steps[i].1) is Some,
    ensures
        lookup(kind_map(state_maps(second), steps[i].0), steps[i].1) is Some,
        steps[i].0 !is TimeEntry ==> forall|
            matches: nat,
            matched_id: Seq<char>,
            dry_run: bool,
            create_structure: bool,
            kind: Seq<char>,
            name: Seq<char>,
            dry_run_id: Seq<char>,
            missing: Seq<char>,
        |
            #[trigger] structure_decision(
                lookup(kind_map(state_maps(second), steps[i].0), steps[i].1) is Some,
                matches,
                matched_id,
                dry_run,
                create_structure,
                kind,
                name,
                dry_run_id,
                missing,
            ) == Ok::<PlanView, Seq<char>>(PlanView::Recorded),
        steps[i].0 is TimeEntry ==> forall|
            entry: ClockifyTimeEntry,
            member: Seq<char>,
            mappings: ProjectMappings,
            ignored: Set<Seq<char>>,
            fingerprints: Seq<(Seq<char>, Seq<Seq<char>>)>,
            dry_run: bool,
        |
            entry.id@ == steps[i].1 ==> (#[trigger] entry_decision(entry, member, second, mappings, ignored, fingerprints, dry_run) matches Ok(
                (plan, rest),
            ) && rest == fingerprints && (plan is Recorded || plan is Ignored)),
{
    let m0 = state_maps(first);
    let st = steps[i];
    assert(steps.take(i + 1).drop_last() =~= steps.take(i));
    assert(steps.take(i + 1).last() == st);
    if st.2 {
        crate::mapping::put_then_lookup(kind_map(run_maps(m0, steps.take(i)), st.0), st.1, st.3, st.1);
    } else {
        assert(run_maps(m0, steps.take(i + 1)) == run_maps(m0, steps.take(i)));
    }
    lemma_run_maps_records(m0, steps, i + 1, st.0, st.1);
    if st.0 is TimeEntry {
        assert forall|
            entry: ClockifyTimeEntry,
            member: Seq<char>,
            mappings: ProjectMappings,
            ignored: Set<Seq<char>>,
            fingerprints: Seq<(Seq<char>, Seq<Seq<char>>)>,
            dry_run: bool,
        |
            entry.id@ == st.1 implies (#[trigger] entry_decision(entry, member, second, mappings, ignored, fingerprints, dry_run) matches Ok(
                (plan, rest),
            ) && rest == fingerprints && (plan is Recorded || plan is Ignored)) by {
            recorded_entry_is_reused(entry, member, second, mappings, ignored, fingerprints, dry_run);
        }
    }
}

/// A dry run creates no client, project, task or tag.
pub proof fn dry_run_creates_no_structure(
    recorded: bool,
    matches: nat,
    matched_id: Seq<char>,
    create_structure: bool,
    kind: Seq<char>,
    name: Seq<char>,
    dry_run_id: Seq<char>,
    missing: Seq<char>,
)
    ensures
        !(structure_decision(recorded, matches, matched_id, true, create_structure, kind, name, dry_run_id, missing) matches Ok(
            PlanView::Create,
        )),
{
}

/// A dry run creates no time entry.
pub proof fn dry_run_creates_no_entries(
    entry: ClockifyTimeEntry,
    member: Seq<char>,
    state: MigrationState,
    mappings: ProjectMappings,
    ignored: Set<Seq<char>>,
    fingerprints: Seq<(Seq<char>, Seq<Seq<char>>)>,
)
    ensures
        !(entry_decision(entry, member, state, mappings, ignored, fingerprints, true) matches Ok((EntryPlanView::Create(_), _))),
{
}

/// A dry run never asks for a mapped task to be created.
pub proof fn dry_run_creates_no_mapped_task(
    row: ProjectMappingRow,
    acc: (Seq<(Seq<char>, Seq<char>)>, Seq<(Seq<char>, Seq<char>)>, Seq<(Seq<char>, Seq<char>)>),
    ctx: MappingInputs,
    created: Option<Seq<char>>,
)
    requires
        ctx.dry_run,
    ensures
        !(mapping_row_step(row, acc, ctx, created) matches Ok((true, _))),
{
}

/// Without structure creation, a run never asks for a mapped task to be
/// created either.
pub proof fn no_create_structure_creates_no_mapped_task(
    row: ProjectMappingRow,
    acc: (Seq<(Seq<char>, Seq<char>)>, Seq<(Seq<char>, Seq<char>)>, Seq<(Seq<char>, Seq<char>)>),
    ctx: MappingInputs,
    created: Option<Seq<char>>,
)
    requires
        !ctx.create_structure,
    ensures
        !(mapping_row_step(row, acc, ctx, created) matches Ok((true, _))),
{
}

/// Re-running without the state file creates no duplicate time entry when
/// Solidtime already holds an entry with the same content: planned against the
/// fingerprints of the entries read from Solidtime, such an entry is reused.
pub proof fn existing_entry_is_reused(
    entry: ClockifyTimeEntry,
    member: Seq<char>,
    state: MigrationState,
    mappings: ProjectMappings,
    ignored: Set<Seq<char>>,
    existing: Seq<SolidtimeTimeEntry>,
    i: int,
    dry_run: bool,
)
    requires
        !(opt_view(entry.project_id) matches Some(p) && ignored.contains(p)),
        lookup(state.time_entries@, entry.id@) is None,
        0 <= i < existing.len(),
        entry_body(entry, member, state, mappings) matches Ok(Some(v)) && fingerprint_text(v) == fingerprint_text(
            existing_entry_view(existing[i], member),
        ),
    ensures
        entry_decision(
            entry,
            member,
            state,
            mappings,
            ignored,
            group_all(Seq::empty(), existing_fingerprints(existing, member), crate::compare::text_order()),
            dry_run,
        ) matches Ok((EntryPlanView::Reuse(_), _)),
{
    let v = entry_body(entry, member, state, mappings)->Ok_0->Some_0;
    existing_entry_is_found_by_fingerprint(existing, member, i, v);
}

} // verus!
