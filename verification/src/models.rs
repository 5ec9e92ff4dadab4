//! The records that the Clockify and Solidtime APIs exchange with the tool.
use vstd::prelude::*;

verus! {

/// An instant: whole seconds since the Unix epoch and the nanoseconds past them.
#[derive(Debug, Clone, Copy, PartialEq, Eq)]
pub struct Timestamp {
    pub seconds: i64,
    pub nanos: u32,
}

/// The seconds of the earliest and latest instant that the library handles:
/// some 253,500 years around the epoch. chrono represents instants up to
/// about 8.2e12 seconds either side (the years -262,143 to 262,142); staying
/// well inside that range leaves room for the start of the month after any
/// handled instant, which the monthly windows need, and keeps every year that
/// the calendar functions see in chrono's range. A handled instant also has
/// fewer than 1e9 nanoseconds: chrono's leap-second representation, with
/// nanoseconds from 1e9, is not handled, because the RFC 3339 text of such an
/// instant depends on more than its seconds.
pub const TIMESTAMP_LIMIT: i64 = 8_000_000_000_000;

impl Timestamp {
    /// Nanoseconds below one second and the instant within the handled range.
    pub open spec fn wf(self) -> bool {
        &&& self.nanos < 1_000_000_000
        &&& -TIMESTAMP_LIMIT <= self.seconds <= TIMESTAMP_LIMIT
    }

    /// Whether `self` is strictly earlier than `other`.
    pub open spec fn before(self, other: Timestamp) -> bool {
        self.seconds < other.seconds || (self.seconds == other.seconds && self.nanos < other.nanos)
    }

    /// Whether the instant has valid nanoseconds and lies in the handled range.
    pub fn is_valid(&self) -> (r: bool)
        ensures
            r == self.wf(),
    {
        self.nanos < 1_000_000_000 && -TIMESTAMP_LIMIT <= self.seconds && self.seconds <= TIMESTAMP_LIMIT
    }

    /// Whether `self` is strictly earlier than `other`.
    pub fn is_before(&self, other: &Timestamp) -> (r: bool)
        ensures
            r == self.before(*other),
    {
        self.seconds < other.seconds || (self.seconds == other.seconds && self.nanos < other.nanos)
    }
}

#[derive(Debug)]
pub struct ClockifyUser {
    pub id: String,
    pub default_workspace: Option<String>,
}

#[derive(Debug, Clone)]
pub struct ClockifyWorkspace {
    pub id: String,
    pub name: String,
}

#[derive(Debug, Clone)]
pub struct ClockifyClient {
    pub id: String,
    pub name: String,
}

#[derive(Debug, Clone)]
pub struct ClockifyProject {
    pub id: String,
    pub name: String,
    pub client_id: Option<String>,
    pub color: Option<String>,
    pub billable: bool,
    pub archived: bool,
    pub estimate: Option<ClockifyEstimate>,
}

#[derive(Debug, Clone)]
pub struct ClockifyTask {
    pub id: String,
    pub name: String,
    pub project_id: Option<String>,
    pub estimate: Option<String>,
}

#[derive(Debug, Clone)]
pub struct ClockifyTag {
    pub id: String,
    pub name: String,
}

#[derive(Debug, Clone)]
pub struct ClockifyEstimate {
    pub estimate: Option<String>,
}

#[derive(Debug, Clone)]
pub struct ClockifyTimeEntry {
    pub id: String,
    pub description: Option<String>,
    pub billable: bool,
    pub project_id: Option<String>,
    pub task_id: Option<String>,
    pub tag_ids: Vec<String>,
    pub time_interval: ClockifyTimeInterval,
}

#[derive(Debug, Clone)]
pub struct ClockifyTimeInterval {
    pub start: Timestamp,
    pub end: Option<Timestamp>,
}

#[derive(Debug, Clone)]
pub struct SolidtimeMembership {
    pub organization: SolidtimeOrganization,
    pub member_id: String,
}

#[derive(Debug, Clone)]
pub struct SolidtimeOrganization {
    pub id: String,
    pub name: String,
}

#[derive(Debug, Clone)]
pub struct SolidtimeClient {
    pub id: String,
    pub name: String,
}

#[derive(Debug, Clone)]
pub struct SolidtimeProject {
    pub id: String,
    pub name: String,
    pub client_id: Option<String>,
    pub is_archived: bool,
}

#[derive(Debug, Clone)]
pub struct SolidtimeTask {
    pub id: String,
    pub name: String,
    pub project_id: String,
}

#[derive(Debug, Clone)]
pub struct SolidtimeTag {
    pub id: String,
    pub name: String,
}

#[derive(Debug, Clone)]
pub struct SolidtimeTimeEntry {
    pub id: String,
    pub project_id: Option<String>,
    pub task_id: Option<String>,
    pub start: Timestamp,
    pub end: Option<Timestamp>,
    pub billable: bool,
    pub description: Option<String>,
    pub tags: Vec<String>,
}

#[derive(Debug)]
pub struct SolidtimeClientCreate<'a> {
    pub name: &'a str,
}

#[derive(Debug)]
pub struct SolidtimeProjectCreate<'a> {
    pub name: &'a str,
    pub color: &'a str,
    pub is_billable: bool,
    pub billable_rate: Option<i64>,
    pub client_id: Option<&'a str>,
    pub estimated_time: Option<i64>,
    pub is_public: bool,
}

#[derive(Debug)]
pub struct SolidtimeProjectArchive {
    pub archived_at: String,
    pub is_archived: bool,
}

#[derive(Debug)]
pub struct SolidtimeTaskCreate<'a> {
    pub name: &'a str,
    pub project_id: &'a str,
    pub estimated_time: Option<i64>,
}

#[derive(Debug)]
pub struct SolidtimeTagCreate<'a> {
    pub name: &'a str,
}

/// The content of a time entry to create, as text.
pub struct EntryView {
    pub member: Seq<char>,
    pub project: Option<Seq<char>>,
    pub task: Option<Seq<char>>,
    pub start: Seq<char>,
    pub end: Option<Seq<char>>,
    pub billable: bool,
    pub description: Option<Seq<char>>,
    pub tags: Seq<Seq<char>>,
}

#[derive(Debug)]
pub struct SolidtimeTimeEntryCreate<'a> {
    pub member_id: &'a str,
    pub project_id: Option<&'a str>,
    pub task_id: Option<&'a str>,
    pub start: String,
    pub end: Option<String>,
    pub billable: bool,
    pub description: Option<&'a str>,
    pub tags: Vec<&'a str>,
}

impl<'a> View for SolidtimeTimeEntryCreate<'a> {
    type V = EntryView;

    open spec fn view(&self) -> EntryView {
        EntryView {
            member: self.member_id@,
            project: match self.project_id {
                Some(p) => Some(p@),
                None => None,
            },
            task: match self.task_id {
                Some(t) => Some(t@),
                None => None,
            },
            start: self.start@,
            end: match self.end {
                Some(e) => Some(e@),
                None => None,
            },
            billable: self.billable,
            description: match self.description {
                Some(d) => Some(d@),
                None => None,
            },
            tags: self.tags@.map_values(|t: &str| t@),
        }
    }
}

} // verus!
