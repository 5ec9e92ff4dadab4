//! The errors that the migration logic reports, each known by its message.
use vstd::prelude::*;

use crate::text::{debug_text, spec_debug_text};

verus! {

/// An error of the migration logic; its view is the message it reports.
#[derive(Debug)]
pub struct MigrationError {
    pub message: String,
}

impl View for MigrationError {
    type V = Seq<char>;

    open spec fn view(&self) -> Seq<char> {
        self.message@
    }
}

impl MigrationError {
    /// The message of the error.
    pub fn to_string(&self) -> (r: String)
        ensures
            r@ == self@,
    {
        self.message.clone()
    }
}

/// Several records of one kind match a name.
pub open spec fn ambiguous_message(kind: Seq<char>, name: Seq<char>) -> Seq<char> {
    "multiple Solidtime "@ + kind + " records match "@ + spec_debug_text(name) + "; refusing to guess"@
}

/// No record of a kind has the id that a mapping row gives.
pub open spec fn id_not_found_message(kind: Seq<char>, id: Seq<char>) -> Seq<char> {
    kind + " ID "@ + spec_debug_text(id) + " from mapping was not found"@
}

/// No record of a kind has the name that a mapping row gives.
pub open spec fn name_not_found_message(kind: Seq<char>, name: Seq<char>) -> Seq<char> {
    kind + " "@ + spec_debug_text(name) + " from mapping was not found"@
}

/// A Clockify task given by id lies outside the mapped Clockify project.
pub open spec fn clockify_task_outside_message(id: Seq<char>, project_id: Seq<char>) -> Seq<char> {
    "Clockify task ID "@ + spec_debug_text(id) + " from mapping does not belong to Clockify project "@ + project_id
}

/// No Clockify task of the mapped project has the given name.
pub open spec fn clockify_task_missing_message(name: Seq<char>, project_id: Seq<char>) -> Seq<char> {
    "Clockify task "@ + spec_debug_text(name) + " from mapping was not found under Clockify project "@ + project_id
}

/// A Solidtime task given by id lies outside the mapped Solidtime project.
pub open spec fn solidtime_task_outside_message(id: Seq<char>, project_name: Seq<char>) -> Seq<char> {
    "Solidtime task ID "@ + spec_debug_text(id) + " from mapping does not belong to Solidtime project "@ + spec_debug_text(project_name)
}

/// No Solidtime task of the mapped project has the given name.
pub open spec fn solidtime_task_missing_message(name: Seq<char>, project_name: Seq<char>) -> Seq<char> {
    "Solidtime task "@ + spec_debug_text(name) + " from mapping was not found under Solidtime project "@ + spec_debug_text(project_name)
}

/// The state file already maps a Clockify record elsewhere than the CSV does.
pub open spec fn state_conflict_message(kind: Seq<char>, clockify_id: Seq<char>, existing: Seq<char>, solidtime_id: Seq<char>) -> Seq<char> {
    "mapping conflict for Clockify "@ + kind + " "@ + clockify_id + ": migration-state.json points to "@ + existing + ", but CSV points to "@ + solidtime_id
}

/// The CSV maps one Clockify record to two Solidtime records.
pub open spec fn csv_conflict_message(kind: Seq<char>, clockify_id: Seq<char>, existing: Seq<char>, solidtime_id: Seq<char>) -> Seq<char> {
    "mapping conflict for Clockify "@ + kind + " "@ + clockify_id + ": CSV points to both "@ + existing + " and "@ + solidtime_id
}

pub fn ambiguous(kind: &str, name: &str) -> (e: MigrationError)
    ensures
        e@ == ambiguous_message(kind@, name@),
{
    let mut m = String::new();
    m.append("multiple Solidtime ");
    m.append(kind);
    m.append(" records match ");
    m.append(debug_text(name).as_str());
    m.append("; refusing to guess");
    MigrationError { message: m }
}

pub fn id_not_found(kind: &str, id: &str) -> (e: MigrationError)
    ensures
        e@ == id_not_found_message(kind@, id@),
{
    let mut m = String::new();
    m.append(kind);
    m.append(" ID ");
    m.append(debug_text(id).as_str());
    m.append(" from mapping was not found");
    MigrationError { message: m }
}

pub fn name_not_found(kind: &str, name: &str) -> (e: MigrationError)
    ensures
        e@ == name_not_found_message(kind@, name@),
{
    let mut m = String::new();
    m.append(kind);
    m.append(" ");
    m.append(debug_text(name).as_str());
    m.append(" from mapping was not found");
    MigrationError { message: m }
}

pub fn clockify_task_outside(id: &str, project_id: &str) -> (e: MigrationError)
    ensures
        e@ == clockify_task_outside_message(id@, project_id@),
{
    let mut m = String::new();
    m.append("Clockify task ID ");
    m.append(debug_text(id).as_str());
    m.append(" from mapping does not belong to Clockify project ");
    m.append(project_id);
    MigrationError { message: m }
}

pub fn clockify_task_missing(name: &str, project_id: &str) -> (e: MigrationError)
    ensures
        e@ == clockify_task_missing_message(name@, project_id@),
{
    let mut m = String::new();
    m.append("Clockify task ");
    m.append(debug_text(name).as_str());
    m.append(" from mapping was not found under Clockify project ");
    m.append(project_id);
    MigrationError { message: m }
}

pub fn solidtime_task_outside(id: &str, project_name: &str) -> (e: MigrationError)
    ensures
        e@ == solidtime_task_outside_message(id@, project_name@),
{
    let mut m = String::new();
    m.append("Solidtime task ID ");
    m.append(debug_text(id).as_str());
    m.append(" from mapping does not belong to Solidtime project ");
    m.append(debug_text(project_name).as_str());
    MigrationError { message: m }
}

pub fn solidtime_task_missing(name: &str, project_name: &str) -> (e: MigrationError)
    ensures
        e@ == solidtime_task_missing_message(name@, project_name@),
{
    let mut m = String::new();
    m.append("Solidtime task ");
    m.append(debug_text(name).as_str());
    m.append(" from mapping was not found under Solidtime project ");
    m.append(debug_text(project_name).as_str());
    MigrationError { message: m }
}

pub fn state_conflict(kind: &str, clockify_id: &str, existing: &str, solidtime_id: &str) -> (e: MigrationError)
    ensures
        e@ == state_conflict_message(kind@, clockify_id@, existing@, solidtime_id@),
{
    let mut m = String::new();
    m.append("mapping conflict for Clockify ");
    m.append(kind);
    m.append(" ");
    m.append(clockify_id);
    m.append(": migration-state.json points to ");
    m.append(existing);
    m.append(", but CSV points to ");
    m.append(solidtime_id);
    MigrationError { message: m }
}

pub fn csv_conflict(kind: &str, clockify_id: &str, existing: &str, solidtime_id: &str) -> (e: MigrationError)
    ensures
        e@ == csv_conflict_message(kind@, clockify_id@, existing@, solidtime_id@),
{
    let mut m = String::new();
    m.append("mapping conflict for Clockify ");
    m.append(kind);
    m.append(" ");
    m.append(clockify_id);
    m.append(": CSV points to both ");
    m.append(existing);
    m.append(" and ");
    m.append(solidtime_id);
    MigrationError { message: m }
}

/// A message built from literal text and one value.
pub fn message(text: &str) -> (e: MigrationError)
    ensures
        e@ == text@,
{
    MigrationError { message: text.to_owned() }
}

} // verus!
