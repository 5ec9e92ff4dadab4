//! The migration state: which Solidtime record each Clockify record became.
use vstd::prelude::*;

use crate::string_map::{lookup, pairs_insert, StringMap};
use crate::text::{opt_view, owned};

verus! {

/// The recorded mappings from Clockify ids to Solidtime ids, the end of the
/// last migrated range, whether unsaved changes exist and whether this is a
/// dry run, which never saves.
#[derive(Debug)]
pub struct MigrationState {
    pub clients: StringMap,
    pub projects: StringMap,
    pub tasks: StringMap,
    pub tags: StringMap,
    pub time_entries: StringMap,
    pub last_cutoff: Option<String>,
    pub dirty: bool,
    pub dry_run: bool,
}

/// What recording `clockify_id -> solidtime_id` makes of a map: unchanged when
/// it already holds that pair, else the pair set.
pub open spec fn put_result(
    m: Seq<(Seq<char>, Seq<char>)>,
    clockify_id: Seq<char>,
    solidtime_id: Seq<char>,
) -> Seq<(Seq<char>, Seq<char>)> {
    if lookup(m, clockify_id) == Some(solidtime_id) {
        m
    } else {
        pairs_insert(m, clockify_id, solidtime_id)
    }
}

/// Records `clockify_id -> solidtime_id`, marking the state changed when the
/// map did not already hold that pair.
pub fn put(map: &mut StringMap, dirty: &mut bool, clockify_id: &str, solidtime_id: &str)
    ensures
        final(map)@ == put_result(old(map)@, clockify_id@, solidtime_id@),
        *final(dirty) == (*old(dirty) || lookup(old(map)@, clockify_id@) != Some(solidtime_id@)),
{
    let same = match map.get(clockify_id) {
        Some(existing) => crate::text::text_eq(existing.as_str(), solidtime_id),
        None => false,
    };
    if !same {
        map.insert(owned(clockify_id), owned(solidtime_id));
        *dirty = true;
    }
}

impl MigrationState {
    /// Unsaved changes exist.
    pub open spec fn spec_dirty(&self) -> bool {
        self.dirty
    }

    /// This state belongs to a dry run.
    pub open spec fn spec_dry_run(&self) -> bool {
        self.dry_run
    }

    /// Whether a save is due: changes exist and this is no dry run.
    pub open spec fn spec_needs_persist(&self) -> bool {
        self.spec_dirty() && !self.spec_dry_run()
    }

    /// An empty state.
    pub fn new(dry_run: bool) -> (s: MigrationState)
        ensures
            s.clients@.len() == 0,
            s.projects@.len() == 0,
            s.tasks@.len() == 0,
            s.tags@.len() == 0,
            s.time_entries@.len() == 0,
            s.last_cutoff is None,
            !s.spec_dirty(),
            s.spec_dry_run() == dry_run,
    {
        MigrationState {
            clients: StringMap::new(),
            projects: StringMap::new(),
            tasks: StringMap::new(),
            tags: StringMap::new(),
            time_entries: StringMap::new(),
            last_cutoff: None,
            dirty: false,
            dry_run,
        }
    }

    /// A state read back from a saved file, with no unsaved changes.
    pub fn restore(
        clients: StringMap,
        projects: StringMap,
        tasks: StringMap,
        tags: StringMap,
        time_entries: StringMap,
        last_cutoff: Option<String>,
        dry_run: bool,
    ) -> (s: MigrationState)
        ensures
            s.clients@ == clients@,
            s.projects@ == projects@,
            s.tasks@ == tasks@,
            s.tags@ == tags@,
            s.time_entries@ == time_entries@,
            opt_view(s.last_cutoff) == opt_view(last_cutoff),
            !s.spec_dirty(),
            s.spec_dry_run() == dry_run,
    {
        MigrationState { clients, projects, tasks, tags, time_entries, last_cutoff, dirty: false, dry_run }
    }

    /// Whether unsaved changes exist.
    pub fn is_dirty(&self) -> (r: bool)
        ensures
            r == self.spec_dirty(),
    {
        self.dirty
    }

    /// Whether this state belongs to a dry run.
    pub fn is_dry_run(&self) -> (r: bool)
        ensures
            r == self.spec_dry_run(),
    {
        self.dry_run
    }

    /// Whether a save is due: changes exist and this is no dry run.
    pub fn needs_persist(&self) -> (r: bool)
        ensures
            r == self.spec_needs_persist(),
    {
        self.dirty && !self.dry_run
    }

    /// Records that the state was saved.
    pub fn mark_persisted(&mut self)
        ensures
            final(self).clients@ == old(self).clients@,
            final(self).projects@ == old(self).projects@,
            final(self).tasks@ == old(self).tasks@,
            final(self).tags@ == old(self).tags@,
            final(self).time_entries@ == old(self).time_entries@,
            opt_view(final(self).last_cutoff) == opt_view(old(self).last_cutoff),
            !final(self).spec_dirty(),
            final(self).spec_dry_run() == old(self).spec_dry_run(),
    {
        self.dirty = false;
    }

    /// Records a client mapping; returns whether a save is now due.
    pub fn put_client(&mut self, clockify_id: &str, solidtime_id: &str) -> (save: bool)
        ensures
            final(self).clients@ == put_result(old(self).clients@, clockify_id@, solidtime_id@),
            final(self).projects@ == old(self).projects@,
            final(self).tasks@ == old(self).tasks@,
            final(self).tags@ == old(self).tags@,
            final(self).time_entries@ == old(self).time_entries@,
            opt_view(final(self).last_cutoff) == opt_view(old(self).last_cutoff),
            final(self).spec_dirty() == (old(self).spec_dirty() || lookup(old(self).clients@, clockify_id@) != Some(solidtime_id@)),
            final(self).spec_dry_run() == old(self).spec_dry_run(),
            save == final(self).spec_needs_persist(),
    {
        put(&mut self.clients, &mut self.dirty, clockify_id, solidtime_id);
        self.dirty && !self.dry_run
    }

    /// Records a project mapping; returns whether a save is now due.
    pub fn put_project(&mut self, clockify_id: &str, solidtime_id: &str) -> (save: bool)
        ensures
            final(self).projects@ == put_result(old(self).projects@, clockify_id@, solidtime_id@),
            final(self).clients@ == old(self).clients@,
            final(self).tasks@ == old(self).tasks@,
            final(self).tags@ == old(self).tags@,
            final(self).time_entries@ == old(self).time_entries@,
            opt_view(final(self).last_cutoff) == opt_view(old(self).last_cutoff),
            final(self).spec_dirty() == (old(self).spec_dirty() || lookup(old(self).projects@, clockify_id@) != Some(solidtime_id@)),
            final(self).spec_dry_run() == old(self).spec_dry_run(),
            save == final(self).spec_needs_persist(),
    {
        put(&mut self.projects, &mut self.dirty, clockify_id, solidtime_id);
        self.dirty && !self.dry_run
    }

    /// Records a task mapping; returns whether a save is now due.
    pub fn put_task(&mut self, clockify_id: &str, solidtime_id: &str) -> (save: bool)
        ensures
            final(self).tasks@ == put_result(old(self).tasks@, clockify_id@, solidtime_id@),
            final(self).clients@ == old(self).clients@,
            final(self).projects@ == old(self).projects@,
            final(self).tags@ == old(self).tags@,
            final(self).time_entries@ == old(self).time_entries@,
            opt_view(final(self).last_cutoff) == opt_view(old(self).last_cutoff),
            final(self).spec_dirty() == (old(self).spec_dirty() || lookup(old(self).tasks@, clockify_id@) != Some(solidtime_id@)),
            final(self).spec_dry_run() == old(self).spec_dry_run(),
            save == final(self).spec_needs_persist(),
    {
        put(&mut self.tasks, &mut self.dirty, clockify_id, solidtime_id);
        self.dirty && !self.dry_run
    }

    /// Records a tag mapping; returns whether a save is now due.
    pub fn put_tag(&mut self, clockify_id: &str, solidtime_id: &str) -> (save: bool)
        ensures
            final(self).tags@ == put_result(old(self).tags@, clockify_id@, solidtime_id@),
            final(self).clients@ == old(self).clients@,
            final(self).projects@ == old(self).projects@,
            final(self).tasks@ == old(self).tasks@,
            final(self).time_entries@ == old(self).time_entries@,
            opt_view(final(self).last_cutoff) == opt_view(old(self).last_cutoff),
            final(self).spec_dirty() == (old(self).spec_dirty() || lookup(old(self).tags@, clockify_id@) != Some(solidtime_id@)),
            final(self).spec_dry_run() == old(self).spec_dry_run(),
            save == final(self).spec_needs_persist(),
    {
        put(&mut self.tags, &mut self.dirty, clockify_id, solidtime_id);
        self.dirty && !self.dry_run
    }

    /// Records a time entry mapping; returns whether a save is now due.
    pub fn put_time_entry(&mut self, clockify_id: &str, solidtime_id: &str) -> (save: bool)
        ensures
            final(self).time_entries@ == put_result(old(self).time_entries@, clockify_id@, solidtime_id@),
            final(self).clients@ == old(self).clients@,
            final(self).projects@ == old(self).projects@,
            final(self).tasks@ == old(self).tasks@,
            final(self).tags@ == old(self).tags@,
            opt_view(final(self).last_cutoff) == opt_view(old(self).last_cutoff),
            final(self).spec_dirty() == (old(self).spec_dirty() || lookup(old(self).time_entries@, clockify_id@) != Some(solidtime_id@)),
            final(self).spec_dry_run() == old(self).spec_dry_run(),
            save == final(self).spec_needs_persist(),
    {
        put(&mut self.time_entries, &mut self.dirty, clockify_id, solidtime_id);
        self.dirty && !self.dry_run
    }

    /// Records the end of the migrated range; returns whether a save is now due.
    pub fn set_cutoff(&mut self, cutoff: String) -> (save: bool)
        ensures
            opt_view(final(self).last_cutoff) == Some(cutoff@),
            final(self).clients@ == old(self).clients@,
            final(self).projects@ == old(self).projects@,
            final(self).tasks@ == old(self).tasks@,
            final(self).tags@ == old(self).tags@,
            final(self).time_entries@ == old(self).time_entries@,
            final(self).spec_dirty() == (old(self).spec_dirty() || opt_view(old(self).last_cutoff) != Some(cutoff@)),
            final(self).spec_dry_run() == old(self).spec_dry_run(),
            save == final(self).spec_needs_persist(),
    {
        let same = match &self.last_cutoff {
            Some(existing) => existing.eq(&cutoff),
            None => false,
        };
        if !same {
            self.last_cutoff = Some(cutoff);
            self.dirty = true;
        }
        self.dirty && !self.dry_run
    }
}

impl Default for MigrationState {
    fn default() -> (s: MigrationState)
        ensures
            s.clients@.len() == 0,
            s.projects@.len() == 0,
            s.tasks@.len() == 0,
            s.tags@.len() == 0,
            s.time_entries@.len() == 0,
            s.last_cutoff is None,
            !s.spec_dirty(),
            !s.spec_dry_run(),
    {
        MigrationState::new(false)
    }
}

/// Recording a pair the map already holds changes nothing, and recording the
/// same pair twice is the same as recording it once.
pub proof fn put_is_idempotent(m: Seq<(Seq<char>, Seq<char>)>, k: Seq<char>, v: Seq<char>)
    ensures
        lookup(put_result(m, k, v), k) == Some(v),
        put_result(put_result(m, k, v), k, v) == put_result(m, k, v),
{
    crate::string_map::lemma_pairs_insert_lookup(m, k, v, k);
}

/// After recording `k -> v`, a lookup of `k` gives `v` and a lookup of any
/// other key gives what it gave before.
pub proof fn put_then_lookup(m: Seq<(Seq<char>, Seq<char>)>, k: Seq<char>, v: Seq<char>, q: Seq<char>)
    ensures
        lookup(put_result(m, k, v), q) == if q == k { Some(v) } else { lookup(m, q) },
{
    crate::string_map::lemma_pairs_insert_lookup(m, k, v, q);
}

/// The state of a dry run is never written: it never asks to be saved,
/// whatever it records.
pub proof fn dry_run_state_is_never_saved(s: MigrationState)
    requires
        s.spec_dry_run(),
    ensures
        !s.spec_needs_persist(),
{
}

} // verus!
