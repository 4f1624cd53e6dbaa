//! Time entries.

use crate::date::Date;
use vstd::prelude::*;

verus! {

/// How far an entry has come on its way to an invoice. Only an open one can be changed.
#[derive(Clone, Copy, PartialEq, Eq, Structural, Debug)]
pub enum EntryState {
    Open,
    Submitted,
    Approved,
    Invoiced,
}

/// A stretch of time that someone spent on a task of a project.
#[derive(Debug)]
pub struct TimeEntry {
    pub id: u128,
    pub project_id: u128,
    pub task_id: u128,
    pub spent_date: Date,
    pub minutes: i32,
    pub notes: Option<String>,
    pub billable: bool,
    pub is_running: bool,
    pub state: EntryState,
    /// Minutes since midnight; `None` where the entry has a duration only.
    pub start_minute: Option<i32>,
    pub sort_order: i32,
    /// The time of creation, in microseconds.
    pub created_at: i64,
}

impl Clone for TimeEntry {
    fn clone(&self) -> (copy: Self)
        ensures
            copy == *self,
    {
        TimeEntry {
            id: self.id,
            project_id: self.project_id,
            task_id: self.task_id,
            spent_date: self.spent_date,
            minutes: self.minutes,
            notes: match &self.notes {
                Some(notes) => Some(notes.clone()),
                None => None,
            },
            billable: self.billable,
            is_running: self.is_running,
            state: self.state,
            start_minute: self.start_minute,
            sort_order: self.sort_order,
            created_at: self.created_at,
        }
    }
}

} // verus!
