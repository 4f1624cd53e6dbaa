//! Entering time: the dialog for an entry, and what saving it does.

use crate::clock::clock_text;
use crate::clock::format_hhmm;
use crate::date::date_text;
use crate::date::format_day;
use crate::date::iso_text;
use crate::date::iso_text_of;
use crate::date::valid_day;
use crate::date::Date;
use crate::ids::id_text;
use crate::ids::id_to_text;
use crate::ids::parse_id;
use crate::ids::parsed_id;
use crate::lists::copy_text;
use crate::lists::opt_view;
use crate::text::trim;
use crate::text::trimmed;
use crate::timesheet::entry::TimeEntry;
use crate::timesheet::grid::RowKey;
use crate::timesheet::view::format_hm;
use crate::timesheet::view::hm_text;
use crate::timesheet::view::offset_in_week;
use crate::timesheet::view::today_offset;
use crate::timesheet::view::ViewMode;
use vstd::prelude::*;

verus! {

/// What is to be done to save an entry.
#[derive(Debug)]
pub enum EntryAction {
    Nothing,
    Delete { id: String },
    Update {
        id: String,
        minutes: i32,
        notes: Option<String>,
        billable: bool,
        start_minute: Option<i32>,
    },
    Create {
        project_id: String,
        task_id: String,
        day: String,
        minutes: i32,
        notes: Option<String>,
        billable: bool,
        start_minute: Option<i32>,
    },
}

/// What an entry is to hold.
#[derive(Debug)]
pub struct EntryFields {
    pub project_id: String,
    pub task_id: String,
    pub day: Date,
    pub minutes: i32,
    pub notes: Option<String>,
    pub billable: bool,
    pub start_minute: Option<i32>,
}

impl EntryAction {
    /// Whether this saves `fields` over the entry `existing`, or as a new one: no minutes
    /// delete an entry, and make none.
    pub open spec fn saves(self, existing: Option<u128>, fields: EntryFields) -> bool {
        match (existing, self) {
            (Some(old_id), EntryAction::Delete { id }) => {
                &&& fields.minutes == 0
                &&& id@ == id_text(old_id)
            },
            (Some(old_id), EntryAction::Update { id, minutes, notes, billable, start_minute }) => {
                &&& fields.minutes != 0
                &&& id@ == id_text(old_id)
                &&& minutes == fields.minutes
                &&& notes == fields.notes
                &&& billable == fields.billable
                &&& start_minute == fields.start_minute
            },
            (
                None,
                EntryAction::Create {
                    project_id,
                    task_id,
                    day,
                    minutes,
                    notes,
                    billable,
                    start_minute,
                },
            ) => {
                &&& fields.minutes > 0
                &&& project_id == fields.project_id
                &&& task_id == fields.task_id
                &&& day@ == iso_text(fields.day.days)
                &&& minutes == fields.minutes
                &&& notes == fields.notes
                &&& billable == fields.billable
                &&& start_minute == fields.start_minute
            },
            (None, EntryAction::Nothing) => fields.minutes <= 0,
            _ => false,
        }
    }
}

/// How `fields` are saved: over the entry `existing`, or as a new one where there is none.
pub fn persist_entry(existing: Option<u128>, fields: EntryFields) -> (action: EntryAction)
    requires
        fields.day.valid(),
    ensures
        action.saves(existing, fields),
        existing is Some && fields.minutes != 0 ==> {
            &&& action matches EntryAction::Update { id, minutes, notes, billable, start_minute }
            &&& id@ == id_text(existing->0)
            &&& minutes == fields.minutes
            &&& notes == fields.notes
            &&& billable == fields.billable
            &&& start_minute == fields.start_minute
        },
        existing is Some && fields.minutes == 0 ==> {
            &&& action matches EntryAction::Delete { id }
            &&& id@ == id_text(existing->0)
        },
{
    match existing {
        Some(id) => if fields.minutes == 0 {
            EntryAction::Delete { id: id_to_text(id) }
        } else {
            EntryAction::Update {
                id: id_to_text(id),
                minutes: fields.minutes,
                notes: fields.notes,
                billable: fields.billable,
                start_minute: fields.start_minute,
            }
        },
        None => if fields.minutes > 0 {
            EntryAction::Create {
                day: iso_text_of(fields.day.days),
                project_id: fields.project_id,
                task_id: fields.task_id,
                minutes: fields.minutes,
                notes: fields.notes,
                billable: fields.billable,
                start_minute: fields.start_minute,
            }
        } else {
            EntryAction::Nothing
        },
    }
}

/// A changed cell of the week grid.
#[derive(Debug)]
pub struct CellEdit {
    pub project_id: u128,
    pub task_id: u128,
    pub day: Date,
    /// The entry in the cell, if there is one.
    pub existing: Option<u128>,
    pub minutes: i32,
}

/// The first entry with an identity.
pub open spec fn is_first_with(entries: Seq<TimeEntry>, id: u128, i: int) -> bool {
    &&& 0 <= i < entries.len()
    &&& entries[i].id == id
    &&& forall|k: int| 0 <= k < i ==> (#[trigger] entries[k]).id != id
}

fn find_entry(entries: &Vec<TimeEntry>, id: u128) -> (found: Option<usize>)
    ensures
        match found {
            Some(i) => is_first_with(entries@, id, i as int),
            None => forall|k: int| 0 <= k < entries.len() ==> (#[trigger] entries@[k]).id != id,
        },
{
    let mut i: usize = 0;
    while i < entries.len()
        invariant
            i <= entries.len(),
            forall|k: int| 0 <= k < i ==> (#[trigger] entries@[k]).id != id,
        decreases entries.len() - i,
    {
        if entries[i].id == id {
            return Some(i);
        }
        i += 1;
    }
    None
}

/// How a changed cell is saved. An entry that was in it keeps its notes and whether it is
/// billable; a new one has no notes and is billable. Neither has a time of day.
pub fn commit_cell(entries: &Vec<TimeEntry>, edit: CellEdit) -> (action: EntryAction)
    requires
        edit.day.valid(),
    ensures
        exists|fields: EntryFields| #[trigger]
            action.saves(edit.existing, fields) && {
                &&& fields.project_id@ == id_text(edit.project_id)
                &&& fields.task_id@ == id_text(edit.task_id)
                &&& fields.day == edit.day
                &&& fields.minutes == edit.minutes
                &&& fields.start_minute is None
                &&& forall|i: int|
                    edit.existing is Some && #[trigger] is_first_with(
                        entries@,
                        edit.existing->0,
                        i,
                    ) ==> fields.notes == entries@[i].notes && fields.billable
                        == entries@[i].billable
                &&& (edit.existing is None || forall|k: int|
                    0 <= k < entries.len() ==> (#[trigger] entries@[k]).id != edit.existing->0)
                    ==> fields.notes is None && fields.billable
            },
        forall|i: int|
            edit.existing is Some && edit.minutes != 0 && #[trigger] is_first_with(
                entries@,
                edit.existing->0,
                i,
            ) ==> {
                &&& action matches EntryAction::Update { id, minutes, notes, billable, start_minute }
                &&& id@ == id_text(edit.existing->0)
                &&& minutes == edit.minutes
                &&& notes == entries@[i].notes
                &&& billable == entries@[i].billable
                &&& start_minute is None
            },
        edit.existing is None && edit.minutes > 0 ==> {
            &&& action matches EntryAction::Create {
                project_id,
                task_id,
                day,
                minutes,
                notes,
                billable,
                start_minute,
            }
            &&& project_id@ == id_text(edit.project_id)
            &&& task_id@ == id_text(edit.task_id)
            &&& day@ == iso_text(edit.day.days)
            &&& minutes == edit.minutes
            &&& notes is None
            &&& billable
            &&& start_minute is None
        },
{
    let found = match edit.existing {
        Some(id) => find_entry(entries, id),
        None => None,
    };
    let (notes, billable) = match found {
        Some(i) => (copy_text(&entries[i].notes), entries[i].billable),
        None => (None, true),
    };
    let fields = EntryFields {
        project_id: id_to_text(edit.project_id),
        task_id: id_to_text(edit.task_id),
        day: edit.day,
        minutes: edit.minutes,
        notes,
        billable,
        start_minute: None,
    };
    let ghost saved = fields;
    let action = persist_entry(edit.existing, fields);
    proof {
        assert(action.saves(edit.existing, saved));
        if let Some(id) = edit.existing {
            assert forall|i: int| #[trigger] is_first_with(entries@, id, i) implies saved.notes
                == entries@[i].notes && saved.billable == entries@[i].billable by {
                let j = found->0 as int;
                if i < j {
                    assert(entries@[i].id != id);
                } else if j < i {
                    assert(entries@[j].id != id);
                }
            }
        }
    }
    action
}

/// The dialog for an entry. `open` is the day that it is for, while it is open.
#[derive(Debug)]
pub struct EntryDialog {
    pub open: Option<Date>,
    /// The entry that is edited; none where a new one is made.
    pub editing: Option<u128>,
    pub project: String,
    pub task: String,
    pub notes: String,
    pub duration: String,
    pub start: Option<i32>,
    pub billable: bool,
    pub error: Option<String>,
    /// Whether a request is under way; meanwhile none is sent.
    pub saving: bool,
}

/// What a dialog has asked for.
#[derive(Clone, Copy, PartialEq, Eq, Structural, Debug)]
pub enum DialogRequest {
    StartTimer,
    Save,
    Delete,
}

impl EntryDialog {
    /// Opens the dialog for a new entry of `date`, with the first project and the first
    /// task chosen.
    pub fn open_add(&mut self, date: Date, first_project: Option<u128>, first_task: Option<u128>)
        ensures
            final(self).open == Some(date),
            final(self).editing is None,
            final(self).project@ == (match first_project {
                Some(id) => id_text(id),
                None => Seq::empty(),
            }),
            final(self).task@ == (match first_task {
                Some(id) => id_text(id),
                None => Seq::empty(),
            }),
            final(self).notes@ == Seq::<char>::empty(),
            final(self).duration@ == "0:00"@,
            final(self).start is None,
            final(self).error is None,
            final(self).billable == old(self).billable,
            final(self).saving == old(self).saving,
    {
        self.editing = None;
        self.project = match first_project {
            Some(id) => id_to_text(id),
            None => String::new(),
        };
        self.task = match first_task {
            Some(id) => id_to_text(id),
            None => String::new(),
        };
        self.notes = String::new();
        self.duration = "0:00".to_owned();
        self.start = None;
        self.error = None;
        self.open = Some(date);
    }

    /// Opens the dialog for an entry, with what it holds.
    pub fn open_edit(&mut self, entry: &TimeEntry)
        ensures
            final(self).open == Some(entry.spent_date),
            final(self).editing == Some(entry.id),
            final(self).project@ == id_text(entry.project_id),
            final(self).task@ == id_text(entry.task_id),
            final(self).notes@ == (match entry.notes {
                Some(notes) => notes@,
                None => Seq::empty(),
            }),
            final(self).duration@ == hm_text(entry.minutes as int),
            final(self).start == entry.start_minute,
            final(self).billable == entry.billable,
            final(self).error is None,
            final(self).saving == old(self).saving,
    {
        self.editing = Some(entry.id);
        self.project = id_to_text(entry.project_id);
        self.task = id_to_text(entry.task_id);
        self.notes = match &entry.notes {
            Some(notes) => notes.clone(),
            None => String::new(),
        };
        self.duration = format_hm(entry.minutes);
        self.start = entry.start_minute;
        self.billable = entry.billable;
        self.error = None;
        self.open = Some(entry.spent_date);
    }

    /// Opens the dialog for a new entry at a time of day, as a slot drawn in the calendar
    /// asks.
    pub fn open_slot(
        &mut self,
        date: Date,
        first_project: Option<u128>,
        first_task: Option<u128>,
        start: i32,
        duration: String,
    )
        ensures
            final(self).open == Some(date),
            final(self).editing is None,
            final(self).project@ == (match first_project {
                Some(id) => id_text(id),
                None => Seq::empty(),
            }),
            final(self).task@ == (match first_task {
                Some(id) => id_text(id),
                None => Seq::empty(),
            }),
            final(self).notes@ == Seq::<char>::empty(),
            final(self).start == Some(start),
            final(self).duration == duration,
            final(self).error is None,
            final(self).billable == old(self).billable,
            final(self).saving == old(self).saving,
    {
        self.open_add(date, first_project, first_task);
        self.start = Some(start);
        self.duration = duration;
    }

    /// Whether the dialog starts a timer rather than saving an entry: for a new entry of today
    /// without a start time and without a duration.
    pub open spec fn starts_timer(self, today: Date, parsed: Option<u32>) -> bool {
        self.open == Some(today) && self.editing is None && self.start is None && !(parsed is Some
            && parsed->0 > 0)
    }

    /// Whether saving starts a timer: a new entry of today, without a start time, whose
    /// duration, `parsed`, is none.
    pub fn timer_mode(&self, today: Date, parsed: Option<u32>) -> (timer: bool)
        ensures
            timer == self.starts_timer(today, parsed),
    {
        match self.open {
            None => false,
            Some(date) => self.editing.is_none() && date == today && self.start.is_none()
                && match parsed {
                Some(minutes) => minutes == 0,
                None => true,
            },
        }
    }

    /// The start time as it is shown; none is shown blank.
    pub fn start_text(&self) -> (text: String)
        ensures
            text@ == (match self.start {
                Some(minute) => clock_text((minute as u16) as nat),
                None => Seq::empty(),
            }),
    {
        match self.start {
            Some(minute) => format_hhmm((minute as u16) as u64),
            None => {
                let text = String::new();
                proof {
                    assert(text@ =~= Seq::<char>::empty());
                }
                text
            },
        }
    }

    /// Takes what was typed for the start time: blank is none; a time, `parsed`, is
    /// taken; anything else is left alone.
    pub fn type_start(&mut self, value: &str, parsed: Option<u16>)
        ensures
            final(self).start == (if trimmed(value@).len() == 0 {
                None
            } else if parsed is Some {
                Some(parsed->0 as i32)
            } else {
                old(self).start
            }),
            *final(self) == (EntryDialog { start: final(self).start, ..*old(self) }),
    {
        if trim(value).as_str().is_empty() {
            self.start = None;
        } else if let Some(minute) = parsed {
            self.start = Some(minute as i32);
        }
    }

    /// The notes to save: trimmed, and none where nothing is left.
    pub open spec fn kept_notes(self) -> Option<Seq<char>> {
        if trimmed(self.notes@).len() == 0 {
            None
        } else {
            Some(trimmed(self.notes@))
        }
    }

    /// The project, the task and the notes to save; without a project or a task, the
    /// error says so.
    pub fn read_pt_notes(&mut self) -> (read: Option<(String, String, Option<String>)>)
        ensures
            read is Some <==> old(self).project@.len() > 0 && old(self).task@.len() > 0,
            read matches Some((project, task, notes)) ==> {
                &&& project@ == old(self).project@
                &&& task@ == old(self).task@
                &&& opt_view(notes) == old(self).kept_notes()
                &&& *final(self) == *old(self)
            },
            read is None ==> opt_view(final(self).error) == Some("Select a project and task."@),
            *final(self) == (EntryDialog { error: final(self).error, ..*old(self) }),
    {
        if self.project.as_str().is_empty() || self.task.as_str().is_empty() {
            self.error = Some("Select a project and task.".to_owned());
            return None;
        }
        let kept = trim(self.notes.as_str());
        let notes = if kept.as_str().is_empty() {
            None
        } else {
            Some(kept)
        };
        Some((self.project.clone(), self.task.clone(), notes))
    }

    /// Closes the dialog.
    pub fn close(&mut self)
        ensures
            *final(self) == (EntryDialog { open: None, ..*old(self) }),
    {
        self.open = None;
    }

    /// Begins to delete the entry that is edited, whose identity comes back.
    pub fn delete(&mut self) -> (id: Option<String>)
        ensures
            id is Some <==> old(self).editing is Some && !old(self).saving,
            id is Some ==> id->0@ == id_text(old(self).editing->0) && *final(self) == (
            EntryDialog { saving: true, error: None, ..*old(self) }),
            id is None ==> *final(self) == *old(self),
    {
        if self.saving {
            return None;
        }
        match self.editing {
            Some(id) => {
                self.saving = true;
                self.error = None;
                Some(id_to_text(id))
            },
            None => None,
        }
    }

    /// What is said of a request that failed.
    pub open spec fn complaint(request: DialogRequest, message: Seq<char>) -> Seq<char> {
        (match request {
            DialogRequest::StartTimer => "Could not start timer: "@,
            DialogRequest::Save => "Could not save: "@,
            DialogRequest::Delete => "Could not delete: "@,
        }) + message
    }

    /// Takes what became of a request: the dialog closes and the entries, as is said, are
    /// loaded again; or it stays, with what went wrong.
    pub fn replied(&mut self, request: DialogRequest, result: Result<(), String>) -> (reload: bool)
        ensures
            reload == (result is Ok),
            match result {
                Ok(_) => *final(self) == (EntryDialog { open: None, saving: false, ..*old(self) }),
                Err(message) => {
                    &&& opt_view(final(self).error) == Some(
                        EntryDialog::complaint(request, message@),
                    )
                    &&& *final(self) == (EntryDialog {
                        error: final(self).error,
                        saving: false,
                        ..*old(self)
                    })
                },
            },
    {
        self.saving = false;
        match result {
            Ok(_) => {
                self.open = None;
                true
            },
            Err(message) => {
                let mut complaint = match request {
                    DialogRequest::StartTimer => "Could not start timer: ".to_owned(),
                    DialogRequest::Save => "Could not save: ".to_owned(),
                    DialogRequest::Delete => "Could not delete: ".to_owned(),
                };
                complaint.append(message.as_str());
                self.error = Some(complaint);
                false
            },
        }
    }

    /// What the dialog's main button says.
    pub fn save_label(&self, today: Date, parsed: Option<u32>) -> (label: &'static str)
        ensures
            label@ == (if self.saving {
                "Saving…"@
            } else if self.starts_timer(today, parsed) {
                "Start timer"@
            } else {
                "Save entry"@
            }),
    {
        if self.saving {
            "Saving…"
        } else if self.timer_mode(today, parsed) {
            "Start timer"
        } else {
            "Save entry"
        }
    }
}

/// The minutes of an entry's duration, `parsed`, or why they are not taken.
pub fn entry_minutes(parsed: Option<u32>) -> (minutes: Result<i32, String>)
    ensures
        match minutes {
            Ok(m) => parsed is Some && 0 < parsed->0 <= 1440 && m == parsed->0,
            Err(message) => {
                ||| parsed == Some(0u32) && message@ == "Duration must be greater than zero."@
                ||| parsed is Some && parsed->0 > 1440 && message@
                    == "Duration can't exceed 24 hours."@
                ||| parsed is None && message@ == "Enter a duration like 1:30."@
            },
        },
{
    match parsed {
        Some(m) => if m == 0 {
            Err("Duration must be greater than zero.".to_owned())
        } else if m > 1440 {
            Err("Duration can't exceed 24 hours.".to_owned())
        } else {
            Ok(m as i32)
        },
        None => Err("Enter a duration like 1:30.".to_owned()),
    }
}

/// What saving the dialog does.
#[derive(Debug)]
pub enum DialogSave {
    /// Nothing: the dialog shows why.
    Refused,
    StartTimer { project_id: String, task_id: String, notes: Option<String> },
    Persist(EntryAction),
}

/// Saves the dialog: starts a timer, or saves the entry with its duration, `parsed`. An
/// entry that is edited stays as billable as it was; a new one is billable.
pub fn save_dialog(dialog: &mut EntryDialog, today: Date, parsed: Option<u32>) -> (save: DialogSave)
    requires
        old(dialog).open is Some,
        old(dialog).open->0.valid(),
    ensures
        final(dialog).saving == (old(dialog).saving || save !is Refused),
        ({
            let d = *old(dialog);
            if d.saving {
                &&& save is Refused
                &&& *final(dialog) == d
            } else if d.project@.len() == 0 || d.task@.len() == 0 {
                &&& save is Refused
                &&& opt_view(final(dialog).error) == Some("Select a project and task."@)
            } else if d.starts_timer(today, parsed) {
                &&& save matches DialogSave::StartTimer { project_id, task_id, notes }
                &&& project_id@ == d.project@
                &&& task_id@ == d.task@
                &&& opt_view(notes) == d.kept_notes()
                &&& final(dialog).error is None
            } else if parsed is Some && 0 < parsed->0 <= 1440 {
                &&& final(dialog).error is None
                &&& save matches DialogSave::Persist(action)
                &&& exists|fields: EntryFields| #[trigger]
                    action.saves(d.editing, fields) && {
                        &&& fields.project_id@ == d.project@
                        &&& fields.task_id@ == d.task@
                        &&& fields.day == d.open->0
                        &&& fields.minutes == parsed->0
                        &&& opt_view(fields.notes) == d.kept_notes()
                        &&& fields.billable == (d.editing is None || d.billable)
                        &&& fields.start_minute == d.start
                    }
                &&& d.editing is Some ==> {
                    &&& action matches EntryAction::Update {
                        id,
                        minutes,
                        notes,
                        billable,
                        start_minute,
                    }
                    &&& id@ == id_text(d.editing->0)
                    &&& minutes == parsed->0
                    &&& opt_view(notes) == d.kept_notes()
                    &&& billable == d.billable
                    &&& start_minute == d.start
                }
                &&& d.editing is None ==> {
                    &&& action matches EntryAction::Create {
                        project_id,
                        task_id,
                        day,
                        minutes,
                        notes,
                        billable,
                        start_minute,
                    }
                    &&& project_id@ == d.project@
                    &&& task_id@ == d.task@
                    &&& day@ == iso_text(d.open->0.days)
                    &&& minutes == parsed->0
                    &&& opt_view(notes) == d.kept_notes()
                    &&& billable
                    &&& start_minute == d.start
                }
            } else {
                &&& save is Refused
                &&& opt_view(final(dialog).error) == Some(
                    if parsed is None {
                        "Enter a duration like 1:30."@
                    } else if parsed->0 == 0 {
                        "Duration must be greater than zero."@
                    } else {
                        "Duration can't exceed 24 hours."@
                    },
                )
            }
        }),
        *final(dialog) == (EntryDialog {
            error: final(dialog).error,
            saving: final(dialog).saving,
            ..*old(dialog)
        }),
{
    if dialog.saving {
        return DialogSave::Refused;
    }
    let (project_id, task_id, notes) = match dialog.read_pt_notes() {
        Some(read) => read,
        None => {
            return DialogSave::Refused;
        },
    };
    if dialog.timer_mode(today, parsed) {
        dialog.saving = true;
        dialog.error = None;
        return DialogSave::StartTimer { project_id, task_id, notes };
    }
    match entry_minutes(parsed) {
        Err(message) => {
            dialog.error = Some(message);
            DialogSave::Refused
        },
        Ok(minutes) => {
            dialog.saving = true;
            dialog.error = None;
            let day = match dialog.open {
                Some(day) => day,
                None => Date { days: 0 },
            };
            let fields = EntryFields {
                project_id,
                task_id,
                day,
                minutes,
                notes,
                billable: dialog.editing.is_none() || dialog.billable,
                start_minute: dialog.start,
            };
            let ghost saved = fields;
            let action = persist_entry(dialog.editing, fields);
            proof {
                assert(action.saves(dialog.editing, saved));
            }
            DialogSave::Persist(action)
        },
    }
}

/// The row that the picker's choices add, where both are identities.
pub fn picked_row(project: &str, task: &str) -> (key: Option<RowKey>)
    ensures
        key == (match (parsed_id(project@), parsed_id(task@)) {
            (Some(project_id), Some(task_id)) => Some(RowKey { project_id, task_id }),
            _ => None,
        }),
{
    match (parse_id(project), parse_id(task)) {
        (Some(project_id), Some(task_id)) => Some(RowKey { project_id, task_id }),
        _ => None,
    }
}

/// A project's name in a choice, after its code where it has one.
pub open spec fn option_label(code: Option<Seq<char>>, name: Seq<char>) -> Seq<char> {
    match code {
        Some(code) => "["@ + code + "] "@ + name,
        None => name,
    }
}

/// A project's name in a choice, after its code where it has one.
pub fn project_option(code: &Option<String>, name: &str) -> (label: String)
    ensures
        label@ == option_label(opt_view(*code), name@),
{
    match code {
        Some(code) => {
            let mut label = "[".to_owned();
            label.append(code.as_str());
            label.append("] ");
            label.append(name);
            label
        },
        None => name.to_owned(),
    }
}

/// The day that a new entry is for: today where it is in the week shown, else the
/// week's first day.
pub fn add_default_date(today: Date, week_start: Date) -> (date: Date)
    ensures
        date == (if offset_in_week(today, week_start) is Some {
            today
        } else {
            week_start
        }),
{
    if today_offset(today, week_start).is_some() {
        today
    } else {
        week_start
    }
}

/// The day one step of the pager away: one day in a day view, else a week.
pub open spec fn stepped(mode: ViewMode, day: int, forward: bool) -> int {
    let days: int = if mode == ViewMode::Day {
        1
    } else {
        7
    };
    if forward {
        day + days
    } else {
        day - days
    }
}

/// The anchor day after a step of the pager.
pub fn step(mode: ViewMode, date: Date, forward: bool) -> (next: Date)
    requires
        date.valid(),
        valid_day(stepped(mode, date.days as int, forward)),
    ensures
        next.days == stepped(mode, date.days as int, forward),
        next.valid(),
{
    let days: i32 = if mode == ViewMode::Day {
        1
    } else {
        7
    };
    Date {
        days: if forward {
            date.days + days
        } else {
            date.days - days
        },
    }
}

/// A step of the pager undoes one the other way.
pub proof fn steps_cancel(mode: ViewMode, day: int, forward: bool)
    ensures
        stepped(mode, stepped(mode, day, forward), !forward) == day,
{
}

/// The week shown, from its first day to its last.
pub fn range_label(week_start: Date) -> (label: String)
    requires
        week_start.valid(),
        valid_day(week_start.days + 6),
    ensures
        label@ == date_text(week_start.days, "%d %b"@) + " – "@ + date_text(
            (week_start.days + 6) as i32,
            "%d %b %Y"@,
        ),
{
    let mut label = format_day(week_start.days, "%d %b");
    label.append(" – ");
    label.append(format_day(week_start.days + 6, "%d %b %Y").as_str());
    label
}

/// A day's name in the pager: today by that word, another one by its weekday.
pub fn day_name(date: Date, today: Date) -> (name: String)
    requires
        date.valid(),
    ensures
        name@ == (if date == today {
            "Today"@
        } else {
            date_text(date.days, "%A"@)
        }),
{
    if date == today {
        "Today".to_owned()
    } else {
        format_day(date.days, "%A")
    }
}

/// The dialog's title.
pub fn dialog_title(editing: bool, date: Date) -> (title: String)
    requires
        date.valid(),
    ensures
        title@ == (if editing {
            "Edit time entry"@
        } else {
            "New time entry"@
        }) + " for "@ + date_text(date.days, "%A, %d %b"@),
{
    let mut title = if editing {
        "Edit time entry".to_owned()
    } else {
        "New time entry".to_owned()
    };
    title.append(" for ");
    title.append(format_day(date.days, "%A, %d %b").as_str());
    title
}

/// The timer that going on with an entry starts: for its project and task, with its notes.
pub fn resume_timer(entry: &TimeEntry) -> (start: DialogSave)
    ensures
        start matches DialogSave::StartTimer { project_id, task_id, notes } && project_id@
            == id_text(entry.project_id) && task_id@ == id_text(entry.task_id) && notes
            == entry.notes,
{
    DialogSave::StartTimer {
        project_id: id_to_text(entry.project_id),
        task_id: id_to_text(entry.task_id),
        notes: copy_text(&entry.notes),
    }
}

} // verus!
