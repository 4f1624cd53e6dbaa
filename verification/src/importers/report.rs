//! The report of an import.

use crate::ids::id_text;
use crate::ids::id_to_text;
use crate::text::decimal;
use crate::text::decimal_text;
use vstd::prelude::*;

verus! {

/// The most record errors that are shown at once.
pub const ERROR_ROW_LIMIT: usize = 50;

/// Whether an import changes anything.
#[derive(Clone, Copy, PartialEq, Eq, Structural, Debug)]
pub enum ImportMode {
    DryRun,
    Commit,
}

/// How much of a source is read.
#[derive(Clone, Copy, PartialEq, Eq, Structural, Debug)]
pub enum SyncScope {
    Full,
    Incremental,
}

/// Where an import reads from.
#[derive(Clone, Copy, PartialEq, Eq, Structural, Debug)]
pub enum SourceKind {
    Api,
    Csv,
}

/// What is imported.
#[derive(Clone, Copy, PartialEq, Eq, Structural, Debug)]
pub enum EntityType {
    Client,
    Project,
    Task,
    TimeEntry,
}

/// What became of the records of a kind.
#[derive(Clone, Copy, PartialEq, Eq, Structural, Debug)]
pub struct EntityCounts {
    pub created: u64,
    pub updated: u64,
    pub skipped: u64,
    pub errored: u64,
}

/// What became of the records of each kind.
#[derive(Clone, Copy, PartialEq, Eq, Structural, Debug)]
pub struct ImportSummary {
    pub clients: EntityCounts,
    pub projects: EntityCounts,
    pub tasks: EntityCounts,
    pub time_entries: EntityCounts,
}

impl ImportSummary {
    /// What became of the records of a kind.
    pub open spec fn of(self, entity: EntityType) -> EntityCounts {
        match entity {
            EntityType::Client => self.clients,
            EntityType::Project => self.projects,
            EntityType::Task => self.tasks,
            EntityType::TimeEntry => self.time_entries,
        }
    }

    /// What became of the records of a kind.
    pub fn counts(&self, entity: EntityType) -> (counts: EntityCounts)
        ensures
            counts == self.of(entity),
    {
        match entity {
            EntityType::Client => self.clients,
            EntityType::Project => self.projects,
            EntityType::Task => self.tasks,
            EntityType::TimeEntry => self.time_entries,
        }
    }
}

/// A record that could not be imported.
#[derive(Debug)]
pub struct RowError {
    pub source_location: String,
    pub entity: EntityType,
    pub reason: String,
}

/// The report of an import. It may list fewer errors than it counts.
#[derive(Debug)]
pub struct ImportReport {
    pub source: SourceKind,
    pub mode: ImportMode,
    pub summary: ImportSummary,
    pub row_errors: Vec<RowError>,
}

impl ImportReport {
    /// A report of nothing yet.
    pub fn new(source: SourceKind, mode: ImportMode) -> (report: ImportReport)
        ensures
            report.source == source,
            report.mode == mode,
            forall|entity: EntityType|
                #![trigger report.summary.of(entity)]
                report.summary.of(entity) == (EntityCounts {
                    created: 0,
                    updated: 0,
                    skipped: 0,
                    errored: 0,
                }),
            report.row_errors@.len() == 0,
    {
        let none = EntityCounts { created: 0, updated: 0, skipped: 0, errored: 0 };
        ImportReport {
            source,
            mode,
            summary: ImportSummary {
                clients: none,
                projects: none,
                tasks: none,
                time_entries: none,
            },
            row_errors: Vec::new(),
        }
    }
}

/// What is imported, as it is called.
pub fn entity_label(entity: EntityType) -> (label: &'static str)
    ensures
        label@ == (match entity {
            EntityType::Client => "Clients"@,
            EntityType::Project => "Projects"@,
            EntityType::Task => "Tasks"@,
            EntityType::TimeEntry => "Time entries"@,
        }),
{
    match entity {
        EntityType::Client => "Clients",
        EntityType::Project => "Projects",
        EntityType::Task => "Tasks",
        EntityType::TimeEntry => "Time entries",
    }
}

/// What is said when an import has ended. A report counts `errors` of its records.
pub open spec fn toast_text(ended: bool, errors: u64, mode: ImportMode) -> Seq<char> {
    if !ended {
        "Import failed"@
    } else if errors > 0 {
        match mode {
            ImportMode::DryRun => "Dry-run finished · "@ + decimal(errors as nat) + " errors"@,
            ImportMode::Commit => "Import complete · "@ + decimal(errors as nat) + " errors"@,
        }
    } else {
        match mode {
            ImportMode::DryRun => "Preview complete · no business data changed"@,
            ImportMode::Commit => "Import complete"@,
        }
    }
}

/// What is said when an import has ended.
pub fn toast_for(ended: bool, errors: u64, mode: ImportMode) -> (text: String)
    ensures
        text@ == toast_text(ended, errors, mode),
{
    if !ended {
        return "Import failed".to_owned();
    }
    if errors > 0 {
        let mut text = match mode {
            ImportMode::DryRun => "Dry-run finished · ".to_owned(),
            ImportMode::Commit => "Import complete · ".to_owned(),
        };
        text.append(decimal_text(errors as u128).as_str());
        text.append(" errors");
        return text;
    }
    match mode {
        ImportMode::DryRun => "Preview complete · no business data changed".to_owned(),
        ImportMode::Commit => "Import complete".to_owned(),
    }
}

/// What a report is headed by.
#[derive(Clone, Copy, PartialEq, Eq, Structural, Debug)]
pub enum Banner {
    /// The import did not end: what is reported is what was confirmed.
    Partial { preview: bool },
    /// Nothing was changed; whether it can be now.
    Preview { can_commit: bool },
    /// Some records could not be applied.
    Errors { count: u64 },
    /// All records were applied.
    Complete,
}

/// What a report is headed by.
pub fn banner(mode: ImportMode, partial: bool, can_commit: bool, errors: u64) -> (banner: Banner)
    ensures
        banner == (if partial {
            Banner::Partial { preview: mode == ImportMode::DryRun }
        } else if mode == ImportMode::DryRun {
            Banner::Preview { can_commit }
        } else if errors > 0 {
            Banner::Errors { count: errors }
        } else {
            Banner::Complete
        }),
{
    if partial {
        Banner::Partial { preview: mode == ImportMode::DryRun }
    } else if mode == ImportMode::DryRun {
        Banner::Preview { can_commit }
    } else if errors > 0 {
        Banner::Errors { count: errors }
    } else {
        Banner::Complete
    }
}

/// The title of a banner.
pub fn banner_title(banner: Banner) -> (title: String)
    ensures
        title@ == (match banner {
            Banner::Partial { .. } => "Partial report — confirmed batches only"@,
            Banner::Preview { .. } => "Preview complete — no business data changed"@,
            Banner::Errors { count } => "Import complete with "@ + decimal(count as nat)
                + " errors"@,
            Banner::Complete => "Import complete"@,
        }),
{
    match banner {
        Banner::Partial { .. } => "Partial report — confirmed batches only".to_owned(),
        Banner::Preview { .. } => "Preview complete — no business data changed".to_owned(),
        Banner::Errors { count } => {
            let mut title = "Import complete with ".to_owned();
            title.append(decimal_text(count as u128).as_str());
            title.append(" errors");
            title
        },
        Banner::Complete => "Import complete".to_owned(),
    }
}

/// What a banner says below its title.
pub fn banner_detail(banner: Banner) -> (detail: &'static str)
    ensures
        detail@ == (match banner {
            Banner::Partial { preview: true } => "Preview stopped before completion. No business data was written. Its job and partial report are retained."@,
            Banner::Partial { preview: false } => "Only confirmed work is included. Unconfirmed work was rolled back."@,
            Banner::Preview { can_commit: true } => "No business data was written. The job and report are retained. Review the numbers, then commit."@,
            Banner::Preview { can_commit: false } => "No business data was written. The job and report are retained. Historical preview. Start a new preview to commit this import."@,
            Banner::Errors { .. } => "The records below could not be applied."@,
            Banner::Complete => "Review the created, updated and skipped counts below."@,
        }),
{
    match banner {
        Banner::Partial { preview } => if preview {
            "Preview stopped before completion. No business data was written. Its job and partial report are retained."
        } else {
            "Only confirmed work is included. Unconfirmed work was rolled back."
        },
        Banner::Preview { can_commit } => if can_commit {
            "No business data was written. The job and report are retained. Review the numbers, then commit."
        } else {
            "No business data was written. The job and report are retained. Historical preview. Start a new preview to commit this import."
        },
        Banner::Errors { .. } => "The records below could not be applied.",
        Banner::Complete => "Review the created, updated and skipped counts below.",
    }
}

/// How many record errors of a report are shown.
pub fn shown_errors(report: &ImportReport) -> (shown: usize)
    ensures
        shown == (if report.row_errors.len() < 50 {
            report.row_errors.len() as int
        } else {
            50
        }),
{
    if report.row_errors.len() < ERROR_ROW_LIMIT {
        report.row_errors.len()
    } else {
        ERROR_ROW_LIMIT
    }
}

/// That not all errors are shown, where that is so.
pub fn more_errors(shown: usize, errors: u64) -> (note: Option<String>)
    ensures
        errors <= shown ==> note is None,
        errors > shown ==> note is Some && note->0@ == "Showing "@ + decimal(shown as nat)
            + " inline errors of "@ + decimal(errors as nat) + "."@,
{
    if errors as u128 > shown as u128 {
        let mut note = "Showing ".to_owned();
        note.append(decimal_text(shown as u128).as_str());
        note.append(" inline errors of ");
        note.append(decimal_text(errors as u128).as_str());
        note.append(".");
        Some(note)
    } else {
        None
    }
}

/// Where all errors of an import can be had.
pub fn errors_url(job_id: u128) -> (url: String)
    ensures
        url@ == "/api/import/harvest/jobs/"@ + id_text(job_id) + "/errors"@,
{
    let mut url = "/api/import/harvest/jobs/".to_owned();
    url.append(id_to_text(job_id).as_str());
    url.append("/errors");
    url
}

/// Whether changes can be read from the source again: after an import that ended.
pub fn offers_resync(show_resync: bool, mode: ImportMode, partial: bool) -> (offered: bool)
    ensures
        offered == (show_resync && mode == ImportMode::Commit && !partial),
{
    show_resync && mode == ImportMode::Commit && !partial
}

/// The class of the tile for a kind of record.
pub fn tile_class(counts: EntityCounts) -> (class: &'static str)
    ensures
        class@ == (if counts.errored > 0 {
            "counter-tile has-errors"@
        } else {
            "counter-tile"@
        }),
{
    if counts.errored > 0 {
        "counter-tile has-errors"
    } else {
        "counter-tile"
    }
}

/// What the results of a finished run are headed by.
pub fn run_label(mode: ImportMode) -> (label: &'static str)
    ensures
        label@ == (match mode {
            ImportMode::DryRun => "Dry-run preview (nothing written)"@,
            ImportMode::Commit => "Import complete"@,
        }),
{
    match mode {
        ImportMode::DryRun => "Dry-run preview (nothing written)",
        ImportMode::Commit => "Import complete",
    }
}

/// What the report of a run that was waited for is headed by.
pub fn report_heading(mode: ImportMode) -> (heading: &'static str)
    ensures
        heading@ == (match mode {
            ImportMode::DryRun => "Dry-run preview (nothing written)"@,
            ImportMode::Commit => "Import complete"@,
        }),
{
    match mode {
        ImportMode::DryRun => "Dry-run preview (nothing written)",
        ImportMode::Commit => "Import complete",
    }
}

} // verus!
