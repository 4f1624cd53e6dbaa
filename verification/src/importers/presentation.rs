//! What imports are called. What is not known stays unknown.

use crate::importers::report::EntityCounts;
use crate::importers::report::ImportReport;
use crate::importers::report::ImportSummary;
use crate::text::decimal;
use crate::text::decimal_text;
use crate::text::same;
use vstd::prelude::*;

verus! {

/// What a kind of import is called. An unknown kind stays unknown.
pub open spec fn source_label_text(kind: Seq<char>) -> Seq<char> {
    if kind == "harvest_api_import"@ {
        "Harvest API"@
    } else if kind == "harvest_csv_import"@ {
        "CSV file"@
    } else {
        "Unknown source"@
    }
}

/// What a kind of import is called. An unknown kind stays unknown.
pub fn source_label(kind: &str) -> (label: &'static str)
    ensures
        label@ == source_label_text(kind@),
{
    if same(kind, "harvest_api_import") {
        "Harvest API"
    } else if same(kind, "harvest_csv_import") {
        "CSV file"
    } else {
        "Unknown source"
    }
}

/// What the state of an import is called.
pub open spec fn state_label_text(state: Seq<char>) -> Seq<char> {
    if state == "queued"@ {
        "Queued"@
    } else if state == "running"@ {
        "Running"@
    } else if state == "succeeded"@ {
        "Completed"@
    } else if state == "failed"@ {
        "Failed"@
    } else if state == "cancelled"@ {
        "Cancelled"@
    } else {
        "Status unavailable"@
    }
}

/// What the state of an import is called.
pub fn state_label(state: &str) -> (label: &'static str)
    ensures
        label@ == state_label_text(state@),
{
    if same(state, "queued") {
        "Queued"
    } else if same(state, "running") {
        "Running"
    } else if same(state, "succeeded") {
        "Completed"
    } else if same(state, "failed") {
        "Failed"
    } else if same(state, "cancelled") {
        "Cancelled"
    } else {
        "Status unavailable"
    }
}

/// What the phase of an import is called.
pub open spec fn phase_label_text(phase: Seq<char>) -> Seq<char> {
    if phase == "importing"@ {
        "Reading source"@
    } else if phase == "clients"@ {
        "Clients"@
    } else if phase == "projects"@ {
        "Projects"@
    } else if phase == "tasks"@ {
        "Tasks"@
    } else if phase == "time_entries"@ {
        "Time entries"@
    } else if phase == "cancelling"@ {
        "Cancellation requested"@
    } else {
        "Phase unavailable"@
    }
}

/// What the phase of an import is called.
pub fn phase_label(phase: Option<&str>) -> (label: &'static str)
    ensures
        label@ == (match phase {
            Some(phase) => phase_label_text(phase@),
            None => "Phase unavailable"@,
        }),
{
    match phase {
        Some(phase) => if same(phase, "importing") {
            "Reading source"
        } else if same(phase, "clients") {
            "Clients"
        } else if same(phase, "projects") {
            "Projects"
        } else if same(phase, "tasks") {
            "Tasks"
        } else if same(phase, "time_entries") {
            "Time entries"
        } else if same(phase, "cancelling") {
            "Cancellation requested"
        } else {
            "Phase unavailable"
        },
        None => "Phase unavailable",
    }
}

/// Whether an import ended in a state that leaves its report partial.
pub fn partial_report(state: &str) -> (partial: bool)
    ensures
        partial == (state@ == "failed"@ || state@ == "cancelled"@),
{
    same(state, "failed") || same(state, "cancelled")
}

/// The sum of a count over what is imported.
pub open spec fn total(summary: ImportSummary, count: spec_fn(EntityCounts) -> u64) -> nat {
    (count(summary.clients) + count(summary.projects) + count(summary.tasks) + count(
        summary.time_entries,
    )) as nat
}

/// The results of a report in one line.
pub fn result_summary(report: &ImportReport) -> (text: String)
    ensures
        text@ == decimal(total(report.summary, |counts: EntityCounts| counts.created))
            + " created · "@ + decimal(
            total(report.summary, |counts: EntityCounts| counts.updated),
        ) + " updated · "@ + decimal(
            total(report.summary, |counts: EntityCounts| counts.skipped),
        ) + " skipped · "@ + decimal(
            total(report.summary, |counts: EntityCounts| counts.errored),
        ) + " errored"@,
{
    let clients = report.summary.clients;
    let projects = report.summary.projects;
    let tasks = report.summary.tasks;
    let entries = report.summary.time_entries;
    let created: u128 = clients.created as u128 + projects.created as u128 + tasks.created as u128
        + entries.created as u128;
    let updated: u128 = clients.updated as u128 + projects.updated as u128 + tasks.updated as u128
        + entries.updated as u128;
    let skipped: u128 = clients.skipped as u128 + projects.skipped as u128 + tasks.skipped as u128
        + entries.skipped as u128;
    let errored: u128 = clients.errored as u128 + projects.errored as u128 + tasks.errored as u128
        + entries.errored as u128;
    let mut text = decimal_text(created);
    text.append(" created · ");
    text.append(decimal_text(updated).as_str());
    text.append(" updated · ");
    text.append(decimal_text(skipped).as_str());
    text.append(" skipped · ");
    text.append(decimal_text(errored).as_str());
    text.append(" errored");
    text
}

/// What is said where no report is shown: not that there is none.
pub fn empty_selection() -> (text: &'static str)
    ensures
        text@ == "No report selected"@,
{
    "No report selected"
}

/// What the mode that a report names is called.
pub open spec fn mode_label_text(mode: Seq<char>) -> Seq<char> {
    if mode == "DryRun"@ {
        "Preview"@
    } else if mode == "Commit"@ {
        "Import"@
    } else {
        "Mode unavailable"@
    }
}

/// What the mode that a report names is called.
pub fn mode_label(mode: Option<&str>) -> (label: &'static str)
    ensures
        label@ == (match mode {
            Some(mode) => mode_label_text(mode@),
            None => "Mode unavailable"@,
        }),
{
    match mode {
        Some(mode) => if same(mode, "DryRun") {
            "Preview"
        } else if same(mode, "Commit") {
            "Import"
        } else {
            "Mode unavailable"
        },
        None => "Mode unavailable",
    }
}

/// Whether an import can be tried again.
#[derive(Clone, Copy, PartialEq, Eq, Structural, Debug)]
pub enum RetryAvailability {
    Available,
    UnavailableState,
    MissingUpload,
    PreviousAccount,
    Unknown,
}

/// Why an import cannot be tried again.
pub fn retry_reason(availability: RetryAvailability) -> (reason: &'static str)
    ensures
        reason@ == (match availability {
            RetryAvailability::PreviousAccount => "This import belongs to a previous Harvest account. Its report remains available; start a new preview for the current account."@,
            RetryAvailability::MissingUpload => "Upload is no longer retained. Choose the CSV file again and start a new preview."@,
            RetryAvailability::Unknown => "Retry availability is unknown. Refresh history or update Horae before retrying."@,
            RetryAvailability::UnavailableState => "This import is not in a retryable state. Refresh history to check its status."@,
            RetryAvailability::Available => ""@,
        }),
{
    match availability {
        RetryAvailability::PreviousAccount => {
            "This import belongs to a previous Harvest account. Its report remains available; start a new preview for the current account."
        },
        RetryAvailability::MissingUpload => {
            "Upload is no longer retained. Choose the CSV file again and start a new preview."
        },
        RetryAvailability::Unknown => {
            "Retry availability is unknown. Refresh history or update Horae before retrying."
        },
        RetryAvailability::UnavailableState => {
            "This import is not in a retryable state. Refresh history to check its status."
        },
        RetryAvailability::Available => "",
    }
}

/// What the size of a file is shown in.
#[derive(Clone, Copy, PartialEq, Eq, Structural, Debug)]
pub enum SizeUnit {
    Bytes,
    Kilobytes,
    Megabytes,
}

/// What the size of a file is shown in: the largest unit of which there is a whole one.
pub fn size_unit(bytes: u64) -> (unit: SizeUnit)
    ensures
        unit == (if bytes >= 1024 * 1024 {
            SizeUnit::Megabytes
        } else if bytes >= 1024 {
            SizeUnit::Kilobytes
        } else {
            SizeUnit::Bytes
        }),
{
    if bytes >= 1048576 {
        SizeUnit::Megabytes
    } else if bytes >= 1024 {
        SizeUnit::Kilobytes
    } else {
        SizeUnit::Bytes
    }
}

} // verus!
