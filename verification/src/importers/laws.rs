//! What running imports promises: what is confirmed, what is followed and what is said of it.

use crate::importers::connection::Conn;
use crate::importers::connection::ConnectionStatus;
use crate::importers::presentation::mode_label_text;
use crate::importers::presentation::phase_label_text;
use crate::importers::presentation::source_label_text;
use crate::importers::presentation::state_label_text;
use crate::importers::presentation::total;
use crate::importers::report::toast_text;
use crate::importers::report::EntityCounts;
use crate::importers::report::EntityType;
use crate::importers::report::ImportMode;
use crate::importers::report::ImportSummary;
use crate::importers::report::SyncScope;
use crate::importers::run::Importer;
use crate::importers::run::Job;
use crate::importers::run::Run;
use crate::text::decimal;
use vstd::prelude::*;

verus! {

/// Confirming an import changes something, be it of an account or of a file, and is of the same
/// file, or of the same account and as much of it.
pub proof fn confirmed_imports_change_something(run: Run)
    ensures
        run is Api ==> run.committed() is Api && run.committed()->Api_mode == ImportMode::Commit
            && run.committed()->sync == run->sync && run.committed()->generation
            == run->generation,
        run is Csv ==> run.committed() is Csv && run.committed()->Csv_mode == ImportMode::Commit
            && run.committed()->file == run->file,
        run.committed().committed() == run.committed(),
{
}

/// Reading changes again changes something, from what has changed alone, of the account that is
/// connected.
pub proof fn changes_are_read_from_the_connected_account(connected: Option<i64>)
    ensures
        Run::of_changes() is Api,
        Run::of_changes()->Api_mode == ImportMode::Commit,
        Run::of_changes()->sync == SyncScope::Incremental,
        Run::of_changes().of_account(connected) is Api,
        Run::of_changes().of_account(connected)->generation == connected,
        Run::of_changes().committed() == Run::of_changes(),
{
}

/// An import is submitted with the account that it names, else with the one that is connected;
/// nothing else of it changes, and one of a file stays as it is.
pub proof fn imports_keep_the_account_they_name(run: Run, connected: Option<i64>)
    ensures
        run is Csv ==> run.of_account(connected) == run,
        run is Api ==> run.of_account(connected) is Api && run.of_account(connected)->Api_mode
            == run->Api_mode && run.of_account(connected)->sync == run->sync,
        run is Api && run->generation is Some ==> run.of_account(connected)->generation
            == run->generation,
        run is Api && run->generation is None ==> run.of_account(connected)->generation
            == connected,
{
}

/// An account is connected exactly where the connection is known, set up and on, and is of that
/// very generation.
pub proof fn accounts_are_told_by_generation(
    status: ConnectionStatus,
    message: String,
    generation: Option<i64>,
)
    ensures
        Conn::Ready(status).holds_account(generation) <==> status.configured && status.connected
            && generation is Some && generation->0 == status.account_generation,
        !Conn::Loading.holds_account(generation),
        !Conn::Failed(message).holds_account(generation),
{
}

/// A preview can be confirmed exactly where it is the one that was submitted here, has ended
/// well, and its account is still connected; one of a file needs no account.
pub proof fn previews_are_confirmed_where_they_were_made(
    importer: Importer,
    conn: Conn,
    id: u128,
    run: Run,
)
    ensures
        importer.origin is None ==> !importer.may_commit(conn),
        importer.progress is None ==> !importer.may_commit(conn),
        importer.progress is Some && importer.progress->0.status@ != "succeeded"@
            ==> !importer.may_commit(conn),
        importer.origin == Some((id, run)) && importer.progress is Some && importer.progress->0.id
            != id ==> !importer.may_commit(conn),
        importer.origin == Some((id, run)) && run is Api && !conn.holds_account(run->generation)
            ==> !importer.may_commit(conn),
        importer.origin == Some((id, run)) && importer.progress is Some && importer.progress->0.id
            == id && importer.progress->0.status@ == "succeeded"@ && (run is Csv
            || conn.holds_account(run->generation)) ==> importer.may_commit(conn),
{
}

/// Following an import shows nothing of an earlier one, and answers to earlier questions no
/// longer count.
pub proof fn followed_imports_start_afresh(importer: Importer, id: u128, earlier: u128)
    requires
        importer.version < u64::MAX,
    ensures
        ({
            let after = importer.following(id);
            &&& after.running
            &&& after.active_job == Some(id)
            &&& after.report is None
            &&& after.progress is None
            &&& after.toast is None
            &&& after.poll_error is None
            &&& after.action_error is None
            &&& !after.restore
            &&& after.version > importer.version
            &&& after.source == importer.source
            &&& after.pages == importer.pages
            &&& after.origin == importer.origin
            &&& after.connection_error == importer.connection_error
            &&& after.action_pending == importer.action_pending
            &&& after.asks(id, after.version)
            &&& !after.asks(earlier, importer.version)
        }),
{
}

/// An answer counts exactly where it is of the import that is followed and of the last question.
pub proof fn answers_are_to_the_last_question(importer: Importer, id: u128, version: u64)
    ensures
        importer.active_job is None ==> !importer.asks(id, version),
        importer.version != version ==> !importer.asks(id, version),
        importer.active_job == Some(id) ==> importer.asks(id, importer.version),
        importer.active_job is Some && importer.active_job->0 != id ==> !importer.asks(id, version),
{
}

/// The import that is followed again is the first of the history that has not ended.
pub proof fn the_first_active_import_is_followed(jobs: Seq<Job>, i: int, k: int)
    ensures
        Importer::first_active(jobs, i) ==> 0 <= i < jobs.len() && jobs[i].active,
        Importer::first_active(jobs, i) && 0 <= k < jobs.len() && jobs[k].active ==> i <= k,
        0 < jobs.len() && jobs[0].active ==> Importer::first_active(jobs, 0),
{
}

/// An import can be begun exactly while none is running and nothing is awaited.
pub proof fn imports_come_one_at_a_time(importer: Importer)
    ensures
        importer.running ==> !importer.idle(),
        importer.action_pending ==> !importer.idle(),
        !importer.running && !importer.action_pending ==> importer.idle(),
{
}

/// An import that succeeded, and one that came with a report, is taken by its report. Of any
/// other it is said what went wrong, or else how it ended.
pub proof fn ended_imports_say_how(job: Job)
    ensures
        job.has_report ==> Importer::reports(job),
        job.status@ == "succeeded"@ ==> Importer::reports(job),
        !job.has_report && job.status@ != "succeeded"@ ==> !Importer::reports(job),
        job.last_error is Some ==> Importer::ended_text(job) == job.last_error->0@,
        job.last_error is None && job.status@ == "cancelled"@ ==> Importer::ended_text(job)
            == "Import cancelled"@,
        job.last_error is None && job.status@ != "cancelled"@ ==> Importer::ended_text(job)
            == "Import failed"@,
{
}

/// It is said that a report is partial exactly where one is shown of an import that failed or
/// was cancelled and came with it.
pub proof fn partial_reports_are_told(importer: Importer)
    ensures
        importer.report is None || importer.progress is None ==> !importer.alerts(),
        importer.progress is Some && !importer.progress->0.has_report ==> !importer.alerts(),
        importer.progress is Some && importer.progress->0.status@ != "failed"@
            && importer.progress->0.status@ != "cancelled"@ ==> !importer.alerts(),
        importer.report is Some && importer.progress is Some && importer.progress->0.has_report && (
        importer.progress->0.status@ == "failed"@ || importer.progress->0.status@ == "cancelled"@)
            ==> importer.alerts(),
{
}

/// The history starts with its first page, and the page on show is the last one gone to.
pub proof fn the_history_shows_the_last_page(importer: Importer, last: u128)
    ensures
        importer.well_formed() ==> importer.pages.len() > 0 && importer.pages@[0] is None,
        importer.well_formed() && importer.pages.len() == 1 ==> importer.cursor() is None,
        importer.pages.len() > 0 ==> importer.cursor() == importer.pages@[importer.pages.len() - 1],
{
}

/// The totals of a report count each kind of record once.
pub proof fn reports_total_each_kind(summary: ImportSummary)
    ensures
        total(summary, |counts: EntityCounts| counts.created) == summary.clients.created
            + summary.projects.created + summary.tasks.created + summary.time_entries.created,
        total(summary, |counts: EntityCounts| counts.updated) == summary.clients.updated
            + summary.projects.updated + summary.tasks.updated + summary.time_entries.updated,
        total(summary, |counts: EntityCounts| counts.skipped) == summary.clients.skipped
            + summary.projects.skipped + summary.tasks.skipped + summary.time_entries.skipped,
        total(summary, |counts: EntityCounts| counts.errored) == summary.clients.errored
            + summary.projects.errored + summary.tasks.errored + summary.time_entries.errored,
        summary.of(EntityType::Client) == summary.clients,
        summary.of(EntityType::Project) == summary.projects,
        summary.of(EntityType::Task) == summary.tasks,
        summary.of(EntityType::TimeEntry) == summary.time_entries,
{
}

/// What is said at the end tells a failure, the number of errors where there are some, and that
/// a preview changed nothing.
pub proof fn ends_are_told(errors: u64, mode: ImportMode)
    ensures
        toast_text(false, errors, mode) == "Import failed"@,
        errors > 0 ==> toast_text(true, errors, ImportMode::Commit) == "Import complete · "@
            + decimal(errors as nat) + " errors"@,
        errors > 0 ==> toast_text(true, errors, ImportMode::DryRun) == "Dry-run finished · "@
            + decimal(errors as nat) + " errors"@,
        toast_text(true, 0, ImportMode::Commit) == "Import complete"@,
        toast_text(true, 0, ImportMode::DryRun) == "Preview complete · no business data changed"@,
{
}

/// What is not known stays unknown: a kind, a state, a phase or a mode that has no name here is
/// given none.
pub proof fn unknown_words_stay_unknown(word: Seq<char>)
    ensures
        word != "harvest_api_import"@ && word != "harvest_csv_import"@ ==> source_label_text(word)
            == "Unknown source"@,
        word != "queued"@ && word != "running"@ && word != "succeeded"@ && word != "failed"@ && word
            != "cancelled"@ ==> state_label_text(word) == "Status unavailable"@,
        word != "importing"@ && word != "clients"@ && word != "projects"@ && word != "tasks"@
            && word != "time_entries"@ && word != "cancelling"@ ==> phase_label_text(word)
            == "Phase unavailable"@,
        word != "DryRun"@ && word != "Commit"@ ==> mode_label_text(word) == "Mode unavailable"@,
{
}

} // verus!
