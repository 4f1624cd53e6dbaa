use horae::importers::connection::ChangeAccount;
use horae::importers::connection::Conn;
use horae::importers::connection::connect_hint;
use horae::importers::connection::connect_label;
use horae::importers::connection::connect_started;
use horae::importers::connection::ConnectionStatus;
use horae::importers::connection::redirect_script;
use horae::importers::presentation::empty_selection;
use horae::importers::presentation::mode_label;
use horae::importers::presentation::partial_report;
use horae::importers::presentation::phase_label;
use horae::importers::presentation::result_summary;
use horae::importers::presentation::retry_reason;
use horae::importers::presentation::RetryAvailability;
use horae::importers::presentation::size_unit;
use horae::importers::presentation::SizeUnit;
use horae::importers::presentation::source_label;
use horae::importers::presentation::state_label;
use horae::importers::report::Banner;
use horae::importers::report::banner;
use horae::importers::report::banner_detail;
use horae::importers::report::banner_title;
use horae::importers::report::entity_label;
use horae::importers::report::EntityType;
use horae::importers::report::errors_url;
use horae::importers::report::ImportMode;
use horae::importers::report::ImportReport;
use horae::importers::report::more_errors;
use horae::importers::report::offers_resync;
use horae::importers::report::report_heading;
use horae::importers::report::RowError;
use horae::importers::report::shown_errors;
use horae::importers::report::SourceKind;
use horae::importers::report::SyncScope;
use horae::importers::report::toast_for;
use horae::importers::run::empty_history;
use horae::importers::run::Ended;
use horae::importers::run::found_job;
use horae::importers::run::history_view;
use horae::importers::run::HistoryView;
use horae::importers::run::Importer;
use horae::importers::run::Job;
use horae::importers::run::offers_older;
use horae::importers::run::Poll;
use horae::importers::run::progress_line;
use horae::importers::run::Run;
use horae::importers::run::Source;
use horae::importers::run::subtitle;
use horae::importers::run::title;

#[test]
fn source_labels_do_not_guess_unknown_importers() {
    for (kind, label) in [
        ("harvest_api_import", "Harvest API"),
        ("harvest_csv_import", "CSV file"),
        ("future", "Unknown source"),
    ] {
        assert_eq!(source_label(kind), label);
    }
}

#[test]
fn states_and_phases_have_readable_unknown_fallbacks() {
    for (state, label) in [
        ("queued", "Queued"),
        ("running", "Running"),
        ("succeeded", "Completed"),
        ("failed", "Failed"),
        ("cancelled", "Cancelled"),
        ("future", "Status unavailable"),
    ] {
        assert_eq!(state_label(state), label);
    }
    for (phase, label) in [
        (Some("time_entries"), "Time entries"),
        (Some("cancelling"), "Cancellation requested"),
        (Some("importing"), "Reading source"),
        (Some("future"), "Phase unavailable"),
        (None, "Phase unavailable"),
    ] {
        assert_eq!(phase_label(phase), label);
    }
}

#[test]
fn interrupted_report_is_partial_regardless_of_retry_prerequisites() {
    for (state, partial) in [("failed", true), ("cancelled", true), ("succeeded", false)] {
        assert_eq!(partial_report(state), partial);
    }
}

#[test]
fn summaries_distinguish_zero_skipped_and_mixed_outcomes() {
    for mode in [ImportMode::DryRun, ImportMode::Commit] {
        let mut report = ImportReport::new(SourceKind::Csv, mode);
        assert_eq!(
            result_summary(&report),
            "0 created · 0 updated · 0 skipped · 0 errored"
        );
        report.summary.time_entries.skipped = 4;
        assert_eq!(
            result_summary(&report),
            "0 created · 0 updated · 4 skipped · 0 errored"
        );
        report.summary.clients.created = 2;
        report.summary.projects.updated = 3;
        report.summary.time_entries.errored = 1;
        assert_eq!(
            result_summary(&report),
            "2 created · 3 updated · 4 skipped · 1 errored"
        );
    }
}

#[test]
fn no_selection_does_not_claim_no_import_history() {
    assert_eq!(empty_selection(), "No report selected");
}

#[test]
fn totals_hold_more_than_any_one_count() {
    let mut report = ImportReport::new(SourceKind::Api, ImportMode::Commit);
    report.summary.clients.created = u64::MAX;
    report.summary.tasks.created = u64::MAX;
    assert_eq!(
        result_summary(&report),
        "36893488147419103230 created · 0 updated · 0 skipped · 0 errored"
    );
    assert_eq!(report.summary.counts(EntityType::Task).created, u64::MAX);
    assert_eq!(report.summary.counts(EntityType::Project).created, 0);
}

#[test]
fn modes_and_retry_reasons_are_named() {
    assert_eq!(mode_label(Some("DryRun")), "Preview");
    assert_eq!(mode_label(Some("Commit")), "Import");
    assert_eq!(mode_label(Some("dryrun")), "Mode unavailable");
    assert_eq!(mode_label(None), "Mode unavailable");
    assert_eq!(retry_reason(RetryAvailability::Available), "");
    assert!(retry_reason(RetryAvailability::MissingUpload).starts_with("Upload is no longer"));
    assert!(retry_reason(RetryAvailability::PreviousAccount).contains("previous Harvest account"));
    assert!(retry_reason(RetryAvailability::Unknown).contains("unknown"));
    assert!(retry_reason(RetryAvailability::UnavailableState).contains("not in a retryable state"));
}

#[test]
fn entities_are_named() {
    assert_eq!(entity_label(EntityType::Client), "Clients");
    assert_eq!(entity_label(EntityType::Project), "Projects");
    assert_eq!(entity_label(EntityType::Task), "Tasks");
    assert_eq!(entity_label(EntityType::TimeEntry), "Time entries");
}

#[test]
fn toasts_tell_previews_from_imports() {
    assert_eq!(toast_for(false, 0, ImportMode::Commit), "Import failed");
    assert_eq!(toast_for(true, 3, ImportMode::DryRun), "Dry-run finished · 3 errors");
    assert_eq!(toast_for(true, 12, ImportMode::Commit), "Import complete · 12 errors");
    assert_eq!(
        toast_for(true, 0, ImportMode::DryRun),
        "Preview complete · no business data changed"
    );
    assert_eq!(toast_for(true, 0, ImportMode::Commit), "Import complete");
}

#[test]
fn banners_follow_how_an_import_ended() {
    assert_eq!(
        banner(ImportMode::DryRun, true, true, 9),
        Banner::Partial { preview: true }
    );
    assert_eq!(
        banner(ImportMode::DryRun, false, false, 9),
        Banner::Preview { can_commit: false }
    );
    assert_eq!(
        banner(ImportMode::Commit, false, true, 9),
        Banner::Errors { count: 9 }
    );
    assert_eq!(banner(ImportMode::Commit, false, true, 0), Banner::Complete);
    assert_eq!(
        banner_title(Banner::Errors { count: 9 }),
        "Import complete with 9 errors"
    );
    assert!(banner_detail(Banner::Partial { preview: false }).contains("rolled back"));
    assert!(banner_detail(Banner::Preview { can_commit: true }).ends_with("then commit."));
}

#[test]
fn at_most_fifty_errors_are_listed() {
    let mut report = ImportReport::new(SourceKind::Csv, ImportMode::Commit);
    assert_eq!(shown_errors(&report), 0);
    for line in 0..51 {
        report.row_errors.push(RowError {
            source_location: format!("line {line}"),
            entity: EntityType::TimeEntry,
            reason: "wrong".into(),
        });
    }
    assert_eq!(shown_errors(&report), 50);
    assert_eq!(more_errors(50, 50), None);
    assert_eq!(
        more_errors(50, 120).as_deref(),
        Some("Showing 50 inline errors of 120.")
    );
    assert_eq!(
        errors_url(1),
        "/api/import/harvest/jobs/00000000-0000-0000-0000-000000000001/errors"
    );
    assert!(offers_resync(true, ImportMode::Commit, false));
    assert!(!offers_resync(true, ImportMode::DryRun, false));
}

fn status(configured: bool, connected: bool, expired: bool, bound: bool) -> ConnectionStatus {
    ConnectionStatus {
        configured,
        connected,
        token_expired: expired,
        account_id: if bound { Some("42".into()) } else { None },
        account_generation: 7,
        connection_revision: 3,
    }
}

#[test]
fn connections_are_labelled_by_what_is_known() {
    assert_eq!(Conn::Loading.label(), "Checking connection…");
    assert_eq!(Conn::Failed("x".into()).label(), "Status unavailable");
    assert_eq!(Conn::Ready(status(false, true, false, true)).label(), "Not configured");
    assert_eq!(Conn::Ready(status(true, true, true, true)).label(), "Token expired");
    assert_eq!(Conn::Ready(status(true, true, false, true)).label(), "Connected");
    assert_eq!(Conn::Ready(status(true, false, false, true)).label(), "Disconnected");
    assert_eq!(Conn::Ready(status(true, false, false, false)).label(), "Not connected");
    assert_eq!(Conn::Ready(status(true, true, true, true)).tone(), "badge-warning");
    assert!(Conn::Loading.configured());
    assert!(!Conn::Ready(status(false, false, false, false)).configured());
    assert_eq!(connect_hint(&status(true, true, false, true)), None);
    assert!(connect_hint(&status(true, true, true, true)).unwrap().contains("expired"));
    assert_eq!(connect_label(false, true), "Reconnect original account");
}

#[test]
fn changing_the_account_releases_what_was_inspected() {
    let mut change = ChangeAccount { inspected: None, busy: false, error: None };
    assert!(change.confirm().is_none());
    change.inspect(&status(true, true, false, true));
    let request = change.confirm().unwrap();
    assert_eq!(request.account, "42");
    assert_eq!((request.generation, request.revision), (7, 3));
    assert!(change.confirm().is_none());
    change.dismiss();
    assert!(change.inspected.is_some());
    assert!(!change.released(Err("conflict".into())));
    assert_eq!(change.error.as_deref(), Some("conflict"));
    assert!(change.confirm().is_some());
    assert!(change.released(Ok(())));
    assert!(change.inspected.is_none());
    change.connecting(Err("offline".into()));
    assert_eq!(
        change.error.as_deref(),
        Some("Account released. Use Connect Harvest to try authorization again: offline")
    );
    assert!(!change.busy);
}

fn job(id: u128, status: &str, active: bool) -> Job {
    Job {
        id,
        status: status.into(),
        phase: None,
        active,
        has_report: false,
        last_error: None,
    }
}

#[test]
fn a_preview_is_confirmed_for_the_account_it_was_made_for() {
    let mut page = Importer::new();
    let preview = Run::Api { mode: ImportMode::DryRun, sync: SyncScope::Full, generation: None };
    let submitted = page.begin(preview, Some(7)).unwrap();
    assert_eq!(
        submitted,
        Run::Api { mode: ImportMode::DryRun, sync: SyncScope::Full, generation: Some(7) }
    );
    assert!(page.begin(preview, Some(7)).is_none());
    page.begun(submitted, Ok(job(5, "queued", true)));
    let version = page.version;
    assert_eq!(page.looked(5, version, Ok(job(5, "running", true))).0, Poll::Again);
    assert_eq!(page.looked(5, version + 1, Ok(job(5, "succeeded", false))).0, Poll::Stale);
    let report = ImportReport::new(SourceKind::Api, ImportMode::DryRun);
    assert!(page.ended(
        5,
        version,
        Ok(Ended {
            job: Job { has_report: true, ..job(5, "succeeded", false) },
            report: Some(Ok(report)),
            errors: 2,
        })
    ));
    assert_eq!(page.toast.as_deref(), Some("Dry-run finished · 2 errors"));
    let same = Conn::Ready(status(true, true, false, true));
    let mut other = status(true, true, false, true);
    other.account_generation = 8;
    assert!(page.can_commit(&same));
    assert!(page.current_preview(&same));
    assert!(!page.can_commit(&Conn::Ready(other)));
    assert_eq!(
        page.confirm(),
        Some(Run::Api { mode: ImportMode::Commit, sync: SyncScope::Full, generation: Some(7) })
    );
    page.select(5);
    assert!(!page.can_commit(&same));
    assert_eq!(page.confirm(), None);
}

#[test]
fn an_import_without_a_report_says_why() {
    let mut page = Importer::new();
    page.watch(9);
    page.ended(
        9,
        page.version,
        Ok(Ended { job: job(9, "cancelled", false), report: None, errors: 0 }),
    );
    assert!(matches!(&page.report, Some(Err(message)) if message == "Import cancelled"));
    page.watch(9);
    page.ended(
        9,
        page.version,
        Ok(Ended { job: job(9, "succeeded", false), report: None, errors: 0 }),
    );
    assert!(
        matches!(&page.report, Some(Err(message)) if message == "Import completed without a report")
    );
    page.watch(9);
    let version = page.version;
    assert!(!page.ended(9, version, Err("gone".into())));
    assert!(matches!(&page.poll_error, Some((9, message)) if message == "gone"));
    assert!(!page.running);
}

#[test]
fn an_unfinished_import_is_followed_once_unless_something_was_done() {
    let jobs = vec![job(1, "succeeded", false), job(2, "running", true), job(3, "queued", true)];
    let mut page = Importer::new();
    page.history_loaded(&jobs);
    assert_eq!(page.active_job, Some(2));
    let mut busy = Importer::new();
    let _ = busy.begin(Run::Csv { mode: ImportMode::DryRun, file: 1 }, None);
    busy.history_loaded(&jobs);
    assert_eq!(busy.active_job, None);
}

#[test]
fn retrying_and_cancelling_report_their_failures() {
    let mut page = Importer::new();
    assert!(page.begin_retry());
    assert!(!page.begin_retry());
    page.retried(Err("expired".into()));
    assert_eq!(
        page.action_error.as_deref(),
        Some("Could not retry import: expired. History has been refreshed; check the reason before trying again.")
    );
    assert_eq!(page.begin_cancel(), None);
    page.watch(4);
    assert_eq!(page.begin_cancel(), Some(4));
    page.cancelled(4, Err("late".into()));
    assert_eq!(page.action_error.as_deref(), Some("Could not cancel import: late"));
    assert!(page.begin_connection());
    page.connecting(Err("no network".into()));
    assert!(page.connection_error.as_ref().unwrap().0.starts_with("Could not start"));
    assert!(page.begin_connection());
    page.disconnected(Ok(()));
    assert!(page.connection_error.is_none());
    assert!(page.begin_connection());
    page.disconnected(Err("x".into()));
    assert!(page.connection_error.as_ref().unwrap().0.starts_with("Could not disconnect"));
}

#[test]
fn history_pages_go_back_and_forth() {
    let mut page = Importer::new();
    assert_eq!(page.history_cursor(), None);
    assert!(page.refresh());
    page.older(11);
    page.older(12);
    assert_eq!(page.history_cursor(), Some(12));
    page.newer();
    assert_eq!(page.history_cursor(), Some(11));
    assert!(!page.refresh());
    assert_eq!(page.history_cursor(), None);
    page.newer();
    assert_eq!(page.pages, vec![None]);
    assert!(offers_older(20));
    assert!(!offers_older(19));
    assert_eq!(empty_history(Some(1)), "No imports on this page.");
    assert_eq!(title(Source::Csv), "Import from CSV");
    assert!(subtitle(Source::Picker).starts_with("Bring data in"));
}

#[test]
fn sizes_are_shown_in_the_largest_unit_that_they_fill() {
    assert_eq!(size_unit(1023), SizeUnit::Bytes);
    assert_eq!(size_unit(1024), SizeUnit::Kilobytes);
    assert_eq!(size_unit(1048575), SizeUnit::Kilobytes);
    assert_eq!(size_unit(1048576), SizeUnit::Megabytes);
}

#[test]
fn progress_and_history_are_written_out() {
    assert_eq!(progress_line(3, Some(9)), "3 processed of 9");
    assert_eq!(progress_line(3, None), "3 processed");
    assert_eq!(history_view(None, None, false), HistoryView::Loading);
    assert_eq!(history_view(Some((Some(1), Some(2))), None, false), HistoryView::Loading);
    assert_eq!(history_view(Some((None, Some(2))), None, true), HistoryView::Loading);
    assert_eq!(history_view(Some((None, None)), None, false), HistoryView::Failed);
    assert_eq!(history_view(Some((None, Some(0))), None, false), HistoryView::Empty);
    assert_eq!(history_view(Some((None, Some(2))), None, false), HistoryView::Shown);
    assert_eq!(report_heading(ImportMode::Commit), "Import complete");
    let mut importer = Importer::new();
    assert!(!importer.can_cancel());
    importer.watch(4);
    assert!(importer.can_cancel());
    importer.report = Some(Err("old".into()));
    importer.file_chosen();
    importer.account_changed();
    assert!(importer.report.is_none() && importer.origin.is_none());
}

#[test]
fn cancelling_a_change_of_account_forgets_its_error() {
    let mut change = ChangeAccount { inspected: None, busy: false, error: Some("x".into()) };
    change.inspect(&status(true, true, false, true));
    change.error = Some("refused".into());
    change.busy = true;
    change.cancel();
    assert!(change.inspected.is_some() && change.error.is_some());
    change.busy = false;
    change.cancel();
    assert!(change.inspected.is_none() && change.error.is_none());
}

#[test]
fn a_missing_import_is_an_error() {
    assert!(matches!(found_job(Ok(Some(job(3, "queued", true)))), Ok(job) if job.id == 3));
    assert!(matches!(
        found_job(Ok(None)),
        Err(message) if message == "Import job not found or no longer available"
    ));
    assert!(matches!(found_job(Err("down".into())), Err(message) if message == "down"));
}

#[test]
fn a_partial_report_says_what_was_confirmed() {
    let mut page = Importer::new();
    let mut stopped = job(3, "cancelled", false);
    stopped.has_report = true;
    page.progress = Some(stopped);
    assert!(page.partial_alert(5).is_none());
    page.report = Some(Ok(ImportReport::new(SourceKind::Api, ImportMode::Commit)));
    let alert = page.partial_alert(5).unwrap();
    assert_eq!(alert.title, "Import cancelled");
    assert_eq!(alert.error, None);
    assert_eq!(alert.count, "5 processed in confirmed batches");
    let failed = page.progress.as_mut().unwrap();
    failed.status = "failed".into();
    failed.last_error = Some("lost".into());
    let alert = page.partial_alert(0).unwrap();
    assert_eq!((alert.title, alert.error.as_deref()), ("Import failed", Some("lost")));
    page.progress.as_mut().unwrap().has_report = false;
    assert!(page.partial_alert(5).is_none());
}

#[test]
fn changes_are_imported_from_the_connected_account() {
    assert_eq!(
        Run::resync(),
        Run::Api { mode: ImportMode::Commit, sync: SyncScope::Incremental, generation: None }
    );
}

#[test]
fn browsers_are_sent_to_an_address_as_json() {
    assert_eq!(
        redirect_script("https://x.org/?a=\"b\"\\"),
        "window.location.href = \"https://x.org/?a=\\\"b\\\"\\\\\";"
    );
    assert_eq!(
        connect_started(Ok("https://x.org".into())),
        Ok("window.location.href = \"https://x.org\";".to_string())
    );
    assert_eq!(
        connect_started(Err("offline".into())),
        Err("Could not start Harvest connect: offline".to_string())
    );
    assert_ne!(redirect_script("a\n"), redirect_script("a\\n"));
}
