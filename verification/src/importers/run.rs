//! Running an import: previewing it, following it and confirming it.

use crate::importers::connection::Conn;
use crate::importers::presentation::partial_report;
use crate::importers::report::toast_for;
use crate::importers::report::toast_text;
use crate::importers::report::ImportMode;
use crate::importers::report::ImportReport;
use crate::importers::report::SyncScope;
use crate::lists::copy_text;
use crate::text::decimal;
use crate::text::decimal_text;
use crate::text::same;
use vstd::prelude::*;

verus! {

/// The imports on a full page of the history.
pub const HISTORY_PAGE: usize = 20;

/// What is imported from; `Picker` while that is chosen.
#[derive(Clone, Copy, PartialEq, Eq, Structural, Debug)]
pub enum Source {
    Picker,
    Api,
    Csv,
}

/// An import to run. `file` tells which chosen file is meant.
#[derive(Clone, Copy, PartialEq, Eq, Structural, Debug)]
pub enum Run {
    Api { mode: ImportMode, sync: SyncScope, generation: Option<i64> },
    Csv { mode: ImportMode, file: u64 },
}

impl Run {
    /// The same import, to change something.
    pub open spec fn committed(self) -> Run {
        match self {
            Run::Api { sync, generation, .. } => Run::Api {
                mode: ImportMode::Commit,
                sync,
                generation,
            },
            Run::Csv { file, .. } => Run::Csv { mode: ImportMode::Commit, file },
        }
    }

    /// The same import, to change something: of the same file, or of the same account.
    pub fn commit(&self) -> (run: Run)
        ensures
            run == self.committed(),
            *self is Api ==> run is Api && run->Api_mode == ImportMode::Commit && run->sync
                == self->sync && run->generation == self->generation,
            *self is Csv ==> run is Csv && run->Csv_mode == ImportMode::Commit && run->file
                == self->file,
    {
        match *self {
            Run::Api { sync, generation, .. } => Run::Api {
                mode: ImportMode::Commit,
                sync,
                generation,
            },
            Run::Csv { file, .. } => Run::Csv { mode: ImportMode::Commit, file },
        }
    }

    /// The import of what has changed since the last one, from the account that is connected.
    pub open spec fn of_changes() -> Run {
        Run::Api { mode: ImportMode::Commit, sync: SyncScope::Incremental, generation: None }
    }

    /// The import of what has changed since the last one.
    pub fn resync() -> (run: Run)
        ensures
            run == Run::of_changes(),
    {
        Run::Api { mode: ImportMode::Commit, sync: SyncScope::Incremental, generation: None }
    }

    /// The import of an account: the one it names, else the one that is connected.
    pub open spec fn of_account(self, connected: Option<i64>) -> Run {
        match self {
            Run::Api { mode, sync, generation } => Run::Api {
                mode,
                sync,
                generation: match generation {
                    Some(generation) => Some(generation),
                    None => connected,
                },
            },
            Run::Csv { .. } => self,
        }
    }
}

/// An import as it was last seen. `active` tells that it has not ended, `has_report` that
/// it came with a report.
#[derive(Debug)]
pub struct Job {
    pub id: u128,
    pub status: String,
    pub phase: Option<String>,
    pub active: bool,
    pub has_report: bool,
    pub last_error: Option<String>,
}

/// What is said of a report that is partial.
#[derive(Debug)]
pub struct PartialAlert {
    pub title: &'static str,
    pub error: Option<String>,
    pub count: String,
}

/// What a look at an import finds: an import that is not there is an error.
pub fn found_job(reply: Result<Option<Job>, String>) -> (found: Result<Job, String>)
    ensures
        match reply {
            Ok(Some(job)) => found == Ok::<Job, String>(job),
            Ok(None) => found is Err && found->Err_0@
                == "Import job not found or no longer available"@,
            Err(message) => found == Err::<Job, String>(message),
        },
{
    match reply {
        Ok(Some(job)) => Ok(job),
        Ok(None) => Err("Import job not found or no longer available".to_owned()),
        Err(message) => Err(message),
    }
}

/// What came of a look at an import.
#[derive(Clone, Copy, PartialEq, Eq, Structural, Debug)]
pub enum Poll {
    /// The answer is to a question that is no longer asked.
    Stale,
    /// The import goes on: it is looked at again.
    Again,
    /// The import has ended, or could not be looked at.
    Ended,
}

/// An import that has ended, with the report that came with it and the number of errors
/// that the report counts.
#[derive(Debug)]
pub struct Ended {
    pub job: Job,
    pub report: Option<Result<ImportReport, String>>,
    pub errors: u64,
}

/// The page on which imports are run.
#[derive(Debug)]
pub struct Importer {
    pub source: Source,
    pub report: Option<Result<ImportReport, String>>,
    pub running: bool,
    pub active_job: Option<u128>,
    pub progress: Option<Job>,
    pub toast: Option<String>,
    pub pages: Vec<Option<u128>>,
    pub restore: bool,
    pub version: u64,
    pub poll_error: Option<(u128, String)>,
    pub action_error: Option<String>,
    /// What went wrong with the connection, and the details.
    pub connection_error: Option<(&'static str, String)>,
    pub action_pending: bool,
    pub origin: Option<(u128, Run)>,
}

impl Importer {
    /// There is a first page of the history at all times.
    pub open spec fn well_formed(self) -> bool {
        self.pages.len() > 0 && self.pages@[0] is None
    }

    /// A page on which nothing was run yet.
    pub fn new() -> (importer: Importer)
        ensures
            importer.well_formed(),
            importer.source == Source::Picker,
            importer.report is None,
            !importer.running,
            importer.active_job is None,
            importer.progress is None,
            importer.toast is None,
            importer.pages@ == seq![None::<u128>],
            importer.restore,
            importer.version == 0,
            importer.poll_error is None,
            importer.action_error is None,
            importer.connection_error is None,
            !importer.action_pending,
            importer.origin is None,
    {
        let mut pages: Vec<Option<u128>> = Vec::new();
        pages.push(None);
        Importer {
            source: Source::Picker,
            report: None,
            running: false,
            active_job: None,
            progress: None,
            toast: None,
            pages,
            restore: true,
            version: 0,
            poll_error: None,
            action_error: None,
            connection_error: None,
            action_pending: false,
            origin: None,
        }
    }

    /// The page while an import is followed: nothing of an earlier one is shown.
    pub open spec fn following(self, id: u128) -> Importer {
        Importer {
            restore: false,
            version: (self.version + 1) as u64,
            poll_error: None,
            action_error: None,
            report: None,
            toast: None,
            progress: None,
            running: true,
            active_job: Some(id),
            ..self
        }
    }

    /// Follows an import.
    pub fn watch(&mut self, id: u128)
        requires
            old(self).version < u64::MAX,
        ensures
            *final(self) == old(self).following(id),
    {
        self.restore = false;
        self.version = self.version + 1;
        self.poll_error = None;
        self.action_error = None;
        self.report = None;
        self.toast = None;
        self.progress = None;
        self.running = true;
        self.active_job = Some(id);
    }

    /// Whether the job at `i` is the first that has not ended.
    pub open spec fn first_active(jobs: Seq<Job>, i: int) -> bool {
        &&& 0 <= i < jobs.len()
        &&& jobs[i].active
        &&& forall|k: int| 0 <= k < i ==> !(#[trigger] jobs[k]).active
    }

    /// Takes the first page of the history: an import that has not ended is followed, unless
    /// something else was done on the page before.
    pub fn history_loaded(&mut self, jobs: &Vec<Job>)
        requires
            old(self).version < u64::MAX,
        ensures
            !old(self).restore ==> *final(self) == *old(self),
            old(self).restore ==> {
                let quiet = Importer { restore: false, ..*old(self) };
                &&& (forall|k: int| 0 <= k < jobs.len() ==> !(#[trigger] jobs@[k]).active)
                    ==> *final(self) == quiet
                &&& forall|i: int| #[trigger]
                    Self::first_active(jobs@, i) ==> *final(self) == quiet.following(jobs@[i].id)
            },
    {
        if !self.restore {
            return ;
        }
        self.restore = false;
        let ghost quiet = *self;
        let mut i: usize = 0;
        while i < jobs.len()
            invariant
                i <= jobs.len(),
                *self == quiet,
                quiet == (Importer { restore: false, ..*old(self) }),
                old(self).restore,
                quiet.version < u64::MAX,
                forall|k: int| 0 <= k < i ==> !(#[trigger] jobs@[k]).active,
            decreases jobs.len() - i,
        {
            if jobs[i].active {
                proof {
                    assert forall|k: int| #[trigger] Self::first_active(jobs@, k) implies k == i by {
                        if k < i {
                            assert(!jobs@[k].active);
                        } else if i < k {
                            assert(!jobs@[i as int].active);
                        }
                    }
                }
                self.watch(jobs[i].id);
                return ;
            }
            i += 1;
        }
    }

    /// Whether an answer is to what is asked now.
    pub open spec fn asks(self, id: u128, version: u64) -> bool {
        self.active_job == Some(id) && self.version == version
    }

    /// Takes a look at an import that was asked for: whether to look again. An answer to an
    /// earlier question changes nothing.
    pub fn looked(&mut self, id: u128, version: u64, found: Result<Job, String>) -> (poll: (
        Poll,
        Option<Result<Job, String>>,
    ))
        ensures
            !old(self).asks(id, version) ==> {
                &&& poll.0 == Poll::Stale
                &&& poll.1 is None
                &&& *final(self) == *old(self)
            },
            old(self).asks(id, version) ==> {
                if found is Ok && found->Ok_0.active {
                    &&& poll.0 == Poll::Again
                    &&& poll.1 is None
                    &&& *final(self) == (Importer { progress: Some(found->Ok_0), ..*old(self) })
                } else {
                    &&& poll.0 == Poll::Ended
                    &&& poll.1 == Some(found)
                    &&& *final(self) == *old(self)
                }
            },
    {
        if self.active_job != Some(id) || self.version != version {
            return (Poll::Stale, None);
        }
        match found {
            Ok(job) => if job.active {
                self.progress = Some(job);
                (Poll::Again, None)
            } else {
                (Poll::Ended, Some(Ok(job)))
            },
            Err(message) => (Poll::Ended, Some(Err(message))),
        }
    }

    /// Whether an import is taken to have ended with a report.
    pub open spec fn reports(job: Job) -> bool {
        job.status@ == "succeeded"@ || job.has_report
    }

    /// What is said of an import that ended without a report.
    pub open spec fn ended_text(job: Job) -> Seq<char> {
        match job.last_error {
            Some(error) => error@,
            None => if job.status@ == "cancelled"@ {
                "Import cancelled"@
            } else {
                "Import failed"@
            },
        }
    }

    /// Takes the end of an import: its report, or why there is none. Whether the history has
    /// changed. An answer to an earlier question changes nothing.
    pub fn ended(&mut self, id: u128, version: u64, result: Result<Ended, String>) -> (changed:
        bool)
        ensures
            changed == (old(self).asks(id, version) && result is Ok),
            !old(self).asks(id, version) ==> *final(self) == *old(self),
            old(self).asks(id, version) ==> match result {
                Err(message) => *final(self) == (Importer {
                    running: false,
                    active_job: None,
                    poll_error: Some((id, message)),
                    ..*old(self)
                }),
                Ok(end) => {
                    &&& final(self).report is Some
                    &&& if Self::reports(end.job) {
                        match end.report {
                            Some(report) => {
                                &&& final(self).report->0 == report
                                &&& if end.job.status@ == "succeeded"@ && report is Ok {
                                    &&& final(self).toast is Some
                                    &&& final(self).toast->0@ == toast_text(
                                        true,
                                        end.errors,
                                        report->Ok_0.mode,
                                    )
                                } else {
                                    final(self).toast == old(self).toast
                                }
                            },
                            None => {
                                &&& final(self).report->0 is Err
                                &&& final(self).report->0->Err_0@
                                    == "Import completed without a report"@
                                &&& final(self).toast == old(self).toast
                            },
                        }
                    } else {
                        &&& final(self).report->0 is Err
                        &&& final(self).report->0->Err_0@ == Self::ended_text(end.job)
                        &&& final(self).toast == old(self).toast
                    }
                    &&& *final(self) == (Importer {
                        running: false,
                        active_job: None,
                        progress: Some(end.job),
                        toast: final(self).toast,
                        report: final(self).report,
                        ..*old(self)
                    })
                },
            },
    {
        if self.active_job != Some(id) || self.version != version {
            return false;
        }
        self.running = false;
        self.active_job = None;
        match result {
            Err(message) => {
                self.poll_error = Some((id, message));
                false
            },
            Ok(end) => {
                let succeeded = same(end.job.status.as_str(), "succeeded");
                if succeeded || end.job.has_report {
                    let decoded = match end.report {
                        Some(report) => {
                            if succeeded {
                                if let Ok(import) = &report {
                                    self.toast = Some(toast_for(true, end.errors, import.mode));
                                }
                            }
                            report
                        },
                        None => Err("Import completed without a report".to_owned()),
                    };
                    self.report = Some(decoded);
                } else {
                    let message = match &end.job.last_error {
                        Some(error) => error.clone(),
                        None => if same(end.job.status.as_str(), "cancelled") {
                            "Import cancelled".to_owned()
                        } else {
                            "Import failed".to_owned()
                        },
                    };
                    self.report = Some(Err(message));
                }
                self.progress = Some(end.job);
                true
            },
        }
    }

    /// Whether an import can be begun.
    pub open spec fn idle(self) -> bool {
        !self.running && !self.action_pending
    }

    /// Begins an import, unless one is running or awaited: the import as it is submitted,
    /// with the account that is connected where it names none.
    pub fn begin(&mut self, run: Run, connected: Option<i64>) -> (submitted: Option<Run>)
        ensures
            submitted == (if old(self).idle() {
                Some(run.of_account(connected))
            } else {
                None
            }),
            !old(self).idle() ==> *final(self) == *old(self),
            old(self).idle() ==> *final(self) == (Importer {
                restore: false,
                action_pending: true,
                running: true,
                active_job: None,
                progress: None,
                poll_error: None,
                action_error: None,
                report: None,
                origin: None,
                ..*old(self)
            }),
    {
        if self.running || self.action_pending {
            return None;
        }
        self.restore = false;
        self.action_pending = true;
        self.running = true;
        self.active_job = None;
        self.progress = None;
        self.poll_error = None;
        self.action_error = None;
        self.report = None;
        self.origin = None;
        Some(
            match run {
                Run::Api { mode, sync, generation } => Run::Api {
                    mode,
                    sync,
                    generation: match generation {
                        Some(generation) => Some(generation),
                        None => connected,
                    },
                },
                Run::Csv { mode, file } => Run::Csv { mode, file },
            },
        )
    }

    /// Takes whether an import began: it is followed, and kept with what was submitted.
    pub fn begun(&mut self, submitted: Run, result: Result<Job, String>)
        requires
            old(self).version < u64::MAX,
        ensures
            match result {
                Ok(job) => {
                    let followed = Importer {
                        action_pending: false,
                        origin: Some((job.id, submitted)),
                        ..*old(self)
                    }.following(job.id);
                    &&& final(self).pages@ == seq![None::<u128>]
                    &&& *final(self) == (Importer {
                        progress: Some(job),
                        pages: final(self).pages,
                        ..followed
                    })
                },
                Err(message) => *final(self) == (Importer {
                    action_pending: false,
                    report: Some(Err(message)),
                    running: false,
                    ..*old(self)
                }),
            },
    {
        self.action_pending = false;
        match result {
            Ok(job) => {
                self.origin = Some((job.id, submitted));
                self.watch(job.id);
                self.progress = Some(job);
                let mut pages: Vec<Option<u128>> = Vec::new();
                pages.push(None);
                proof {
                    assert(pages@ =~= seq![None::<u128>]);
                }
                self.pages = pages;
            },
            Err(message) => {
                self.report = Some(Err(message));
                self.running = false;
            },
        }
    }

    /// Begins to try an import again, unless one is running or awaited.
    pub fn begin_retry(&mut self) -> (begun: bool)
        ensures
            begun == old(self).idle(),
            !begun ==> *final(self) == *old(self),
            begun ==> *final(self) == (Importer {
                action_pending: true,
                action_error: None,
                ..*old(self)
            }),
    {
        if self.running || self.action_pending {
            return false;
        }
        self.action_pending = true;
        self.action_error = None;
        true
    }

    /// Takes whether an import is tried again. What was submitted before does not count for
    /// it.
    pub fn retried(&mut self, result: Result<Job, String>)
        requires
            old(self).version < u64::MAX,
        ensures
            match result {
                Ok(job) => *final(self) == (Importer {
                    progress: Some(job),
                    action_pending: false,
                    ..(Importer { origin: None, ..*old(self) }).following(job.id)
                }),
                Err(message) => {
                    &&& final(self).action_error is Some
                    &&& final(self).action_error->0@ == "Could not retry import: "@ + message@
                        + ". History has been refreshed; check the reason before trying again."@
                    &&& *final(self) == (Importer {
                        action_error: final(self).action_error,
                        action_pending: false,
                        ..*old(self)
                    })
                },
            },
    {
        match result {
            Ok(job) => {
                self.origin = None;
                self.watch(job.id);
                self.progress = Some(job);
            },
            Err(message) => {
                let mut shown = "Could not retry import: ".to_owned();
                shown.append(message.as_str());
                shown.append(
                    ". History has been refreshed; check the reason before trying again.",
                );
                self.action_error = Some(shown);
            },
        }
        self.action_pending = false;
    }

    /// Begins to cancel the import that is followed, unless something is awaited.
    pub fn begin_cancel(&mut self) -> (job: Option<u128>)
        ensures
            job == (if old(self).action_pending {
                None
            } else {
                old(self).active_job
            }),
            job is None ==> *final(self) == *old(self),
            job is Some ==> *final(self) == (Importer {
                action_pending: true,
                action_error: None,
                ..*old(self)
            }),
    {
        if self.action_pending || self.active_job.is_none() {
            return None;
        }
        self.action_pending = true;
        self.action_error = None;
        self.active_job
    }

    /// Takes whether an import is cancelled. Where another is followed meanwhile, that one
    /// stays shown.
    pub fn cancelled(&mut self, id: u128, result: Result<Job, String>)
        ensures
            match result {
                Ok(job) => *final(self) == (Importer {
                    progress: if old(self).active_job == Some(id) {
                        Some(job)
                    } else {
                        old(self).progress
                    },
                    action_pending: false,
                    ..*old(self)
                }),
                Err(message) => {
                    &&& final(self).action_error is Some
                    &&& final(self).action_error->0@ == "Could not cancel import: "@ + message@
                    &&& *final(self) == (Importer {
                        action_error: final(self).action_error,
                        action_pending: false,
                        ..*old(self)
                    })
                },
            },
    {
        match result {
            Ok(job) => {
                if self.active_job == Some(id) {
                    self.progress = Some(job);
                }
            },
            Err(message) => {
                let mut shown = "Could not cancel import: ".to_owned();
                shown.append(message.as_str());
                self.action_error = Some(shown);
            },
        }
        self.action_pending = false;
    }

    /// Begins to connect or disconnect the account, unless something is awaited.
    pub fn begin_connection(&mut self) -> (begun: bool)
        ensures
            begun == !old(self).action_pending,
            !begun ==> *final(self) == *old(self),
            begun ==> *final(self) == (Importer {
                action_pending: true,
                connection_error: None,
                ..*old(self)
            }),
    {
        if self.action_pending {
            return false;
        }
        self.action_pending = true;
        self.connection_error = None;
        true
    }

    /// Takes whether connecting the account began.
    pub fn connecting(&mut self, result: Result<(), String>)
        ensures
            match result {
                Ok(_) => *final(self) == (Importer { action_pending: false, ..*old(self) }),
                Err(detail) => {
                    &&& final(self).connection_error is Some
                    &&& (final(self).connection_error->0).0@
                        == "Could not start Harvest connection. Try connecting again."@
                    &&& (final(self).connection_error->0).1 == detail
                    &&& *final(self) == (Importer {
                        connection_error: final(self).connection_error,
                        action_pending: false,
                        ..*old(self)
                    })
                },
            },
    {
        if let Err(detail) = result {
            self.connection_error = Some(
                ("Could not start Harvest connection. Try connecting again.", detail),
            );
        }
        self.action_pending = false;
    }

    /// Takes whether the account was disconnected. What was previewed cannot be confirmed
    /// then.
    pub fn disconnected(&mut self, result: Result<(), String>)
        ensures
            match result {
                Ok(_) => *final(self) == (Importer {
                    report: None,
                    origin: None,
                    action_pending: false,
                    ..*old(self)
                }),
                Err(detail) => {
                    &&& final(self).connection_error is Some
                    &&& (final(self).connection_error->0).0@
                        == "Could not disconnect Harvest. Check the connection before trying again."@
                    &&& (final(self).connection_error->0).1 == detail
                    &&& *final(self) == (Importer {
                        connection_error: final(self).connection_error,
                        action_pending: false,
                        ..*old(self)
                    })
                },
            },
    {
        match result {
            Ok(_) => {
                self.report = None;
                self.origin = None;
            },
            Err(detail) => {
                self.connection_error = Some(
                    (
                        "Could not disconnect Harvest. Check the connection before trying again.",
                        detail,
                    ),
                );
            },
        }
        self.action_pending = false;
    }

    /// Chooses what is imported from; what was previewed does not count for it.
    pub fn choose_source(&mut self, source: Source)
        ensures
            *final(self) == (Importer { source, report: None, origin: None, ..*old(self) }),
    {
        self.source = source;
        self.report = None;
        self.origin = None;
    }

    /// Takes another file to import; what was shown of the one before is gone.
    pub fn file_chosen(&mut self)
        ensures
            *final(self) == (Importer { report: None, ..*old(self) }),
    {
        self.report = None;
    }

    /// Takes that the account was changed: what was previewed of the one before cannot be
    /// confirmed.
    pub fn account_changed(&mut self)
        ensures
            *final(self) == (Importer { origin: None, ..*old(self) }),
    {
        self.origin = None;
    }

    /// Whether the import that is followed can be cancelled now.
    pub fn can_cancel(&self) -> (can_cancel: bool)
        ensures
            can_cancel == (self.active_job is Some && !self.action_pending && !(self.progress is Some
                && self.progress->0.phase is Some && self.progress->0.phase->0@ == "cancelling"@)),
    {
        if self.active_job.is_none() || self.action_pending {
            return false;
        }
        match &self.progress {
            Some(job) => match &job.phase {
                Some(phase) => !same(phase.as_str(), "cancelling"),
                None => true,
            },
            None => true,
        }
    }

    /// Shows an import of the history.
    pub fn select(&mut self, id: u128)
        requires
            old(self).version < u64::MAX,
        ensures
            *final(self) == (Importer { origin: None, ..*old(self) }).following(id),
    {
        self.origin = None;
        self.watch(id);
    }

    /// Whether what is shown is the preview of the import that was submitted here, of an
    /// account that is still connected.
    pub open spec fn may_commit(self, conn: Conn) -> bool {
        match self.origin {
            None => false,
            Some((id, run)) => {
                &&& match run {
                    Run::Csv { .. } => true,
                    Run::Api { generation, .. } => conn.holds_account(generation),
                }
                &&& self.progress is Some
                &&& self.progress->0.id == id
                &&& self.progress->0.status@ == "succeeded"@
            },
        }
    }

    /// Whether what is shown can be confirmed.
    pub fn can_commit(&self, conn: &Conn) -> (can_commit: bool)
        ensures
            can_commit == self.may_commit(*conn),
    {
        match &self.origin {
            None => false,
            Some((id, run)) => {
                let same_account = match run {
                    Run::Csv { .. } => true,
                    Run::Api { generation, .. } => conn.is_account(*generation),
                };
                match &self.progress {
                    None => false,
                    Some(job) => same_account && job.id == *id && same(
                        job.status.as_str(),
                        "succeeded",
                    ),
                }
            },
        }
    }

    /// Whether changes can be read from the account again.
    pub fn shows_resync(&self, conn: &Conn) -> (shown: bool)
        ensures
            shown == (self.may_commit(*conn) && (self.origin->0).1 is Api),
    {
        self.can_commit(conn) && match &self.origin {
            Some((_, Run::Api { .. })) => true,
            _ => false,
        }
    }

    /// Whether what is shown is a preview that can be confirmed.
    pub fn current_preview(&self, conn: &Conn) -> (preview: bool)
        ensures
            preview == (self.may_commit(*conn) && self.report is Some && self.report->0 is Ok
                && self.report->0->Ok_0.mode == ImportMode::DryRun),
    {
        self.can_commit(conn) && match &self.report {
            Some(Ok(report)) => report.mode == ImportMode::DryRun,
            _ => false,
        }
    }

    /// The import that confirms what is shown: of what was submitted for the preview.
    pub fn confirm(&self) -> (run: Option<Run>)
        ensures
            run == (match self.origin {
                Some((_, run)) => Some(run.committed()),
                None => None,
            }),
    {
        match &self.origin {
            Some((_, run)) => Some(run.commit()),
            None => None,
        }
    }

    /// Whether what is shown is partial.
    pub fn shows_partial(&self) -> (partial: bool)
        ensures
            partial == (self.progress is Some && (self.progress->0.status@ == "failed"@
                || self.progress->0.status@ == "cancelled"@)),
    {
        match &self.progress {
            Some(job) => partial_report(job.status.as_str()),
            None => false,
        }
    }

    /// Whether it is said that the report which is shown is partial.
    pub open spec fn alerts(self) -> bool {
        self.report is Some && self.progress is Some && (self.progress->0.status@ == "failed"@
            || self.progress->0.status@ == "cancelled"@) && self.progress->0.has_report
    }

    /// What is said of a partial report, where one is shown.
    pub fn partial_alert(&self, processed: u64) -> (alert: Option<PartialAlert>)
        ensures
            alert is Some <==> self.alerts(),
            alert is Some ==> {
                let job = self.progress->0;
                &&& alert->0.title@ == (if job.status@ == "cancelled"@ {
                    "Import cancelled"@
                } else {
                    "Import failed"@
                })
                &&& alert->0.error == job.last_error
                &&& alert->0.count@ == decimal(processed as nat)
                    + " processed in confirmed batches"@
            },
    {
        if self.report.is_none() {
            return None;
        }
        match &self.progress {
            Some(job) => {
                if !partial_report(job.status.as_str()) || !job.has_report {
                    return None;
                }
                let title = if same(job.status.as_str(), "cancelled") {
                    "Import cancelled"
                } else {
                    "Import failed"
                };
                let mut count = decimal_text(processed as u128);
                count.append(" processed in confirmed batches");
                Some(PartialAlert { title, error: copy_text(&job.last_error), count })
            },
            None => None,
        }
    }

    /// Where the page of the history that is shown begins: after an import, or at the first.
    pub open spec fn cursor(self) -> Option<u128> {
        self.pages@.last()
    }

    /// Where the page of the history that is shown begins.
    pub fn history_cursor(&self) -> (cursor: Option<u128>)
        requires
            self.well_formed(),
        ensures
            cursor == self.cursor(),
    {
        self.pages[self.pages.len() - 1]
    }

    /// Shows the page of the history after a full one, which ends with `last`.
    pub fn older(&mut self, last: u128)
        requires
            old(self).well_formed(),
        ensures
            final(self).well_formed(),
            final(self).pages@ == old(self).pages@.push(Some(last)),
            *final(self) == (Importer { pages: final(self).pages, ..*old(self) }),
    {
        self.pages.push(Some(last));
    }

    /// Shows the page of the history before the one that is shown; the first stays.
    pub fn newer(&mut self)
        requires
            old(self).well_formed(),
        ensures
            final(self).well_formed(),
            final(self).pages@ == (if old(self).pages.len() > 1 {
                old(self).pages@.drop_last()
            } else {
                old(self).pages@
            }),
            *final(self) == (Importer { pages: final(self).pages, ..*old(self) }),
    {
        if self.pages.len() > 1 {
            let _ = self.pages.pop();
        }
    }

    /// Goes back to the first page of the history: whether it is shown already, so that it
    /// has to be loaded again.
    pub fn refresh(&mut self) -> (reload: bool)
        requires
            old(self).well_formed(),
        ensures
            final(self).well_formed(),
            reload == (old(self).cursor() is None),
            final(self).pages@ == (if reload {
                old(self).pages@
            } else {
                seq![None::<u128>]
            }),
            *final(self) == (Importer { pages: final(self).pages, ..*old(self) }),
    {
        if self.history_cursor().is_none() {
            return true;
        }
        let mut pages: Vec<Option<u128>> = Vec::new();
        pages.push(None);
        proof {
            assert(pages@ =~= seq![None::<u128>]);
        }
        self.pages = pages;
        false
    }
}

/// Whether older imports can be looked for: after a full page.
pub fn offers_older(shown: usize) -> (offered: bool)
    ensures
        offered == (shown == 20),
{
    shown == HISTORY_PAGE
}

/// The title of the page.
pub fn title(source: Source) -> (title: &'static str)
    ensures
        title@ == (match source {
            Source::Picker => "Importers"@,
            Source::Api => "Import from Harvest"@,
            Source::Csv => "Import from CSV"@,
        }),
{
    match source {
        Source::Picker => "Importers",
        Source::Api => "Import from Harvest",
        Source::Csv => "Import from CSV",
    }
}

/// What the page says below its title.
pub fn subtitle(source: Source) -> (subtitle: &'static str)
    ensures
        subtitle@ == (match source {
            Source::Picker => "Bring data in from another tracker. Start with a preview before importing business data."@,
            _ => "Bring your clients, projects, tasks and time entries across. Preview first; confirm only after reviewing the results."@,
        }),
{
    match source {
        Source::Picker => "Bring data in from another tracker. Start with a preview before importing business data.",
        _ => "Bring your clients, projects, tasks and time entries across. Preview first; confirm only after reviewing the results.",
    }
}

/// What is said of a page of the history that is empty.
pub fn empty_history(cursor: Option<u128>) -> (text: &'static str)
    ensures
        text@ == (if cursor is None {
            "No retained imports. Start a preview to create a new report."@
        } else {
            "No imports on this page."@
        }),
{
    if cursor.is_none() {
        "No retained imports. Start a preview to create a new report."
    } else {
        "No imports on this page."
    }
}

/// Going to older imports and back shows the page that was left.
pub proof fn paging_is_undone(pages: Seq<Option<u128>>, last: u128)
    ensures
        pages.push(Some(last)).drop_last() == pages,
{
    assert(pages.push(Some(last)).drop_last() =~= pages);
}

/// What was previewed is what is confirmed: the import that confirms reads the same file, or
/// the same part of the same account, and its account stays the one of the preview whatever
/// is connected by then.
pub proof fn confirming_keeps_the_account(run: Run, then: Option<i64>, now: Option<i64>)
    requires
        run.of_account(then) is Api ==> run.of_account(then)->generation is Some,
    ensures
        ({
            let submitted = run.of_account(then);
            let confirmed = submitted.committed().of_account(now);
            &&& confirmed == submitted.committed()
            &&& confirmed is Api <==> submitted is Api
            &&& confirmed is Api ==> confirmed->generation == submitted->generation
                && confirmed->sync == submitted->sync
            &&& confirmed is Csv ==> confirmed->file == submitted->file
        }),
{
}

/// An import that is chosen from the history, or tried again, cannot be confirmed: only one
/// that was previewed here can.
pub proof fn old_previews_are_not_confirmed(importer: Importer, id: u128, conn: Conn)
    ensures
        !(Importer { origin: None, ..importer }).following(id).may_commit(conn),
{
}

/// How far an import has come.
pub fn progress_line(processed: u64, total: Option<u64>) -> (line: String)
    ensures
        line@ == decimal(processed as nat) + " processed"@ + (match total {
            Some(total) => " of "@ + decimal(total as nat),
            None => Seq::empty(),
        }),
{
    let mut line = decimal_text(processed as u128);
    line.append(" processed");
    match total {
        Some(total) => {
            line.append(" of ");
            line.append(decimal_text(total as u128).as_str());
        },
        None => {},
    }
    proof {
        assert(line@ =~= decimal(processed as nat) + " processed"@ + (match total {
            Some(total) => " of "@ + decimal(total as nat),
            None => Seq::empty(),
        }));
    }
    line
}

/// What stands where the history is shown.
#[derive(Clone, Copy, PartialEq, Eq, Structural, Debug)]
pub enum HistoryView {
    Loading,
    Failed,
    Empty,
    Shown,
}

/// What stands where the history is shown: a page that was loaded before another one was
/// asked for is not shown. `loaded` is the cursor of the page that was loaded, and how many
/// imports it has, if it could be.
pub fn history_view(
    loaded: Option<(Option<u128>, Option<usize>)>,
    cursor: Option<u128>,
    loading: bool,
) -> (view: HistoryView)
    ensures
        view == (match loaded {
            None => HistoryView::Loading,
            Some((of, count)) => if of != cursor || loading {
                HistoryView::Loading
            } else if count is None {
                HistoryView::Failed
            } else if count == Some(0usize) {
                HistoryView::Empty
            } else {
                HistoryView::Shown
            },
        }),
{
    match loaded {
        None => HistoryView::Loading,
        Some((of, count)) => {
            if of != cursor || loading {
                return HistoryView::Loading;
            }
            match count {
                None => HistoryView::Failed,
                Some(count) => if count == 0 {
                    HistoryView::Empty
                } else {
                    HistoryView::Shown
                },
            }
        },
    }
}

} // verus!
