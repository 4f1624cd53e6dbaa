//! The editor of a project: a new one is saved as a draft while it is typed, one that
//! exists is saved when that is asked for.

use crate::ids::new_id;
use crate::new_project::basics::CreationClient;
use crate::new_project::draft::DraftSaved;
use crate::new_project::draft::DraftState;
use crate::new_project::draft::PendingSave;
use crate::new_project::draft::ProjectDraft;
use crate::new_project::fields::is_definite_rejection;
use crate::new_project::fields::is_validation_error;
use crate::new_project::fields::validation_field;
use crate::new_project::fields::ProjectFormField;
use crate::new_project::fields::RequestError;
use crate::new_project::form::ProjectForm;
use crate::text::trim;
use crate::text::trimmed;
use crate::text::two_digit_text;
use crate::text::two_digits;
use vstd::prelude::*;

verus! {

/// What the user asked for.
#[derive(Clone, Copy, PartialEq, Eq, Structural, Debug)]
pub enum Intent {
    Create,
    Save,
    Leave,
    Discard,
}

/// A project that is edited, as it was loaded.
#[derive(Debug)]
pub struct EditableProject {
    pub id: u128,
    pub revision: i64,
    pub form: ProjectForm,
    pub configured: bool,
}

/// A request to save the changes of a project.
#[derive(Debug)]
pub struct ProjectEditRequest {
    pub id: u128,
    pub project_id: u128,
    pub expected_revision: i64,
    pub form: ProjectForm,
}

impl ProjectEditRequest {
    /// Whether two requests are the same.
    pub open spec fn same(self, other: ProjectEditRequest) -> bool {
        &&& self.id == other.id
        &&& self.project_id == other.project_id
        &&& self.expected_revision == other.expected_revision
        &&& self.form.same(other.form)
    }

    fn copy(&self) -> (copy: ProjectEditRequest)
        ensures
            copy.same(*self),
    {
        ProjectEditRequest {
            id: self.id,
            project_id: self.project_id,
            expected_revision: self.expected_revision,
            form: self.form.copy(),
        }
    }
}

/// A request that failed, and how its error is shown.
#[derive(Debug)]
pub struct Failure {
    pub error: RequestError,
    pub shown: String,
}

/// What a round of saving was begun for: what was asked and what was typed then.
#[derive(Debug)]
pub struct Round {
    pub action: Option<Intent>,
    pub form: ProjectForm,
}

/// What the editor has to be done next.
#[derive(Debug)]
pub enum EditorStep {
    /// Nothing.
    Rest,
    /// The list of projects is opened.
    OpenList,
    /// A project is opened.
    OpenProject { id: u128 },
    /// A draft is saved.
    SaveDraft { id: u128, request: PendingSave },
    /// A draft becomes a project.
    Finalize { id: u128, revision: i64, form: ProjectForm },
    /// A draft is removed.
    RemoveDraft { id: u128, revision: i64 },
}

/// The state of the editor.
#[derive(Debug)]
pub struct Editor {
    pub existing: Option<EditableProject>,
    pub state: DraftState,
    pub form: ProjectForm,
    pub round: Option<Round>,
    pub busy: bool,
    pub catalog_busy: bool,
    pub error: Option<String>,
    pub invalid_field: Option<ProjectFormField>,
    pub intent: Option<Intent>,
    pub discard_open: bool,
    pub reload_open: bool,
    pub pending_edit: Option<ProjectEditRequest>,
}

impl Editor {
    /// Whether a project that exists is edited.
    pub open spec fn editing(self) -> bool {
        self.existing is Some
    }

    /// Whether there is something that is not saved.
    pub open spec fn unsaved(self) -> bool {
        match self.existing {
            Some(project) => !project.form.same(self.form),
            None => self.state.dirty(self.form),
        }
    }

    /// Whether the form cannot be changed for now.
    pub open spec fn is_locked(self) -> bool {
        self.intent is Some || self.catalog_busy
    }

    /// Whether what became of a request is open, so that it has to be sent again.
    pub open spec fn unresolved(self) -> bool {
        if self.editing() {
            self.pending_edit is Some
        } else {
            self.error is Some && self.invalid_field is None
        }
    }

    /// The editor of a new project or of one that exists.
    pub fn new(draft: Option<ProjectDraft>, existing: Option<EditableProject>) -> (editor: Editor)
        ensures
            editor.existing == existing,
            editor.state.well_formed(),
            editor.state.awaited() is None,
            match draft {
                Some(draft) => {
                    &&& editor.state.id == draft.id
                    &&& editor.state.revision == draft.revision
                    &&& editor.state.saved_at == Some(draft.saved_at)
                    &&& editor.state.saved == draft.form
                },
                None => {
                    &&& editor.state.revision == 0
                    &&& editor.state.saved_at is None
                    &&& editor.state.saved.is_blank()
                },
            },
            editor.form.same(
                match existing {
                    Some(project) => project.form,
                    None => editor.state.saved,
                },
            ),
            editor.round is None,
            !editor.busy,
            !editor.catalog_busy,
            editor.error is None,
            editor.invalid_field is None,
            editor.intent is None,
            !editor.discard_open,
            !editor.reload_open,
            editor.pending_edit is None,
    {
        let state = DraftState::new(draft);
        let form = match &existing {
            Some(project) => project.form.copy(),
            None => state.saved.copy(),
        };
        Editor {
            existing,
            state,
            form,
            round: None,
            busy: false,
            catalog_busy: false,
            error: None,
            invalid_field: None,
            intent: None,
            discard_open: false,
            reload_open: false,
            pending_edit: None,
        }
    }

    /// Whether a project that exists is edited.
    pub fn is_editing(&self) -> (editing: bool)
        ensures
            editing == self.editing(),
    {
        self.existing.is_some()
    }

    /// Whether there is something that is not saved.
    pub fn is_dirty(&self) -> (dirty: bool)
        ensures
            dirty == self.unsaved(),
    {
        match &self.existing {
            Some(project) => !project.form.equals(&self.form),
            None => self.state.is_dirty(&self.form),
        }
    }

    /// Whether the form cannot be changed for now.
    pub fn locked(&self) -> (locked: bool)
        ensures
            locked == self.is_locked(),
    {
        self.intent.is_some() || self.catalog_busy
    }

    /// Whether a request has to be sent again before anything else.
    pub fn unresolved_request(&self) -> (open: bool)
        ensures
            open == self.unresolved(),
    {
        if self.is_editing() {
            self.pending_edit.is_some()
        } else {
            self.error.is_some() && self.invalid_field.is_none()
        }
    }

    /// Takes what the user asked for. Leaving a project with changes asks whether to lose
    /// them.
    pub fn request_intent(&mut self, action: Intent) -> (step: EditorStep)
        ensures
            ({
                let leaving = old(self).editing() && action == Intent::Leave;
                &&& leaving && old(self).unsaved() ==> step is Rest && *final(self) == (Editor {
                    discard_open: true,
                    ..*old(self)
                })
                &&& leaving && !old(self).unsaved() ==> step is OpenList && *final(self)
                    == *old(self)
                &&& !leaving ==> step is Rest && *final(self) == (Editor {
                    invalid_field: None,
                    error: None,
                    intent: Some(action),
                    ..*old(self)
                })
            }),
    {
        if self.is_editing() && action == Intent::Leave {
            if self.is_dirty() {
                self.discard_open = true;
                return EditorStep::Rest;
            }
            return EditorStep::OpenList;
        }
        self.invalid_field = None;
        self.error = None;
        self.intent = Some(action);
        EditorStep::Rest
    }

    /// Takes the answer that what is not saved can be lost.
    pub fn confirm_discard(&mut self) -> (step: EditorStep)
        ensures
            old(self).editing() ==> step is OpenList && *final(self) == (Editor {
                discard_open: false,
                ..*old(self)
            }),
            !old(self).editing() ==> step is Rest && *final(self) == (Editor {
                discard_open: false,
                invalid_field: None,
                error: None,
                intent: Some(Intent::Discard),
                ..*old(self)
            }),
    {
        self.discard_open = false;
        if self.is_editing() {
            EditorStep::OpenList
        } else {
            self.request_intent(Intent::Discard)
        }
    }

    /// Clears an error so that a request is sent again.
    pub fn retry(&mut self)
        ensures
            *final(self) == (Editor {
                invalid_field: None,
                error: None,
                intent: if old(self).editing() {
                    Some(Intent::Save)
                } else {
                    old(self).intent
                },
                ..*old(self)
            }),
    {
        self.invalid_field = None;
        self.error = None;
        if self.is_editing() {
            self.intent = Some(Intent::Save);
        }
    }

    /// Whether a draft is to be saved now: one request at a time, none after an error.
    pub open spec fn draft_due(self) -> bool {
        &&& !self.editing()
        &&& !self.busy
        &&& self.error is None
        &&& self.state.dirty(self.form) || self.intent is Some
    }

    /// Begins a round of saving the draft where one is due. `Some(true)` asks to wait until
    /// the typing pauses, since nothing but typing is the reason.
    pub fn begin_draft(&mut self) -> (begun: Option<bool>)
        ensures
            begun == (if old(self).draft_due() {
                Some(old(self).intent is None)
            } else {
                None
            }),
            *final(self) == (Editor { busy: old(self).busy || old(self).draft_due(), ..*old(self) }),
    {
        if self.is_editing() || self.busy || self.error.is_some() {
            return None;
        }
        if !self.state.is_dirty(&self.form) && self.intent.is_none() {
            return None;
        }
        self.busy = true;
        Some(self.intent.is_none())
    }

    /// Whether the typing has paused, or something was asked for meanwhile.
    pub fn settled(&self, observed: &ProjectForm) -> (settled: bool)
        ensures
            settled == (self.form.same(*observed) || self.intent is Some),
    {
        self.form.equals(observed) || self.intent.is_some()
    }

    /// What is done once everything is saved.
    pub open spec fn completes(self, action: Option<Intent>, form: ProjectForm, step: EditorStep) -> bool {
        match action {
            Some(Intent::Create) => {
                &&& step is Finalize
                &&& step->Finalize_id == self.state.id
                &&& step->Finalize_revision == self.state.revision
                &&& step->Finalize_form.same(form)
            },
            Some(Intent::Leave) => step is OpenList,
            Some(Intent::Discard) => if self.state.revision > 0 {
                &&& step is RemoveDraft
                &&& step->RemoveDraft_id == self.state.id
                &&& step->RemoveDraft_revision == self.state.revision
            } else {
                step is OpenList
            },
            _ => step is Rest,
        }
    }

    /// The editor once everything is saved: at rest, or waiting for what was asked.
    pub open spec fn completed(self, action: Option<Intent>) -> Editor {
        match action {
            Some(Intent::Create) => self,
            Some(Intent::Leave) => Editor { intent: None, busy: false, ..self },
            Some(Intent::Discard) => if self.state.revision > 0 {
                self
            } else {
                Editor { intent: None, busy: false, ..self }
            },
            _ => Editor { busy: false, ..self },
        }
    }

    fn complete(&mut self, action: Option<Intent>, form: &ProjectForm) -> (step: EditorStep)
        ensures
            old(self).completes(action, *form, step),
            *final(self) == old(self).completed(action),
    {
        match action {
            Some(Intent::Create) => EditorStep::Finalize {
                id: self.state.id,
                revision: self.state.revision,
                form: form.copy(),
            },
            Some(Intent::Leave) => {
                self.intent = None;
                self.busy = false;
                EditorStep::OpenList
            },
            Some(Intent::Discard) => {
                if self.state.revision > 0 {
                    EditorStep::RemoveDraft { id: self.state.id, revision: self.state.revision }
                } else {
                    self.intent = None;
                    self.busy = false;
                    EditorStep::OpenList
                }
            },
            _ => {
                self.busy = false;
                EditorStep::Rest
            },
        }
    }

    /// Whether a round has to save the draft first.
    pub open spec fn saves_first(self) -> bool {
        self.state.dirty(self.form) || (self.state.revision == 0 && self.intent == Some(
            Intent::Create,
        ))
    }

    /// Goes on with a round of saving the draft: with the request that is awaited or one
    /// for what is typed, or straight to what was asked.
    pub fn continue_draft(&mut self) -> (step: EditorStep)
        requires
            old(self).state.well_formed(),
        ensures
            final(self).state.well_formed(),
            final(self).round is Some,
            final(self).round->0.action == old(self).intent,
            final(self).round->0.form.same(old(self).form),
            ({
                if old(self).saves_first() {
                    &&& step is SaveDraft
                    &&& step->SaveDraft_id == old(self).state.id
                    &&& final(self).state.awaited() is Some
                    &&& step->request.same(final(self).state.awaited()->0)
                    &&& match old(self).state.awaited() {
                        Some(awaited) => final(self).state.awaited() == Some(awaited),
                        None => {
                            &&& final(self).state.awaited()->0.revision == old(self).state.revision
                            &&& final(self).state.awaited()->0.form.same(old(self).form)
                        },
                    }
                    &&& final(self).state == (DraftState {
                        pending: final(self).state.pending,
                        ..old(self).state
                    })
                    &&& *final(self) == (Editor {
                        state: final(self).state,
                        round: final(self).round,
                        ..*old(self)
                    })
                } else {
                    &&& old(self).completes(old(self).intent, old(self).form, step)
                    &&& *final(self) == (Editor {
                        round: final(self).round,
                        ..old(self).completed(old(self).intent)
                    })
                }
            }),
    {
        let current = self.form.copy();
        let action = self.intent;
        let step = if self.state.is_dirty(&self.form) || (self.state.revision == 0 && action
            == Some(Intent::Create)) {
            let request = self.state.request(&self.form);
            EditorStep::SaveDraft { id: self.state.id, request }
        } else {
            self.complete(action, &self.form.copy())
        };
        self.round = Some(Round { action, form: current });
        step
    }

    /// The editor after the draft could not be saved. What was refused as invalid was not
    /// saved and is given up; any other request is kept to be sent again.
    pub open spec fn after_save_failed(self, failure: Failure) -> Editor {
        Editor {
            state: if failure.error.invalid() {
                DraftState { pending: None, ..self.state }
            } else {
                self.state
            },
            intent: if failure.error.invalid() {
                None
            } else {
                self.intent
            },
            error: Some(failure.shown),
            busy: false,
            ..self
        }
    }

    /// Takes that the draft could not be saved.
    pub fn draft_failed(&mut self, failure: Failure)
        requires
            old(self).state.well_formed(),
        ensures
            final(self).state.well_formed(),
            *final(self) == old(self).after_save_failed(failure),
    {
        if is_validation_error(&failure.error) {
            self.state.reject_validation();
            self.intent = None;
        }
        self.error = Some(failure.shown);
        self.busy = false;
    }

    /// Takes the acknowledgement of a saved draft. What was typed since is saved before
    /// anything that was asked is done.
    pub fn draft_saved(&mut self, saved: DraftSaved) -> (step: EditorStep)
        requires
            old(self).state.well_formed(),
            old(self).round is Some,
        ensures
            final(self).state.well_formed(),
            !old(self).state.acknowledges(saved) ==> {
                &&& step is Rest
                &&& final(self).error is Some
                &&& final(self).error->0@ == (if old(self).state.awaited() is None {
                    "No draft save is awaiting acknowledgement."@
                } else {
                    "Unexpected draft revision. Reload the saved draft before continuing."@
                })
                &&& *final(self) == (Editor {
                    error: final(self).error,
                    busy: false,
                    ..*old(self)
                })
            },
            old(self).state.acknowledges(saved) ==> {
                let state = DraftState {
                    id: old(self).state.id,
                    revision: saved.revision,
                    saved_at: Some(saved.saved_at),
                    saved: old(self).state.awaited()->0.form,
                    pending: None,
                };
                let current = Editor { state, ..*old(self) };
                if !state.saved.same(old(self).form) {
                    &&& step is Rest
                    &&& *final(self) == (Editor { busy: false, ..current })
                } else {
                    let round = old(self).round->0;
                    &&& current.completes(round.action, round.form, step)
                    &&& *final(self) == current.completed(round.action)
                }
            },
    {
        match self.state.acknowledge(saved) {
            Err(message) => {
                self.error = Some(message.to_owned());
                self.busy = false;
                return EditorStep::Rest;
            },
            Ok(_) => {},
        }
        if self.state.is_dirty(&self.form) {
            self.busy = false;
            return EditorStep::Rest;
        }
        match self.round.take() {
            Some(round) => {
                let form = round.form.copy();
                let action = round.action;
                self.round = Some(round);
                self.complete(action, &form)
            },
            None => EditorStep::Rest,
        }
    }

    /// The editor after a request that the project depends on failed: refused for certain
    /// it can be corrected, otherwise it stays to be sent again.
    pub open spec fn after_create_failed(self, error: RequestError, shown: String) -> Editor {
        Editor {
            intent: if error.refused() {
                None
            } else {
                self.intent
            },
            invalid_field: error.correctable(),
            error: Some(shown),
            busy: false,
            ..self
        }
    }

    /// Takes what became of a draft that was to become a project.
    pub fn finalized(&mut self, result: Result<u128, RequestError>) -> (step: EditorStep)
        ensures
            match result {
                Ok(id) => step == (EditorStep::OpenProject { id }) && *final(self) == (Editor {
                    intent: None,
                    busy: false,
                    ..*old(self)
                }),
                Err(error) => {
                    &&& step is Rest
                    &&& final(self).error is Some
                    &&& final(self).error->0@ == error.text()
                    &&& *final(self) == old(self).after_create_failed(error, final(self).error->0)
                },
            },
    {
        match result {
            Ok(id) => {
                self.intent = None;
                self.busy = false;
                EditorStep::OpenProject { id }
            },
            Err(error) => {
                if is_definite_rejection(&error) {
                    self.intent = None;
                }
                self.invalid_field = validation_field(&error);
                self.error = Some(error.message());
                self.busy = false;
                EditorStep::Rest
            },
        }
    }

    /// Takes what became of a draft that was to be removed.
    pub fn discarded(&mut self, result: Result<(), Failure>) -> (step: EditorStep)
        ensures
            match result {
                Ok(_) => step is OpenList && *final(self) == (Editor {
                    intent: None,
                    busy: false,
                    ..*old(self)
                }),
                Err(failure) => step is Rest && *final(self) == (Editor {
                    error: Some(failure.shown),
                    busy: false,
                    ..*old(self)
                }),
            },
    {
        self.busy = false;
        match result {
            Ok(_) => {
                self.intent = None;
                EditorStep::OpenList
            },
            Err(failure) => {
                self.error = Some(failure.shown);
                EditorStep::Rest
            },
        }
    }

    /// Whether the changes of a project are to be saved now.
    pub open spec fn edit_due(self) -> bool {
        &&& self.editing()
        &&& self.intent == Some(Intent::Save)
        &&& !self.busy
        &&& self.error is None
    }

    /// Begins to save the changes of a project: with the request whose outcome is open, or
    /// one for what is typed.
    pub fn begin_edit(&mut self) -> (request: Option<ProjectEditRequest>)
        ensures
            request is Some <==> old(self).edit_due(),
            request is None ==> *final(self) == *old(self),
            request is Some ==> {
                let project = old(self).existing->0;
                &&& final(self).pending_edit is Some
                &&& request->0.same(final(self).pending_edit->0)
                &&& match old(self).pending_edit {
                    Some(pending) => final(self).pending_edit == Some(pending),
                    None => {
                        &&& final(self).pending_edit->0.project_id == project.id
                        &&& final(self).pending_edit->0.expected_revision == project.revision
                        &&& final(self).pending_edit->0.form.same(old(self).form)
                    },
                }
                &&& *final(self) == (Editor {
                    pending_edit: final(self).pending_edit,
                    busy: true,
                    ..*old(self)
                })
            },
    {
        if self.intent != Some(Intent::Save) || self.busy || self.error.is_some() {
            return None;
        }
        let (project_id, expected_revision) = match &self.existing {
            Some(project) => (project.id, project.revision),
            None => {
                return None;
            },
        };
        let pending = match self.pending_edit.take() {
            Some(pending) => pending,
            None => ProjectEditRequest {
                id: new_id(),
                project_id,
                expected_revision,
                form: self.form.copy(),
            },
        };
        let request = pending.copy();
        self.pending_edit = Some(pending);
        self.busy = true;
        Some(request)
    }

    /// The editor after changes could not be saved.
    pub open spec fn after_edit_failed(self, error: RequestError, shown: String) -> Editor {
        Editor {
            pending_edit: if error.refused() {
                None
            } else {
                self.pending_edit
            },
            ..self.after_create_failed(error, shown)
        }
    }

    /// Takes what became of changes that were to be saved.
    pub fn edit_saved(&mut self, result: Result<u128, RequestError>) -> (step: EditorStep)
        ensures
            match result {
                Ok(id) => step == (EditorStep::OpenProject { id }) && *final(self) == (Editor {
                    pending_edit: None,
                    intent: None,
                    busy: false,
                    ..*old(self)
                }),
                Err(error) => {
                    &&& step is Rest
                    &&& final(self).error is Some
                    &&& final(self).error->0@ == error.text()
                    &&& *final(self) == old(self).after_edit_failed(error, final(self).error->0)
                },
            },
    {
        match result {
            Ok(id) => {
                self.pending_edit = None;
                self.intent = None;
                self.busy = false;
                EditorStep::OpenProject { id }
            },
            Err(error) => {
                if is_definite_rejection(&error) {
                    self.pending_edit = None;
                    self.intent = None;
                }
                self.invalid_field = validation_field(&error);
                self.error = Some(error.message());
                self.busy = false;
                EditorStep::Rest
            },
        }
    }

    /// The state of what is saved, in words.
    pub fn status(&self) -> (status: String)
        ensures
            status@ == (if self.error is Some {
                "Changes need attention"@
            } else if self.editing() {
                if self.busy {
                    "Saving changes…"@
                } else if self.unsaved() {
                    "Unsaved changes"@
                } else {
                    "No unsaved changes"@
                }
            } else if self.busy || self.unsaved() {
                "Saving draft…"@
            } else {
                match self.state.saved_at {
                    Some(at) => "Draft saved at "@ + time_text(at as int) + " UTC"@,
                    None => "No draft saved yet"@,
                }
            }),
    {
        if self.error.is_some() {
            return "Changes need attention".to_owned();
        }
        let dirty = self.is_dirty();
        if self.is_editing() {
            if self.busy {
                "Saving changes…".to_owned()
            } else if dirty {
                "Unsaved changes".to_owned()
            } else {
                "No unsaved changes".to_owned()
            }
        } else if self.busy || dirty {
            "Saving draft…".to_owned()
        } else {
            match self.state.saved_at {
                Some(at) => {
                    let mut status = "Draft saved at ".to_owned();
                    status.append(time_of_day(at).as_str());
                    status.append(" UTC");
                    status
                },
                None => "No draft saved yet".to_owned(),
            }
        }
    }

    /// Whether a client can be that of the project: an active one, or the one that a project
    /// that exists was loaded with.
    pub open spec fn fits(self, client: CreationClient) -> bool {
        &&& self.form.client_id == Some(client.id)
        &&& client.active || (self.existing is Some && self.existing->0.form.client_id == Some(
            client.id,
        ))
    }

    /// Whether the form names a project and a client that it can be for.
    pub fn can_create(&self, clients: &Vec<CreationClient>) -> (can_create: bool)
        ensures
            can_create == (trimmed(self.form.name@).len() > 0 && exists|i: int|
                0 <= i < clients.len() && self.fits(#[trigger] clients@[i])),
    {
        if trim(self.form.name.as_str()).as_str().is_empty() {
            return false;
        }
        let kept: Option<u128> = match &self.existing {
            Some(project) => project.form.client_id,
            None => None,
        };
        let mut i: usize = 0;
        while i < clients.len()
            invariant
                i <= clients.len(),
                kept == (match self.existing {
                    Some(project) => project.form.client_id,
                    None => None,
                }),
                trimmed(self.form.name@).len() > 0,
                forall|k: int| 0 <= k < i ==> !self.fits(#[trigger] clients@[k]),
            decreases clients.len() - i,
        {
            let id = clients[i].id;
            if self.form.client_id == Some(id) && (clients[i].active || kept == Some(id)) {
                proof {
                    assert(self.fits(clients@[i as int]));
                }
                return true;
            }
            i += 1;
        }
        false
    }

    /// Whether the project can be saved now.
    pub fn can_save(&self, clients: &Vec<CreationClient>) -> (can_save: bool)
        ensures
            can_save == (trimmed(self.form.name@).len() > 0 && (exists|i: int|
                0 <= i < clients.len() && self.fits(#[trigger] clients@[i])) && !self.is_locked()
                && !self.unresolved()),
    {
        self.can_create(clients) && !self.locked() && !self.unresolved_request()
    }

    /// Whether the page can be left now.
    pub fn can_leave(&self) -> (can_leave: bool)
        ensures
            can_leave == (!self.is_locked() && !self.unresolved()),
    {
        !self.locked() && !self.unresolved_request()
    }

    /// Whether the draft can be discarded now; a project that exists has none.
    pub fn can_discard(&self) -> (can_discard: bool)
        ensures
            can_discard == (!self.editing() && !self.busy && !self.is_locked()
                && !self.unresolved()),
    {
        !self.is_editing() && !self.busy && self.can_leave()
    }

    /// Asks whether to discard the draft.
    pub fn ask_to_discard(&mut self)
        ensures
            *final(self) == (Editor { discard_open: true, ..*old(self) }),
    {
        self.discard_open = true;
    }

    /// Takes the answer that nothing is to be lost.
    pub fn keep_editing(&mut self)
        ensures
            *final(self) == (Editor { discard_open: false, ..*old(self) }),
    {
        self.discard_open = false;
    }

    /// Asks for what is saved, unless a request is awaited: whether it is to be loaded at once. A
    /// project that exists is loaded again only once that is confirmed.
    pub fn ask_to_reload(&mut self) -> (reload: bool)
        ensures
            reload == (!old(self).busy && !old(self).editing()),
            *final(self) == (Editor {
                reload_open: old(self).reload_open || (!old(self).busy && old(self).editing()),
                ..*old(self)
            }),
    {
        if self.busy {
            return false;
        }
        if self.is_editing() {
            self.reload_open = true;
            false
        } else {
            true
        }
    }

    /// Takes the answer that nothing is to be loaded again.
    pub fn dismiss_reload(&mut self)
        ensures
            *final(self) == (Editor { reload_open: false, ..*old(self) }),
    {
        self.reload_open = false;
    }

    /// What loading again is called.
    pub fn reload_label(&self) -> (label: &'static str)
        ensures
            label@ == (if self.editing() {
                "Reload project…"@
            } else {
                "Reload saved draft (lose local edits)"@
            }),
    {
        if self.is_editing() {
            "Reload project…"
        } else {
            "Reload saved draft (lose local edits)"
        }
    }

    /// What the project asks for: to be saved where it exists, else to be created.
    pub fn save_intent(&self) -> (intent: Intent)
        ensures
            intent == (if self.editing() {
                Intent::Save
            } else {
                Intent::Create
            }),
    {
        if self.is_editing() {
            Intent::Save
        } else {
            Intent::Create
        }
    }

    /// Whether leaving the page would lose something, as a word.
    pub fn edit_state(&self) -> (state: &'static str)
        ensures
            state@ == (if !self.editing() {
                "clean"@
            } else if self.is_locked() || self.unresolved() {
                "pending"@
            } else if self.unsaved() {
                "dirty"@
            } else {
                "clean"@
            }),
    {
        if !self.is_editing() {
            "clean"
        } else if self.locked() || self.unresolved_request() {
            "pending"
        } else if self.is_dirty() {
            "dirty"
        } else {
            "clean"
        }
    }

    /// What the button that saves says.
    pub fn save_label(&self) -> (label: &'static str)
        ensures
            label@ == (if self.busy && self.editing() {
                "Saving changes…"@
            } else if self.editing() {
                "Save changes"@
            } else if self.intent == Some(Intent::Create) {
                "Saving project…"@
            } else {
                "Save project"@
            }),
    {
        if self.is_editing() {
            if self.busy {
                "Saving changes…"
            } else {
                "Save changes"
            }
        } else if self.intent == Some(Intent::Create) {
            "Saving project…"
        } else {
            "Save project"
        }
    }

    /// What an error comes with: how to go on.
    pub fn error_hint(&self) -> (hint: &'static str)
        ensures
            hint@ == (if self.editing() {
                "Your input is still here. Correct the problem and save again. If another session changed this project, reload its current data before continuing."@
            } else if self.invalid_field is Some {
                "Your input is still here. Correct the indicated field and save again, or cancel to keep the draft."@
            } else {
                "Your input is still here. Retry a failed request, or reload to resolve changes made in another tab."@
            }),
    {
        if self.is_editing() {
            "Your input is still here. Correct the problem and save again. If another session changed this project, reload its current data before continuing."
        } else if self.invalid_field.is_some() {
            "Your input is still here. Correct the indicated field and save again, or cancel to keep the draft."
        } else {
            "Your input is still here. Retry a failed request, or reload to resolve changes made in another tab."
        }
    }
}

/// The time of day at an instant, given in microseconds, to the second.
pub open spec fn time_text(micros: int) -> Seq<char> {
    let second = (micros / 1_000_000) % 86_400;
    two_digits(second / 3600) + ":"@ + two_digits((second / 60) % 60) + ":"@ + two_digits(
        second % 60,
    )
}

/// The time of day at an instant, given in microseconds, to the second.
pub fn time_of_day(micros: i64) -> (text: String)
    ensures
        text@ == time_text(micros as int),
{
    let wide: i128 = micros as i128 + 1_000_000i128 * 86_400i128 * 200_000_000i128;
    let second: u32 = ((wide / 1_000_000) % 86_400) as u32;
    proof {
        assert(wide / 1_000_000 == micros as int / 1_000_000 + 86_400 * 200_000_000);
        assert((micros as int / 1_000_000 + 86_400 * 200_000_000) % 86_400 == (micros as int
            / 1_000_000) % 86_400) by {
            vstd::arithmetic::div_mod::lemma_mod_multiples_vanish(
                200_000_000,
                micros as int / 1_000_000,
                86_400,
            );
        }
    }
    let mut text = two_digit_text(second / 3600);
    text.append(":");
    text.append(two_digit_text((second / 60) % 60).as_str());
    text.append(":");
    text.append(two_digit_text(second % 60).as_str());
    text
}

/// A request to create a project whose outcome is open keeps the form locked and what was
/// asked, and once the error is cleared the round begins again; one that was refused for
/// certain leaves the form to be corrected.
pub proof fn open_creations_are_retried(editor: Editor, error: RequestError, shown: String)
    requires
        !editor.editing(),
        editor.intent == Some(Intent::Create),
    ensures
        ({
            let after = editor.after_create_failed(error, shown);
            let retried = Editor { invalid_field: None, error: None, ..after };
            &&& error.refused() ==> after.intent is None
            &&& !error.refused() ==> after.is_locked() && after.unresolved() && after.intent
                == Some(Intent::Create) && retried.draft_due()
            &&& after.form == editor.form
        }),
{
}

/// Changes whose outcome is open are sent again as they were, whatever is typed since: the
/// request stays, and the editor leaves neither it nor the page.
pub proof fn open_edits_are_retried(editor: Editor, error: RequestError, shown: String)
    requires
        editor.editing(),
        editor.pending_edit is Some,
        !error.refused(),
    ensures
        ({
            let after = editor.after_edit_failed(error, shown);
            let retried = Editor {
                invalid_field: None,
                error: None,
                intent: Some(Intent::Save),
                ..after
            };
            &&& after.unresolved()
            &&& retried.pending_edit == editor.pending_edit
            &&& retried.edit_due()
        }),
{
}

/// Nothing that was asked is done while there is input that is not saved: only what is saved
/// becomes a project.
pub proof fn only_saved_input_becomes_a_project(editor: Editor)
    requires
        !editor.editing(),
        editor.state.awaited() is None,
        !editor.saves_first(),
    ensures
        editor.state.saved.same(editor.form),
        editor.intent == Some(Intent::Create) ==> editor.state.revision != 0,
{
}

} // verus!
