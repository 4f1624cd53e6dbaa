//! The draft of a project: what is saved, and what awaits its acknowledgement.

use crate::ids::new_id;
use crate::new_project::form::blank_forms_are_the_same;
use crate::new_project::form::same_is_reflexive;
use crate::new_project::form::same_is_transitive;
use crate::new_project::form::ProjectForm;
use vstd::prelude::*;

verus! {

/// A request to save a draft over a revision.
#[derive(Debug)]
pub struct PendingSave {
    pub revision: i64,
    pub form: ProjectForm,
}

impl PendingSave {
    /// Whether two requests are the same.
    pub open spec fn same(self, other: PendingSave) -> bool {
        self.revision == other.revision && self.form.same(other.form)
    }

    /// Whether two requests are the same.
    pub fn equals(&self, other: &PendingSave) -> (equal: bool)
        ensures
            equal == self.same(*other),
    {
        self.revision == other.revision && self.form.equals(&other.form)
    }
}

/// A draft as it was saved. Times are in microseconds.
#[derive(Debug)]
pub struct ProjectDraft {
    pub id: u128,
    pub revision: i64,
    pub saved_at: i64,
    pub form: ProjectForm,
}

/// The acknowledgement of a save.
#[derive(Clone, Copy, PartialEq, Eq, Structural, Debug)]
pub struct DraftSaved {
    pub id: u128,
    pub revision: i64,
    pub saved_at: i64,
}

/// The state of a draft. A request that is not acknowledged is kept as it was sent: where
/// the answer was lost, the same request must be sent again before later edits.
#[derive(Debug)]
pub struct DraftState {
    pub id: u128,
    pub revision: i64,
    pub saved_at: Option<i64>,
    pub saved: ProjectForm,
    pub pending: Option<PendingSave>,
}

impl DraftState {
    /// The request that awaits its acknowledgement.
    pub open spec fn awaited(self) -> Option<PendingSave> {
        self.pending
    }

    /// The request that is awaited is one to save over the current revision.
    pub open spec fn well_formed(self) -> bool {
        self.awaited() is Some ==> self.awaited()->0.revision == self.revision
    }

    /// The draft that was saved, or a new one.
    pub fn new(draft: Option<ProjectDraft>) -> (state: DraftState)
        ensures
            state.awaited() is None,
            match draft {
                Some(draft) => {
                    &&& state.id == draft.id
                    &&& state.revision == draft.revision
                    &&& state.saved_at == Some(draft.saved_at)
                    &&& state.saved == draft.form
                },
                None => {
                    &&& state.revision == 0
                    &&& state.saved_at is None
                    &&& state.saved.is_blank()
                },
            },
            state.well_formed(),
    {
        match draft {
            Some(draft) => DraftState {
                id: draft.id,
                revision: draft.revision,
                saved_at: Some(draft.saved_at),
                saved: draft.form,
                pending: None,
            },
            None => DraftState {
                id: new_id(),
                revision: 0,
                saved_at: None,
                saved: ProjectForm::default(),
                pending: None,
            },
        }
    }

    /// Whether `form` is yet to be saved: a save is awaited, or the form is not what was
    /// saved.
    pub open spec fn dirty(self, form: ProjectForm) -> bool {
        self.awaited() is Some || !self.saved.same(form)
    }

    /// Whether `form` is yet to be saved.
    pub fn is_dirty(&self, form: &ProjectForm) -> (dirty: bool)
        ensures
            dirty == self.dirty(*form),
    {
        self.pending.is_some() || !self.saved.equals(form)
    }

    /// The request to send: the one that is awaited, else one to save `form` over the
    /// current revision, which is awaited from now on.
    pub fn request(&mut self, form: &ProjectForm) -> (request: PendingSave)
        requires
            old(self).well_formed(),
        ensures
            final(self).awaited() is Some,
            request.same(final(self).awaited()->0),
            match old(self).awaited() {
                Some(awaited) => final(self).awaited() == Some(awaited),
                None => {
                    &&& final(self).awaited()->0.revision == old(self).revision
                    &&& final(self).awaited()->0.form.same(*form)
                },
            },
            final(self).id == old(self).id,
            final(self).revision == old(self).revision,
            final(self).saved_at == old(self).saved_at,
            final(self).saved == old(self).saved,
            final(self).well_formed(),
    {
        let pending = match self.pending.take() {
            Some(pending) => pending,
            None => PendingSave { revision: self.revision, form: form.copy() },
        };
        let request = PendingSave { revision: pending.revision, form: pending.form.copy() };
        self.pending = Some(pending);
        request
    }

    /// Whether an acknowledgement is that of the request that is awaited.
    pub open spec fn acknowledges(self, saved: DraftSaved) -> bool {
        &&& self.awaited() is Some
        &&& saved.id == self.id
        &&& saved.revision == self.awaited()->0.revision + 1
    }

    /// Takes an acknowledgement: what was requested is saved. One that is not of the
    /// request that is awaited changes nothing.
    pub fn acknowledge(&mut self, saved: DraftSaved) -> (taken: Result<(), &'static str>)
        ensures
            taken is Ok <==> old(self).acknowledges(saved),
            match taken {
                Ok(_) => {
                    &&& final(self).id == old(self).id
                    &&& final(self).revision == saved.revision
                    &&& final(self).saved_at == Some(saved.saved_at)
                    &&& final(self).saved == old(self).awaited()->0.form
                    &&& final(self).awaited() is None
                },
                Err(message) => {
                    &&& *final(self) == *old(self)
                    &&& message@ == (if old(self).awaited() is None {
                        "No draft save is awaiting acknowledgement."@
                    } else {
                        "Unexpected draft revision. Reload the saved draft before continuing."@
                    })
                },
            },
            old(self).well_formed() ==> final(self).well_formed(),
    {
        let pending = match self.pending.take() {
            Some(pending) => pending,
            None => {
                return Err("No draft save is awaiting acknowledgement.");
            },
        };
        if saved.id != self.id || pending.revision == i64::MAX || pending.revision + 1
            != saved.revision {
            self.pending = Some(pending);
            return Err("Unexpected draft revision. Reload the saved draft before continuing.");
        }
        self.saved = pending.form;
        self.revision = saved.revision;
        self.saved_at = Some(saved.saved_at);
        Ok(())
    }

    /// Gives the awaited request up: a request that was refused as invalid was not saved,
    /// whereas one whose answer was lost might have been.
    pub fn reject_validation(&mut self)
        ensures
            final(self).awaited() is None,
            final(self).id == old(self).id,
            final(self).revision == old(self).revision,
            final(self).saved_at == old(self).saved_at,
            final(self).saved == old(self).saved,
            final(self).well_formed(),
    {
        self.pending = None;
    }
}

/// An empty form is not dirty in a new draft.
pub proof fn new_drafts_are_clean(state: DraftState, form: ProjectForm)
    requires
        state.awaited() is None,
        state.saved.is_blank(),
        form.is_blank(),
    ensures
        !state.dirty(form),
{
    blank_forms_are_the_same(state.saved, form);
}

/// Once a save has been acknowledged, what was sent is clean and anything else is dirty.
pub proof fn saved_input_is_clean(state: DraftState, sent: ProjectForm, form: ProjectForm)
    requires
        state.awaited() is None,
        state.saved.same(sent),
    ensures
        !state.dirty(sent),
        state.dirty(form) <==> !sent.same(form),
{
    if sent.same(form) {
        same_is_transitive(state.saved, sent, form);
    }
    if state.saved.same(form) {
        same_is_reflexive(sent);
        same_is_transitive(state.saved, sent, sent);
        same_is_transitive(sent, state.saved, form);
    }
}

/// While a save is awaited, every form is dirty: nothing is taken as saved before the
/// acknowledgement.
pub proof fn awaited_input_is_dirty(state: DraftState, form: ProjectForm)
    requires
        state.awaited() is Some,
    ensures
        state.dirty(form),
{
}

} // verus!
