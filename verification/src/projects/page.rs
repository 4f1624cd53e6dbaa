//! The page of the projects list: its filters, what is selected in it, and the change of many
//! projects at once.

use crate::ids::id_text;
use crate::ids::id_to_text;
use crate::lists::opt_view;
use crate::projects::list::bulk_success;
use crate::projects::list::projects_noun;
use crate::projects::list::request_bulk;
use crate::projects::list::BulkProjectAction;
use crate::projects::list::Picked;
use crate::text::decimal;
use std::collections::BTreeSet;
use vstd::prelude::*;

verus! {

/// What stands where the list is shown.
#[derive(Clone, Copy, PartialEq, Eq, Structural, Debug)]
pub enum ListNotice {
    /// A tag is picked whose projects are not known yet.
    TagsUnavailable,
    Loading,
    Failed,
    /// The list itself.
    Shown,
}

/// What stands where the list is shown. A tag whose projects are not known hides everything,
/// so that nothing is shown that it would leave out.
pub fn list_notice(tag_picked: bool, tags_ready: bool, loading: bool, failed: bool) -> (notice:
    ListNotice)
    ensures
        notice == (if tag_picked && !tags_ready {
            ListNotice::TagsUnavailable
        } else if loading {
            ListNotice::Loading
        } else if failed {
            ListNotice::Failed
        } else {
            ListNotice::Shown
        }),
{
    if tag_picked && !tags_ready {
        ListNotice::TagsUnavailable
    } else if loading {
        ListNotice::Loading
    } else if failed {
        ListNotice::Failed
    } else {
        ListNotice::Shown
    }
}

/// What is said of the figures of the list.
#[derive(Clone, Copy, PartialEq, Eq, Structural, Debug)]
pub enum ProgressNotice {
    Failed,
    Loading,
    Ready,
}

/// What is said of the figures of the list: they come from two requests, and are shown only
/// once both have been answered.
pub fn progress_notice(
    spend_failed: bool,
    budgets_failed: bool,
    spend_ready: bool,
    budgets_ready: bool,
) -> (notice: ProgressNotice)
    ensures
        notice == (if spend_failed || budgets_failed {
            ProgressNotice::Failed
        } else if spend_ready && budgets_ready {
            ProgressNotice::Ready
        } else {
            ProgressNotice::Loading
        }),
{
    if spend_failed || budgets_failed {
        ProgressNotice::Failed
    } else if spend_ready && budgets_ready {
        ProgressNotice::Ready
    } else {
        ProgressNotice::Loading
    }
}

/// A change of many projects that is sent.
#[derive(Debug)]
pub struct BulkRequest {
    pub ids: Vec<String>,
    pub activate: bool,
}

impl BulkRequest {
    /// Whether the request is for the projects of an action.
    pub open spec fn sends(self, action: BulkProjectAction) -> bool {
        &&& self.activate == action.activate
        &&& self.ids.len() == action.projects.len()
        &&& forall|i: int|
            0 <= i < self.ids.len() ==> (#[trigger] self.ids@[i])@ == id_text(
                action.projects@[i].id,
            )
    }
}

/// The filters of the list, what is selected in it, and the change of what is selected.
pub struct ListPage {
    pub query: String,
    pub scope: String,
    pub client: String,
    pub tag: Option<u128>,
    pub selected: BTreeSet<u128>,
    /// The change that waits to be confirmed.
    pub action: Option<BulkProjectAction>,
    pub busy: bool,
    pub error: Option<String>,
    pub success: Option<String>,
}

impl ListPage {
    /// A change is under way only while it waits to be confirmed.
    pub open spec fn well_formed(self) -> bool {
        self.busy ==> self.action is Some
    }

    /// Whether two pages differ in nothing but their filters and what is selected.
    pub open spec fn same_change(self, other: ListPage) -> bool {
        &&& self.action == other.action
        &&& self.busy == other.busy
        &&& self.error == other.error
        &&& self.success == other.success
    }

    /// The page as it opens: active projects, and none selected.
    pub fn new() -> (page: ListPage)
        ensures
            page.well_formed(),
            page.query@.len() == 0,
            page.scope@ == "active"@,
            page.client@.len() == 0,
            page.tag is None,
            page.selected@ == Set::<u128>::empty(),
            page.action is None,
            !page.busy,
            page.error is None,
            page.success is None,
    {
        ListPage {
            query: String::new(),
            scope: "active".to_owned(),
            client: String::new(),
            tag: None,
            selected: BTreeSet::new(),
            action: None,
            busy: false,
            error: None,
            success: None,
        }
    }

    /// Searches for something else; nothing stays selected.
    pub fn search(&mut self, query: String)
        ensures
            final(self).query == query,
            final(self).scope == old(self).scope,
            final(self).client == old(self).client,
            final(self).tag == old(self).tag,
            final(self).selected@ == Set::<u128>::empty(),
            final(self).same_change(*old(self)),
    {
        self.selected.clear();
        self.query = query;
    }

    /// Shows projects of another status; nothing stays selected.
    pub fn pick_scope(&mut self, scope: String)
        ensures
            final(self).query == old(self).query,
            final(self).scope == scope,
            final(self).client == old(self).client,
            final(self).tag == old(self).tag,
            final(self).selected@ == Set::<u128>::empty(),
            final(self).same_change(*old(self)),
    {
        self.selected.clear();
        self.scope = scope;
    }

    /// Shows projects of another client; nothing stays selected.
    pub fn pick_client(&mut self, client: String)
        ensures
            final(self).query == old(self).query,
            final(self).scope == old(self).scope,
            final(self).client == client,
            final(self).tag == old(self).tag,
            final(self).selected@ == Set::<u128>::empty(),
            final(self).same_change(*old(self)),
    {
        self.selected.clear();
        self.client = client;
    }

    /// Shows projects of another tag; nothing stays selected.
    pub fn pick_tag(&mut self, tag: Option<u128>)
        ensures
            final(self).query == old(self).query,
            final(self).scope == old(self).scope,
            final(self).client == old(self).client,
            final(self).tag == tag,
            final(self).selected@ == Set::<u128>::empty(),
            final(self).same_change(*old(self)),
    {
        self.selected.clear();
        self.tag = tag;
    }

    /// Shows all active projects; nothing stays selected.
    pub fn reset_filters(&mut self)
        ensures
            final(self).query@.len() == 0,
            final(self).scope@ == "active"@,
            final(self).client@.len() == 0,
            final(self).tag is None,
            final(self).selected@ == Set::<u128>::empty(),
            final(self).same_change(*old(self)),
    {
        self.selected.clear();
        self.query = String::new();
        self.client = String::new();
        self.tag = None;
        self.scope = "active".to_owned();
    }

    /// Whether what is selected can be changed.
    pub fn can_request(&self, count: usize) -> (can_request: bool)
        ensures
            can_request == (1 <= count <= 100 && !self.busy),
    {
        count > 0 && count <= 100 && !self.busy
    }

    /// Asks to confirm a change of the projects that were picked.
    pub fn request(&mut self, picked: Vec<Picked>)
        requires
            old(self).well_formed(),
        ensures
            final(self).well_formed(),
            final(self).query == old(self).query,
            final(self).scope == old(self).scope,
            final(self).client == old(self).client,
            final(self).tag == old(self).tag,
            final(self).selected@ == old(self).selected@,
            final(self).busy == old(self).busy,
            if 1 <= picked.len() <= 100 && !old(self).busy {
                &&& final(self).action == Some(
                    BulkProjectAction {
                        activate: old(self).scope@ == "archived"@,
                        projects: picked,
                    },
                )
                &&& final(self).error is None
                &&& final(self).success is None
            } else {
                final(self).same_change(*old(self))
            },
    {
        match request_bulk(picked, self.scope.as_str(), self.busy) {
            Some(action) => {
                self.error = None;
                self.success = None;
                self.action = Some(action);
            },
            None => {},
        }
    }

    /// Gives the change up, unless it is under way.
    pub fn dismiss(&mut self)
        requires
            old(self).well_formed(),
        ensures
            final(self).well_formed(),
            *final(self) == (if old(self).busy {
                *old(self)
            } else {
                ListPage { action: None, ..*old(self) }
            }),
    {
        if !self.busy {
            self.action = None;
        }
    }

    /// Sends the change that was confirmed, one at a time.
    pub fn confirm(&mut self) -> (request: Option<BulkRequest>)
        requires
            old(self).well_formed(),
        ensures
            final(self).well_formed(),
            request is Some <==> old(self).action is Some && !old(self).busy,
            request is Some ==> {
                &&& request->0.sends(old(self).action->0)
                &&& *final(self) == (ListPage { busy: true, error: None, ..*old(self) })
            },
            request is None ==> *final(self) == *old(self),
    {
        if self.busy {
            return None;
        }
        let request = match &self.action {
            Some(action) => {
                let mut ids: Vec<String> = Vec::new();
                let mut i: usize = 0;
                while i < action.projects.len()
                    invariant
                        i <= action.projects.len(),
                        ids.len() == i,
                        forall|k: int|
                            0 <= k < i ==> (#[trigger] ids@[k])@ == id_text(
                                action.projects@[k].id,
                            ),
                    decreases action.projects.len() - i,
                {
                    ids.push(id_to_text(action.projects[i].id));
                    i += 1;
                }
                BulkRequest { ids, activate: action.activate }
            },
            None => {
                return None;
            },
        };
        self.busy = true;
        self.error = None;
        Some(request)
    }

    /// What is said once a change was made.
    pub open spec fn success_text(action: BulkProjectAction) -> Seq<char> {
        (if action.activate {
            "Reactivated"@
        } else {
            "Archived"@
        }) + " "@ + decimal(action.projects.len() as nat) + " "@ + projects_noun(
            action.projects.len() as nat,
        )
    }

    /// Takes what became of the change: it is done, nothing stays selected and the list, as
    /// is said, is loaded again; or it can be confirmed once more.
    pub fn replied(&mut self, result: Result<(), String>) -> (reload: bool)
        requires
            old(self).well_formed(),
            old(self).busy,
        ensures
            final(self).well_formed(),
            reload == (result is Ok),
            !final(self).busy,
            final(self).query == old(self).query,
            final(self).scope == old(self).scope,
            final(self).client == old(self).client,
            final(self).tag == old(self).tag,
            match result {
                Ok(_) => {
                    &&& opt_view(final(self).success) == Some(
                        ListPage::success_text(old(self).action->0),
                    )
                    &&& final(self).selected@ == Set::<u128>::empty()
                    &&& final(self).action is None
                    &&& final(self).error == old(self).error
                },
                Err(message) => {
                    &&& final(self).error == Some(message)
                    &&& final(self).success == old(self).success
                    &&& final(self).selected@ == old(self).selected@
                    &&& final(self).action == old(self).action
                },
            },
    {
        self.busy = false;
        match result {
            Ok(_) => {
                match self.action.take() {
                    Some(action) => {
                        self.success = Some(bulk_success(&action));
                    },
                    None => {},
                }
                self.selected.clear();
                true
            },
            Err(message) => {
                self.error = Some(message);
                false
            },
        }
    }

    /// What the button that confirms says.
    pub fn confirm_label(&self) -> (label: &'static str)
        ensures
            label@ == (if self.busy {
                "Updating projects…"@
            } else if self.action is Some && self.action->0.activate {
                "Reactivate projects"@
            } else {
                "Archive projects"@
            }),
    {
        if self.busy {
            return "Updating projects…";
        }
        match &self.action {
            Some(action) => if action.activate {
                "Reactivate projects"
            } else {
                "Archive projects"
            },
            None => "Archive projects",
        }
    }
}

/// Whether some but not all of what is shown is selected.
pub fn partly_selected(count: usize, all: bool) -> (mixed: bool)
    ensures
        mixed == (count > 0 && !all),
{
    count > 0 && !all
}

/// What is said of a change that could not be confirmed.
pub fn bulk_complaint(message: &str) -> (text: String)
    ensures
        text@ == "Could not confirm project status: "@ + message@
            + ". You can retry safely or cancel and refresh the list."@,
{
    let mut text = "Could not confirm project status: ".to_owned();
    text.append(message);
    text.append(". You can retry safely or cancel and refresh the list.");
    text
}

/// What is said where no project is shown.
pub fn empty_hint(listed: bool, manager: bool) -> (hint: &'static str)
    ensures
        hint@ == (if listed {
            "Try another search, client, tag or project status."@
        } else if manager {
            "Projects hold the tasks your team tracks against. Create one to get started."@
        } else {
            "Projects hold the tasks your team tracks against. Ask a manager to create your first project."@
        }),
{
    if listed {
        "Try another search, client, tag or project status."
    } else if manager {
        "Projects hold the tasks your team tracks against. Create one to get started."
    } else {
        "Projects hold the tasks your team tracks against. Ask a manager to create your first project."
    }
}

} // verus!
