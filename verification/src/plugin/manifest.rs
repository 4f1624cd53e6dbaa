//! What a plugin declares of itself.

use crate::lists::contains_text;
use crate::lists::views;
use crate::plugin::host::Config;
use vstd::prelude::*;

verus! {

/// The events that a plugin can follow.
pub open spec fn hooks() -> Seq<Seq<char>> {
    seq![
        "time_entry_created"@,
        "time_entry_stopped"@,
        "invoice_created"@,
        "invoice_sent"@,
        "user_logged_in"@,
        "time_entry_updated"@,
        "time_entry_deleted"@,
        "timesheet_submitted"@,
        "submission_approved"@,
        "submission_rejected"@,
        "invoice_paid"@,
        "invoice_voided"@,
        "client_created"@,
        "client_updated"@,
        "client_deactivated"@,
        "client_reactivated"@,
        "project_created"@,
        "project_updated"@,
        "project_deactivated"@,
        "project_reactivated"@,
        "task_created"@,
        "task_updated"@,
        "task_deactivated"@,
        "task_reactivated"@,
        "user_created"@,
        "user_role_changed"@,
        "user_deactivated"@,
        "user_logged_out"@,
        "user_assigned_to_project"@,
        "assignment_removed"@,
        "org_branding_updated"@,
        "project_budget_threshold_reached"@,
        "project_over_budget"@,
        "timer_running_too_long"@,
    ]
}

/// The events that a plugin can follow.
pub fn known_hooks() -> (known: Vec<String>)
    ensures
        views(known@) == hooks(),
{
    let mut known: Vec<String> = Vec::new();
    known.push("time_entry_created".to_owned());
    known.push("time_entry_stopped".to_owned());
    known.push("invoice_created".to_owned());
    known.push("invoice_sent".to_owned());
    known.push("user_logged_in".to_owned());
    known.push("time_entry_updated".to_owned());
    known.push("time_entry_deleted".to_owned());
    known.push("timesheet_submitted".to_owned());
    known.push("submission_approved".to_owned());
    known.push("submission_rejected".to_owned());
    known.push("invoice_paid".to_owned());
    known.push("invoice_voided".to_owned());
    known.push("client_created".to_owned());
    known.push("client_updated".to_owned());
    known.push("client_deactivated".to_owned());
    known.push("client_reactivated".to_owned());
    known.push("project_created".to_owned());
    known.push("project_updated".to_owned());
    known.push("project_deactivated".to_owned());
    known.push("project_reactivated".to_owned());
    known.push("task_created".to_owned());
    known.push("task_updated".to_owned());
    known.push("task_deactivated".to_owned());
    known.push("task_reactivated".to_owned());
    known.push("user_created".to_owned());
    known.push("user_role_changed".to_owned());
    known.push("user_deactivated".to_owned());
    known.push("user_logged_out".to_owned());
    known.push("user_assigned_to_project".to_owned());
    known.push("assignment_removed".to_owned());
    known.push("org_branding_updated".to_owned());
    known.push("project_budget_threshold_reached".to_owned());
    known.push("project_over_budget".to_owned());
    known.push("timer_running_too_long".to_owned());
    proof {
        assert(views(known@) =~= hooks());
    }
    known
}

/// Texts with another between them.
pub open spec fn joined(texts: Seq<Seq<char>>, parting: Seq<char>) -> Seq<char>
    decreases texts.len(),
{
    if texts.len() == 0 {
        Seq::empty()
    } else if texts.len() == 1 {
        texts[0]
    } else {
        joined(texts.drop_last(), parting) + parting + texts.last()
    }
}

fn join(texts: &Vec<String>, parting: &str) -> (text: String)
    ensures
        text@ == joined(views(texts@), parting@),
{
    let mut text = String::new();
    let mut i: usize = 0;
    let ghost all = views(texts@);
    proof {
        assert(all.take(0) =~= Seq::<Seq<char>>::empty());
    }
    while i < texts.len()
        invariant
            i <= texts.len(),
            all == views(texts@),
            text@ == joined(all.take(i as int), parting@),
        decreases texts.len() - i,
    {
        proof {
            assert(all.take(i + 1).drop_last() =~= all.take(i as int));
            assert(all.take(i + 1).last() == texts@[i as int]@);
        }
        if i > 0 {
            text.append(parting);
        }
        text.append(texts[i].as_str());
        proof {
            if i == 0 {
                assert(text@ =~= texts@[0]@);
            }
        }
        i += 1;
    }
    proof {
        assert(all.take(texts.len() as int) =~= all);
    }
    text
}

/// What the file of a plugin holds.
pub struct ManifestFile {
    pub name: String,
    pub version: String,
    pub hooks: Vec<String>,
    pub config: Config,
}

/// What a plugin declares of itself: it follows at least one event, and known ones only.
pub struct PluginManifest {
    pub name: String,
    pub version: String,
    pub hooks: Vec<String>,
    pub config: Config,
}

/// Whether the event at `i` is the first that is not known.
pub open spec fn first_unknown(declared: Seq<Seq<char>>, i: int) -> bool {
    &&& 0 <= i < declared.len()
    &&& !hooks().contains(declared[i])
    &&& forall|k: int| 0 <= k < i ==> hooks().contains(#[trigger] declared[k])
}

/// Why a plugin is refused that follows an event that is not known.
pub open spec fn unknown_text(name: Seq<char>, hook: Seq<char>) -> Seq<char> {
    "plugin '"@ + name + "': unknown hook '"@ + hook + "' (known: "@ + joined(hooks(), ", "@)
        + ")"@
}

impl PluginManifest {
    /// A plugin follows at least one event, and known ones only.
    pub open spec fn well_formed(self) -> bool {
        &&& self.hooks.len() > 0
        &&& forall|i: int| 0 <= i < self.hooks.len() ==> hooks().contains(#[trigger] views(self.hooks@)[i])
    }

    /// What a plugin declares, taken from its file, or why it is refused.
    pub fn from_file(file: ManifestFile) -> (manifest: Result<PluginManifest, String>)
        ensures
            match manifest {
                Ok(manifest) => {
                    &&& manifest.well_formed()
                    &&& manifest.name == file.name
                    &&& manifest.version == file.version
                    &&& manifest.hooks == file.hooks
                    &&& manifest.config == file.config
                },
                Err(message) => {
                    ||| file.hooks.len() == 0 && message@ == "plugin '"@ + file.name@
                        + "': must declare at least one hook"@
                    ||| exists|i: int| #[trigger]
                        first_unknown(views(file.hooks@), i) && message@ == unknown_text(
                            file.name@,
                            file.hooks@[i]@,
                        )
                },
            },
    {
        let known = known_hooks();
        let ghost declared = views(file.hooks@);
        let mut i: usize = 0;
        while i < file.hooks.len()
            invariant
                i <= file.hooks.len(),
                views(known@) == hooks(),
                declared == views(file.hooks@),
                forall|k: int| 0 <= k < i ==> hooks().contains(#[trigger] declared[k]),
            decreases file.hooks.len() - i,
        {
            proof {
                assert(declared[i as int] == file.hooks@[i as int]@);
            }
            if !contains_text(&known, file.hooks[i].as_str()) {
                let mut message = "plugin '".to_owned();
                message.append(file.name.as_str());
                message.append("': unknown hook '");
                message.append(file.hooks[i].as_str());
                message.append("' (known: ");
                message.append(join(&known, ", ").as_str());
                message.append(")");
                proof {
                    assert(first_unknown(declared, i as int));
                }
                return Err(message);
            }
            i += 1;
        }
        if file.hooks.len() == 0 {
            let mut message = "plugin '".to_owned();
            message.append(file.name.as_str());
            message.append("': must declare at least one hook");
            return Err(message);
        }
        Ok(
            PluginManifest {
                name: file.name,
                version: file.version,
                hooks: file.hooks,
                config: file.config,
            },
        )
    }
}

} // verus!
