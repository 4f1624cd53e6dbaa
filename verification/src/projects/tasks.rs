//! The tasks and the people of one project, and what it is owed in fees.

use crate::ids::id_text;
use crate::ids::id_to_text;
use crate::money::cents_text;
use crate::money::format_cents_plain;
use crate::projects::budget::budget_display;
use crate::projects::budget::hours;
use crate::projects::budget::hours_text;
use crate::projects::budget::BudgetKind;
use crate::projects::budget::ProjectBudgetProgress;
use crate::projects::budget::RowSpend;
use crate::projects::detail::explicit_rate;
use crate::projects::detail::ProjectTaskRate;
use crate::text::same;
use crate::text::trim;
use crate::text::trimmed;
use std::collections::HashMap;
use vstd::prelude::*;

verus! {

broadcast use vstd::std_specs::hash::group_hash_axioms;

/// The panel that enables tasks for a project.
#[derive(Debug)]
pub struct TaskPanel {
    /// The task that is picked; empty where none is.
    pub selected: String,
    pub rate: String,
    pub name: String,
    pub billable: bool,
    pub error: Option<String>,
    pub saving: bool,
}

/// A task that is to be enabled.
#[derive(Debug)]
pub struct EnableTask {
    pub task_id: String,
    pub rate: Option<ProjectTaskRate>,
}

/// A task that is to be created and enabled.
#[derive(Debug)]
pub struct CreateTask {
    pub name: String,
    pub billable: bool,
}

impl TaskPanel {
    /// The panel as it opens.
    pub fn new() -> (panel: TaskPanel)
        ensures
            panel.selected@.len() == 0,
            panel.rate@.len() == 0,
            panel.name@.len() == 0,
            panel.billable,
            panel.error is None,
            !panel.saving,
    {
        TaskPanel {
            selected: String::new(),
            rate: String::new(),
            name: String::new(),
            billable: true,
            error: None,
            saving: false,
        }
    }

    /// Picks a task; the rate that was typed for another one is gone.
    pub fn pick(&mut self, task: String)
        ensures
            final(self).rate@.len() == 0,
            *final(self) == (TaskPanel {
                selected: task,
                rate: final(self).rate,
                error: None,
                ..*old(self)
            }),
    {
        self.selected = task;
        self.rate = String::new();
        self.error = None;
    }

    /// Begins to enable the task that is picked, at the rate that was typed where tasks have
    /// rates of their own.
    pub fn enable(&mut self, currency: &Option<String>) -> (request: Option<EnableTask>)
        ensures
            request is Some <==> !old(self).saving && old(self).selected@.len() > 0,
            request is Some ==> {
                let asked = request->0;
                &&& asked.task_id@ == old(self).selected@
                &&& asked.rate is Some <==> currency is Some && trimmed(old(self).rate@).len() > 0
                &&& asked.rate is Some ==> asked.rate->0.amount@ == old(self).rate@
                    && asked.rate->0.currency@ == currency->0@
                &&& *final(self) == (TaskPanel { error: None, saving: true, ..*old(self) })
            },
            request is None ==> *final(self) == *old(self),
    {
        if self.saving || self.selected.as_str().is_empty() {
            return None;
        }
        self.error = None;
        self.saving = true;
        Some(
            EnableTask {
                task_id: self.selected.clone(),
                rate: explicit_rate(currency, self.rate.as_str()),
            },
        )
    }

    /// Takes what became of enabling a task; the list of enabled ones, as is said, is loaded
    /// again.
    pub fn enabled(&mut self, result: Result<(), String>) -> (reload: bool)
        ensures
            reload == (result is Ok),
            match result {
                Ok(_) => {
                    &&& final(self).selected@.len() == 0
                    &&& final(self).rate@.len() == 0
                    &&& *final(self) == (TaskPanel {
                        selected: final(self).selected,
                        rate: final(self).rate,
                        error: None,
                        saving: false,
                        ..*old(self)
                    })
                },
                Err(message) => *final(self) == (TaskPanel {
                    error: Some(message),
                    saving: false,
                    ..*old(self)
                }),
            },
    {
        self.saving = false;
        match result {
            Ok(_) => {
                self.error = None;
                self.selected = String::new();
                self.rate = String::new();
                true
            },
            Err(message) => {
                self.error = Some(message);
                false
            },
        }
    }

    /// Begins to create a task of the name that was typed.
    pub fn create(&mut self) -> (request: Option<CreateTask>)
        ensures
            request is Some <==> !old(self).saving && trimmed(old(self).name@).len() > 0,
            request is Some ==> {
                &&& request->0.name@ == old(self).name@
                &&& request->0.billable == old(self).billable
                &&& *final(self) == (TaskPanel { saving: true, ..*old(self) })
            },
            request is None ==> *final(self) == *old(self),
    {
        if self.saving || trim(self.name.as_str()).as_str().is_empty() {
            return None;
        }
        self.saving = true;
        Some(CreateTask { name: self.name.clone(), billable: self.billable })
    }

    /// Takes what became of creating a task; both lists of tasks, as is said, are loaded
    /// again.
    pub fn created(&mut self, result: Result<(), String>) -> (reload: bool)
        ensures
            reload == (result is Ok),
            match result {
                Ok(_) => {
                    &&& final(self).name@.len() == 0
                    &&& *final(self) == (TaskPanel {
                        name: final(self).name,
                        error: None,
                        saving: false,
                        ..*old(self)
                    })
                },
                Err(message) => *final(self) == (TaskPanel {
                    error: Some(message),
                    saving: false,
                    ..*old(self)
                }),
            },
    {
        self.saving = false;
        match result {
            Ok(_) => {
                self.error = None;
                self.name = String::new();
                true
            },
            Err(message) => {
                self.error = Some(message);
                false
            },
        }
    }
}

/// The form that assigns someone to a project.
#[derive(Debug)]
pub struct AssignForm {
    pub shown: bool,
    pub user_id: String,
    pub role: String,
    pub error: Option<String>,
}

impl AssignForm {
    /// The form before anyone is picked.
    pub fn new() -> (form: AssignForm)
        ensures
            !form.shown,
            form.user_id@.len() == 0,
            form.role@ == "freelancer"@,
            form.error is None,
    {
        AssignForm {
            shown: false,
            user_id: String::new(),
            role: "freelancer".to_owned(),
            error: None,
        }
    }

    /// Takes what became of an assignment: the form is cleared and closed, or shows what went
    /// wrong.
    pub fn assigned(&mut self, result: Result<(), String>)
        ensures
            match result {
                Ok(_) => {
                    &&& !final(self).shown
                    &&& final(self).user_id@.len() == 0
                    &&& final(self).role@ == "freelancer"@
                    &&& final(self).error is None
                },
                Err(message) => *final(self) == (AssignForm {
                    error: Some(message),
                    ..*old(self)
                }),
            },
    {
        match result {
            Ok(_) => {
                *self = AssignForm::new();
            },
            Err(message) => {
                self.error = Some(message);
            },
        }
    }
}

/// What someone is called: by name, or by identity where the name is not known.
pub fn user_name(names: &HashMap<u128, String>, id: u128) -> (name: String)
    ensures
        name@ == (if names@.contains_key(id) {
            names@[id]@
        } else {
            id_text(id)
        }),
{
    match names.get(&id) {
        Some(name) => name.clone(),
        None => id_to_text(id),
    }
}

/// What is said below a project of its configured budget: its period, where it has one, and
/// all the time that was tracked.
pub open spec fn tracked_text(config: ProjectBudgetProgress, minutes: i64) -> Seq<char> {
    (if config.period_key@ != "lifetime"@ {
        "Budget period: "@ + config.period_key@ + " · "@
    } else {
        Seq::empty()
    }) + "Total tracked: "@ + hours_text(minutes as int)
}

/// What is said below a project of its configured budget, where it has one.
pub fn tracked_line(rows: &[ProjectBudgetProgress], minutes: i64) -> (line: Option<String>)
    ensures
        line is Some <==> rows@.len() > 0 && rows@[0].kind != BudgetKind::Unset,
        line is Some ==> line->0@ == tracked_text(rows@[0], minutes),
{
    if rows.len() == 0 || rows[0].kind == BudgetKind::Unset {
        return None;
    }
    let mut line = String::new();
    if !same(rows[0].period_key.as_str(), "lifetime") {
        line.append("Budget period: ");
        line.append(rows[0].period_key.as_str());
        line.append(" · ");
    }
    line.append("Total tracked: ");
    line.append(hours(minutes).as_str());
    proof {
        assert(line@ =~= tracked_text(rows@[0], minutes));
    }
    Some(line)
}

/// The heading of a budget's parts, where it has parts of its own.
pub fn breakdown_title(config: &ProjectBudgetProgress) -> (title: Option<String>)
    ensures
        title is Some <==> config.scope@ != "project"@,
        title is Some ==> title->0@ == "Budget by "@ + config.scope@,
{
    if same(config.scope.as_str(), "project") {
        return None;
    }
    let mut title = "Budget by ".to_owned();
    title.append(config.scope.as_str());
    Some(title)
}

/// What is said of a part of a budget, by the figures that it shows.
pub open spec fn part_text(part: ProjectBudgetProgress, shown: RowSpend) -> Seq<char> {
    (match part.label {
        Some(label) => label@,
        None => "No allocated budget"@,
    }) + ": "@ + (if part.budget is Some {
        "Budget "@ + shown.budget@ + " · "@
    } else {
        "No budget set · "@
    }) + "Spent "@ + shown.spent@ + " · Remaining "@ + shown.remaining@
}

/// What is said of a part of a budget.
pub fn part_line(part: &ProjectBudgetProgress) -> (line: String)
    ensures
        exists|shown: RowSpend| #[trigger]
            shown.shows(part.kind, part.currency@, part.budget, Some(part.consumed), false)
                && line@ == part_text(*part, shown),
{
    let shown = budget_display(
        part.kind,
        part.currency.as_str(),
        part.budget,
        Some(part.consumed),
        false,
    );
    let mut line = match &part.label {
        Some(label) => label.clone(),
        None => "No allocated budget".to_owned(),
    };
    line.append(": ");
    if part.budget.is_some() {
        line.append("Budget ");
        line.append(shown.budget.as_str());
        line.append(" · ");
    } else {
        line.append("No budget set · ");
    }
    line.append("Spent ");
    line.append(shown.spent.as_str());
    line.append(" · Remaining ");
    line.append(shown.remaining.as_str());
    proof {
        assert(line@ =~= part_text(*part, shown));
    }
    line
}

/// What has become of a fee.
#[derive(Debug)]
pub struct FeeBalance {
    pub currency: String,
    pub agreed_cents: i64,
    pub invoiced_cents: i64,
    pub remaining_cents: i64,
}

/// An amount of a fee, after what it is.
pub open spec fn fee_text(what: Seq<char>, currency: Seq<char>, cents: i64) -> Seq<char> {
    what + currency + " "@ + cents_text(cents as int)
}

fn fee_line(what: &str, currency: &str, cents: i64) -> (line: String)
    ensures
        line@ == fee_text(what@, currency@, cents),
{
    let mut line = what.to_owned();
    line.append(currency);
    line.append(" ");
    line.append(format_cents_plain(cents).as_str());
    line
}

/// What is said of a fee: what was agreed, what was invoiced and what remains. More may have
/// been invoiced than was agreed.
pub fn fee_lines(balance: &FeeBalance) -> (lines: (String, String, String))
    ensures
        lines.0@ == fee_text("Agreed: "@, balance.currency@, balance.agreed_cents),
        lines.1@ == fee_text(
            "Invoiced (including drafts): "@,
            balance.currency@,
            balance.invoiced_cents,
        ),
        lines.2@ == fee_text(
            if balance.remaining_cents < 0 {
                "Over-invoiced: "@
            } else {
                "Remaining: "@
            },
            balance.currency@,
            balance.remaining_cents,
        ),
{
    let currency = balance.currency.as_str();
    let remaining = if balance.remaining_cents < 0 {
        "Over-invoiced: "
    } else {
        "Remaining: "
    };
    (
        fee_line("Agreed: ", currency, balance.agreed_cents),
        fee_line("Invoiced (including drafts): ", currency, balance.invoiced_cents),
        fee_line(remaining, currency, balance.remaining_cents),
    )
}

/// Someone who can be assigned to a project.
#[derive(Debug)]
pub struct Assignable {
    pub id: u128,
    pub name: String,
    pub email: String,
}

/// The people to assign: none is picked first, then each with name and address.
pub fn assign_options(users: &Vec<Assignable>) -> (options: Vec<(String, String)>)
    ensures
        options.len() == users.len() + 1,
        options@[0].0@.len() == 0,
        options@[0].1@ == "Select a user..."@,
        forall|i: int|
            0 < i <= users.len() ==> (#[trigger] options@[i]).0@ == id_text(users@[i - 1].id)
                && options@[i].1@ == users@[i - 1].name@ + " ("@ + users@[i - 1].email@ + ")"@,
{
    let mut options: Vec<(String, String)> = Vec::new();
    options.push((String::new(), "Select a user...".to_owned()));
    let mut i: usize = 0;
    while i < users.len()
        invariant
            i <= users.len(),
            options.len() == i + 1,
            options@[0].0@.len() == 0,
            options@[0].1@ == "Select a user..."@,
            forall|k: int|
                0 < k <= i ==> (#[trigger] options@[k]).0@ == id_text(users@[k - 1].id)
                    && options@[k].1@ == users@[k - 1].name@ + " ("@ + users@[k - 1].email@ + ")"@,
        decreases users.len() - i,
    {
        let mut label = users[i].name.clone();
        label.append(" (");
        label.append(users[i].email.as_str());
        label.append(")");
        options.push((id_to_text(users[i].id), label));
        i += 1;
    }
    options
}

} // verus!
