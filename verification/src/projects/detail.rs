//! One project: its spending, the form that edits it, its dates and its tasks.

use crate::clock::clock_text;
use crate::clock::format_hhmm;
use crate::date::add_one_month;
use crate::date::date_text;
use crate::date::day_before;
use crate::date::first_of_month;
use crate::date::format_day;
use crate::date::iso_text;
use crate::date::iso_text_of;
use crate::date::month_start;
use crate::date::one_month_on;
use crate::date::today;
use crate::date::Date;
use crate::date::FIRST_DAY;
use crate::ids::id_text;
use crate::ids::id_to_text;
use crate::money::cents_text;
use crate::money::format_cents_plain;
use crate::projects::budget::budgets_of;
use crate::projects::budget::checked_sum;
use crate::projects::budget::configured_row_spend;
use crate::projects::budget::consumed_of;
use crate::projects::budget::row_spend;
use crate::projects::budget::BudgetKind;
use crate::projects::budget::Project;
use crate::projects::budget::ProjectBudgetProgress;
use crate::projects::budget::ProjectType;
use crate::projects::budget::RowSpend;
use crate::projects::list::budget_rows;
use crate::projects::list::of_project;
use crate::text::same;
use crate::text::trim;
use crate::text::trimmed;
use std::collections::HashMap;
use vstd::prelude::*;

verus! {

broadcast use vstd::std_specs::hash::group_hash_axioms;

/// What is spent on a project, in minutes and in cents: nothing where it is not listed.
pub open spec fn spend_of(spend: Map<u128, (i64, i64)>, id: u128) -> (i64, i64) {
    if spend.contains_key(id) {
        spend[id]
    } else {
        (0, 0)
    }
}

/// The budget and the spending that the list shows for a project: those of its configured
/// budget, else those of its own.
pub fn project_spend(
    rows: &Vec<ProjectBudgetProgress>,
    spend: &HashMap<u128, (i64, i64)>,
    p: &Project,
) -> (row: RowSpend)
    ensures
        ({
            let parts = rows@.filter(of_project(p.id));
            if parts.len() > 0 && parts[0].kind != BudgetKind::Unset {
                row.shows(
                    parts[0].kind,
                    parts[0].currency@,
                    checked_sum(budgets_of(parts), parts.len() as int),
                    checked_sum(consumed_of(parts), parts.len() as int),
                    parts[0].period_key@ != "lifetime"@,
                )
            } else {
                row.shows(
                    p.budget_kind,
                    p.currency@,
                    match p.budget_kind {
                        BudgetKind::Amount => p.budget_amount_cents,
                        BudgetKind::Hours => p.budget_minutes,
                        BudgetKind::Unset => None,
                    },
                    Some(
                        if p.budget_kind == BudgetKind::Hours {
                            spend_of(spend@, p.id).0
                        } else {
                            spend_of(spend@, p.id).1
                        },
                    ),
                    p.project_type == ProjectType::Retainer,
                )
            }
        }),
{
    let parts = budget_rows(rows, p.id);
    match configured_row_spend(parts.as_slice()) {
        Some(row) => row,
        None => {
            let (minutes, cents) = match spend.get(&p.id) {
                Some(spent) => *spent,
                None => (0, 0),
            };
            row_spend(p, minutes, cents)
        },
    }
}

/// A project's type as it is written in forms.
pub open spec fn type_value(project_type: ProjectType) -> Seq<char> {
    match project_type {
        ProjectType::TimeAndMaterials => "time_and_materials"@,
        ProjectType::FixedFee => "fixed_fee"@,
        ProjectType::NonBillable => "non_billable"@,
        ProjectType::Retainer => "retainer"@,
    }
}

/// What a budget counts as it is written in forms.
pub open spec fn kind_value(kind: BudgetKind) -> Seq<char> {
    match kind {
        BudgetKind::Unset => "none"@,
        BudgetKind::Amount => "amount"@,
        BudgetKind::Hours => "hours"@,
    }
}

/// The form that edits a project.
#[derive(Debug)]
pub struct ProjectForm {
    pub editing: Option<u128>,
    pub name: String,
    pub project_type: String,
    pub currency: String,
    pub rate: String,
    pub budget_kind: String,
    pub budget: String,
    pub error: Option<String>,
    pub open: bool,
}

/// An amount in a field: empty where there is none.
pub open spec fn amount_field(cents: Option<i64>) -> Seq<char> {
    match cents {
        Some(cents) => cents_text(cents as int),
        None => Seq::empty(),
    }
}

fn to_amount_field(cents: Option<i64>) -> (text: String)
    ensures
        text@ == amount_field(cents),
{
    match cents {
        Some(cents) => format_cents_plain(cents),
        None => String::new(),
    }
}

/// A budget's figure in its field, so that saving an untouched form keeps it.
pub open spec fn budget_field(p: Project) -> Seq<char> {
    match p.budget_kind {
        BudgetKind::Amount => amount_field(p.budget_amount_cents),
        BudgetKind::Hours => match p.budget_minutes {
            Some(minutes) => clock_text(
                if minutes < 0 {
                    0
                } else {
                    minutes as nat
                },
            ),
            None => Seq::empty(),
        },
        BudgetKind::Unset => Seq::empty(),
    }
}

impl ProjectForm {
    /// Whether the form is as it is while no project is edited.
    pub open spec fn is_closed(self) -> bool {
        &&& self.editing is None
        &&& self.name@ == Seq::<char>::empty()
        &&& self.project_type@ == type_value(ProjectType::TimeAndMaterials)
        &&& self.currency@ == "USD"@
        &&& self.rate@ == Seq::<char>::empty()
        &&& self.budget_kind@ == kind_value(BudgetKind::Unset)
        &&& self.budget@ == Seq::<char>::empty()
        &&& self.error is None
        &&& !self.open
    }

    /// The form while no project is edited.
    pub fn closed() -> (form: ProjectForm)
        ensures
            form.is_closed(),
    {
        ProjectForm {
            editing: None,
            name: String::new(),
            project_type: "time_and_materials".to_owned(),
            currency: "USD".to_owned(),
            rate: String::new(),
            budget_kind: "none".to_owned(),
            budget: String::new(),
            error: None,
            open: false,
        }
    }

    /// The form opened for a project, with what it holds.
    pub fn edit(p: &Project) -> (form: ProjectForm)
        ensures
            form.editing == Some(p.id),
            form.name@ == p.name@,
            form.project_type@ == type_value(p.project_type),
            form.currency@ == p.currency@,
            form.rate@ == amount_field(p.rate_cents),
            form.budget_kind@ == kind_value(p.budget_kind),
            form.budget@ == budget_field(*p),
            form.error is None,
            form.open,
    {
        let project_type = match p.project_type {
            ProjectType::TimeAndMaterials => "time_and_materials",
            ProjectType::FixedFee => "fixed_fee",
            ProjectType::NonBillable => "non_billable",
            ProjectType::Retainer => "retainer",
        };
        let budget_kind = match p.budget_kind {
            BudgetKind::Unset => "none",
            BudgetKind::Amount => "amount",
            BudgetKind::Hours => "hours",
        };
        let budget = match p.budget_kind {
            BudgetKind::Amount => to_amount_field(p.budget_amount_cents),
            BudgetKind::Hours => match p.budget_minutes {
                Some(minutes) => if minutes < 0 {
                    format_hhmm(0)
                } else {
                    format_hhmm(minutes as u64)
                },
                None => String::new(),
            },
            BudgetKind::Unset => String::new(),
        };
        ProjectForm {
            editing: Some(p.id),
            name: p.name.clone(),
            project_type: project_type.to_owned(),
            currency: p.currency.clone(),
            rate: to_amount_field(p.rate_cents),
            budget_kind: budget_kind.to_owned(),
            budget,
            error: None,
            open: true,
        }
    }
}

/// A project as it is saved.
#[derive(Debug)]
pub struct ProjectUpdate {
    pub id: String,
    pub name: String,
    pub project_type: String,
    pub currency: String,
    pub budget_kind: String,
    pub budget: String,
    pub rate: String,
}

impl ProjectForm {
    /// What is saved of the project that is edited, as it was typed.
    pub fn update(&self) -> (update: Option<ProjectUpdate>)
        ensures
            update is Some <==> self.editing is Some,
            update is Some ==> {
                &&& update->0.id@ == id_text(self.editing->0)
                &&& update->0.name@ == self.name@
                &&& update->0.project_type@ == self.project_type@
                &&& update->0.currency@ == self.currency@
                &&& update->0.budget_kind@ == self.budget_kind@
                &&& update->0.budget@ == self.budget@
                &&& update->0.rate@ == self.rate@
            },
    {
        match self.editing {
            Some(id) => Some(
                ProjectUpdate {
                    id: id_to_text(id),
                    name: self.name.clone(),
                    project_type: self.project_type.clone(),
                    currency: self.currency.clone(),
                    budget_kind: self.budget_kind.clone(),
                    budget: self.budget.clone(),
                    rate: self.rate.clone(),
                },
            ),
            None => None,
        }
    }

    /// Takes what became of saving: the form closes, or shows what went wrong.
    pub fn saved(&mut self, result: Result<(), String>)
        ensures
            match result {
                Ok(_) => final(self).is_closed(),
                Err(message) => *final(self) == (ProjectForm {
                    error: Some(message),
                    ..*old(self)
                }),
            },
    {
        match result {
            Ok(_) => {
                *self = ProjectForm::closed();
            },
            Err(message) => {
                self.error = Some(message);
            },
        }
    }

    /// Whether a figure goes with the kind of budget.
    pub fn has_budget(&self) -> (has_budget: bool)
        ensures
            has_budget == (self.budget_kind@ != "none"@),
    {
        !same(self.budget_kind.as_str(), "none")
    }

    /// What the figure of the budget is called, an example of it and a hint: it is a number of
    /// hours or an amount.
    pub fn budget_words(&self) -> (words: (&'static str, &'static str, &'static str))
        ensures
            (words.0@, words.1@, words.2@) == (if self.budget_kind@ == "hours"@ {
                (
                    "Budget hours"@,
                    "120 or 7:30"@,
                    "Total hours for this project. Leave blank to set it later."@,
                )
            } else {
                (
                    "Budget amount"@,
                    "12000 or 12,000.50"@,
                    "Total fees in the project's currency. Leave blank to set it later."@,
                )
            }),
    {
        if same(self.budget_kind.as_str(), "hours") {
            (
                "Budget hours",
                "120 or 7:30",
                "Total hours for this project. Leave blank to set it later.",
            )
        } else {
            (
                "Budget amount",
                "12000 or 12,000.50",
                "Total fees in the project's currency. Leave blank to set it later.",
            )
        }
    }
}

/// A planned date, or that there is none.
pub open spec fn planned_text(date: Option<Date>, otherwise: Seq<char>) -> Seq<char> {
    match date {
        Some(date) => date_text(date.days, "%d %b %Y"@),
        None => otherwise,
    }
}

/// When a project is planned to start and to end.
pub fn planning_dates(starts_on: Option<Date>, ends_on: Option<Date>) -> (text: String)
    requires
        starts_on is Some ==> starts_on->0.valid(),
        ends_on is Some ==> ends_on->0.valid(),
    ensures
        text@ == planned_text(starts_on, "No start date"@) + " — "@ + planned_text(
            ends_on,
            "No end date"@,
        ),
{
    let mut text = match starts_on {
        Some(date) => format_day(date.days, "%d %b %Y"),
        None => "No start date".to_owned(),
    };
    text.append(" — ");
    match ends_on {
        Some(date) => text.append(format_day(date.days, "%d %b %Y").as_str()),
        None => text.append("No end date"),
    }
    text
}

/// An hourly rate of a task.
#[derive(Debug)]
pub struct ProjectTaskRate {
    pub amount: String,
    pub currency: String,
}

/// The rate that a task is enabled with: the one that was typed, where the project's tasks
/// have rates and it is not blank.
pub fn explicit_rate(currency: &Option<String>, rate: &str) -> (explicit: Option<ProjectTaskRate>)
    ensures
        explicit is Some <==> currency is Some && trimmed(rate@).len() > 0,
        explicit is Some ==> explicit->0.amount@ == rate@ && explicit->0.currency@
            == currency->0@,
{
    match currency {
        Some(currency) => if trim(rate).as_str().is_empty() {
            None
        } else {
            Some(ProjectTaskRate { amount: rate.to_owned(), currency: currency.clone() })
        },
        None => None,
    }
}

/// A user in a choice: name and address.
pub fn user_option(name: &str, email: &str) -> (label: String)
    ensures
        label@ == name@ + " ("@ + email@ + ")"@,
{
    let mut label = name.to_owned();
    label.append(" (");
    label.append(email);
    label.append(")");
    label
}

/// The last day of the month that `today` is in: the one before the first day of the next
/// month, or today where there is no next month.
pub open spec fn month_end(today: Date) -> int {
    match one_month_on(month_start(today.days)) {
        Some(next) => if next > FIRST_DAY {
            next - 1
        } else {
            today.days as int
        },
        None => today.days as int,
    }
}

/// The period that fee balances are first shown for: the month of `today`.
pub fn fee_period(today: Date) -> (period: (String, String))
    requires
        today.valid(),
    ensures
        period.0@ == iso_text(month_start(today.days)),
        period.1@ == iso_text(month_end(today) as i32),
{
    let first: i32 = match first_of_month(today.days) {
        Some(first) => first,
        None => today.days,
    };
    let last: i32 = match add_one_month(first) {
        Some(next) => match day_before(next) {
            Some(last) => last,
            None => today.days,
        },
        None => today.days,
    };
    (iso_text_of(first), iso_text_of(last))
}

/// The period that fee balances are first shown for: this month, by the machine's clock.
pub fn default_fee_period() -> (period: (String, String))
    ensures
        exists|now: Date| #[trigger]
            now.valid() && period.0@ == iso_text(month_start(now.days)) && period.1@ == iso_text(
                month_end(now) as i32,
            ),
{
    let now = Date { days: today() };
    proof {
        assert(now.valid());
    }
    fee_period(now)
}

} // verus!
