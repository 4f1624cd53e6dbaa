//! What is left of a project's budget.

use crate::lists::opt_view;
use crate::money::cents_text;
use crate::money::format_cents;
use crate::money::share_used;
use crate::money::used_percent;
use crate::text::decimal;
use crate::text::decimal_text;
use crate::text::digit;
use crate::text::digit_char;
use crate::text::same;
use crate::text::trim;
use crate::text::trimmed;
use crate::text::two_digit_text;
use crate::text::two_digits;
use vstd::prelude::*;

verus! {

/// What a project is paid by.
#[derive(Clone, Copy, PartialEq, Eq, Structural, Debug)]
pub enum ProjectType {
    TimeAndMaterials,
    FixedFee,
    NonBillable,
    Retainer,
}

/// What a budget counts.
#[derive(Clone, Copy, PartialEq, Eq, Structural, Debug)]
pub enum BudgetKind {
    /// There is no budget.
    Unset,
    Amount,
    Hours,
}

/// A project as the list shows it.
#[derive(Debug)]
pub struct Project {
    pub id: u128,
    pub client_id: u128,
    pub name: String,
    pub code: Option<String>,
    pub project_type: ProjectType,
    pub currency: String,
    pub rate_cents: Option<i64>,
    pub budget_kind: BudgetKind,
    pub budget_amount_cents: Option<i64>,
    pub budget_minutes: Option<i64>,
    pub active: bool,
}

impl Clone for Project {
    fn clone(&self) -> (copy: Self)
        ensures
            copy == *self,
    {
        Project {
            id: self.id,
            client_id: self.client_id,
            name: self.name.clone(),
            code: match &self.code {
                Some(code) => Some(code.clone()),
                None => None,
            },
            project_type: self.project_type,
            currency: self.currency.clone(),
            rate_cents: self.rate_cents,
            budget_kind: self.budget_kind,
            budget_amount_cents: self.budget_amount_cents,
            budget_minutes: self.budget_minutes,
            active: self.active,
        }
    }
}

/// How far one part of a project's budget is used.
#[derive(Debug)]
pub struct ProjectBudgetProgress {
    pub project_id: u128,
    pub task_id: Option<u128>,
    pub user_id: Option<u128>,
    pub scope: String,
    pub label: Option<String>,
    pub kind: BudgetKind,
    pub currency: String,
    pub period_key: String,
    pub budget: Option<i64>,
    pub consumed: i64,
}

impl Clone for ProjectBudgetProgress {
    fn clone(&self) -> (copy: Self)
        ensures
            copy == *self,
    {
        ProjectBudgetProgress {
            project_id: self.project_id,
            task_id: self.task_id,
            user_id: self.user_id,
            scope: self.scope.clone(),
            label: match &self.label {
                Some(label) => Some(label.clone()),
                None => None,
            },
            kind: self.kind,
            currency: self.currency.clone(),
            period_key: self.period_key.clone(),
            budget: self.budget,
            consumed: self.consumed,
        }
    }
}

/// Minutes as hundredths of hours, to the nearest, halves up.
pub open spec fn hundredth_hours(minutes: nat) -> nat {
    (minutes * 100 + 30) / 60
}

/// Hundredths as a number without trailing zeros.
pub open spec fn short_decimal(hundredths: nat) -> Seq<char> {
    let fraction = (hundredths % 100) as int;
    if fraction == 0 {
        decimal(hundredths / 100)
    } else if fraction % 10 == 0 {
        decimal(hundredths / 100) + "."@ + seq![digit(fraction / 10)]
    } else {
        decimal(hundredths / 100) + "."@ + two_digits(fraction)
    }
}

/// Minutes as hours with their sign, to two decimals, without trailing zeros: `-1.5h`.
pub open spec fn hours_text(minutes: int) -> Seq<char> {
    if minutes < 0 {
        "-"@ + short_decimal(hundredth_hours((-minutes) as nat)) + "h"@
    } else {
        short_decimal(hundredth_hours(minutes as nat)) + "h"@
    }
}

/// Minutes as hours. What is left of a budget can be negative: the sign is kept.
pub fn hours(minutes: i64) -> (text: String)
    ensures
        text@ == hours_text(minutes as int),
{
    let mut text = String::new();
    let size: u128 = if minutes < 0 {
        text.append("-");
        (-(minutes as i128)) as u128
    } else {
        minutes as u128
    };
    let hundredths: u128 = (size * 100 + 30) / 60;
    text.append(decimal_text(hundredths / 100).as_str());
    let fraction: u32 = (hundredths % 100) as u32;
    if fraction != 0 {
        text.append(".");
        if fraction % 10 == 0 {
            text.push(digit_char((fraction / 10) as u8));
        } else {
            text.append(two_digit_text(fraction).as_str());
        }
    }
    text.append("h");
    proof {
        assert(text@ =~= hours_text(minutes as int));
    }
    text
}

/// A budget, what is spent of it and what is left, in the budget's own unit.
#[derive(Debug)]
pub struct RowSpend {
    pub budget: String,
    pub recurring: bool,
    pub spent: String,
    pub remaining: String,
    /// The share that is used, in percent; `None` without a budget.
    pub pct: Option<u8>,
    /// The share that is left, `(NN%)`; `None` without a budget.
    pub pct_label: Option<String>,
}

/// A figure in a budget's unit.
pub open spec fn figure_text(kind: BudgetKind, currency: Seq<char>, figure: int) -> Seq<char> {
    if kind == BudgetKind::Hours {
        hours_text(figure)
    } else {
        trimmed(currency) + " "@ + cents_text(figure)
    }
}

fn format_figure(kind: BudgetKind, currency: &str, figure: i64) -> (text: String)
    ensures
        text@ == figure_text(kind, currency@, figure as int),
{
    if kind == BudgetKind::Hours {
        hours(figure)
    } else {
        format_cents(figure, trim(currency).as_str())
    }
}

impl RowSpend {
    /// Whether this shows a budget and what is spent of it. A budget that is not known,
    /// or from which what is spent cannot be taken, leaves a dash.
    pub open spec fn shows(
        self,
        kind: BudgetKind,
        currency: Seq<char>,
        budget: Option<i64>,
        spent: Option<i64>,
        recurring: bool,
    ) -> bool {
        &&& self.budget@ == (match budget {
            Some(budget) => figure_text(kind, currency, budget as int),
            None => "—"@,
        })
        &&& self.recurring == recurring
        &&& self.spent@ == (match spent {
            Some(spent) => figure_text(kind, currency, spent as int),
            None => "Unavailable"@,
        })
        &&& self.remaining@ == (match (budget, spent) {
            (Some(budget), Some(spent)) => if i64::MIN <= budget - spent <= i64::MAX {
                figure_text(kind, currency, budget - spent)
            } else {
                "—"@
            },
            _ => "—"@,
        })
        &&& self.pct == (match (budget, spent) {
            (Some(budget), Some(spent)) => share_used(spent as int, budget as int),
            _ => None,
        })
        &&& opt_view(self.pct_label) == (match self.pct {
            Some(used) => Some("("@ + decimal((100 - used) as nat) + "%)"@),
            None => None,
        })
    }
}

/// Shows a budget and what is spent of it.
pub fn budget_display(
    kind: BudgetKind,
    currency: &str,
    budget: Option<i64>,
    spent: Option<i64>,
    recurring: bool,
) -> (row: RowSpend)
    ensures
        row.shows(kind, currency@, budget, spent, recurring),
{
    let pct = match (budget, spent) {
        (Some(budget), Some(spent)) => used_percent(spent, budget),
        _ => None,
    };
    let left: Option<i64> = match (budget, spent) {
        (Some(budget), Some(spent)) => budget.checked_sub(spent),
        _ => None,
    };
    let pct_label = match pct {
        Some(used) => {
            let mut label = "(".to_owned();
            label.append(decimal_text((100 - used) as u128).as_str());
            label.append("%)");
            Some(label)
        },
        None => None,
    };
    RowSpend {
        budget: match budget {
            Some(budget) => format_figure(kind, currency, budget),
            None => "—".to_owned(),
        },
        recurring,
        spent: match spent {
            Some(spent) => format_figure(kind, currency, spent),
            None => "Unavailable".to_owned(),
        },
        remaining: match left {
            Some(left) => format_figure(kind, currency, left),
            None => "—".to_owned(),
        },
        pct,
        pct_label,
    }
}

/// Shows a project's own budget, in what it counts; without one, what is spent.
pub fn row_spend(p: &Project, spent_minutes: i64, spent_cents: i64) -> (row: RowSpend)
    ensures
        row.shows(
            p.budget_kind,
            p.currency@,
            match p.budget_kind {
                BudgetKind::Amount => p.budget_amount_cents,
                BudgetKind::Hours => p.budget_minutes,
                BudgetKind::Unset => None,
            },
            Some(
                if p.budget_kind == BudgetKind::Hours {
                    spent_minutes
                } else {
                    spent_cents
                },
            ),
            p.project_type == ProjectType::Retainer,
        ),
{
    let (budget, spent) = match p.budget_kind {
        BudgetKind::Amount => (p.budget_amount_cents, spent_cents),
        BudgetKind::Hours => (p.budget_minutes, spent_minutes),
        BudgetKind::Unset => (None, spent_cents),
    };
    budget_display(
        p.budget_kind,
        p.currency.as_str(),
        budget,
        Some(spent),
        p.project_type == ProjectType::Retainer,
    )
}

/// The sum of the first `n` figures; `None` where one is missing or a sum on the way
/// cannot be held.
pub open spec fn checked_sum(figures: Seq<Option<i64>>, n: int) -> Option<i64>
    decreases n,
{
    if n <= 0 {
        Some(0)
    } else {
        match (checked_sum(figures, n - 1), figures[n - 1]) {
            (Some(total), Some(figure)) => if i64::MIN <= total + figure <= i64::MAX {
                Some((total + figure) as i64)
            } else {
                None
            },
            _ => None,
        }
    }
}

/// A sum that is missing stays missing.
proof fn no_sum_after(figures: Seq<Option<i64>>, i: int, n: int)
    requires
        0 <= i <= n,
        checked_sum(figures, i) is None,
    ensures
        checked_sum(figures, n) is None,
    decreases n,
{
    if i < n {
        no_sum_after(figures, i, n - 1);
    }
}

/// The sum of figures, where all are there and no sum on the way is too large.
pub fn sum_figures(figures: &Vec<Option<i64>>) -> (sum: Option<i64>)
    ensures
        sum == checked_sum(figures@, figures.len() as int),
{
    let mut total: i64 = 0;
    let mut i: usize = 0;
    while i < figures.len()
        invariant
            i <= figures.len(),
            checked_sum(figures@, i as int) == Some(total),
        decreases figures.len() - i,
    {
        let next: Option<i64> = match figures[i] {
            Some(figure) => total.checked_add(figure),
            None => None,
        };
        match next {
            Some(sum) => {
                total = sum;
            },
            None => {
                proof {
                    assert(checked_sum(figures@, i + 1) is None);
                    no_sum_after(figures@, i + 1, figures.len() as int);
                }
                return None;
            },
        }
        i += 1;
    }
    Some(total)
}

pub open spec fn budgets_of(rows: Seq<ProjectBudgetProgress>) -> Seq<Option<i64>> {
    rows.map_values(|row: ProjectBudgetProgress| row.budget)
}

pub open spec fn consumed_of(rows: Seq<ProjectBudgetProgress>) -> Seq<Option<i64>> {
    rows.map_values(|row: ProjectBudgetProgress| Some(row.consumed))
}

/// Shows the parts of a project's configured budget as one: their sums. A budget of
/// which a part is not allocated, or whose sum is too large, is not shown as a total.
/// `None` where no budget is configured.
pub fn configured_row_spend(rows: &[ProjectBudgetProgress]) -> (row: Option<RowSpend>)
    ensures
        row is Some <==> rows@.len() > 0 && rows@[0].kind != BudgetKind::Unset,
        row is Some ==> row->0.shows(
            rows@[0].kind,
            rows@[0].currency@,
            checked_sum(budgets_of(rows@), rows@.len() as int),
            checked_sum(consumed_of(rows@), rows@.len() as int),
            rows@[0].period_key@ != "lifetime"@,
        ),
{
    if rows.len() == 0 || rows[0].kind == BudgetKind::Unset {
        return None;
    }
    let mut budgets: Vec<Option<i64>> = Vec::new();
    let mut consumed: Vec<Option<i64>> = Vec::new();
    let mut i: usize = 0;
    while i < rows.len()
        invariant
            i <= rows.len(),
            budgets.len() == i,
            consumed.len() == i,
            forall|k: int| 0 <= k < i ==> budgets@[k] == budgets_of(rows@)[k],
            forall|k: int| 0 <= k < i ==> consumed@[k] == consumed_of(rows@)[k],
        decreases rows.len() - i,
    {
        budgets.push(rows[i].budget);
        consumed.push(Some(rows[i].consumed));
        i += 1;
    }
    proof {
        assert(budgets@ =~= budgets_of(rows@));
        assert(consumed@ =~= consumed_of(rows@));
    }
    let budget = sum_figures(&budgets);
    let spent = sum_figures(&consumed);
    Some(
        budget_display(
            rows[0].kind,
            rows[0].currency.as_str(),
            budget,
            spent,
            !same(rows[0].period_key.as_str(), "lifetime"),
        ),
    )
}

/// The sum of the first `n` figures, without bounds.
pub open spec fn plain_sum(figures: Seq<Option<i64>>, n: int) -> int
    decreases n,
{
    if n <= 0 {
        0
    } else {
        plain_sum(figures, n - 1) + figures[n - 1]->0
    }
}

/// A sum that is shown is the sum of all figures, none of which is missing: nothing is
/// left out and nothing has wrapped around.
pub proof fn shown_sums_are_exact(figures: Seq<Option<i64>>, n: int)
    requires
        0 <= n <= figures.len(),
        checked_sum(figures, n) is Some,
    ensures
        checked_sum(figures, n)->0 == plain_sum(figures, n),
        forall|i: int| 0 <= i < n ==> figures[i] is Some,
    decreases n,
{
    if n > 0 {
        shown_sums_are_exact(figures, n - 1);
    }
}

} // verus!
