//! How a project is billed: its type, its currency, its budget and its fees.

use crate::ids::id_text;
use crate::ids::id_to_text;
use crate::ids::new_id;
use crate::lists::filter_all;
use crate::lists::filter_step;
use crate::lists::opt_view;
use crate::money::cents_text;
use crate::money::format_cents_plain;
use crate::money::parse_cents;
use crate::money::parsed_cents;
use crate::new_project::basics::find_client;
use crate::new_project::basics::is_client;
use crate::new_project::basics::no_client;
use crate::new_project::basics::one_client;
use crate::new_project::basics::CreationClient;
use crate::new_project::fields::billing_error_id;
use crate::new_project::fields::control_id;
use crate::new_project::fields::error_at;
use crate::new_project::fields::error_for;
use crate::new_project::fields::field_id;
use crate::new_project::fields::ProjectFormField;
use crate::new_project::form::BudgetMode;
use crate::new_project::form::MilestoneInput;
use crate::new_project::form::MonthlyFeeDay;
use crate::new_project::form::ProjectForm;
use crate::new_project::form::RateMode;
use crate::projects::budget::ProjectType;
use crate::text::same;
use vstd::prelude::*;

verus! {

/// The most milestones that a fee has.
pub const MILESTONE_LIMIT: usize = 100;

/// The currency of a client.
pub open spec fn client_currency(clients: Seq<CreationClient>, client: Option<u128>) -> Option<
    Seq<char>,
> {
    match client {
        None => None,
        Some(id) => if no_client(clients, id) {
            None
        } else {
            Some(clients[choose|i: int| is_client(clients, id, i)].currency@)
        },
    }
}

/// The currency of a project: its own, or that of its client.
pub open spec fn chosen_currency(form: ProjectForm, clients: Seq<CreationClient>) -> Option<
    Seq<char>,
> {
    match form.currency {
        Some(currency) => Some(currency@),
        None => client_currency(clients, form.client_id),
    }
}

/// The currency of a project, or the words for one that is not known yet.
pub fn project_currency(form: &ProjectForm, clients: &Vec<CreationClient>, otherwise: &str) -> (label:
    String)
    ensures
        label@ == (match chosen_currency(*form, clients@) {
            Some(currency) => currency,
            None => otherwise@,
        }),
{
    if let Some(currency) = &form.currency {
        return currency.clone();
    }
    if let Some(id) = form.client_id {
        match find_client(clients, id) {
            Some(i) => {
                proof {
                    one_client(clients@, id, i as int);
                }
                return clients[i].currency.clone();
            },
            None => {},
        }
    }
    otherwise.to_owned()
}

/// Changes how a project bills, and drops a budget that does not go with it.
pub fn select_type(form: &mut ProjectForm, kind: ProjectType, budget_allowed: bool)
    ensures
        *final(form) == (ProjectForm {
            project_type: kind,
            budget_mode: if budget_allowed {
                old(form).budget_mode
            } else {
                BudgetMode::Unset
            },
            ..*old(form)
        }),
{
    form.project_type = kind;
    if !budget_allowed {
        form.budget_mode = BudgetMode::Unset;
    }
}

/// The budgets there are, in the order of their choice.
pub open spec fn all_budgets() -> Seq<BudgetMode> {
    seq![
        BudgetMode::Unset,
        BudgetMode::TotalHours,
        BudgetMode::TotalFees,
        BudgetMode::HoursPerTask,
        BudgetMode::FeesPerTask,
        BudgetMode::HoursPerPerson,
    ]
}

/// Whether a budget can be chosen: of an old project one for the whole, of another what
/// its type allows.
pub open spec fn budget_offered(legacy: bool, allowed: Seq<BudgetMode>) -> spec_fn(
    BudgetMode,
) -> bool {
    |mode: BudgetMode|
        if legacy {
            mode == BudgetMode::Unset || mode == BudgetMode::TotalHours || mode
                == BudgetMode::TotalFees
        } else {
            allowed.contains(mode)
        }
}

fn holds(modes: &Vec<BudgetMode>, mode: BudgetMode) -> (found: bool)
    ensures
        found == modes@.contains(mode),
{
    let mut i: usize = 0;
    while i < modes.len()
        invariant
            i <= modes.len(),
            forall|k: int| 0 <= k < i ==> modes@[k] != mode,
        decreases modes.len() - i,
    {
        if modes[i] == mode {
            return true;
        }
        i += 1;
    }
    false
}

/// The budgets to choose from, given those that the project's type allows.
pub fn budget_choices(legacy: bool, allowed: &Vec<BudgetMode>) -> (choices: Vec<BudgetMode>)
    ensures
        choices@ == all_budgets().filter(budget_offered(legacy, allowed@)),
{
    let mut all: Vec<BudgetMode> = Vec::new();
    all.push(BudgetMode::Unset);
    all.push(BudgetMode::TotalHours);
    all.push(BudgetMode::TotalFees);
    all.push(BudgetMode::HoursPerTask);
    all.push(BudgetMode::FeesPerTask);
    all.push(BudgetMode::HoursPerPerson);
    let ghost offered = budget_offered(legacy, allowed@);
    let mut choices: Vec<BudgetMode> = Vec::new();
    let mut i: usize = 0;
    proof {
        assert(all@ =~= all_budgets());
        filter_all(all@, offered);
    }
    while i < all.len()
        invariant
            i <= all.len(),
            offered == budget_offered(legacy, allowed@),
            choices@ == all@.take(i as int).filter(offered),
        decreases all.len() - i,
    {
        let mode = all[i];
        let shown = if legacy {
            mode == BudgetMode::Unset || mode == BudgetMode::TotalHours || mode
                == BudgetMode::TotalFees
        } else {
            holds(allowed, mode)
        };
        proof {
            filter_step(all@, i as int, offered);
        }
        if shown {
            choices.push(mode);
        }
        i += 1;
    }
    choices
}

/// The word for a budget in its field.
pub open spec fn budget_word(mode: BudgetMode) -> Seq<char> {
    match mode {
        BudgetMode::Unset => "none"@,
        BudgetMode::TotalHours => "total_hours"@,
        BudgetMode::TotalFees => "total_fees"@,
        BudgetMode::HoursPerTask => "hours_per_task"@,
        BudgetMode::FeesPerTask => "fees_per_task"@,
        BudgetMode::HoursPerPerson => "hours_per_person"@,
    }
}

/// The word for a budget in its field.
pub fn budget_key(mode: BudgetMode) -> (key: &'static str)
    ensures
        key@ == budget_word(mode),
{
    match mode {
        BudgetMode::Unset => "none",
        BudgetMode::TotalHours => "total_hours",
        BudgetMode::TotalFees => "total_fees",
        BudgetMode::HoursPerTask => "hours_per_task",
        BudgetMode::FeesPerTask => "fees_per_task",
        BudgetMode::HoursPerPerson => "hours_per_person",
    }
}

/// The name of a budget.
pub fn budget_title(mode: BudgetMode) -> (title: &'static str)
    ensures
        title@ == (match mode {
            BudgetMode::Unset => "No budget"@,
            BudgetMode::TotalHours => "Total project hours"@,
            BudgetMode::TotalFees => "Total project fees"@,
            BudgetMode::HoursPerTask => "Hours per task"@,
            BudgetMode::FeesPerTask => "Fees per task"@,
            BudgetMode::HoursPerPerson => "Hours per person"@,
        }),
{
    match mode {
        BudgetMode::Unset => "No budget",
        BudgetMode::TotalHours => "Total project hours",
        BudgetMode::TotalFees => "Total project fees",
        BudgetMode::HoursPerTask => "Hours per task",
        BudgetMode::FeesPerTask => "Fees per task",
        BudgetMode::HoursPerPerson => "Hours per person",
    }
}

/// The words for two budgets differ.
pub proof fn budget_words_differ(a: BudgetMode, b: BudgetMode)
    ensures
        budget_word(a) == budget_word(b) ==> a == b,
{
    reveal_strlit("none");
    reveal_strlit("total_hours");
    reveal_strlit("total_fees");
    reveal_strlit("hours_per_task");
    reveal_strlit("fees_per_task");
    reveal_strlit("hours_per_person");
    if a != b && budget_word(a) == budget_word(b) {
        assert(budget_word(a).len() == budget_word(b).len());
        assert(budget_word(a)[0] == budget_word(b)[0]);
    }
}

/// The budget that is shown as chosen: the project's own where it can be chosen, none
/// otherwise.
pub fn selected_budget(mode: BudgetMode, choices: &Vec<BudgetMode>) -> (key: &'static str)
    ensures
        key@ == budget_word(
            if choices@.contains(mode) {
                mode
            } else {
                BudgetMode::Unset
            },
        ),
{
    if holds(choices, mode) {
        budget_key(mode)
    } else {
        budget_key(BudgetMode::Unset)
    }
}

/// Chooses the budget of a word; a word that is not offered changes nothing.
pub fn pick_budget(form: &mut ProjectForm, choices: &Vec<BudgetMode>, word: &str)
    ensures
        forall|mode: BudgetMode|
            #![trigger budget_word(mode)]
            choices@.contains(mode) && budget_word(mode) == word@ ==> *final(form) == (
            ProjectForm { budget_mode: mode, ..*old(form) }),
        (forall|mode: BudgetMode|
            #![trigger choices@.contains(mode)]
            choices@.contains(mode) ==> budget_word(mode) != word@) ==> *final(form) == *old(form),
{
    let mut i: usize = 0;
    while i < choices.len()
        invariant
            i <= choices.len(),
            *form == *old(form),
            forall|k: int| 0 <= k < i ==> budget_word(#[trigger] choices@[k]) != word@,
        decreases choices.len() - i,
    {
        let mode = choices[i];
        if same(budget_key(mode), word) {
            form.budget_mode = mode;
            proof {
                assert(choices@.contains(mode));
                assert forall|other: BudgetMode|
                    #![trigger budget_word(other)]
                    choices@.contains(other) && budget_word(other) == word@ implies other
                    == mode by {
                    budget_words_differ(other, mode);
                }
            }
            return ;
        }
        i += 1;
    }
    proof {
        assert forall|mode: BudgetMode|
            #![trigger budget_word(mode)]
            choices@.contains(mode) implies budget_word(mode) != word@ by {
            let k = choose|k: int| 0 <= k < choices.len() && choices@[k] == mode;
            assert(choices@[k] == mode);
        }
    }
}

/// What the field of a budget's amount is called.
pub fn amount_label(mode: BudgetMode, currency: &str) -> (label: String)
    ensures
        label@ == (if mode == BudgetMode::TotalFees {
            "Budget ("@ + currency@ + ")"@
        } else {
            "Budget hours"@
        }),
{
    if mode == BudgetMode::TotalFees {
        let mut label = "Budget (".to_owned();
        label.append(currency);
        label.append(")");
        label
    } else {
        "Budget hours".to_owned()
    }
}

/// Whether the alert of a budget can be switched: where mail can be sent, or where it is on
/// and would be switched off.
pub fn alert_can_change(email_available: bool, alert: bool) -> (can_change: bool)
    ensures
        can_change == (email_available || alert),
{
    email_available || alert
}

/// A control of a budget's alert as it is shown.
#[derive(Debug)]
pub struct AlertControl {
    pub id: String,
    pub disabled: bool,
    /// The identity of the message that describes the control, where it is in error.
    pub error_id: Option<String>,
    /// The message that stands below the controls.
    pub message: Option<String>,
}

/// Whether a control of a budget's alert is shown: there is a budget, and for the threshold the
/// alert is on.
pub open spec fn shows_alert(form: ProjectForm, field: ProjectFormField) -> bool {
    &&& form.budget_mode != BudgetMode::Unset
    &&& form.rate_mode != RateMode::Legacy
    &&& field == ProjectFormField::BudgetAlert || (field == ProjectFormField::BudgetAlertAt
        && form.budget_alert)
}

/// A control of a budget's alert, where it is shown. Without mail an alert can still be switched
/// off; its threshold cannot be changed.
pub fn alert_control(
    form: &ProjectForm,
    field: ProjectFormField,
    email_available: bool,
    invalid_field: Option<ProjectFormField>,
    message: &Option<String>,
) -> (control: Option<AlertControl>)
    ensures
        control is Some <==> shows_alert(*form, field),
        control is Some ==> {
            let shown = control->0;
            &&& shown.id@ == control_id(field)
            &&& shown.disabled == (!email_available && !(field == ProjectFormField::BudgetAlert
                && form.budget_alert))
            &&& opt_view(shown.error_id) == error_at(
                invalid_field,
                field,
                "np-billing-field-error"@,
            )
            &&& shown.message == (if invalid_field == Some(ProjectFormField::BudgetAlert)
                || invalid_field == Some(ProjectFormField::BudgetAlertAt) {
                *message
            } else {
                None
            })
        },
{
    if form.budget_mode == BudgetMode::Unset || form.rate_mode == RateMode::Legacy {
        return None;
    }
    let disabled = if field == ProjectFormField::BudgetAlert {
        !alert_can_change(email_available, form.budget_alert)
    } else if field == ProjectFormField::BudgetAlertAt && form.budget_alert {
        !email_available
    } else {
        return None;
    };
    let controls = vec![ProjectFormField::BudgetAlert, ProjectFormField::BudgetAlertAt];
    proof {
        assert(controls@[0] == ProjectFormField::BudgetAlert);
        assert(controls@[1] == ProjectFormField::BudgetAlertAt);
    }
    Some(
        AlertControl {
            id: field_id(field),
            disabled,
            error_id: billing_error_id(invalid_field, field),
            message: error_for(invalid_field, &controls, message),
        },
    )
}

/// Whether the amounts of milestones are all there and none is negative.
pub open spec fn amounts_valid(milestones: Seq<MilestoneInput>) -> bool {
    forall|i: int|
        0 <= i < milestones.len() ==> parsed_cents((#[trigger] milestones[i]).amount@) is Some
            && parsed_cents(milestones[i].amount@)->0 >= 0
}

/// The sum of the amounts of milestones.
pub open spec fn amounts_sum(milestones: Seq<MilestoneInput>) -> int
    decreases milestones.len(),
{
    if milestones.len() == 0 {
        0
    } else {
        amounts_sum(milestones.drop_last()) + parsed_cents(milestones.last().amount@)->0
    }
}

/// The fee of milestones, where each amount is valid and their sum can be held.
pub open spec fn fee_sum(milestones: Seq<MilestoneInput>) -> Option<i64> {
    if amounts_valid(milestones) && amounts_sum(milestones) <= i64::MAX {
        Some(amounts_sum(milestones) as i64)
    } else {
        None
    }
}

proof fn amounts_grow(milestones: Seq<MilestoneInput>, i: int)
    requires
        0 <= i <= milestones.len(),
        amounts_valid(milestones),
    ensures
        0 <= amounts_sum(milestones.take(i)) <= amounts_sum(milestones),
    decreases milestones.len(),
{
    if i < milestones.len() {
        assert(amounts_valid(milestones.drop_last()));
        assert(milestones.last() == milestones[milestones.len() - 1]);
        amounts_grow(milestones.drop_last(), i);
        assert(milestones.take(i) =~= milestones.drop_last().take(i));
    } else {
        assert(milestones.take(i) =~= milestones);
        if milestones.len() > 0 {
            assert(amounts_valid(milestones.drop_last()));
            assert(milestones.last() == milestones[milestones.len() - 1]);
            amounts_grow(milestones.drop_last(), milestones.len() - 1);
            assert(milestones.drop_last().take(milestones.len() - 1) =~= milestones.drop_last());
        }
    }
}

/// The fee of milestones: none where an amount is missing, wrong or negative, or where the
/// sum cannot be held.
pub fn fee_total(milestones: &Vec<MilestoneInput>) -> (total: Option<i64>)
    ensures
        total == fee_sum(milestones@),
{
    let mut total: i64 = 0;
    let mut i: usize = 0;
    while i < milestones.len()
        invariant
            i <= milestones.len(),
            total >= 0,
            amounts_valid(milestones@.take(i as int)),
            total == amounts_sum(milestones@.take(i as int)),
        decreases milestones.len() - i,
    {
        let ghost so_far = milestones@.take(i as int);
        let ghost more = milestones@.take(i + 1);
        proof {
            assert(more.drop_last() =~= so_far);
            assert(more.last() == milestones@[i as int]);
        }
        match parse_cents(milestones[i].amount.as_str()) {
            Some(amount) => {
                if amount < 0 {
                    return None;
                }
                proof {
                    assert forall|k: int| 0 <= k < more.len() implies parsed_cents(
                        (#[trigger] more[k]).amount@,
                    ) is Some && parsed_cents(more[k].amount@)->0 >= 0 by {
                        if k < i {
                            assert(more[k] == so_far[k]);
                        }
                    }
                }
                match total.checked_add(amount) {
                    Some(sum) => {
                        total = sum;
                    },
                    None => {
                        proof {
                            if amounts_valid(milestones@) {
                                amounts_grow(milestones@, i + 1);
                            }
                        }
                        return None;
                    },
                }
            },
            None => {
                return None;
            },
        }
        i += 1;
    }
    proof {
        assert(milestones@.take(milestones.len() as int) =~= milestones@);
    }
    Some(total)
}

/// How the fee of milestones is written.
pub fn fee_label(currency: &str, milestones: &Vec<MilestoneInput>) -> (label: String)
    ensures
        label@ == (match fee_sum(milestones@) {
            Some(total) => currency@ + " "@ + cents_text(total as int),
            None => "Enter valid amounts"@,
        }),
{
    match fee_total(milestones) {
        Some(total) => {
            let mut label = currency.to_owned();
            label.append(" ");
            label.append(format_cents_plain(total).as_str());
            label
        },
        None => "Enter valid amounts".to_owned(),
    }
}

/// Adds an empty milestone, while there is room for one.
pub fn add_milestone(milestones: &mut Vec<MilestoneInput>)
    ensures
        old(milestones).len() >= 100 ==> final(milestones)@ == old(milestones)@,
        old(milestones).len() < 100 ==> {
            let added = final(milestones)@.last();
            &&& final(milestones)@ == old(milestones)@.push(added)
            &&& added.name@.len() == 0
            &&& added.due_on@.len() == 0
            &&& added.amount@.len() == 0
        },
{
    if milestones.len() < MILESTONE_LIMIT {
        milestones.push(
            MilestoneInput {
                id: new_id(),
                name: String::new(),
                due_on: String::new(),
                amount: String::new(),
            },
        );
    }
}

/// A field of a milestone.
#[derive(Clone, Copy, PartialEq, Eq, Structural, Debug)]
pub enum MilestoneField {
    Name,
    DueOn,
    Amount,
}

/// A milestone with what was typed into a field of it.
pub open spec fn edited(item: MilestoneInput, field: MilestoneField, value: String) -> MilestoneInput {
    match field {
        MilestoneField::Name => MilestoneInput { name: value, ..item },
        MilestoneField::DueOn => MilestoneInput { due_on: value, ..item },
        MilestoneField::Amount => MilestoneInput { amount: value, ..item },
    }
}

/// Takes what was typed into a field of the first milestone with an identity; where there
/// is none, nothing changes.
pub fn edit_milestone(
    milestones: &mut Vec<MilestoneInput>,
    id: u128,
    field: MilestoneField,
    value: String,
)
    ensures
        final(milestones).len() == old(milestones).len(),
        forall|i: int|
            #![trigger final(milestones)@[i]]
            0 <= i < old(milestones).len() ==> final(milestones)@[i] == (if old(
                milestones,
            )@[i].id == id && (forall|k: int|
                0 <= k < i ==> (#[trigger] old(milestones)@[k]).id != id) {
                edited(old(milestones)@[i], field, value)
            } else {
                old(milestones)@[i]
            }),
{
    let mut i: usize = 0;
    while i < milestones.len()
        invariant
            i <= milestones.len(),
            milestones@ == old(milestones)@,
            forall|k: int| 0 <= k < i ==> (#[trigger] milestones@[k]).id != id,
        decreases milestones.len() - i,
    {
        if milestones[i].id == id {
            let mut item = milestones[i].clone();
            match field {
                MilestoneField::Name => {
                    item.name = value;
                },
                MilestoneField::DueOn => {
                    item.due_on = value;
                },
                MilestoneField::Amount => {
                    item.amount = value;
                },
            }
            proof {
                assert(old(milestones)@[i as int].id == id);
            }
            milestones.set(i, item);
            return ;
        }
        i += 1;
    }
}

/// Whether a milestone stays when one is removed.
pub open spec fn other_than(id: u128) -> spec_fn(MilestoneInput) -> bool {
    |item: MilestoneInput| item.id != id
}

/// Removes the milestones with an identity.
pub fn remove_milestone(milestones: &mut Vec<MilestoneInput>, id: u128)
    ensures
        final(milestones)@ == old(milestones)@.filter(other_than(id)),
{
    let ghost before = milestones@;
    let mut kept: Vec<MilestoneInput> = Vec::new();
    let mut i: usize = 0;
    proof {
        filter_all(before, other_than(id));
    }
    while i < milestones.len()
        invariant
            i <= milestones.len(),
            milestones@ == before,
            kept@ == before.take(i as int).filter(other_than(id)),
        decreases milestones.len() - i,
    {
        proof {
            filter_step(before, i as int, other_than(id));
        }
        if milestones[i].id != id {
            kept.push(milestones[i].clone());
        }
        i += 1;
    }
    *milestones = kept;
}

/// The word for the day of a monthly fee.
pub open spec fn day_word(day: MonthlyFeeDay) -> Seq<char> {
    match day {
        MonthlyFeeDay::First => "first"@,
        MonthlyFeeDay::Fifteenth => "fifteenth"@,
        MonthlyFeeDay::Last => "last"@,
    }
}

/// The day that a word stands for: the first for an unknown one.
pub open spec fn word_day(word: Seq<char>) -> MonthlyFeeDay {
    if word == "fifteenth"@ {
        MonthlyFeeDay::Fifteenth
    } else if word == "last"@ {
        MonthlyFeeDay::Last
    } else {
        MonthlyFeeDay::First
    }
}

/// The word for the day of a monthly fee.
pub fn monthly_day_text(day: MonthlyFeeDay) -> (text: &'static str)
    ensures
        text@ == day_word(day),
{
    match day {
        MonthlyFeeDay::First => "first",
        MonthlyFeeDay::Fifteenth => "fifteenth",
        MonthlyFeeDay::Last => "last",
    }
}

/// Reads the day of a monthly fee.
pub fn read_monthly_day(text: &str) -> (day: MonthlyFeeDay)
    ensures
        day == word_day(text@),
{
    if same(text, "fifteenth") {
        MonthlyFeeDay::Fifteenth
    } else if same(text, "last") {
        MonthlyFeeDay::Last
    } else {
        MonthlyFeeDay::First
    }
}

/// The word for a day is read as that day.
pub proof fn monthly_day_reads_back(day: MonthlyFeeDay)
    ensures
        word_day(day_word(day)) == day,
{
    reveal_strlit("first");
    reveal_strlit("fifteenth");
    reveal_strlit("last");
    assert("first"@.len() != "fifteenth"@.len());
    assert("first"@.len() != "last"@.len());
    assert("last"@.len() != "fifteenth"@.len());
}

/// What a milestone is called aloud.
pub fn milestone_label(item: &MilestoneInput) -> (label: String)
    ensures
        label@ == (if item.name@.len() == 0 {
            "New milestone"@
        } else {
            "Milestone "@ + item.name@
        }),
{
    if item.name.as_str().is_empty() {
        "New milestone".to_owned()
    } else {
        let mut label = "Milestone ".to_owned();
        label.append(item.name.as_str());
        label
    }
}

/// Whether what is wrong stands in the row of a milestone.
pub fn milestone_has_error(field: Option<ProjectFormField>, id: u128) -> (wrong: bool)
    ensures
        wrong == (field == Some(ProjectFormField::MilestoneName(id)) || field == Some(
            ProjectFormField::MilestoneDate(id),
        ) || field == Some(ProjectFormField::MilestoneAmount(id))),
{
    match field {
        Some(ProjectFormField::MilestoneName(row)) => row == id,
        Some(ProjectFormField::MilestoneDate(row)) => row == id,
        Some(ProjectFormField::MilestoneAmount(row)) => row == id,
        _ => false,
    }
}

/// The identity of the message under a milestone, where `field` is what is wrong.
pub fn milestone_error_id(
    current: Option<ProjectFormField>,
    field: ProjectFormField,
    id: u128,
) -> (message: Option<String>)
    ensures
        current != Some(field) ==> message is None,
        current == Some(field) ==> message is Some && message->0@ == "np-milestone-error-"@
            + id_text(id),
{
    match current {
        Some(wrong) => if wrong == field {
            let mut message = "np-milestone-error-".to_owned();
            message.append(id_to_text(id).as_str());
            Some(message)
        } else {
            None
        },
        None => None,
    }
}

} // verus!
