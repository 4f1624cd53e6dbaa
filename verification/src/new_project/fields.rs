//! The controls of the project form, and the refusals that name one.

use crate::ids::id_text;
use crate::ids::id_to_text;
use crate::ids::parse_id;
use crate::ids::parsed_id;
use crate::lists::opt_view;
use crate::text::same;
use vstd::prelude::*;

verus! {

/// A control of the project form. Those of a row carry the row's identity.
#[derive(Clone, Copy, PartialEq, Eq, Structural, Debug)]
pub enum ProjectFormField {
    Client,
    Name,
    Code,
    StartsOn,
    EndsOn,
    Currency,
    AdminNotes,
    ProjectType,
    RateMode,
    ProjectRate,
    BudgetMode,
    BudgetValue,
    BudgetAlert,
    BudgetAlertAt,
    FeeAmount,
    Milestones,
    PaymentTerms,
    PurchaseOrder,
    Tax,
    SecondTaxName,
    SecondTax,
    Discount,
    MilestoneName(u128),
    MilestoneDate(u128),
    MilestoneAmount(u128),
    TaskName(u128),
    Task(u128),
    Person(u128),
    TaskAccess(u128),
    TaskRate(u128),
    TaskBudget(u128),
    PersonRate(u128),
    CostRate(u128),
    PersonBudget(u128),
}

/// The control that a name stands for, where it is one of the form itself.
pub open spec fn form_control(name: Seq<char>) -> Option<ProjectFormField> {
    if name == "client"@ {
        Some(ProjectFormField::Client)
    } else if name == "name"@ {
        Some(ProjectFormField::Name)
    } else if name == "code"@ {
        Some(ProjectFormField::Code)
    } else if name == "starts_on"@ {
        Some(ProjectFormField::StartsOn)
    } else if name == "ends_on"@ {
        Some(ProjectFormField::EndsOn)
    } else if name == "currency"@ {
        Some(ProjectFormField::Currency)
    } else if name == "admin_notes"@ {
        Some(ProjectFormField::AdminNotes)
    } else if name == "project_type"@ {
        Some(ProjectFormField::ProjectType)
    } else if name == "rate_mode"@ {
        Some(ProjectFormField::RateMode)
    } else if name == "project_rate"@ {
        Some(ProjectFormField::ProjectRate)
    } else if name == "budget_mode"@ {
        Some(ProjectFormField::BudgetMode)
    } else if name == "budget_value"@ {
        Some(ProjectFormField::BudgetValue)
    } else if name == "budget_alert"@ {
        Some(ProjectFormField::BudgetAlert)
    } else if name == "budget_alert_at"@ {
        Some(ProjectFormField::BudgetAlertAt)
    } else if name == "fee_amount"@ {
        Some(ProjectFormField::FeeAmount)
    } else if name == "milestones"@ {
        Some(ProjectFormField::Milestones)
    } else if name == "payment_terms"@ {
        Some(ProjectFormField::PaymentTerms)
    } else if name == "purchase_order"@ {
        Some(ProjectFormField::PurchaseOrder)
    } else if name == "tax"@ {
        Some(ProjectFormField::Tax)
    } else if name == "second_tax_name"@ {
        Some(ProjectFormField::SecondTaxName)
    } else if name == "second_tax"@ {
        Some(ProjectFormField::SecondTax)
    } else if name == "discount"@ {
        Some(ProjectFormField::Discount)
    } else {
        None
    }
}

/// The control that a name stands for in the row `id`, where it is one of a row.
pub open spec fn row_control(name: Seq<char>, id: u128) -> Option<ProjectFormField> {
    if name == "milestone_name"@ {
        Some(ProjectFormField::MilestoneName(id))
    } else if name == "milestone_date"@ {
        Some(ProjectFormField::MilestoneDate(id))
    } else if name == "milestone_amount"@ {
        Some(ProjectFormField::MilestoneAmount(id))
    } else if name == "task_name"@ {
        Some(ProjectFormField::TaskName(id))
    } else if name == "task"@ {
        Some(ProjectFormField::Task(id))
    } else if name == "person"@ {
        Some(ProjectFormField::Person(id))
    } else if name == "task_access"@ {
        Some(ProjectFormField::TaskAccess(id))
    } else if name == "task_rate"@ {
        Some(ProjectFormField::TaskRate(id))
    } else if name == "task_budget"@ {
        Some(ProjectFormField::TaskBudget(id))
    } else if name == "person_rate"@ {
        Some(ProjectFormField::PersonRate(id))
    } else if name == "cost_rate"@ {
        Some(ProjectFormField::CostRate(id))
    } else if name == "person_budget"@ {
        Some(ProjectFormField::PersonBudget(id))
    } else {
        None
    }
}

/// What a refusal says of a control.
#[derive(Debug)]
pub enum FieldDetail {
    /// The name of a control of the form.
    Form { name: String },
    /// The name of a control of a row, and the row's identity.
    Row { name: String, row: String },
    /// Something else, as JSON.
    Other { json: String },
}

/// The control that a refusal names, if it is one of the form.
pub open spec fn named_control(detail: FieldDetail) -> Option<ProjectFormField> {
    match detail {
        FieldDetail::Form { name } => form_control(name@),
        FieldDetail::Row { name, row } => match parsed_id(row@) {
            Some(id) => row_control(name@, id),
            None => None,
        },
        FieldDetail::Other { .. } => None,
    }
}

fn to_form_control(name: &str) -> (field: Option<ProjectFormField>)
    ensures
        field == form_control(name@),
{
    if same(name, "client") {
        Some(ProjectFormField::Client)
    } else if same(name, "name") {
        Some(ProjectFormField::Name)
    } else if same(name, "code") {
        Some(ProjectFormField::Code)
    } else if same(name, "starts_on") {
        Some(ProjectFormField::StartsOn)
    } else if same(name, "ends_on") {
        Some(ProjectFormField::EndsOn)
    } else if same(name, "currency") {
        Some(ProjectFormField::Currency)
    } else if same(name, "admin_notes") {
        Some(ProjectFormField::AdminNotes)
    } else if same(name, "project_type") {
        Some(ProjectFormField::ProjectType)
    } else if same(name, "rate_mode") {
        Some(ProjectFormField::RateMode)
    } else if same(name, "project_rate") {
        Some(ProjectFormField::ProjectRate)
    } else if same(name, "budget_mode") {
        Some(ProjectFormField::BudgetMode)
    } else if same(name, "budget_value") {
        Some(ProjectFormField::BudgetValue)
    } else if same(name, "budget_alert") {
        Some(ProjectFormField::BudgetAlert)
    } else if same(name, "budget_alert_at") {
        Some(ProjectFormField::BudgetAlertAt)
    } else if same(name, "fee_amount") {
        Some(ProjectFormField::FeeAmount)
    } else if same(name, "milestones") {
        Some(ProjectFormField::Milestones)
    } else if same(name, "payment_terms") {
        Some(ProjectFormField::PaymentTerms)
    } else if same(name, "purchase_order") {
        Some(ProjectFormField::PurchaseOrder)
    } else if same(name, "tax") {
        Some(ProjectFormField::Tax)
    } else if same(name, "second_tax_name") {
        Some(ProjectFormField::SecondTaxName)
    } else if same(name, "second_tax") {
        Some(ProjectFormField::SecondTax)
    } else if same(name, "discount") {
        Some(ProjectFormField::Discount)
    } else {
        None
    }
}

fn to_row_control(name: &str, id: u128) -> (field: Option<ProjectFormField>)
    ensures
        field == row_control(name@, id),
{
    if same(name, "milestone_name") {
        Some(ProjectFormField::MilestoneName(id))
    } else if same(name, "milestone_date") {
        Some(ProjectFormField::MilestoneDate(id))
    } else if same(name, "milestone_amount") {
        Some(ProjectFormField::MilestoneAmount(id))
    } else if same(name, "task_name") {
        Some(ProjectFormField::TaskName(id))
    } else if same(name, "task") {
        Some(ProjectFormField::Task(id))
    } else if same(name, "person") {
        Some(ProjectFormField::Person(id))
    } else if same(name, "task_access") {
        Some(ProjectFormField::TaskAccess(id))
    } else if same(name, "task_rate") {
        Some(ProjectFormField::TaskRate(id))
    } else if same(name, "task_budget") {
        Some(ProjectFormField::TaskBudget(id))
    } else if same(name, "person_rate") {
        Some(ProjectFormField::PersonRate(id))
    } else if same(name, "cost_rate") {
        Some(ProjectFormField::CostRate(id))
    } else if same(name, "person_budget") {
        Some(ProjectFormField::PersonBudget(id))
    } else {
        None
    }
}

/// The control that a refusal names, if it is one of the form.
pub fn read_detail(detail: &FieldDetail) -> (field: Option<ProjectFormField>)
    ensures
        field == named_control(*detail),
{
    match detail {
        FieldDetail::Form { name } => to_form_control(name.as_str()),
        FieldDetail::Row { name, row } => match parse_id(row.as_str()) {
            Some(id) => to_row_control(name.as_str(), id),
            None => None,
        },
        FieldDetail::Other { .. } => None,
    }
}

/// The identity of a control on the page: a prefix, and the row's identity for one of a row.
pub open spec fn control_id(field: ProjectFormField) -> Seq<char> {
    match field {
        ProjectFormField::Client => "np-client"@,
        ProjectFormField::Name => "np-name"@,
        ProjectFormField::Code => "np-code"@,
        ProjectFormField::StartsOn => "np-start"@,
        ProjectFormField::EndsOn => "np-end"@,
        ProjectFormField::Currency => "np-currency"@,
        ProjectFormField::AdminNotes => "np-notes"@,
        ProjectFormField::ProjectType => "np-project-type"@,
        ProjectFormField::RateMode => "np-rate-mode"@,
        ProjectFormField::ProjectRate => "np-project-rate"@,
        ProjectFormField::BudgetMode => "np-budget-mode"@,
        ProjectFormField::BudgetValue => "np-budget-value"@,
        ProjectFormField::BudgetAlert => "np-budget-alert"@,
        ProjectFormField::BudgetAlertAt => "np-alert-threshold"@,
        ProjectFormField::FeeAmount => "np-fee-amount"@,
        ProjectFormField::Milestones => "np-add-milestone"@,
        ProjectFormField::PaymentTerms => "np-terms-days"@,
        ProjectFormField::PurchaseOrder => "np-po-number"@,
        ProjectFormField::Tax => "np-tax"@,
        ProjectFormField::SecondTaxName => "np-second-tax-name"@,
        ProjectFormField::SecondTax => "np-second-tax"@,
        ProjectFormField::Discount => "np-discount"@,
        ProjectFormField::MilestoneName(id) => "np-milestone-name-"@ + id_text(id),
        ProjectFormField::MilestoneDate(id) => "np-milestone-date-"@ + id_text(id),
        ProjectFormField::MilestoneAmount(id) => "np-milestone-amount-"@ + id_text(id),
        ProjectFormField::TaskName(id) => "np-task-remove-"@ + id_text(id),
        ProjectFormField::Task(id) => "np-task-remove-"@ + id_text(id),
        ProjectFormField::Person(id) => "np-person-remove-"@ + id_text(id),
        ProjectFormField::TaskAccess(id) => "np-task-access-"@ + id_text(id),
        ProjectFormField::TaskRate(id) => "np-task-rate-"@ + id_text(id),
        ProjectFormField::TaskBudget(id) => "np-task-budget-"@ + id_text(id),
        ProjectFormField::PersonRate(id) => "np-person-rate-"@ + id_text(id),
        ProjectFormField::CostRate(id) => "np-cost-rate-"@ + id_text(id),
        ProjectFormField::PersonBudget(id) => "np-person-budget-"@ + id_text(id),
    }
}

fn with_id(prefix: &str, id: u128) -> (text: String)
    ensures
        text@ == prefix@ + id_text(id),
{
    let mut text = prefix.to_owned();
    text.append(id_to_text(id).as_str());
    text
}

/// The identity of a control on the page.
pub fn field_id(field: ProjectFormField) -> (id: String)
    ensures
        id@ == control_id(field),
{
    match field {
        ProjectFormField::Client => "np-client".to_owned(),
        ProjectFormField::Name => "np-name".to_owned(),
        ProjectFormField::Code => "np-code".to_owned(),
        ProjectFormField::StartsOn => "np-start".to_owned(),
        ProjectFormField::EndsOn => "np-end".to_owned(),
        ProjectFormField::Currency => "np-currency".to_owned(),
        ProjectFormField::AdminNotes => "np-notes".to_owned(),
        ProjectFormField::ProjectType => "np-project-type".to_owned(),
        ProjectFormField::RateMode => "np-rate-mode".to_owned(),
        ProjectFormField::ProjectRate => "np-project-rate".to_owned(),
        ProjectFormField::BudgetMode => "np-budget-mode".to_owned(),
        ProjectFormField::BudgetValue => "np-budget-value".to_owned(),
        ProjectFormField::BudgetAlert => "np-budget-alert".to_owned(),
        ProjectFormField::BudgetAlertAt => "np-alert-threshold".to_owned(),
        ProjectFormField::FeeAmount => "np-fee-amount".to_owned(),
        ProjectFormField::Milestones => "np-add-milestone".to_owned(),
        ProjectFormField::PaymentTerms => "np-terms-days".to_owned(),
        ProjectFormField::PurchaseOrder => "np-po-number".to_owned(),
        ProjectFormField::Tax => "np-tax".to_owned(),
        ProjectFormField::SecondTaxName => "np-second-tax-name".to_owned(),
        ProjectFormField::SecondTax => "np-second-tax".to_owned(),
        ProjectFormField::Discount => "np-discount".to_owned(),
        ProjectFormField::MilestoneName(id) => with_id("np-milestone-name-", id),
        ProjectFormField::MilestoneDate(id) => with_id("np-milestone-date-", id),
        ProjectFormField::MilestoneAmount(id) => with_id("np-milestone-amount-", id),
        ProjectFormField::TaskName(id) => with_id("np-task-remove-", id),
        ProjectFormField::Task(id) => with_id("np-task-remove-", id),
        ProjectFormField::Person(id) => with_id("np-person-remove-", id),
        ProjectFormField::TaskAccess(id) => with_id("np-task-access-", id),
        ProjectFormField::TaskRate(id) => with_id("np-task-rate-", id),
        ProjectFormField::TaskBudget(id) => with_id("np-task-budget-", id),
        ProjectFormField::PersonRate(id) => with_id("np-person-rate-", id),
        ProjectFormField::CostRate(id) => with_id("np-cost-rate-", id),
        ProjectFormField::PersonBudget(id) => with_id("np-person-budget-", id),
    }
}

/// An error of a request. `Server` is one that the server answered with; any other leaves
/// open what became of the request.
#[derive(Debug)]
pub enum RequestError {
    Server { code: u16, message: String, detail: Option<FieldDetail> },
    Other { message: String },
}

impl RequestError {
    /// The status that the server answered with.
    pub open spec fn status(self) -> Option<u16> {
        match self {
            RequestError::Server { code, .. } => Some(code),
            RequestError::Other { .. } => None,
        }
    }

    /// Whether the request was refused as invalid.
    pub open spec fn invalid(self) -> bool {
        self.status() == Some(400u16)
    }

    /// Whether the request was refused for certain, so that nothing was changed.
    pub open spec fn refused(self) -> bool {
        self.status() is Some && 400 <= self.status()->0 < 500
    }

    /// The control that can be corrected so that the request is taken: any control of an
    /// invalid form, a choice that is gone, or the name of a task that is taken. Other
    /// conflicts and errors name none.
    pub open spec fn correctable(self) -> Option<ProjectFormField> {
        match self {
            RequestError::Server { code, detail: Some(detail), .. } => {
                match named_control(detail) {
                    Some(field) => if code == 400 || (code == 404 && (field
                        is Client || field is Task || field is Person)) || (code == 409 && field
                        is TaskName) {
                        Some(field)
                    } else {
                        None
                    },
                    None => None,
                }
            },
            _ => None,
        }
    }

    /// The error's message.
    pub open spec fn text(self) -> Seq<char> {
        match self {
            RequestError::Server { message, .. } => message@,
            RequestError::Other { message } => message@,
        }
    }

    /// The error's message.
    pub fn message(&self) -> (message: String)
        ensures
            message@ == self.text(),
    {
        match self {
            RequestError::Server { message, .. } => message.clone(),
            RequestError::Other { message } => message.clone(),
        }
    }
}

/// Whether a request was refused as invalid.
pub fn is_validation_error(error: &RequestError) -> (r: bool)
    ensures
        r == error.invalid(),
{
    match error {
        RequestError::Server { code, .. } => *code == 400,
        RequestError::Other { .. } => false,
    }
}

/// Whether a request was refused for certain. One that was not may have been carried out
/// and must be sent again as it was.
pub fn is_definite_rejection(error: &RequestError) -> (r: bool)
    ensures
        r == error.refused(),
{
    match error {
        RequestError::Server { code, .. } => 400 <= *code && *code < 500,
        RequestError::Other { .. } => false,
    }
}

/// The control to correct after a refusal, if it names one that can be corrected.
pub fn validation_field(error: &RequestError) -> (field: Option<ProjectFormField>)
    ensures
        field == error.correctable(),
{
    match error {
        RequestError::Server { code, detail: Some(detail), .. } => {
            match read_detail(detail) {
                Some(field) => {
                    let gone = match field {
                        ProjectFormField::Client => true,
                        ProjectFormField::Task(_) => true,
                        ProjectFormField::Person(_) => true,
                        _ => false,
                    };
                    let taken = match field {
                        ProjectFormField::TaskName(_) => true,
                        _ => false,
                    };
                    if *code == 400 || (*code == 404 && gone) || (*code == 409 && taken) {
                        Some(field)
                    } else {
                        None
                    }
                },
                None => None,
            }
        },
        _ => None,
    }
}

/// A refusal that names a control was certain, so the form can be corrected and sent anew;
/// one that was refused as invalid was refused for certain.
pub proof fn corrections_follow_refusals(error: RequestError)
    ensures
        error.correctable() is Some ==> error.refused(),
        error.invalid() ==> error.refused(),
{
}

/// Where the message of an error about a control is shown: at the control that it is about.
pub open spec fn error_at(
    current: Option<ProjectFormField>,
    field: ProjectFormField,
    id: Seq<char>,
) -> Option<Seq<char>> {
    if current == Some(field) {
        Some(id)
    } else {
        None
    }
}

/// The identity of the message that describes a control, where it is the one in error.
pub fn error_id(current: Option<ProjectFormField>, field: ProjectFormField, id: &str) -> (message:
    Option<String>)
    ensures
        opt_view(message) == error_at(current, field, id@),
{
    match current {
        Some(wrong) => if wrong == field {
            Some(id.to_owned())
        } else {
            None
        },
        None => None,
    }
}

/// The identity of the message that describes a billing control, where it is the one in
/// error.
pub fn billing_error_id(current: Option<ProjectFormField>, field: ProjectFormField) -> (message:
    Option<String>)
    ensures
        opt_view(message) == error_at(current, field, "np-billing-field-error"@),
{
    error_id(current, field, "np-billing-field-error")
}

/// The message to show beside some controls: that of the error, where it is about one of
/// them.
pub fn error_for(
    current: Option<ProjectFormField>,
    fields: &Vec<ProjectFormField>,
    message: &Option<String>,
) -> (shown: Option<String>)
    ensures
        shown == (if current is Some && fields@.contains(current->0) {
            *message
        } else {
            None
        }),
{
    let wrong = match current {
        Some(wrong) => wrong,
        None => {
            return None;
        },
    };
    let mut i: usize = 0;
    while i < fields.len()
        invariant
            i <= fields.len(),
            current == Some(wrong),
            forall|k: int| 0 <= k < i ==> fields@[k] != wrong,
        decreases fields.len() - i,
    {
        if fields[i] == wrong {
            proof {
                assert(fields@[i as int] == wrong);
            }
            return match message {
                Some(message) => Some(message.clone()),
                None => None,
            };
        }
        i += 1;
    }
    None
}

} // verus!
