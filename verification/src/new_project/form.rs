//! The form of a project.

use crate::invoices::defaults_form::same_text;
use crate::invoices::defaults_form::InvoiceDefaultsInput;
use crate::invoices::defaults_form::SecondTaxInput;
use crate::lists::copy_ids;
use crate::lists::copy_text;
use crate::lists::opt_view;
use crate::lists::same_ids;
use crate::lists::views;
use crate::projects::budget::ProjectType;
use crate::text::same;
use vstd::prelude::*;

verus! {

/// Whose rate an hour is billed at.
#[derive(Clone, Copy, PartialEq, Eq, Structural, Debug)]
pub enum RateMode {
    Person,
    Task,
    Project,
    /// The rules of projects from before rates were configured.
    Legacy,
}

/// What a project's budget limits.
#[derive(Clone, Copy, PartialEq, Eq, Structural, Debug)]
pub enum BudgetMode {
    /// Nothing: there is no budget.
    Unset,
    TotalHours,
    TotalFees,
    HoursPerTask,
    FeesPerTask,
    HoursPerPerson,
}

/// How a fixed fee is charged.
#[derive(Clone, Copy, PartialEq, Eq, Structural, Debug)]
pub enum FeeMode {
    Single,
    Milestones,
    Monthly,
}

/// When a monthly fee can be invoiced.
#[derive(Clone, Copy, PartialEq, Eq, Structural, Debug)]
pub enum MonthlyFeeDay {
    First,
    Fifteenth,
    Last,
}

/// Who sees a project's progress.
#[derive(Clone, Copy, PartialEq, Eq, Structural, Debug)]
pub enum ReportVisibility {
    Managers,
    ProjectMembers,
}

/// A part of a fee, due on a day, as it was typed.
#[derive(Debug)]
pub struct MilestoneInput {
    pub id: u128,
    pub name: String,
    pub due_on: String,
    pub amount: String,
}

impl MilestoneInput {
    pub open spec fn same(self, other: MilestoneInput) -> bool {
        &&& self.id == other.id
        &&& self.name@ == other.name@
        &&& self.due_on@ == other.due_on@
        &&& self.amount@ == other.amount@
    }

    fn equals(&self, other: &MilestoneInput) -> (equal: bool)
        ensures
            equal == self.same(*other),
    {
        self.id == other.id && same(self.name.as_str(), other.name.as_str()) && same(
            self.due_on.as_str(),
            other.due_on.as_str(),
        ) && same(self.amount.as_str(), other.amount.as_str())
    }
}

impl Clone for MilestoneInput {
    fn clone(&self) -> (copy: Self)
        ensures
            copy == *self,
    {
        MilestoneInput {
            id: self.id,
            name: self.name.clone(),
            due_on: self.due_on.clone(),
            amount: self.amount.clone(),
        }
    }
}

/// Where a task of a project comes from.
#[derive(Debug)]
pub enum TaskSource {
    Existing { task_id: u128 },
    New { name: String },
}

impl TaskSource {
    pub open spec fn same(self, other: TaskSource) -> bool {
        match (self, other) {
            (TaskSource::Existing { task_id: a }, TaskSource::Existing { task_id: b }) => a == b,
            (TaskSource::New { name: a }, TaskSource::New { name: b }) => a@ == b@,
            _ => false,
        }
    }

    /// Whether two tasks come from the same source.
    pub fn equals(&self, other: &TaskSource) -> (equal: bool)
        ensures
            equal == self.same(*other),
    {
        match (self, other) {
            (TaskSource::Existing { task_id: a }, TaskSource::Existing { task_id: b }) => *a == *b,
            (TaskSource::New { name: a }, TaskSource::New { name: b }) => same(
                a.as_str(),
                b.as_str(),
            ),
            _ => false,
        }
    }
}

impl Clone for TaskSource {
    fn clone(&self) -> (copy: Self)
        ensures
            copy == *self,
    {
        match self {
            TaskSource::Existing { task_id } => TaskSource::Existing { task_id: *task_id },
            TaskSource::New { name } => TaskSource::New { name: name.clone() },
        }
    }
}

/// Who can track time to a task. A restricted one without people is open to nobody.
#[derive(Debug)]
pub enum TaskAccess {
    Everyone,
    Restricted { user_ids: Vec<u128> },
}

impl TaskAccess {
    pub open spec fn same(self, other: TaskAccess) -> bool {
        match (self, other) {
            (TaskAccess::Everyone, TaskAccess::Everyone) => true,
            (
                TaskAccess::Restricted { user_ids: a },
                TaskAccess::Restricted { user_ids: b },
            ) => a@ == b@,
            _ => false,
        }
    }

    fn equals(&self, other: &TaskAccess) -> (equal: bool)
        ensures
            equal == self.same(*other),
    {
        match (self, other) {
            (TaskAccess::Everyone, TaskAccess::Everyone) => true,
            (
                TaskAccess::Restricted { user_ids: a },
                TaskAccess::Restricted { user_ids: b },
            ) => same_ids(a, b),
            _ => false,
        }
    }

    /// A copy that opens the task to the same people.
    pub fn copy(&self) -> (copy: TaskAccess)
        ensures
            copy.same(*self),
    {
        match self {
            TaskAccess::Everyone => TaskAccess::Everyone,
            TaskAccess::Restricted { user_ids } => TaskAccess::Restricted {
                user_ids: copy_ids(user_ids),
            },
        }
    }
}

/// A task of a project, as it was entered.
#[derive(Debug)]
pub struct ProjectTaskInput {
    pub id: u128,
    pub source: TaskSource,
    pub billable: bool,
    pub rate: String,
    pub budget: String,
    pub access: TaskAccess,
}

impl ProjectTaskInput {
    pub open spec fn same(self, other: ProjectTaskInput) -> bool {
        &&& self.id == other.id
        &&& self.source.same(other.source)
        &&& self.billable == other.billable
        &&& self.rate@ == other.rate@
        &&& self.budget@ == other.budget@
        &&& self.access.same(other.access)
    }

    fn equals(&self, other: &ProjectTaskInput) -> (equal: bool)
        ensures
            equal == self.same(*other),
    {
        self.id == other.id && self.source.equals(&other.source) && self.billable == other.billable
            && same(self.rate.as_str(), other.rate.as_str()) && same(
            self.budget.as_str(),
            other.budget.as_str(),
        ) && self.access.equals(&other.access)
    }

    fn copy(&self) -> (copy: ProjectTaskInput)
        ensures
            copy.same(*self),
    {
        ProjectTaskInput {
            id: self.id,
            source: self.source.clone(),
            billable: self.billable,
            rate: self.rate.clone(),
            budget: self.budget.clone(),
            access: self.access.copy(),
        }
    }
}

/// A person of a project, with what was entered for them alone.
#[derive(Debug)]
pub struct ProjectMemberInput {
    pub user_id: u128,
    pub manager: bool,
    pub billable_rate: String,
    pub cost_rate: String,
    pub budget: String,
}

impl ProjectMemberInput {
    pub open spec fn same(self, other: ProjectMemberInput) -> bool {
        &&& self.user_id == other.user_id
        &&& self.manager == other.manager
        &&& self.billable_rate@ == other.billable_rate@
        &&& self.cost_rate@ == other.cost_rate@
        &&& self.budget@ == other.budget@
    }

    fn equals(&self, other: &ProjectMemberInput) -> (equal: bool)
        ensures
            equal == self.same(*other),
    {
        self.user_id == other.user_id && self.manager == other.manager && same(
            self.billable_rate.as_str(),
            other.billable_rate.as_str(),
        ) && same(self.cost_rate.as_str(), other.cost_rate.as_str()) && same(
            self.budget.as_str(),
            other.budget.as_str(),
        )
    }
}

impl Clone for ProjectMemberInput {
    fn clone(&self) -> (copy: Self)
        ensures
            copy == *self,
    {
        ProjectMemberInput {
            user_id: self.user_id,
            manager: self.manager,
            billable_rate: self.billable_rate.clone(),
            cost_rate: self.cost_rate.clone(),
            budget: self.budget.clone(),
        }
    }
}

/// A project as it is entered.
#[derive(Debug)]
pub struct ProjectForm {
    pub client_id: Option<u128>,
    pub name: String,
    pub code: String,
    pub starts_on: String,
    pub ends_on: String,
    pub tags: Vec<String>,
    pub currency: Option<String>,
    pub admin_notes: String,
    pub project_type: ProjectType,
    pub rate_mode: RateMode,
    pub project_rate: String,
    pub budget_mode: BudgetMode,
    pub budget_value: String,
    pub budget_alert: bool,
    pub budget_alert_at: String,
    pub budget_monthly: bool,
    pub budget_nonbillable: bool,
    pub fee_mode: FeeMode,
    pub fee_amount: String,
    pub monthly_day: MonthlyFeeDay,
    pub milestones: Vec<MilestoneInput>,
    pub tasks: Vec<ProjectTaskInput>,
    pub team: Vec<ProjectMemberInput>,
    pub report_visibility: ReportVisibility,
    pub invoice_defaults: InvoiceDefaultsInput,
}

/// Whether two lists of tasks hold the same.
pub open spec fn same_tasks(a: Seq<ProjectTaskInput>, b: Seq<ProjectTaskInput>) -> bool {
    a.len() == b.len() && forall|i: int| 0 <= i < a.len() ==> (#[trigger] a[i]).same(b[i])
}

/// Whether two lists of people hold the same.
pub open spec fn same_team(a: Seq<ProjectMemberInput>, b: Seq<ProjectMemberInput>) -> bool {
    a.len() == b.len() && forall|i: int| 0 <= i < a.len() ==> (#[trigger] a[i]).same(b[i])
}

/// Whether two lists of milestones hold the same.
pub open spec fn same_milestones(a: Seq<MilestoneInput>, b: Seq<MilestoneInput>) -> bool {
    a.len() == b.len() && forall|i: int| 0 <= i < a.len() ==> (#[trigger] a[i]).same(b[i])
}

impl ProjectForm {
    /// Whether nothing has been entered yet.
    pub open spec fn is_blank(self) -> bool {
        &&& self.client_id is None
        &&& self.name@.len() == 0
        &&& self.code@.len() == 0
        &&& self.starts_on@.len() == 0
        &&& self.ends_on@.len() == 0
        &&& self.tags@.len() == 0
        &&& self.currency is None
        &&& self.admin_notes@.len() == 0
        &&& self.project_type == ProjectType::TimeAndMaterials
        &&& self.rate_mode == RateMode::Person
        &&& self.project_rate@.len() == 0
        &&& self.budget_mode == BudgetMode::Unset
        &&& self.budget_value@.len() == 0
        &&& !self.budget_alert
        &&& self.budget_alert_at@.len() == 0
        &&& !self.budget_monthly
        &&& !self.budget_nonbillable
        &&& self.fee_mode == FeeMode::Single
        &&& self.fee_amount@.len() == 0
        &&& self.monthly_day == MonthlyFeeDay::First
        &&& self.milestones@.len() == 0
        &&& self.tasks@.len() == 0
        &&& self.team@.len() == 0
        &&& self.report_visibility == ReportVisibility::Managers
        &&& self.invoice_defaults.terms_days@ == "30"@
        &&& self.invoice_defaults.po_number@.len() == 0
        &&& self.invoice_defaults.tax@.len() == 0
        &&& self.invoice_defaults.discount@.len() == 0
        &&& self.invoice_defaults.second_tax is None
    }

    /// Whether two forms hold the same.
    pub open spec fn same(self, other: ProjectForm) -> bool {
        &&& self.client_id == other.client_id
        &&& self.name@ == other.name@
        &&& self.code@ == other.code@
        &&& self.starts_on@ == other.starts_on@
        &&& self.ends_on@ == other.ends_on@
        &&& views(self.tags@) == views(other.tags@)
        &&& opt_view(self.currency) == opt_view(other.currency)
        &&& self.admin_notes@ == other.admin_notes@
        &&& self.project_type == other.project_type
        &&& self.rate_mode == other.rate_mode
        &&& self.project_rate@ == other.project_rate@
        &&& self.budget_mode == other.budget_mode
        &&& self.budget_value@ == other.budget_value@
        &&& self.budget_alert == other.budget_alert
        &&& self.budget_alert_at@ == other.budget_alert_at@
        &&& self.budget_monthly == other.budget_monthly
        &&& self.budget_nonbillable == other.budget_nonbillable
        &&& self.fee_mode == other.fee_mode
        &&& self.fee_amount@ == other.fee_amount@
        &&& self.monthly_day == other.monthly_day
        &&& same_milestones(self.milestones@, other.milestones@)
        &&& same_tasks(self.tasks@, other.tasks@)
        &&& same_team(self.team@, other.team@)
        &&& self.report_visibility == other.report_visibility
        &&& self.invoice_defaults@ == other.invoice_defaults@
    }

    /// Whether two forms hold the same.
    pub fn equals(&self, other: &ProjectForm) -> (equal: bool)
        ensures
            equal == self.same(*other),
            equal ==> {
                &&& self.client_id == other.client_id
                &&& self.name@ == other.name@
                &&& self.code@ == other.code@
                &&& self.starts_on@ == other.starts_on@
                &&& self.ends_on@ == other.ends_on@
                &&& views(self.tags@) == views(other.tags@)
                &&& opt_view(self.currency) == opt_view(other.currency)
                &&& self.admin_notes@ == other.admin_notes@
                &&& self.project_type == other.project_type
                &&& self.rate_mode == other.rate_mode
                &&& self.project_rate@ == other.project_rate@
                &&& self.budget_mode == other.budget_mode
                &&& self.budget_value@ == other.budget_value@
                &&& self.budget_alert == other.budget_alert
                &&& self.budget_alert_at@ == other.budget_alert_at@
                &&& self.budget_monthly == other.budget_monthly
                &&& self.budget_nonbillable == other.budget_nonbillable
                &&& self.fee_mode == other.fee_mode
                &&& self.fee_amount@ == other.fee_amount@
                &&& self.monthly_day == other.monthly_day
                &&& self.report_visibility == other.report_visibility
                &&& self.invoice_defaults@ == other.invoice_defaults@
                &&& self.milestones.len() == other.milestones.len()
                &&& self.tasks.len() == other.tasks.len()
                &&& self.team.len() == other.team.len()
                &&& forall|i: int|
                    0 <= i < self.team.len() ==> {
                        &&& (#[trigger] self.team@[i]).user_id == other.team@[i].user_id
                        &&& self.team@[i].manager == other.team@[i].manager
                        &&& self.team@[i].billable_rate@ == other.team@[i].billable_rate@
                        &&& self.team@[i].cost_rate@ == other.team@[i].cost_rate@
                        &&& self.team@[i].budget@ == other.team@[i].budget@
                    }
            },
    {
        self.client_id == other.client_id && same(self.name.as_str(), other.name.as_str()) && same(
            self.code.as_str(),
            other.code.as_str(),
        ) && same(self.starts_on.as_str(), other.starts_on.as_str()) && same(
            self.ends_on.as_str(),
            other.ends_on.as_str(),
        ) && equal_texts(&self.tags, &other.tags) && same_text(&self.currency, &other.currency)
            && same(self.admin_notes.as_str(), other.admin_notes.as_str()) && self.project_type
            == other.project_type && self.rate_mode == other.rate_mode && same(
            self.project_rate.as_str(),
            other.project_rate.as_str(),
        ) && self.budget_mode == other.budget_mode && same(
            self.budget_value.as_str(),
            other.budget_value.as_str(),
        ) && self.budget_alert == other.budget_alert && same(
            self.budget_alert_at.as_str(),
            other.budget_alert_at.as_str(),
        ) && self.budget_monthly == other.budget_monthly && self.budget_nonbillable
            == other.budget_nonbillable && self.fee_mode == other.fee_mode && same(
            self.fee_amount.as_str(),
            other.fee_amount.as_str(),
        ) && self.monthly_day == other.monthly_day && equal_milestones(
            &self.milestones,
            &other.milestones,
        ) && equal_tasks(&self.tasks, &other.tasks) && equal_team(&self.team, &other.team)
            && self.report_visibility == other.report_visibility && equal_fields(
            &self.invoice_defaults,
            &other.invoice_defaults,
        )
    }

    /// A form that holds the same.
    pub fn copy(&self) -> (copy: ProjectForm)
        ensures
            copy.same(*self),
            copy.client_id == self.client_id,
            copy.name@ == self.name@,
            copy.code@ == self.code@,
            copy.starts_on@ == self.starts_on@,
            copy.ends_on@ == self.ends_on@,
            views(copy.tags@) == views(self.tags@),
            opt_view(copy.currency) == opt_view(self.currency),
            copy.admin_notes@ == self.admin_notes@,
            copy.project_type == self.project_type,
            copy.rate_mode == self.rate_mode,
            copy.project_rate@ == self.project_rate@,
            copy.budget_mode == self.budget_mode,
            copy.budget_value@ == self.budget_value@,
            copy.budget_alert == self.budget_alert,
            copy.budget_alert_at@ == self.budget_alert_at@,
            copy.budget_monthly == self.budget_monthly,
            copy.budget_nonbillable == self.budget_nonbillable,
            copy.fee_mode == self.fee_mode,
            copy.fee_amount@ == self.fee_amount@,
            copy.monthly_day == self.monthly_day,
            copy.report_visibility == self.report_visibility,
            copy.invoice_defaults@ == self.invoice_defaults@,
            copy.milestones.len() == self.milestones.len(),
            copy.tasks.len() == self.tasks.len(),
            copy.team.len() == self.team.len(),
            forall|i: int|
                0 <= i < self.team.len() ==> {
                    &&& (#[trigger] copy.team@[i]).user_id == self.team@[i].user_id
                    &&& copy.team@[i].manager == self.team@[i].manager
                    &&& copy.team@[i].billable_rate@ == self.team@[i].billable_rate@
                    &&& copy.team@[i].cost_rate@ == self.team@[i].cost_rate@
                    &&& copy.team@[i].budget@ == self.team@[i].budget@
                },
            forall|i: int|
                0 <= i < self.tasks.len() ==> {
                    &&& (#[trigger] copy.tasks@[i]).id == self.tasks@[i].id
                    &&& copy.tasks@[i].source.same(self.tasks@[i].source)
                    &&& copy.tasks@[i].billable == self.tasks@[i].billable
                    &&& copy.tasks@[i].rate@ == self.tasks@[i].rate@
                    &&& copy.tasks@[i].budget@ == self.tasks@[i].budget@
                    &&& copy.tasks@[i].access.same(self.tasks@[i].access)
                },
            forall|i: int|
                0 <= i < self.milestones.len() ==> {
                    &&& (#[trigger] copy.milestones@[i]).id == self.milestones@[i].id
                    &&& copy.milestones@[i].name@ == self.milestones@[i].name@
                    &&& copy.milestones@[i].due_on@ == self.milestones@[i].due_on@
                    &&& copy.milestones@[i].amount@ == self.milestones@[i].amount@
                },
    {
        ProjectForm {
            client_id: self.client_id,
            name: self.name.clone(),
            code: self.code.clone(),
            starts_on: self.starts_on.clone(),
            ends_on: self.ends_on.clone(),
            tags: copy_texts(&self.tags),
            currency: copy_text(&self.currency),
            admin_notes: self.admin_notes.clone(),
            project_type: self.project_type,
            rate_mode: self.rate_mode,
            project_rate: self.project_rate.clone(),
            budget_mode: self.budget_mode,
            budget_value: self.budget_value.clone(),
            budget_alert: self.budget_alert,
            budget_alert_at: self.budget_alert_at.clone(),
            budget_monthly: self.budget_monthly,
            budget_nonbillable: self.budget_nonbillable,
            fee_mode: self.fee_mode,
            fee_amount: self.fee_amount.clone(),
            monthly_day: self.monthly_day,
            milestones: copy_milestones(&self.milestones),
            tasks: copy_tasks(&self.tasks),
            team: copy_team(&self.team),
            report_visibility: self.report_visibility,
            invoice_defaults: copy_fields(&self.invoice_defaults),
        }
    }
}

impl Default for ProjectForm {
    fn default() -> (form: Self)
        ensures
            form.is_blank(),
    {
        ProjectForm {
            client_id: None,
            name: String::new(),
            code: String::new(),
            starts_on: String::new(),
            ends_on: String::new(),
            tags: Vec::new(),
            currency: None,
            admin_notes: String::new(),
            project_type: ProjectType::TimeAndMaterials,
            rate_mode: RateMode::Person,
            project_rate: String::new(),
            budget_mode: BudgetMode::Unset,
            budget_value: String::new(),
            budget_alert: false,
            budget_alert_at: String::new(),
            budget_monthly: false,
            budget_nonbillable: false,
            fee_mode: FeeMode::Single,
            fee_amount: String::new(),
            monthly_day: MonthlyFeeDay::First,
            milestones: Vec::new(),
            tasks: Vec::new(),
            team: Vec::new(),
            report_visibility: ReportVisibility::Managers,
            invoice_defaults: InvoiceDefaultsInput::default(),
        }
    }
}

/// Whether two lists hold the same texts.
pub fn equal_texts(a: &Vec<String>, b: &Vec<String>) -> (equal: bool)
    ensures
        equal == (views(a@) == views(b@)),
{
    if a.len() != b.len() {
        proof {
            assert(views(a@).len() != views(b@).len());
        }
        return false;
    }
    let mut i: usize = 0;
    while i < a.len()
        invariant
            i <= a.len(),
            a.len() == b.len(),
            forall|k: int| 0 <= k < i ==> (#[trigger] a@[k])@ == b@[k]@,
        decreases a.len() - i,
    {
        if !same(a[i].as_str(), b[i].as_str()) {
            proof {
                assert(views(a@)[i as int] != views(b@)[i as int]);
            }
            return false;
        }
        i += 1;
    }
    proof {
        assert(views(a@) =~= views(b@));
    }
    true
}

/// A list that holds the same texts.
pub fn copy_texts(texts: &Vec<String>) -> (copy: Vec<String>)
    ensures
        copy@ == texts@,
{
    let mut copy: Vec<String> = Vec::new();
    let mut i: usize = 0;
    while i < texts.len()
        invariant
            i <= texts.len(),
            copy@ == texts@.take(i as int),
        decreases texts.len() - i,
    {
        proof {
            assert(texts@.take(i + 1) =~= texts@.take(i as int).push(texts@[i as int]));
        }
        copy.push(texts[i].clone());
        i += 1;
    }
    proof {
        assert(texts@.take(texts.len() as int) =~= texts@);
    }
    copy
}

fn equal_milestones(a: &Vec<MilestoneInput>, b: &Vec<MilestoneInput>) -> (equal: bool)
    ensures
        equal == same_milestones(a@, b@),
{
    if a.len() != b.len() {
        return false;
    }
    let mut i: usize = 0;
    while i < a.len()
        invariant
            i <= a.len(),
            a.len() == b.len(),
            forall|k: int| 0 <= k < i ==> (#[trigger] a@[k]).same(b@[k]),
        decreases a.len() - i,
    {
        if !a[i].equals(&b[i]) {
            proof {
                assert(!a@[i as int].same(b@[i as int]));
            }
            return false;
        }
        i += 1;
    }
    true
}

fn copy_milestones(items: &Vec<MilestoneInput>) -> (copy: Vec<MilestoneInput>)
    ensures
        same_milestones(copy@, items@),
{
    let mut copy: Vec<MilestoneInput> = Vec::new();
    let mut i: usize = 0;
    while i < items.len()
        invariant
            i <= items.len(),
            copy.len() == i,
            forall|k: int| 0 <= k < i ==> (#[trigger] copy@[k]).same(items@[k]),
        decreases items.len() - i,
    {
        copy.push(items[i].clone());
        i += 1;
    }
    copy
}

fn equal_tasks(a: &Vec<ProjectTaskInput>, b: &Vec<ProjectTaskInput>) -> (equal: bool)
    ensures
        equal == same_tasks(a@, b@),
{
    if a.len() != b.len() {
        return false;
    }
    let mut i: usize = 0;
    while i < a.len()
        invariant
            i <= a.len(),
            a.len() == b.len(),
            forall|k: int| 0 <= k < i ==> (#[trigger] a@[k]).same(b@[k]),
        decreases a.len() - i,
    {
        if !a[i].equals(&b[i]) {
            proof {
                assert(!a@[i as int].same(b@[i as int]));
            }
            return false;
        }
        i += 1;
    }
    true
}

fn copy_tasks(items: &Vec<ProjectTaskInput>) -> (copy: Vec<ProjectTaskInput>)
    ensures
        same_tasks(copy@, items@),
{
    let mut copy: Vec<ProjectTaskInput> = Vec::new();
    let mut i: usize = 0;
    while i < items.len()
        invariant
            i <= items.len(),
            copy.len() == i,
            forall|k: int| 0 <= k < i ==> (#[trigger] copy@[k]).same(items@[k]),
        decreases items.len() - i,
    {
        copy.push(items[i].copy());
        i += 1;
    }
    copy
}

fn equal_team(a: &Vec<ProjectMemberInput>, b: &Vec<ProjectMemberInput>) -> (equal: bool)
    ensures
        equal == same_team(a@, b@),
{
    if a.len() != b.len() {
        return false;
    }
    let mut i: usize = 0;
    while i < a.len()
        invariant
            i <= a.len(),
            a.len() == b.len(),
            forall|k: int| 0 <= k < i ==> (#[trigger] a@[k]).same(b@[k]),
        decreases a.len() - i,
    {
        if !a[i].equals(&b[i]) {
            proof {
                assert(!a@[i as int].same(b@[i as int]));
            }
            return false;
        }
        i += 1;
    }
    true
}

fn copy_team(items: &Vec<ProjectMemberInput>) -> (copy: Vec<ProjectMemberInput>)
    ensures
        same_team(copy@, items@),
{
    let mut copy: Vec<ProjectMemberInput> = Vec::new();
    let mut i: usize = 0;
    while i < items.len()
        invariant
            i <= items.len(),
            copy.len() == i,
            forall|k: int| 0 <= k < i ==> (#[trigger] copy@[k]).same(items@[k]),
        decreases items.len() - i,
    {
        copy.push(items[i].clone());
        i += 1;
    }
    copy
}

fn equal_fields(a: &InvoiceDefaultsInput, b: &InvoiceDefaultsInput) -> (equal: bool)
    ensures
        equal == (a@ == b@),
{
    let taxes = match (&a.second_tax, &b.second_tax) {
        (Some(x), Some(y)) => same(x.name.as_str(), y.name.as_str()) && same(
            x.percentage.as_str(),
            y.percentage.as_str(),
        ),
        (None, None) => true,
        _ => false,
    };
    taxes && same(a.terms_days.as_str(), b.terms_days.as_str()) && same(
        a.po_number.as_str(),
        b.po_number.as_str(),
    ) && same(a.tax.as_str(), b.tax.as_str()) && same(a.discount.as_str(), b.discount.as_str())
}

fn copy_fields(fields: &InvoiceDefaultsInput) -> (copy: InvoiceDefaultsInput)
    ensures
        copy@ == fields@,
{
    InvoiceDefaultsInput {
        terms_days: fields.terms_days.clone(),
        po_number: fields.po_number.clone(),
        tax: fields.tax.clone(),
        discount: fields.discount.clone(),
        second_tax: match &fields.second_tax {
            Some(tax) => Some(
                SecondTaxInput { name: tax.name.clone(), percentage: tax.percentage.clone() },
            ),
            None => None,
        },
    }
}

/// What holds the same as a form holds the same as what the form does.
pub proof fn same_is_transitive(a: ProjectForm, b: ProjectForm, c: ProjectForm)
    requires
        a.same(b),
        b.same(c),
    ensures
        a.same(c),
        b.same(a),
{
    assert forall|i: int| 0 <= i < a.tasks@.len() implies (#[trigger] a.tasks@[i]).same(
        c.tasks@[i],
    ) && b.tasks@[i].same(a.tasks@[i]) by {
        assert(b.tasks@[i].same(c.tasks@[i]));
    }
    assert forall|i: int| 0 <= i < a.team@.len() implies (#[trigger] a.team@[i]).same(c.team@[i])
        && b.team@[i].same(a.team@[i]) by {
        assert(b.team@[i].same(c.team@[i]));
    }
    assert forall|i: int| 0 <= i < a.milestones@.len() implies (#[trigger] a.milestones@[i]).same(
        c.milestones@[i],
    ) && b.milestones@[i].same(a.milestones@[i]) by {
        assert(b.milestones@[i].same(c.milestones@[i]));
    }
}

/// Two forms in which nothing has been entered hold the same.
pub proof fn blank_forms_are_the_same(a: ProjectForm, b: ProjectForm)
    requires
        a.is_blank(),
        b.is_blank(),
    ensures
        a.same(b),
{
    assert(a.name@ =~= b.name@);
    assert(a.code@ =~= b.code@);
    assert(a.starts_on@ =~= b.starts_on@);
    assert(a.ends_on@ =~= b.ends_on@);
    assert(views(a.tags@) =~= views(b.tags@));
    assert(a.admin_notes@ =~= b.admin_notes@);
    assert(a.project_rate@ =~= b.project_rate@);
    assert(a.budget_value@ =~= b.budget_value@);
    assert(a.budget_alert_at@ =~= b.budget_alert_at@);
    assert(a.fee_amount@ =~= b.fee_amount@);
    assert(a.invoice_defaults.po_number@ =~= b.invoice_defaults.po_number@);
    assert(a.invoice_defaults.tax@ =~= b.invoice_defaults.tax@);
    assert(a.invoice_defaults.discount@ =~= b.invoice_defaults.discount@);
}

/// A form holds the same as itself.
pub proof fn same_is_reflexive(a: ProjectForm)
    ensures
        a.same(a),
{
}

} // verus!
