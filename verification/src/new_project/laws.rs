//! What creating and editing a project promises: what forms hold, what is saved and what a
//! refusal leaves.

use crate::ids::id_text;
use crate::ids::parsed_id;
use crate::lists::filter_holds;
use crate::lists::opt_view;
use crate::lists::views;
use crate::money::parsed_cents;
use crate::new_project::basics::Choice;
use crate::new_project::basics::CreationClient;
use crate::new_project::basics::is_client;
use crate::new_project::basics::knowing;
use crate::new_project::basics::no_client;
use crate::new_project::basics::offers;
use crate::new_project::basics::one_client;
use crate::new_project::basics::tag_keys;
use crate::new_project::basics::with_tag;
use crate::new_project::basics::with_tags;
use crate::new_project::billing::all_budgets;
use crate::new_project::billing::budget_offered;
use crate::new_project::billing::budget_word;
use crate::new_project::billing::chosen_currency;
use crate::new_project::billing::day_word;
use crate::new_project::billing::edited;
use crate::new_project::billing::fee_sum;
use crate::new_project::billing::MilestoneField;
use crate::new_project::billing::other_than;
use crate::new_project::billing::shows_alert;
use crate::new_project::billing::word_day;
use crate::new_project::draft::DraftSaved;
use crate::new_project::draft::DraftState;
use crate::new_project::draft::PendingSave;
use crate::new_project::editor::Editor;
use crate::new_project::editor::EditorStep;
use crate::new_project::editor::Failure;
use crate::new_project::editor::Intent;
use crate::new_project::editor::ProjectEditRequest;
use crate::new_project::editor::time_text;
use crate::new_project::fields::control_id;
use crate::new_project::fields::error_at;
use crate::new_project::fields::FieldDetail;
use crate::new_project::fields::form_control;
use crate::new_project::fields::named_control;
use crate::new_project::fields::ProjectFormField;
use crate::new_project::fields::RequestError;
use crate::new_project::fields::row_control;
use crate::new_project::form::BudgetMode;
use crate::new_project::form::FeeMode;
use crate::new_project::form::MilestoneInput;
use crate::new_project::form::MonthlyFeeDay;
use crate::new_project::form::ProjectForm;
use crate::new_project::form::ProjectMemberInput;
use crate::new_project::form::ProjectTaskInput;
use crate::new_project::form::RateMode;
use crate::new_project::form::ReportVisibility;
use crate::new_project::form::TaskAccess;
use crate::new_project::form::TaskSource;
use crate::new_project::options::lacked_people;
use crate::new_project::options::lacked_tasks;
use crate::new_project::options::other_client;
use crate::new_project::options::other_person;
use crate::new_project::options::other_task;
use crate::new_project::options::replaced_people;
use crate::new_project::options::replaced_tasks;
use crate::new_project::tasks::added_or_refused;
use crate::new_project::tasks::CreationTask;
use crate::new_project::tasks::has_source;
use crate::new_project::tasks::is_task;
use crate::new_project::tasks::just_added;
use crate::new_project::tasks::name_keys;
use crate::new_project::tasks::NamedTask;
use crate::new_project::tasks::no_task;
use crate::new_project::tasks::not_id;
use crate::new_project::tasks::refusal;
use crate::new_project::tasks::task_with;
use crate::new_project::tasks::TaskEdit;
use crate::new_project::tasks::toggled;
use crate::new_project::tasks::with_task;
use crate::new_project::team::access_without;
use crate::new_project::team::CreationPerson;
use crate::new_project::team::is_member;
use crate::new_project::team::is_newcomer;
use crate::new_project::team::is_person;
use crate::new_project::team::joined;
use crate::new_project::team::lacking;
use crate::new_project::team::member_ids;
use crate::new_project::team::MemberEdit;
use crate::new_project::team::nobody;
use crate::new_project::team::person_ids;
use crate::new_project::team::stays;
use crate::new_project::team::tasks_without;
use crate::new_project::team::with_people;
use crate::projects::budget::ProjectType;
use crate::text::index_from;
use crate::text::lowercase;
use crate::text::trimmed;
use crate::text::two_digits;
use vstd::prelude::*;

verus! {

// ---- Forms ----

/// Forms that hold the same agree in each field of the project itself.
pub proof fn same_forms_agree(a: ProjectForm, b: ProjectForm)
    requires
        a.same(b),
    ensures
        a.client_id == b.client_id,
        a.name@ == b.name@,
        a.code@ == b.code@,
        a.starts_on@ == b.starts_on@,
        a.ends_on@ == b.ends_on@,
        a.tags.len() == b.tags.len(),
        forall|i: int| 0 <= i < a.tags.len() ==> (#[trigger] a.tags@[i])@ == b.tags@[i]@,
        a.currency is Some <==> b.currency is Some,
        a.currency is Some ==> a.currency->0@ == b.currency->0@,
        a.admin_notes@ == b.admin_notes@,
        a.project_type == b.project_type,
        a.rate_mode == b.rate_mode,
        a.project_rate@ == b.project_rate@,
        a.budget_mode == b.budget_mode,
        a.budget_value@ == b.budget_value@,
        a.budget_alert == b.budget_alert,
        a.budget_alert_at@ == b.budget_alert_at@,
        a.budget_monthly == b.budget_monthly,
        a.budget_nonbillable == b.budget_nonbillable,
        a.fee_mode == b.fee_mode,
        a.fee_amount@ == b.fee_amount@,
        a.monthly_day == b.monthly_day,
        a.report_visibility == b.report_visibility,
{
    assert(views(a.tags@).len() == a.tags.len());
    assert(views(b.tags@).len() == b.tags.len());
    assert forall|i: int| 0 <= i < a.tags.len() implies (#[trigger] a.tags@[i])@ == b.tags@[i]@ by {
        assert(views(a.tags@)[i] == views(b.tags@)[i]);
    }
}

/// Forms that hold the same have the same people, each with what was entered for them.
pub proof fn same_forms_have_the_same_team(a: ProjectForm, b: ProjectForm, i: int)
    requires
        a.same(b),
    ensures
        a.team.len() == b.team.len(),
        0 <= i < a.team.len() ==> {
            &&& a.team@[i].user_id == b.team@[i].user_id
            &&& a.team@[i].manager == b.team@[i].manager
            &&& a.team@[i].billable_rate@ == b.team@[i].billable_rate@
            &&& a.team@[i].cost_rate@ == b.team@[i].cost_rate@
            &&& a.team@[i].budget@ == b.team@[i].budget@
        },
{
    if 0 <= i < a.team.len() {
        assert(a.team@[i].same(b.team@[i]));
    }
}

/// Forms that hold the same have the same tasks, each with what was entered for it and open to
/// the same people.
pub proof fn same_forms_have_the_same_tasks(a: ProjectForm, b: ProjectForm, i: int)
    requires
        a.same(b),
    ensures
        a.tasks.len() == b.tasks.len(),
        0 <= i < a.tasks.len() ==> {
            let (x, y) = (a.tasks@[i], b.tasks@[i]);
            &&& x.id == y.id
            &&& x.billable == y.billable
            &&& x.rate@ == y.rate@
            &&& x.budget@ == y.budget@
            &&& x.source is Existing <==> y.source is Existing
            &&& x.source is Existing ==> x.source->task_id == y.source->task_id
            &&& x.source is New ==> x.source->name@ == y.source->name@
            &&& x.access is Everyone <==> y.access is Everyone
            &&& x.access is Restricted ==> x.access->user_ids@ == y.access->user_ids@
        },
{
    if 0 <= i < a.tasks.len() {
        assert(a.tasks@[i].same(b.tasks@[i]));
    }
}

/// Forms that hold the same have the same milestones.
pub proof fn same_forms_have_the_same_milestones(a: ProjectForm, b: ProjectForm, i: int)
    requires
        a.same(b),
    ensures
        a.milestones.len() == b.milestones.len(),
        0 <= i < a.milestones.len() ==> {
            &&& a.milestones@[i].id == b.milestones@[i].id
            &&& a.milestones@[i].name@ == b.milestones@[i].name@
            &&& a.milestones@[i].due_on@ == b.milestones@[i].due_on@
            &&& a.milestones@[i].amount@ == b.milestones@[i].amount@
        },
{
    if 0 <= i < a.milestones.len() {
        assert(a.milestones@[i].same(b.milestones@[i]));
    }
}

/// Forms that hold the same have the same values for their invoices.
pub proof fn same_forms_have_the_same_defaults(a: ProjectForm, b: ProjectForm)
    requires
        a.same(b),
    ensures
        a.invoice_defaults.terms_days@ == b.invoice_defaults.terms_days@,
        a.invoice_defaults.po_number@ == b.invoice_defaults.po_number@,
        a.invoice_defaults.tax@ == b.invoice_defaults.tax@,
        a.invoice_defaults.discount@ == b.invoice_defaults.discount@,
        a.invoice_defaults.second_tax is Some <==> b.invoice_defaults.second_tax is Some,
        a.invoice_defaults.second_tax is Some ==> a.invoice_defaults.second_tax->0.name@
            == b.invoice_defaults.second_tax->0.name@
            && a.invoice_defaults.second_tax->0.percentage@
            == b.invoice_defaults.second_tax->0.percentage@,
{
    assert(a.invoice_defaults@.terms_days == b.invoice_defaults@.terms_days);
    assert(a.invoice_defaults@.second_tax == b.invoice_defaults@.second_tax);
}

/// Two tasks are alike in what was entered for them.
pub open spec fn tasks_agree(x: ProjectTaskInput, y: ProjectTaskInput) -> bool {
    &&& x.id == y.id
    &&& x.billable == y.billable
    &&& x.rate@ == y.rate@
    &&& x.budget@ == y.budget@
    &&& match x.source {
        TaskSource::Existing { task_id } => y.source == TaskSource::Existing { task_id },
        TaskSource::New { name } => y.source is New && y.source->name@ == name@,
    }
    &&& match x.access {
        TaskAccess::Everyone => y.access is Everyone,
        TaskAccess::Restricted { user_ids } => y.access is Restricted && y.access->user_ids@
            == user_ids@,
    }
}

/// Two people are alike in what was entered for them.
pub open spec fn members_agree(x: ProjectMemberInput, y: ProjectMemberInput) -> bool {
    &&& x.user_id == y.user_id
    &&& x.manager == y.manager
    &&& x.billable_rate@ == y.billable_rate@
    &&& x.cost_rate@ == y.cost_rate@
    &&& x.budget@ == y.budget@
}

/// Two milestones are alike in what was entered for them.
pub open spec fn milestones_agree(x: MilestoneInput, y: MilestoneInput) -> bool {
    &&& x.id == y.id
    &&& x.name@ == y.name@
    &&& x.due_on@ == y.due_on@
    &&& x.amount@ == y.amount@
}

/// Forms that agree in every field hold the same: nothing else tells them apart.
pub proof fn agreeing_forms_are_the_same(a: ProjectForm, b: ProjectForm)
    requires
        a.client_id == b.client_id,
        a.name@ == b.name@,
        a.code@ == b.code@,
        a.starts_on@ == b.starts_on@,
        a.ends_on@ == b.ends_on@,
        a.tags.len() == b.tags.len(),
        forall|i: int| 0 <= i < a.tags.len() ==> (#[trigger] a.tags@[i])@ == b.tags@[i]@,
        opt_view(a.currency) == opt_view(b.currency),
        a.admin_notes@ == b.admin_notes@,
        a.project_type == b.project_type,
        a.rate_mode == b.rate_mode,
        a.project_rate@ == b.project_rate@,
        a.budget_mode == b.budget_mode,
        a.budget_value@ == b.budget_value@,
        a.budget_alert == b.budget_alert,
        a.budget_alert_at@ == b.budget_alert_at@,
        a.budget_monthly == b.budget_monthly,
        a.budget_nonbillable == b.budget_nonbillable,
        a.fee_mode == b.fee_mode,
        a.fee_amount@ == b.fee_amount@,
        a.monthly_day == b.monthly_day,
        a.report_visibility == b.report_visibility,
        a.milestones.len() == b.milestones.len(),
        a.tasks.len() == b.tasks.len(),
        a.team.len() == b.team.len(),
        forall|i: int|
            0 <= i < a.milestones.len() ==> milestones_agree(
                #[trigger] a.milestones@[i],
                b.milestones@[i],
            ),
        forall|i: int|
            0 <= i < a.tasks.len() ==> tasks_agree(#[trigger] a.tasks@[i], b.tasks@[i]),
        forall|i: int|
            0 <= i < a.team.len() ==> members_agree(#[trigger] a.team@[i], b.team@[i]),
        a.invoice_defaults.terms_days@ == b.invoice_defaults.terms_days@,
        a.invoice_defaults.po_number@ == b.invoice_defaults.po_number@,
        a.invoice_defaults.tax@ == b.invoice_defaults.tax@,
        a.invoice_defaults.discount@ == b.invoice_defaults.discount@,
        a.invoice_defaults.second_tax is Some <==> b.invoice_defaults.second_tax is Some,
        a.invoice_defaults.second_tax is Some ==> a.invoice_defaults.second_tax->0.name@
            == b.invoice_defaults.second_tax->0.name@
            && a.invoice_defaults.second_tax->0.percentage@
            == b.invoice_defaults.second_tax->0.percentage@,
    ensures
        a.same(b),
{
    assert(views(a.tags@) =~= views(b.tags@));
    assert forall|i: int| 0 <= i < a.tasks.len() implies (#[trigger] a.tasks@[i]).same(
        b.tasks@[i],
    ) by {
        assert(tasks_agree(a.tasks@[i], b.tasks@[i]));
    }
    assert forall|i: int| 0 <= i < a.team.len() implies (#[trigger] a.team@[i]).same(
        b.team@[i],
    ) by {
        assert(members_agree(a.team@[i], b.team@[i]));
    }
    assert forall|i: int| 0 <= i < a.milestones.len() implies (#[trigger] a.milestones@[i]).same(
        b.milestones@[i],
    ) by {
        assert(milestones_agree(a.milestones@[i], b.milestones@[i]));
    }
}

/// A blank form has no client, no texts, no rows and no budget; it bills time at the rates of
/// people, and its invoices are due in thirty days.
pub proof fn blank_forms_hold_nothing(form: ProjectForm)
    requires
        form.is_blank(),
    ensures
        form.client_id is None,
        form.currency is None,
        form.name@ == Seq::<char>::empty(),
        form.code@ == Seq::<char>::empty(),
        form.starts_on@ == Seq::<char>::empty(),
        form.ends_on@ == Seq::<char>::empty(),
        form.admin_notes@ == Seq::<char>::empty(),
        form.project_rate@ == Seq::<char>::empty(),
        form.budget_value@ == Seq::<char>::empty(),
        form.budget_alert_at@ == Seq::<char>::empty(),
        form.fee_amount@ == Seq::<char>::empty(),
        form.tags.len() == 0,
        form.milestones.len() == 0,
        form.tasks.len() == 0,
        form.team.len() == 0,
        form.project_type == ProjectType::TimeAndMaterials,
        form.rate_mode == RateMode::Person,
        form.budget_mode == BudgetMode::Unset,
        !form.budget_alert && !form.budget_monthly && !form.budget_nonbillable,
        form.fee_mode == FeeMode::Single,
        form.monthly_day == MonthlyFeeDay::First,
        form.report_visibility == ReportVisibility::Managers,
        form.invoice_defaults.terms_days@ == "30"@,
        form.invoice_defaults.po_number@ == Seq::<char>::empty(),
        form.invoice_defaults.tax@ == Seq::<char>::empty(),
        form.invoice_defaults.discount@ == Seq::<char>::empty(),
        form.invoice_defaults.second_tax is None,
{
}

// ---- Basics ----

/// One tag at a time: a blank one and one that is there in whatever case change nothing, one
/// that is too long is refused, and so is any other once there are fifty; else it is added as
/// it was spelled, without the white space around it.
pub proof fn tags_are_added_trimmed(tags: Seq<Seq<char>>, entered: Seq<char>)
    ensures
        ({
            let tag = trimmed(entered);
            let there = exists|i: int|
                0 <= i < tags.len() && lowercase(trimmed(#[trigger] tags[i])) == lowercase(tag);
            let short = tag.len() <= 50 && !tag.contains('\0');
            &&& tag.len() == 0 ==> with_tag(tags, entered) == Ok::<Seq<Seq<char>>, Seq<char>>(tags)
            &&& tag.len() > 0 && !short ==> with_tag(tags, entered) is Err
            &&& tag.len() > 0 && short && there ==> with_tag(tags, entered) == Ok::<
                Seq<Seq<char>>,
                Seq<char>,
            >(tags)
            &&& tag.len() > 0 && short && !there && tags.len() < 50 ==> with_tag(tags, entered)
                == Ok::<Seq<Seq<char>>, Seq<char>>(tags.push(tag))
            &&& tag.len() > 0 && short && !there && tags.len() >= 50 ==> with_tag(tags, entered)
                is Err
        }),
{
    let tag = trimmed(entered);
    let keys = tag_keys(tags);
    if keys.contains(lowercase(tag)) {
        let i = choose|i: int| 0 <= i < keys.len() && keys[i] == lowercase(tag);
        assert(lowercase(trimmed(tags[i])) == lowercase(tag));
    }
    if exists|i: int|
        0 <= i < tags.len() && lowercase(trimmed(#[trigger] tags[i])) == lowercase(tag) {
        let i = choose|i: int|
            0 <= i < tags.len() && lowercase(trimmed(#[trigger] tags[i])) == lowercase(tag);
        assert(keys[i] == lowercase(tag));
        assert(keys.contains(lowercase(tag)));
    }
}

/// Tags that are typed with a comma between them are entered one after the other.
pub proof fn commas_part_tags(
    tags: Seq<Seq<char>>,
    first: Seq<char>,
    second: Seq<char>,
)
    requires
        !first.contains(','),
        !second.contains(','),
        with_tag(tags, first) is Ok,
    ensures
        with_tags(tags, first + seq![','] + second, 0) == with_tag(
            with_tag(tags, first)->Ok_0,
            second,
        ),
        with_tags(tags, first, 0) == with_tag(tags, first),
{
    let input = first + seq![','] + second;
    let n = first.len() as int;
    no_comma(first, 0);
    crate::text::index_from_at(input, ',', 0, n);
    assert(input.subrange(0, n) =~= first);
    assert(first.subrange(0, n) =~= first);
    assert forall|k: int| n + 1 <= k < input.len() implies input[k] != ',' by {
        assert(input[k] == second[k - n - 1]);
        assert(second.contains(second[k - n - 1]));
    }
    no_comma(input, n + 1);
    assert(input.subrange(n + 1, input.len() as int) =~= second);
    reveal_with_fuel(with_tags, 3);
    match with_tag(with_tag(tags, first)->Ok_0, second) {
        Ok(_) => {},
        Err(_) => {},
    }
}

proof fn no_comma(s: Seq<char>, from: int)
    requires
        0 <= from <= s.len(),
        forall|k: int| from <= k < s.len() ==> s[k] != ',',
    ensures
        index_from(s, ',', from) == s.len(),
    decreases s.len() - from,
{
    if from < s.len() {
        no_comma(s, from + 1);
    }
}

/// The client that is found under an identity has it, and none before it does; none is found
/// only where no client has it.
pub proof fn the_first_client_is_found(clients: Seq<CreationClient>, id: u128, i: int, k: int)
    ensures
        is_client(clients, id, i) ==> 0 <= i < clients.len() && clients[i].id == id,
        is_client(clients, id, i) && 0 <= k < i ==> clients[k].id != id,
        no_client(clients, id) && 0 <= k < clients.len() ==> clients[k].id != id,
        clients.len() == 1 && clients[0].id == id ==> is_client(clients, id, 0),
        clients.len() == 0 ==> no_client(clients, id),
{
}

/// A client is offered by its identity and its name; only an active one can be chosen, and an
/// archived one is named as such.
pub proof fn archived_clients_cannot_be_chosen(choice: Choice, client: CreationClient)
    requires
        offers(choice, client),
    ensures
        choice.value@ == crate::ids::id_text(client.id),
        choice.disabled <==> !client.active,
        client.active ==> choice.label@ == client.name@,
        !client.active ==> choice.label@ == client.name@ + " (archived)"@,
{
}

/// A catalog keeps what it knows, and comes to know the client that was found and nothing else.
pub proof fn catalogs_keep_what_they_know(
    catalog: Seq<CreationClient>,
    found: Seq<CreationClient>,
    id: u128,
    known: Seq<CreationClient>,
    i: int,
)
    requires
        knowing(catalog, found, id, known),
        is_client(found, id, i),
    ensures
        known.len() >= catalog.len(),
        known.take(catalog.len() as int) == catalog,
        exists|k: int| 0 <= k < known.len() && (#[trigger] known[k]).id == id,
        no_client(catalog, id) ==> known.len() == catalog.len() + 1 && known.last() == found[i],
        !no_client(catalog, id) ==> known == catalog,
{
    one_client(found, id, i);
    if no_client(catalog, id) {
        assert(known == catalog.push(found[i]));
        assert(known[catalog.len() as int].id == id);
    } else {
        assert(known == catalog);
        let k = choose|k: int| 0 <= k < catalog.len() && (#[trigger] catalog[k]).id == id;
        assert(known[k].id == id);
    }
    assert(known.take(catalog.len() as int) =~= catalog);
}

// ---- Billing ----

/// A project has its own currency where one was chosen, else that of its client, and none where
/// it has no known client.
pub proof fn projects_take_their_clients_currency(
    form: ProjectForm,
    clients: Seq<CreationClient>,
    i: int,
)
    ensures
        form.currency is Some ==> chosen_currency(form, clients) == Some(form.currency->0@),
        form.currency is None && form.client_id is None ==> chosen_currency(form, clients) is None,
        form.currency is None && form.client_id is Some && is_client(clients, form.client_id->0, i)
            ==> chosen_currency(form, clients) == Some(clients[i].currency@),
        form.currency is None && form.client_id is Some && no_client(clients, form.client_id->0)
            ==> chosen_currency(form, clients) is None,
{
    if form.currency is None && form.client_id is Some && is_client(
        clients,
        form.client_id->0,
        i,
    ) {
        one_client(clients, form.client_id->0, i);
    }
}

/// An old project chooses among the budgets for the whole of it, another one among those that
/// its type allows; in the same order always.
pub proof fn budgets_are_offered(legacy: bool, allowed: Seq<BudgetMode>, mode: BudgetMode)
    ensures
        all_budgets().filter(budget_offered(legacy, allowed)).contains(mode) <==> if legacy {
            mode == BudgetMode::Unset || mode == BudgetMode::TotalHours || mode
                == BudgetMode::TotalFees
        } else {
            allowed.contains(mode)
        },
        all_budgets().len() == 6,
        all_budgets().no_duplicates(),
        all_budgets().first() == BudgetMode::Unset,
{
    filter_holds(all_budgets(), budget_offered(legacy, allowed), mode);
    let all = all_budgets();
    match mode {
        BudgetMode::Unset => {
            assert(all[0] == mode);
        },
        BudgetMode::TotalHours => {
            assert(all[1] == mode);
        },
        BudgetMode::TotalFees => {
            assert(all[2] == mode);
        },
        BudgetMode::HoursPerTask => {
            assert(all[3] == mode);
        },
        BudgetMode::FeesPerTask => {
            assert(all[4] == mode);
        },
        BudgetMode::HoursPerPerson => {
            assert(all[5] == mode);
        },
    }
    assert(all.contains(mode));
}

/// The controls of a budget's alert are shown where there is a budget to watch; the threshold
/// only while the alert is on, and none of an old project.
pub proof fn alerts_are_for_budgets(form: ProjectForm)
    ensures
        form.budget_mode == BudgetMode::Unset ==> forall|field: ProjectFormField|
            !#[trigger] shows_alert(form, field),
        form.rate_mode == RateMode::Legacy ==> forall|field: ProjectFormField|
            !#[trigger] shows_alert(form, field),
        form.budget_mode != BudgetMode::Unset && form.rate_mode != RateMode::Legacy ==> {
            &&& shows_alert(form, ProjectFormField::BudgetAlert)
            &&& shows_alert(form, ProjectFormField::BudgetAlertAt) <==> form.budget_alert
            &&& !shows_alert(form, ProjectFormField::BudgetValue)
        },
{
}

/// The sum of the first `n` amounts of milestones.
pub open spec fn fees_before(milestones: Seq<MilestoneInput>, n: int) -> int
    decreases n,
{
    if n <= 0 {
        0
    } else {
        fees_before(milestones, n - 1) + parsed_cents(milestones[n - 1].amount@)->0
    }
}

/// The fee of milestones is the sum of their amounts. One that is missing, is no amount or is
/// negative leaves no fee, and so does a sum that cannot be held.
pub proof fn milestones_add_up(milestones: Seq<MilestoneInput>, i: int)
    ensures
        fee_sum(milestones) is Some ==> fee_sum(milestones)->0 == fees_before(
            milestones,
            milestones.len() as int,
        ),
        0 <= i < milestones.len() && parsed_cents(milestones[i].amount@) is None ==> fee_sum(
            milestones,
        ) is None,
        0 <= i < milestones.len() && parsed_cents(milestones[i].amount@) is Some && parsed_cents(
            milestones[i].amount@,
        )->0 < 0 ==> fee_sum(milestones) is None,
        (forall|k: int|
            0 <= k < milestones.len() ==> parsed_cents((#[trigger] milestones[k]).amount@) is Some
                && parsed_cents(milestones[k].amount@)->0 >= 0) && fees_before(
            milestones,
            milestones.len() as int,
        ) <= i64::MAX ==> fee_sum(milestones) is Some,
{
    fees_are_amounts(milestones, milestones.len() as int);
    assert(milestones.take(milestones.len() as int) =~= milestones);
    if crate::new_project::billing::amounts_valid(milestones) {
        amounts_are_not_negative(milestones);
    }
}

proof fn fees_are_amounts(milestones: Seq<MilestoneInput>, n: int)
    requires
        0 <= n <= milestones.len(),
    ensures
        fees_before(milestones, n) == crate::new_project::billing::amounts_sum(milestones.take(n)),
    decreases n,
{
    if n > 0 {
        fees_are_amounts(milestones, n - 1);
        assert(milestones.take(n).drop_last() =~= milestones.take(n - 1));
    }
}

proof fn amounts_are_not_negative(milestones: Seq<MilestoneInput>)
    requires
        crate::new_project::billing::amounts_valid(milestones),
    ensures
        crate::new_project::billing::amounts_sum(milestones) >= 0,
    decreases milestones.len(),
{
    if milestones.len() > 0 {
        assert(parsed_cents(milestones[milestones.len() - 1].amount@)->0 >= 0);
        amounts_are_not_negative(milestones.drop_last());
    }
}

/// Typing into a field of a milestone changes that field and leaves the others.
pub proof fn milestones_are_edited_one_field_at_a_time(
    item: MilestoneInput,
    field: MilestoneField,
    value: String,
)
    ensures
        edited(item, field, value).id == item.id,
        edited(item, field, value).name == if field == MilestoneField::Name {
            value
        } else {
            item.name
        },
        edited(item, field, value).due_on == if field == MilestoneField::DueOn {
            value
        } else {
            item.due_on
        },
        edited(item, field, value).amount == if field == MilestoneField::Amount {
            value
        } else {
            item.amount
        },
{
}

/// Removing a milestone leaves the others.
pub proof fn removed_milestones_are_gone(
    milestones: Seq<MilestoneInput>,
    id: u128,
    item: MilestoneInput,
)
    ensures
        milestones.filter(other_than(id)).contains(item) <==> milestones.contains(item) && item.id
            != id,
{
    filter_holds(milestones, other_than(id), item);
}

// ---- Drafts ----

/// Requests that are the same save the same form over the same revision.
pub proof fn same_saves_agree(a: PendingSave, b: PendingSave)
    ensures
        a.same(b) <==> a.revision == b.revision && a.form.same(b.form),
{
}

/// A form is clean exactly where no save is awaited and it holds what was saved; so a change of
/// the name, of the team or of anything else makes it dirty.
pub proof fn drafts_are_dirty_until_saved(state: DraftState, form: ProjectForm)
    ensures
        state.pending is Some ==> state.dirty(form),
        state.pending is None ==> (state.dirty(form) <==> !state.saved.same(form)),
        state.saved.name@ != form.name@ ==> state.dirty(form),
        state.saved.client_id != form.client_id ==> state.dirty(form),
        state.saved.team.len() != form.team.len() ==> state.dirty(form),
        state.saved.tasks.len() != form.tasks.len() ==> state.dirty(form),
        state.saved.milestones.len() != form.milestones.len() ==> state.dirty(form),
        state.awaited() == state.pending,
{
}

/// An acknowledgement is taken exactly where it is of this draft, of the request that is
/// awaited, and of the revision after the one that was saved over.
pub proof fn acknowledgements_are_of_the_next_revision(state: DraftState, saved: DraftSaved)
    ensures
        state.pending is None ==> !state.acknowledges(saved),
        saved.id != state.id ==> !state.acknowledges(saved),
        state.pending is Some && saved.id == state.id ==> (state.acknowledges(saved)
            <==> saved.revision - state.pending->0.revision == 1),
        state.well_formed() && state.acknowledges(saved) ==> saved.revision == state.revision + 1,
        state.pending is None ==> state.well_formed(),
{
}

// ---- The editor ----

/// Requests to save changes are the same where each of their parts is.
pub proof fn same_edits_agree(a: ProjectEditRequest, b: ProjectEditRequest)
    ensures
        a.same(b) <==> a.id == b.id && a.project_id == b.project_id && a.expected_revision
            == b.expected_revision && a.form.same(b.form),
{
}

/// A project that exists has something unsaved where the form is not what was loaded, a new one
/// where its draft is dirty.
pub proof fn unsaved_input_is_told(editor: Editor)
    ensures
        editor.editing() <==> editor.existing is Some,
        editor.existing is Some ==> (editor.unsaved() <==> !editor.existing->0.form.same(
            editor.form,
        )),
        editor.existing is None ==> (editor.unsaved() <==> editor.state.pending is Some
            || !editor.state.saved.same(editor.form)),
        editor.intent is Some ==> editor.is_locked(),
        editor.catalog_busy ==> editor.is_locked(),
        editor.intent is None && !editor.catalog_busy ==> !editor.is_locked(),
        editor.existing is Some ==> (editor.unresolved() <==> editor.pending_edit is Some),
        editor.existing is None && editor.error is None ==> !editor.unresolved(),
        editor.existing is None && editor.error is Some ==> (editor.unresolved()
            <==> editor.invalid_field is None),
{
}

/// One request at a time: nothing is saved while one is under way or after an error, and
/// otherwise what is typed or asked for is.
pub proof fn saves_come_one_at_a_time(editor: Editor)
    ensures
        editor.busy || editor.error is Some ==> !editor.draft_due() && !editor.edit_due(),
        editor.existing is Some ==> !editor.draft_due(),
        editor.existing is None ==> !editor.edit_due(),
        editor.existing is None && !editor.busy && editor.error is None && editor.intent is Some
            ==> editor.draft_due(),
        editor.existing is None && !editor.busy && editor.error is None && !editor.state.saved.same(
            editor.form,
        ) ==> editor.draft_due(),
        editor.existing is None && editor.intent is None && editor.state.pending is None
            && editor.state.saved.same(editor.form) ==> !editor.draft_due(),
        editor.existing is Some && !editor.busy && editor.error is None ==> (editor.edit_due()
            <==> editor.intent == Some(Intent::Save)),
{
}

/// Once all is saved, what was asked is done: a draft becomes a project at its saved revision,
/// the list is opened, or the draft is removed; without anything asked the editor rests.
pub proof fn what_was_asked_is_done(
    editor: Editor,
    action: Option<Intent>,
    form: ProjectForm,
    step: EditorStep,
)
    requires
        editor.completes(action, form, step),
    ensures
        action == Some(Intent::Create) ==> {
            &&& step matches EditorStep::Finalize { id, revision, form: sent }
            &&& id == editor.state.id
            &&& revision == editor.state.revision
            &&& sent.same(form)
        },
        action == Some(Intent::Leave) ==> step is OpenList,
        action == Some(Intent::Discard) && editor.state.revision > 0 ==> {
            &&& step matches EditorStep::RemoveDraft { id, revision }
            &&& id == editor.state.id
            &&& revision == editor.state.revision
        },
        action == Some(Intent::Discard) && editor.state.revision <= 0 ==> step is OpenList,
        action is None || action == Some(Intent::Save) ==> step is Rest,
{
}

/// The editor stays busy exactly while what was asked awaits an answer, and keeps all that was
/// typed and saved.
pub proof fn completed_editors_keep_their_input(editor: Editor, action: Option<Intent>)
    ensures
        ({
            let after = editor.completed(action);
            let waits = action == Some(Intent::Create) || (action == Some(Intent::Discard)
                && editor.state.revision > 0);
            &&& after.form == editor.form
            &&& after.state == editor.state
            &&& after.existing == editor.existing
            &&& after.error == editor.error
            &&& after.invalid_field == editor.invalid_field
            &&& after.round == editor.round
            &&& after.pending_edit == editor.pending_edit
            &&& after.catalog_busy == editor.catalog_busy
            &&& after.discard_open == editor.discard_open
            &&& after.reload_open == editor.reload_open
            &&& waits ==> after == editor
            &&& !waits ==> !after.busy
            &&& !waits && (action == Some(Intent::Leave) || action == Some(Intent::Discard))
                ==> after.intent is None
            &&& action is None || action == Some(Intent::Save) ==> after.intent == editor.intent
        }),
{
}

/// A round saves the draft first where there is something to save, and also where a project is
/// to be created of a draft that was never saved.
pub proof fn drafts_are_saved_before_projects(editor: Editor)
    ensures
        editor.state.pending is Some ==> editor.saves_first(),
        !editor.state.saved.same(editor.form) ==> editor.saves_first(),
        editor.state.revision == 0 && editor.intent == Some(Intent::Create) ==> editor.saves_first(),
        editor.state.pending is None && editor.state.saved.same(editor.form)
            && editor.state.revision != 0 ==> !editor.saves_first(),
        editor.state.pending is None && editor.state.saved.same(editor.form) && editor.intent
            != Some(Intent::Create) ==> !editor.saves_first(),
{
}

/// A failed save keeps what was typed and shows what went wrong. A request that was refused as
/// invalid is given up with what was asked; any other one is kept, to be sent again.
pub proof fn failed_saves_keep_the_input(editor: Editor, failure: Failure)
    ensures
        ({
            let after = editor.after_save_failed(failure);
            &&& after.form == editor.form
            &&& after.error == Some(failure.shown)
            &&& !after.busy
            &&& after.state.saved == editor.state.saved
            &&& after.state.id == editor.state.id
            &&& after.state.revision == editor.state.revision
            &&& after.state.saved_at == editor.state.saved_at
            &&& failure.error.status() == Some(400u16) ==> after.state.pending is None
                && after.intent is None
            &&& failure.error.status() != Some(400u16) ==> after.state.pending
                == editor.state.pending && after.intent == editor.intent
            &&& after.existing == editor.existing
            &&& after.round == editor.round
            &&& after.pending_edit == editor.pending_edit
            &&& after.invalid_field == editor.invalid_field
            &&& after.catalog_busy == editor.catalog_busy
            &&& after.discard_open == editor.discard_open
            &&& after.reload_open == editor.reload_open
        }),
{
}

/// A project that could not be created or changed keeps what was typed. A refusal for certain
/// gives up what was asked and the request; where the outcome is open both stay.
pub proof fn failed_projects_keep_the_input(editor: Editor, error: RequestError, shown: String)
    ensures
        ({
            let created = editor.after_create_failed(error, shown);
            let changed = editor.after_edit_failed(error, shown);
            let refused = error.status() is Some && 400 <= error.status()->0 < 500;
            &&& created.form == editor.form
            &&& created.state == editor.state
            &&& created.error == Some(shown)
            &&& !created.busy
            &&& created.invalid_field == error.correctable()
            &&& created.existing == editor.existing
            &&& created.round == editor.round
            &&& created.catalog_busy == editor.catalog_busy
            &&& created.discard_open == editor.discard_open
            &&& created.reload_open == editor.reload_open
            &&& created.pending_edit == editor.pending_edit
            &&& created.intent == if refused {
                None
            } else {
                editor.intent
            }
            &&& changed.form == editor.form
            &&& changed.state == editor.state
            &&& changed.error == Some(shown)
            &&& !changed.busy
            &&& changed.intent == created.intent
            &&& changed.invalid_field == created.invalid_field
            &&& changed.existing == editor.existing
            &&& changed.round == editor.round
            &&& changed.catalog_busy == editor.catalog_busy
            &&& changed.discard_open == editor.discard_open
            &&& changed.reload_open == editor.reload_open
            &&& changed.pending_edit == if refused {
                None
            } else {
                editor.pending_edit
            }
        }),
{
}

/// The form's own client fits where it is active, and an archived one only where the project was
/// loaded with it.
pub proof fn archived_clients_fit_their_own_projects(editor: Editor, client: CreationClient)
    ensures
        editor.form.client_id != Some(client.id) ==> !editor.fits(client),
        editor.form.client_id == Some(client.id) && client.active ==> editor.fits(client),
        editor.form.client_id == Some(client.id) && !client.active ==> (editor.fits(client)
            <==> editor.existing is Some && editor.existing->0.form.client_id == Some(client.id)),
{
}

/// A time of day is written as hours, minutes and seconds; whole days and parts of a second do
/// not show.
pub proof fn times_are_hours_minutes_and_seconds(
    days: int,
    hour: int,
    minute: int,
    second: int,
    micros: int,
)
    requires
        0 <= hour < 24,
        0 <= minute < 60,
        0 <= second < 60,
        0 <= micros < 1_000_000,
    ensures
        time_text(
            (days * 86_400 + hour * 3600 + minute * 60 + second) * 1_000_000 + micros,
        ) == two_digits(hour) + ":"@ + two_digits(minute) + ":"@ + two_digits(second),
{
    let all = days * 86_400 + hour * 3600 + minute * 60 + second;
    assert((all * 1_000_000 + micros) / 1_000_000 == all);
    assert(all % 86_400 == hour * 3600 + minute * 60 + second);
    let of_day = hour * 3600 + minute * 60 + second;
    assert(of_day / 3600 == hour);
    assert((of_day / 60) % 60 == minute);
    assert(of_day % 60 == second);
}

// ---- Refusals ----

/// A server's error has the status that it came with, and any other has none. A request was
/// refused as invalid by status 400, and for certain by any from 400 to 499.
pub proof fn statuses_tell_refusals(code: u16, message: String, detail: Option<FieldDetail>)
    ensures
        ({
            let error = RequestError::Server { code, message, detail };
            let lost = RequestError::Other { message };
            &&& error.status() == Some(code)
            &&& error.invalid() <==> code == 400
            &&& error.refused() <==> 400 <= code <= 499
            &&& error.text() == message@
            &&& lost.text() == message@
            &&& lost.status() is None
            &&& !lost.invalid() && !lost.refused() && lost.correctable() is None
        }),
{
}

/// The control to correct is the one that the refusal names: any one of an invalid form, a
/// client, task or person that is gone, or the name of a task that is taken. No other error
/// names one.
pub proof fn refusals_name_what_to_correct(code: u16, message: String, detail: FieldDetail)
    ensures
        ({
            let error = RequestError::Server { code, message, detail: Some(detail) };
            let named = named_control(detail);
            &&& error.correctable() is Some ==> error.correctable() == named
            &&& code == 400 ==> error.correctable() == named
            &&& code == 404 && named is Some && (named->0 is Client || named->0 is Task || named->0
                is Person) ==> error.correctable() == named
            &&& code == 404 && named is Some && !(named->0 is Client || named->0 is Task
                || named->0 is Person) ==> error.correctable() is None
            &&& code == 409 && named is Some && named->0 is TaskName ==> error.correctable() == named
            &&& code == 409 && named is Some && named->0 !is TaskName ==> error.correctable()
                is None
            &&& code != 400 && code != 404 && code != 409 ==> error.correctable() is None
            &&& (RequestError::Server { code, message, detail: None }).correctable() is None
        }),
{
}

/// A name stands for one control: different names never stand for the same one, and a control of
/// a row carries the identity of its row.
pub proof fn names_tell_controls(a: Seq<char>, b: Seq<char>, id: u128, other: u128)
    ensures
        form_control(a) is Some && form_control(a) == form_control(b) ==> a == b,
        row_control(a, id) is Some && row_control(a, id) == row_control(b, other) ==> a == b && id
            == other,
        form_control(a) is Some && row_control(b, id) is Some ==> form_control(a) != row_control(
            b,
            id,
        ),
{
}

/// What a control is called where a refusal names it.
pub open spec fn control_name(field: ProjectFormField) -> Seq<char> {
    match field {
        ProjectFormField::Client => "client"@,
        ProjectFormField::Name => "name"@,
        ProjectFormField::Code => "code"@,
        ProjectFormField::StartsOn => "starts_on"@,
        ProjectFormField::EndsOn => "ends_on"@,
        ProjectFormField::Currency => "currency"@,
        ProjectFormField::AdminNotes => "admin_notes"@,
        ProjectFormField::ProjectType => "project_type"@,
        ProjectFormField::RateMode => "rate_mode"@,
        ProjectFormField::ProjectRate => "project_rate"@,
        ProjectFormField::BudgetMode => "budget_mode"@,
        ProjectFormField::BudgetValue => "budget_value"@,
        ProjectFormField::BudgetAlert => "budget_alert"@,
        ProjectFormField::BudgetAlertAt => "budget_alert_at"@,
        ProjectFormField::FeeAmount => "fee_amount"@,
        ProjectFormField::Milestones => "milestones"@,
        ProjectFormField::PaymentTerms => "payment_terms"@,
        ProjectFormField::PurchaseOrder => "purchase_order"@,
        ProjectFormField::Tax => "tax"@,
        ProjectFormField::SecondTaxName => "second_tax_name"@,
        ProjectFormField::SecondTax => "second_tax"@,
        ProjectFormField::Discount => "discount"@,
        ProjectFormField::MilestoneName(_) => "milestone_name"@,
        ProjectFormField::MilestoneDate(_) => "milestone_date"@,
        ProjectFormField::MilestoneAmount(_) => "milestone_amount"@,
        ProjectFormField::TaskName(_) => "task_name"@,
        ProjectFormField::Task(_) => "task"@,
        ProjectFormField::Person(_) => "person"@,
        ProjectFormField::TaskAccess(_) => "task_access"@,
        ProjectFormField::TaskRate(_) => "task_rate"@,
        ProjectFormField::TaskBudget(_) => "task_budget"@,
        ProjectFormField::PersonRate(_) => "person_rate"@,
        ProjectFormField::CostRate(_) => "cost_rate"@,
        ProjectFormField::PersonBudget(_) => "person_budget"@,
    }
}

/// The row that a control stands in, where it is one of a row.
pub open spec fn control_row(field: ProjectFormField) -> Option<u128> {
    match field {
        ProjectFormField::MilestoneName(id) => Some(id),
        ProjectFormField::MilestoneDate(id) => Some(id),
        ProjectFormField::MilestoneAmount(id) => Some(id),
        ProjectFormField::TaskName(id) => Some(id),
        ProjectFormField::Task(id) => Some(id),
        ProjectFormField::Person(id) => Some(id),
        ProjectFormField::TaskAccess(id) => Some(id),
        ProjectFormField::TaskRate(id) => Some(id),
        ProjectFormField::TaskBudget(id) => Some(id),
        ProjectFormField::PersonRate(id) => Some(id),
        ProjectFormField::CostRate(id) => Some(id),
        ProjectFormField::PersonBudget(id) => Some(id),
        _ => None,
    }
}

/// A refusal that names a control of the form by its name is about that control.
pub proof fn controls_are_found_by_name(field: ProjectFormField)
    requires
        control_row(field) is None,
    ensures
        form_control(control_name(field)) == Some(field),
{
    reveal_strlit("client");
    reveal_strlit("name");
    reveal_strlit("code");
    reveal_strlit("starts_on");
    reveal_strlit("ends_on");
    reveal_strlit("currency");
    reveal_strlit("admin_notes");
    reveal_strlit("project_type");
    reveal_strlit("rate_mode");
    reveal_strlit("project_rate");
    reveal_strlit("budget_mode");
    reveal_strlit("budget_value");
    reveal_strlit("budget_alert");
    reveal_strlit("budget_alert_at");
    reveal_strlit("fee_amount");
    reveal_strlit("milestones");
    reveal_strlit("payment_terms");
    reveal_strlit("purchase_order");
    reveal_strlit("tax");
    reveal_strlit("second_tax_name");
    reveal_strlit("second_tax");
    reveal_strlit("discount");
    assert("client"@.len() == 6);
    assert("name"@.len() == 4);
    assert("code"@.len() == 4);
    assert("starts_on"@.len() == 9);
    assert("ends_on"@.len() == 7);
    assert("currency"@.len() == 8);
    assert("admin_notes"@.len() == 11);
    assert("project_type"@.len() == 12);
    assert("rate_mode"@.len() == 9);
    assert("project_rate"@.len() == 12);
    assert("budget_mode"@.len() == 11);
    assert("budget_value"@.len() == 12);
    assert("budget_alert"@.len() == 12);
    assert("budget_alert_at"@.len() == 15);
    assert("fee_amount"@.len() == 10);
    assert("milestones"@.len() == 10);
    assert("payment_terms"@.len() == 13);
    assert("purchase_order"@.len() == 14);
    assert("tax"@.len() == 3);
    assert("second_tax_name"@.len() == 15);
    assert("second_tax"@.len() == 10);
    assert("discount"@.len() == 8);
    assert("name"@[0] != "code"@[0]);
    assert("starts_on"@[0] != "rate_mode"@[0]);
    assert("currency"@[0] != "discount"@[0]);
    assert("admin_notes"@[0] != "budget_mode"@[0]);
    assert("project_type"@[8] != "project_rate"@[8]);
    assert("project_type"@[0] != "budget_value"@[0]);
    assert("project_type"@[0] != "budget_alert"@[0]);
    assert("project_rate"@[0] != "budget_value"@[0]);
    assert("project_rate"@[0] != "budget_alert"@[0]);
    assert("budget_value"@[7] != "budget_alert"@[7]);
    assert("budget_alert_at"@[0] != "second_tax_name"@[0]);
    assert("fee_amount"@[0] != "milestones"@[0]);
    assert("fee_amount"@[0] != "second_tax"@[0]);
    assert("milestones"@[0] != "second_tax"@[0]);
}

/// A refusal that names a control of a row by its name and its row is about that control.
pub proof fn row_controls_are_found_by_name(field: ProjectFormField)
    requires
        control_row(field) is Some,
    ensures
        row_control(control_name(field), control_row(field)->0) == Some(field),
{
    reveal_strlit("milestone_name");
    reveal_strlit("milestone_date");
    reveal_strlit("milestone_amount");
    reveal_strlit("task_name");
    reveal_strlit("task");
    reveal_strlit("person");
    reveal_strlit("task_access");
    reveal_strlit("task_rate");
    reveal_strlit("task_budget");
    reveal_strlit("person_rate");
    reveal_strlit("cost_rate");
    reveal_strlit("person_budget");
    assert("milestone_name"@.len() == 14);
    assert("milestone_date"@.len() == 14);
    assert("milestone_amount"@.len() == 16);
    assert("task_name"@.len() == 9);
    assert("task"@.len() == 4);
    assert("person"@.len() == 6);
    assert("task_access"@.len() == 11);
    assert("task_rate"@.len() == 9);
    assert("task_budget"@.len() == 11);
    assert("person_rate"@.len() == 11);
    assert("cost_rate"@.len() == 9);
    assert("person_budget"@.len() == 13);
    assert("milestone_name"@[10] != "milestone_date"@[10]);
    assert("task_name"@[5] != "task_rate"@[5]);
    assert("task_name"@[0] != "cost_rate"@[0]);
    assert("task_access"@[5] != "task_budget"@[5]);
    assert("task_access"@[0] != "person_rate"@[0]);
    assert("task_rate"@[0] != "cost_rate"@[0]);
    assert("task_budget"@[0] != "person_rate"@[0]);
}

/// A refusal about a row names a control of that row, and one that names no row none.
pub proof fn refusals_name_rows_by_identity(name: String, row: String)
    ensures
        parsed_id(row@) is None ==> named_control(FieldDetail::Row { name, row }) is None,
        parsed_id(row@) is Some ==> named_control(FieldDetail::Row { name, row }) == row_control(
            name@,
            parsed_id(row@)->0,
        ),
        named_control(FieldDetail::Form { name }) == form_control(name@),
        named_control(FieldDetail::Other { json: row }) is None,
{
}

/// A message stands at the control that it is about and at no other.
pub proof fn messages_stand_at_their_control(
    current: Option<ProjectFormField>,
    field: ProjectFormField,
    id: Seq<char>,
)
    ensures
        error_at(Some(field), field, id) == Some(id),
        error_at(current, field, id) is Some ==> current == Some(field),
        error_at(None, field, id) is None,
{
}

/// A control of a row is found on the page by the identity of its row.
pub proof fn rows_are_found_by_identity(id: u128)
    ensures
        control_id(ProjectFormField::MilestoneName(id)) == "np-milestone-name-"@ + id_text(id),
        control_id(ProjectFormField::MilestoneDate(id)) == "np-milestone-date-"@ + id_text(id),
        control_id(ProjectFormField::MilestoneAmount(id)) == "np-milestone-amount-"@ + id_text(id),
        control_id(ProjectFormField::TaskName(id)) == control_id(ProjectFormField::Task(id)),
        control_id(ProjectFormField::TaskRate(id)) == "np-task-rate-"@ + id_text(id),
        control_id(ProjectFormField::TaskBudget(id)) == "np-task-budget-"@ + id_text(id),
        control_id(ProjectFormField::TaskAccess(id)) == "np-task-access-"@ + id_text(id),
        control_id(ProjectFormField::PersonRate(id)) == "np-person-rate-"@ + id_text(id),
        control_id(ProjectFormField::CostRate(id)) == "np-cost-rate-"@ + id_text(id),
        control_id(ProjectFormField::PersonBudget(id)) == "np-person-budget-"@ + id_text(id),
        control_id(ProjectFormField::Person(id)) == "np-person-remove-"@ + id_text(id),
        control_id(ProjectFormField::Task(id)) == "np-task-remove-"@ + id_text(id),
{
}

// ---- Choices ----

/// What the choices lack of a project's tasks is each task of the catalog that it has and that
/// they do not know; a new task is never lacked.
pub proof fn lacked_tasks_are_unknown(
    catalog: Seq<CreationTask>,
    tasks: Seq<ProjectTaskInput>,
    id: u128,
)
    ensures
        lacked_tasks(catalog, tasks).contains(id) <==> (exists|i: int|
            0 <= i < tasks.len() && (#[trigger] tasks[i]).source == (TaskSource::Existing {
                task_id: id,
            })) && forall|k: int| 0 <= k < catalog.len() ==> (#[trigger] catalog[k]).id != id,
    decreases tasks.len(),
{
    if tasks.len() > 0 {
        let before = tasks.drop_last();
        lacked_tasks_are_unknown(catalog, before, id);
        let lacked = lacked_tasks(catalog, before);
        let last = tasks.last();
        if exists|i: int|
            0 <= i < before.len() && (#[trigger] before[i]).source == (TaskSource::Existing {
                task_id: id,
            }) {
            let i = choose|i: int|
                0 <= i < before.len() && (#[trigger] before[i]).source == (TaskSource::Existing {
                    task_id: id,
                });
            assert(tasks[i].source == TaskSource::Existing { task_id: id });
        }
        if exists|i: int|
            0 <= i < tasks.len() && (#[trigger] tasks[i]).source == (TaskSource::Existing {
                task_id: id,
            }) {
            let i = choose|i: int|
                0 <= i < tasks.len() && (#[trigger] tasks[i]).source == (TaskSource::Existing {
                    task_id: id,
                });
            if i < before.len() {
                assert(before[i].source == TaskSource::Existing { task_id: id });
            }
        }
        if last.source == (TaskSource::Existing { task_id: id }) {
            assert(tasks[tasks.len() - 1].source == TaskSource::Existing { task_id: id });
        }
        match crate::new_project::options::lacked_task(catalog, last) {
            Some(other) => {
                pushed_id(lacked, other, id);
            },
            None => {},
        }
    }
}

/// What the choices lack of a project's people is each of its people whom they do not know.
pub proof fn lacked_people_are_unknown(
    catalog: Seq<CreationPerson>,
    team: Seq<ProjectMemberInput>,
    id: u128,
)
    ensures
        lacked_people(catalog, team).contains(id) <==> (exists|i: int|
            0 <= i < team.len() && (#[trigger] team[i]).user_id == id) && forall|k: int|
            0 <= k < catalog.len() ==> (#[trigger] catalog[k]).id != id,
    decreases team.len(),
{
    if team.len() > 0 {
        let before = team.drop_last();
        lacked_people_are_unknown(catalog, before, id);
        let last = team.last();
        if exists|i: int| 0 <= i < before.len() && (#[trigger] before[i]).user_id == id {
            let i = choose|i: int| 0 <= i < before.len() && (#[trigger] before[i]).user_id == id;
            assert(team[i].user_id == id);
        }
        if exists|i: int| 0 <= i < team.len() && (#[trigger] team[i]).user_id == id {
            let i = choose|i: int| 0 <= i < team.len() && (#[trigger] team[i]).user_id == id;
            if i < before.len() {
                assert(before[i].user_id == id);
            }
        }
        if last.user_id == id {
            assert(team[team.len() - 1].user_id == id);
        }
        pushed_id(lacked_people(catalog, before), last.user_id, id);
    }
}

proof fn pushed_id(ids: Seq<u128>, id: u128, other: u128)
    ensures
        ids.push(id).contains(other) <==> ids.contains(other) || other == id,
{
    let more = ids.push(id);
    assert(more[ids.len() as int] == id);
    if ids.contains(other) {
        let i = choose|i: int| 0 <= i < ids.len() && ids[i] == other;
        assert(more[i] == other);
    }
    if more.contains(other) {
        let i = choose|i: int| 0 <= i < more.len() && more[i] == other;
        if i < ids.len() {
            assert(ids[i] == other);
        }
    }
}

/// A task that is put in place of what the choices knew of it is known as given; the tasks with
/// other identities stay.
pub proof fn replaced_tasks_are_known_as_given(
    known: Seq<CreationTask>,
    tasks: Seq<CreationTask>,
    task: CreationTask,
)
    ensures
        replaced_tasks(known, tasks).contains(task) ==> tasks.contains(task) || known.contains(task),
        known.contains(task) && (forall|i: int|
            0 <= i < tasks.len() ==> (#[trigger] tasks[i]).id != task.id) ==> replaced_tasks(
            known,
            tasks,
        ).contains(task),
        (exists|i: int| 0 <= i < tasks.len() && (#[trigger] tasks[i]).id == task.id)
            && replaced_tasks(known, tasks).contains(task) ==> tasks.contains(task),
        tasks.len() > 0 ==> replaced_tasks(known, tasks).last() == tasks.last(),
    decreases tasks.len(),
{
    if tasks.len() > 0 {
        let before = tasks.drop_last();
        let last = tasks.last();
        replaced_tasks_are_known_as_given(known, before, task);
        let inner = replaced_tasks(known, before);
        let kept = inner.filter(other_task(last.id));
        let all = kept.push(last);
        filter_holds(inner, other_task(last.id), task);
        assert(all[kept.len() as int] == last);
        assert(tasks[tasks.len() - 1] == last);
        assert(tasks.contains(last));
        if before.contains(task) {
            let i = choose|i: int| 0 <= i < before.len() && before[i] == task;
            assert(tasks[i] == task);
        }
        if all.contains(task) {
            let i = choose|i: int| 0 <= i < all.len() && all[i] == task;
            if i < kept.len() {
                assert(kept[i] == task);
                assert(kept.contains(task));
                if exists|k: int| 0 <= k < tasks.len() && (#[trigger] tasks[k]).id == task.id {
                    let k = choose|k: int|
                        0 <= k < tasks.len() && (#[trigger] tasks[k]).id == task.id;
                    if k < before.len() {
                        assert(before[k].id == task.id);
                    }
                }
            }
        }
        if kept.contains(task) {
            let i = choose|i: int| 0 <= i < kept.len() && kept[i] == task;
            assert(all[i] == task);
        }
        if forall|i: int| 0 <= i < tasks.len() ==> (#[trigger] tasks[i]).id != task.id {
            assert forall|i: int| 0 <= i < before.len() implies (#[trigger] before[i]).id
                != task.id by {
                assert(tasks[i].id != task.id);
            }
        }
    }
}

/// A person who is put in place of what the choices knew of them is known as given; the people
/// with other identities stay.
pub proof fn replaced_people_are_known_as_given(
    known: Seq<CreationPerson>,
    people: Seq<CreationPerson>,
    person: CreationPerson,
)
    ensures
        replaced_people(known, people).contains(person) ==> people.contains(person)
            || known.contains(person),
        known.contains(person) && (forall|i: int|
            0 <= i < people.len() ==> (#[trigger] people[i]).id != person.id) ==> replaced_people(
            known,
            people,
        ).contains(person),
        (exists|i: int| 0 <= i < people.len() && (#[trigger] people[i]).id == person.id)
            && replaced_people(known, people).contains(person) ==> people.contains(person),
        people.len() > 0 ==> replaced_people(known, people).last() == people.last(),
    decreases people.len(),
{
    if people.len() > 0 {
        let before = people.drop_last();
        let last = people.last();
        replaced_people_are_known_as_given(known, before, person);
        let inner = replaced_people(known, before);
        let kept = inner.filter(other_person(last.id));
        let all = kept.push(last);
        filter_holds(inner, other_person(last.id), person);
        assert(all[kept.len() as int] == last);
        assert(people[people.len() - 1] == last);
        assert(people.contains(last));
        if before.contains(person) {
            let i = choose|i: int| 0 <= i < before.len() && before[i] == person;
            assert(people[i] == person);
        }
        if all.contains(person) {
            let i = choose|i: int| 0 <= i < all.len() && all[i] == person;
            if i < kept.len() {
                assert(kept[i] == person);
                assert(kept.contains(person));
                if exists|k: int| 0 <= k < people.len() && (#[trigger] people[k]).id == person.id {
                    let k = choose|k: int|
                        0 <= k < people.len() && (#[trigger] people[k]).id == person.id;
                    if k < before.len() {
                        assert(before[k].id == person.id);
                    }
                }
            }
        }
        if kept.contains(person) {
            let i = choose|i: int| 0 <= i < kept.len() && kept[i] == person;
            assert(all[i] == person);
        }
        if forall|i: int| 0 <= i < people.len() ==> (#[trigger] people[i]).id != person.id {
            assert forall|i: int| 0 <= i < before.len() implies (#[trigger] before[i]).id
                != person.id by {
                assert(people[i].id != person.id);
            }
        }
    }
}

/// Putting a client in place of what the choices knew of it leaves the other clients.
pub proof fn other_clients_stay(known: Seq<CreationClient>, id: u128, client: CreationClient)
    ensures
        known.filter(other_client(id)).contains(client) <==> known.contains(client) && client.id
            != id,
{
    filter_holds(known, other_client(id), client);
}

// ---- Tasks ----

/// The task of a catalog under an identity is the first that has it; there is none exactly
/// where no task has it.
pub proof fn the_first_task_is_found(catalog: Seq<CreationTask>, id: u128, i: int)
    ensures
        no_task(catalog, id) <==> task_with(catalog, id) is None,
        no_task(catalog, id) && 0 <= i < catalog.len() ==> catalog[i].id != id,
        0 <= i < catalog.len() && catalog[i].id == id && (forall|k: int|
            0 <= k < i ==> (#[trigger] catalog[k]).id != id) ==> task_with(catalog, id) == Some(
            catalog[i],
        ),
        task_with(catalog, id) is Some ==> task_with(catalog, id)->0.id == id && catalog.contains(
            task_with(catalog, id)->0,
        ),
    decreases catalog.len(),
{
    if catalog.len() > 0 {
        let rest = catalog.skip(1);
        the_first_task_is_found(rest, id, i - 1);
        if catalog[0].id == id {
            assert(!no_task(catalog, id));
            assert(catalog.contains(catalog[0]));
        } else {
            if no_task(rest, id) {
                assert forall|k: int| 0 <= k < catalog.len() implies (#[trigger] catalog[k]).id
                    != id by {
                    if k > 0 {
                        assert(rest[k - 1].id != id);
                    }
                }
            } else {
                let k = choose|k: int| 0 <= k < rest.len() && (#[trigger] rest[k]).id == id;
                assert(catalog[k + 1].id == id);
            }
            if 0 < i < catalog.len() && catalog[i].id == id && (forall|k: int|
                0 <= k < i ==> (#[trigger] catalog[k]).id != id) {
                assert(rest[i - 1] == catalog[i]);
                assert forall|k: int| 0 <= k < i - 1 implies (#[trigger] rest[k]).id != id by {
                    assert(catalog[k + 1].id != id);
                }
            }
            if task_with(rest, id) is Some {
                let found = task_with(rest, id)->0;
                let k = choose|k: int| 0 <= k < rest.len() && rest[k] == found;
                assert(catalog[k + 1] == found);
            }
        }
    }
}

/// A task is refused exactly where there are five hundred already or where one from its source
/// is there; any other one can be added.
pub proof fn tasks_are_refused_when_there(
    tasks: Seq<ProjectTaskInput>,
    source: TaskSource,
)
    ensures
        refusal(tasks, source) is Some <==> tasks.len() >= 500 || exists|i: int|
            0 <= i < tasks.len() && (#[trigger] tasks[i]).source.same(source),
        tasks.len() >= 500 ==> refusal(tasks, source) == Some(
            "A project can have at most 500 tasks."@,
        ),
        source is Existing ==> (has_source(tasks, source) <==> exists|i: int|
            0 <= i < tasks.len() && (#[trigger] tasks[i]).source is Existing
                && tasks[i].source->task_id == source->task_id),
        source is New ==> (has_source(tasks, source) <==> exists|i: int|
            0 <= i < tasks.len() && (#[trigger] tasks[i]).source is New && tasks[i].source->name@
                == source->name@),
{
    if has_source(tasks, source) {
        let i = choose|i: int| 0 <= i < tasks.len() && (#[trigger] tasks[i]).source.same(source);
        assert(tasks[i].source.same(source));
    }
    if source is Existing && (exists|i: int|
        0 <= i < tasks.len() && (#[trigger] tasks[i]).source is Existing && tasks[i].source->task_id
            == source->task_id) {
        let i = choose|i: int|
            0 <= i < tasks.len() && (#[trigger] tasks[i]).source is Existing
                && tasks[i].source->task_id == source->task_id;
        assert(tasks[i].source.same(source));
    }
    if source is New && (exists|i: int|
        0 <= i < tasks.len() && (#[trigger] tasks[i]).source is New && tasks[i].source->name@
            == source->name@) {
        let i = choose|i: int|
            0 <= i < tasks.len() && (#[trigger] tasks[i]).source is New && tasks[i].source->name@
                == source->name@;
        assert(tasks[i].source.same(source));
    }
}

/// A task that was just added is open to everyone, without a rate or a budget of its own. One of
/// the catalog is billed as the catalog says, a new one always.
pub proof fn added_tasks_start_open(
    task: ProjectTaskInput,
    catalog: Seq<CreationTask>,
    source: TaskSource,
    i: int,
)
    requires
        just_added(task, catalog, source),
    ensures
        task.source == source,
        task.access is Everyone,
        task.rate@ == Seq::<char>::empty(),
        task.budget@ == Seq::<char>::empty(),
        source is New ==> task.billable,
        source is Existing && 0 <= i < catalog.len() && catalog[i].id == source->task_id && (
        forall|k: int| 0 <= k < i ==> (#[trigger] catalog[k]).id != source->task_id)
            ==> task.billable == catalog[i].billable,
        source is Existing && (forall|k: int|
            0 <= k < catalog.len() ==> (#[trigger] catalog[k]).id != source->task_id)
            ==> !task.billable,
{
    if source is Existing {
        the_first_task_is_found(catalog, source->task_id, i);
    }
}

/// Adding a task puts it at the end, or nothing changes and it is said why.
pub proof fn tasks_are_added_at_the_end(
    before: Seq<ProjectTaskInput>,
    after: Seq<ProjectTaskInput>,
    catalog: Seq<CreationTask>,
    source: TaskSource,
    error: Option<String>,
)
    requires
        added_or_refused(before, after, catalog, source, error),
    ensures
        error is Some <==> before.len() >= 500 || has_source(before, source),
        error is Some ==> after == before,
        error is None ==> after.len() == before.len() + 1 && after.drop_last() == before
            && after.last().source == source,
{
    if error is None {
        assert(after.drop_last() =~= before);
    }
}

/// A catalog that comes to know a task keeps what it knew.
pub proof fn catalogs_learn_tasks_once(catalog: Seq<CreationTask>, task: CreationTask)
    ensures
        !no_task(with_task(catalog, task), task.id),
        no_task(catalog, task.id) ==> with_task(catalog, task) == catalog.push(task),
        !no_task(catalog, task.id) ==> with_task(catalog, task) == catalog,
{
    if no_task(catalog, task.id) {
        let more = catalog.push(task);
        assert(more[catalog.len() as int].id == task.id);
    }
}

/// A name stands for the first task that was found under it, whatever the case, and for a new
/// task where none was; an empty one or one of more than two hundred characters for none.
pub proof fn names_stand_for_tasks(
    named: NamedTask,
    found: Seq<CreationTask>,
    name: Seq<char>,
)
    requires
        named.is_for(found, name_keys(found), name, lowercase(name)),
    ensures
        named is Unnamed <==> name.len() == 0 || name.len() > 200,
        named is Known ==> exists|i: int|
            0 <= i < found.len() && lowercase((#[trigger] found[i]).name@) == lowercase(name)
                && named->task == found[i] && forall|k: int|
                0 <= k < i ==> lowercase((#[trigger] found[k]).name@) != lowercase(name),
        named is Fresh ==> named->name@ == name && forall|k: int|
            0 <= k < found.len() ==> lowercase((#[trigger] found[k]).name@) != lowercase(name),
{
    let keys = name_keys(found);
    if named is Known {
        let i = choose|i: int| #[trigger]
            crate::lists::is_first_text(keys, lowercase(name), i) && named->task == found[i];
        assert(keys[i] == lowercase(found[i].name@));
        assert forall|k: int| 0 <= k < i implies lowercase((#[trigger] found[k]).name@)
            != lowercase(name) by {
            assert(keys[k] != lowercase(name));
        }
        assert(lowercase(found[i].name@) == lowercase(name));
    }
    if named is Fresh {
        assert forall|k: int| 0 <= k < found.len() implies lowercase((#[trigger] found[k]).name@)
            != lowercase(name) by {
            assert(keys[k] == lowercase(found[k].name@));
            assert(keys.contains(keys[k]));
        }
    }
}

/// The task that a change is for has the identity, and none before it does.
pub proof fn the_first_row_is_changed(
    tasks: Seq<ProjectTaskInput>,
    team: Seq<ProjectMemberInput>,
    id: u128,
    i: int,
    k: int,
)
    ensures
        is_task(tasks, id, i) ==> 0 <= i < tasks.len() && tasks[i].id == id,
        is_task(tasks, id, i) && 0 <= k < i ==> tasks[k].id != id,
        0 < tasks.len() && tasks[0].id == id ==> is_task(tasks, id, 0),
        is_member(team, id, i) ==> 0 <= i < team.len() && team[i].user_id == id,
        is_member(team, id, i) && 0 <= k < i ==> team[k].user_id != id,
        0 < team.len() && team[0].user_id == id ==> is_member(team, id, 0),
{
}

/// A change of a task is to one thing of it: whether it is billed, its rate, its budget or its
/// access.
pub proof fn tasks_are_edited_one_thing_at_a_time(task: ProjectTaskInput, edit: TaskEdit)
    ensures
        ({
            let after = crate::new_project::tasks::edited(task, edit);
            &&& after.id == task.id
            &&& after.source == task.source
            &&& edit is ToggleBillable ==> after.billable == !task.billable
            &&& edit !is ToggleBillable ==> after.billable == task.billable
            &&& edit is Rate ==> after.rate == edit->Rate_value
            &&& edit !is Rate ==> after.rate == task.rate
            &&& edit is Budget ==> after.budget == edit->Budget_value
            &&& edit !is Budget ==> after.budget == task.budget
            &&& edit is Access ==> after.access == edit->access
            &&& edit !is Access ==> after.access == task.access
        }),
{
}

/// Ticking a person changes whether they have access, and nobody else's access.
pub proof fn ticks_are_of_one_person(user_ids: Seq<u128>, id: u128, other: u128)
    ensures
        toggled(user_ids, id).contains(id) <==> !user_ids.contains(id),
        other != id ==> (toggled(user_ids, id).contains(other) <==> user_ids.contains(other)),
{
    filter_holds(user_ids, not_id(id), id);
    filter_holds(user_ids, not_id(id), other);
    pushed_id(user_ids, id, id);
    pushed_id(user_ids, id, other);
}

// ---- The team ----

/// Who joins a team is each of the given people whom it lacks, once.
pub proof fn those_who_lack_join(team: Seq<u128>, ids: Seq<u128>, id: u128)
    ensures
        lacking(team, ids).contains(id) <==> ids.contains(id) && !team.contains(id),
    decreases ids.len(),
{
    if ids.len() > 0 {
        let before = ids.drop_last();
        those_who_lack_join(team, before, id);
        pushed_id(lacking(team, before), ids.last(), id);
        assert(ids =~= before.push(ids.last()));
        pushed_id(before, ids.last(), id);
    }
}

/// Someone who joins is no manager and has no rates and no budget of their own; those who were
/// there stay as they are.
pub proof fn newcomers_have_nothing_of_their_own(
    before: Seq<ProjectMemberInput>,
    ids: Seq<u128>,
    after: Seq<ProjectMemberInput>,
    i: int,
)
    requires
        joined(before, ids, after),
    ensures
        after.len() == before.len() + ids.len(),
        0 <= i < before.len() ==> after[i] == before[i],
        before.len() <= i < after.len() ==> {
            &&& after[i].user_id == ids[i - before.len()]
            &&& !after[i].manager
            &&& after[i].billable_rate@ == Seq::<char>::empty()
            &&& after[i].cost_rate@ == Seq::<char>::empty()
            &&& after[i].budget@ == Seq::<char>::empty()
        },
{
    if before.len() <= i < after.len() {
        assert(is_newcomer(after[i], ids[i - before.len()]));
    }
}

/// The identities of a team and of people are theirs, one for each.
pub proof fn identities_are_their_own(
    team: Seq<ProjectMemberInput>,
    people: Seq<CreationPerson>,
    i: int,
)
    ensures
        member_ids(team).len() == team.len(),
        0 <= i < team.len() ==> member_ids(team)[i] == team[i].user_id,
        person_ids(people).len() == people.len(),
        0 <= i < people.len() ==> person_ids(people)[i] == people[i].id,
{
}

/// Who leaves a team is gone from it, and the others stay.
pub proof fn only_one_leaves(team: Seq<ProjectMemberInput>, id: u128, member: ProjectMemberInput)
    ensures
        team.filter(stays(id)).contains(member) <==> team.contains(member) && member.user_id != id,
{
    filter_holds(team, stays(id), member);
}

/// Who leaves a team loses the access to its tasks by name; the others keep theirs, a task that
/// was open to everyone stays so, and a restricted one stays restricted.
pub proof fn others_keep_their_access(
    before: Seq<ProjectTaskInput>,
    id: u128,
    after: Seq<ProjectTaskInput>,
    i: int,
    other: u128,
)
    requires
        tasks_without(before, id, after),
        0 <= i < before.len(),
    ensures
        after.len() == before.len(),
        before[i].access is Everyone <==> after[i].access is Everyone,
        before[i].access is Restricted ==> (after[i].access->user_ids@.contains(other)
            <==> before[i].access->user_ids@.contains(other) && other != id),
        after[i].id == before[i].id,
        after[i].source == before[i].source,
        after[i].billable == before[i].billable,
        after[i].rate == before[i].rate,
        after[i].budget == before[i].budget,
{
    assert(access_without(before[i].access, id, after[i].access));
    if before[i].access is Restricted {
        filter_holds(before[i].access->user_ids@, not_id(id), other);
    }
}

/// A catalog that comes to know people knows each of them, keeps what it knew and learns
/// nobody else.
pub proof fn catalogs_learn_people(
    catalog: Seq<CreationPerson>,
    people: Seq<CreationPerson>,
    person: CreationPerson,
    i: int,
)
    ensures
        0 <= i < people.len() ==> !nobody(with_people(catalog, people), people[i].id),
        with_people(catalog, people).len() >= catalog.len(),
        with_people(catalog, people).take(catalog.len() as int) == catalog,
        with_people(catalog, people).contains(person) ==> catalog.contains(person)
            || people.contains(person),
    decreases people.len(),
{
    if people.len() == 0 {
        assert(catalog.take(catalog.len() as int) =~= catalog);
    } else {
        let before = with_people(catalog, people.drop_last());
        let last = people.last();
        catalogs_learn_people(catalog, people.drop_last(), person, i);
        let all = with_people(catalog, people);
        if nobody(before, last.id) {
            assert(all[before.len() as int].id == last.id);
            assert(all.take(catalog.len() as int) =~= before.take(catalog.len() as int));
        }
        if 0 <= i < people.len() - 1 {
            assert(people.drop_last()[i] == people[i]);
            let k = choose|k: int| 0 <= k < before.len() && (#[trigger] before[k]).id == people[i].id;
            assert(all[k].id == people[i].id);
        }
        if all.contains(person) {
            let k = choose|k: int| 0 <= k < all.len() && all[k] == person;
            if k < before.len() {
                assert(before[k] == person);
                assert(before.contains(person));
                if people.drop_last().contains(person) {
                    let m = choose|m: int|
                        0 <= m < people.drop_last().len() && people.drop_last()[m] == person;
                    assert(people[m] == person);
                }
            } else {
                assert(people[people.len() - 1] == person);
            }
        }
    }
}

/// The person who is found under an identity has it, and none before does; none is found only
/// where nobody has it.
pub proof fn the_first_person_is_found(catalog: Seq<CreationPerson>, id: u128, i: int, k: int)
    ensures
        is_person(catalog, id, i) ==> 0 <= i < catalog.len() && catalog[i].id == id,
        is_person(catalog, id, i) && 0 <= k < i ==> catalog[k].id != id,
        nobody(catalog, id) && 0 <= k < catalog.len() ==> catalog[k].id != id,
        0 < catalog.len() && catalog[0].id == id ==> is_person(catalog, id, 0),
        catalog.len() == 0 ==> nobody(catalog, id),
{
}

/// A change of someone's row is to one thing of it: whether they manage, a rate or the budget.
pub proof fn people_are_edited_one_thing_at_a_time(member: ProjectMemberInput, edit: MemberEdit)
    ensures
        ({
            let after = crate::new_project::team::edited(member, edit);
            &&& after.user_id == member.user_id
            &&& edit is ToggleManager ==> after.manager == !member.manager
            &&& edit !is ToggleManager ==> after.manager == member.manager
            &&& edit is BillableRate ==> after.billable_rate == edit->BillableRate_value
            &&& edit !is BillableRate ==> after.billable_rate == member.billable_rate
            &&& edit is CostRate ==> after.cost_rate == edit->CostRate_value
            &&& edit !is CostRate ==> after.cost_rate == member.cost_rate
            &&& edit is Budget ==> after.budget == edit->Budget_value
            &&& edit !is Budget ==> after.budget == member.budget
        }),
{
}

/// A budget and a day of the month are called by their own words in their fields.
pub proof fn fields_hold_the_words_of_choices(mode: BudgetMode, day: MonthlyFeeDay)
    ensures
        budget_word(mode) == "none"@ <==> mode == BudgetMode::Unset,
        budget_word(mode) == "total_hours"@ <==> mode == BudgetMode::TotalHours,
        budget_word(mode) == "total_fees"@ <==> mode == BudgetMode::TotalFees,
        budget_word(mode) == "hours_per_task"@ <==> mode == BudgetMode::HoursPerTask,
        budget_word(mode) == "fees_per_task"@ <==> mode == BudgetMode::FeesPerTask,
        budget_word(mode) == "hours_per_person"@ <==> mode == BudgetMode::HoursPerPerson,
        day_word(day) == "first"@ <==> day == MonthlyFeeDay::First,
        day_word(day) == "fifteenth"@ <==> day == MonthlyFeeDay::Fifteenth,
        day_word(day) == "last"@ <==> day == MonthlyFeeDay::Last,
{
    reveal_strlit("none");
    reveal_strlit("total_hours");
    reveal_strlit("total_fees");
    reveal_strlit("hours_per_task");
    reveal_strlit("fees_per_task");
    reveal_strlit("hours_per_person");
    reveal_strlit("first");
    reveal_strlit("fifteenth");
    reveal_strlit("last");
    assert("none"@.len() == 4 && "total_hours"@.len() == 11 && "total_fees"@.len() == 10
        && "hours_per_task"@.len() == 14 && "fees_per_task"@.len() == 13
        && "hours_per_person"@.len() == 16);
    assert("first"@.len() == 5 && "fifteenth"@.len() == 9 && "last"@.len() == 4);
}

/// An unknown word stands for the first day of the month, and the others for their own.
pub proof fn unknown_days_are_the_first(word: Seq<char>)
    ensures
        word_day(word) == MonthlyFeeDay::Fifteenth <==> word == "fifteenth"@,
        word_day(word) == MonthlyFeeDay::Last <==> word == "last"@,
{
    reveal_strlit("fifteenth");
    reveal_strlit("last");
    assert("fifteenth"@.len() == 9 && "last"@.len() == 4);
}

/// Any name of one to two hundred characters that no task has stands for a new task.
pub proof fn unknown_names_are_new_tasks(fresh: String, found: Seq<CreationTask>)
    requires
        0 < fresh@.len() <= 200,
        forall|k: int|
            0 <= k < found.len() ==> lowercase((#[trigger] found[k]).name@) != lowercase(fresh@),
    ensures
        (NamedTask::Fresh { name: fresh }).is_for(
            found,
            name_keys(found),
            fresh@,
            lowercase(fresh@),
        ),
{
    let keys = name_keys(found);
    if keys.contains(lowercase(fresh@)) {
        let k = choose|k: int| 0 <= k < keys.len() && keys[k] == lowercase(fresh@);
        assert(keys[k] == lowercase(found[k].name@));
    }
}

/// A refused task leaves the others as they are and says why; any other one is added behind
/// them without a word.
pub proof fn refused_tasks_are_told(
    before: Seq<ProjectTaskInput>,
    after: Seq<ProjectTaskInput>,
    catalog: Seq<CreationTask>,
    source: TaskSource,
    error: Option<String>,
)
    requires
        added_or_refused(before, after, catalog, source, error),
    ensures
        before.len() >= 500 ==> after == before && error is Some && error->0@
            == "A project can have at most 500 tasks."@,
        before.len() < 500 && has_source(before, source) ==> after == before && error is Some
            && error->0@ == "This "@ + "task"@ + " is already selected."@,
        before.len() < 500 && !has_source(before, source) ==> error is None && after.len()
            == before.len() + 1 && after.drop_last() == before,
{
    if before.len() < 500 && !has_source(before, source) {
        assert(before.push(after.last()).drop_last() =~= before);
    }
}

} // verus!
