//! What the projects list promises: what is shown of budgets, which projects are listed and in
//! what order.

use crate::date::month_start;
use crate::date::one_month_on;
use crate::date::Date;
use crate::date::FIRST_DAY;
use crate::ids::id_text;
use crate::lists::filter_holds;
use crate::lists::opt_view;
use crate::money::cents_text;
use crate::money::parsed_cents;
use crate::money::share_used;
use crate::order::comes_first;
use crate::order::sorted_order;
use crate::order::sorted_order_exists;
use crate::order::text_precedes;
use crate::order::SortKey;
use crate::order::TextPair;
use crate::projects::budget::budgets_of;
use crate::projects::budget::checked_sum;
use crate::projects::budget::consumed_of;
use crate::projects::budget::figure_text;
use crate::projects::budget::hours_text;
use crate::projects::budget::hundredth_hours;
use crate::projects::budget::plain_sum;
use crate::projects::budget::short_decimal;
use crate::projects::budget::BudgetKind;
use crate::projects::budget::Project;
use crate::projects::budget::ProjectBudgetProgress;
use crate::projects::budget::ProjectType;
use crate::projects::budget::RowSpend;
use crate::projects::detail::ProjectForm;
use crate::projects::detail::amount_field;
use crate::projects::detail::budget_field;
use crate::projects::detail::kind_value;
use crate::projects::detail::month_end;
use crate::projects::detail::planned_text;
use crate::projects::detail::spend_of;
use crate::projects::detail::type_value;
use crate::projects::list::ClientOption;
use crate::projects::list::are_groups;
use crate::projects::list::client_ranks;
use crate::projects::list::clients_by_name;
use crate::projects::list::confirm_text;
use crate::projects::list::first_tags;
use crate::projects::list::group_name;
use crate::projects::list::grouped;
use crate::projects::list::has_tag;
use crate::projects::list::is_selected;
use crate::projects::list::of_project;
use crate::projects::list::of_scope;
use crate::projects::list::project_ids;
use crate::projects::list::project_ranks;
use crate::projects::list::project_title;
use crate::projects::list::projects_noun;
use crate::projects::list::scoped;
use crate::projects::list::sorted_projects;
use crate::projects::list::tagged;
use crate::projects::list::with_status;
use crate::projects::list::BulkProjectAction;
use crate::projects::list::Client;
use crate::projects::list::ListFilter;
use crate::projects::list::ProjectGroup;
use crate::projects::list::ProjectTagLink;
use crate::projects::page::BulkRequest;
use crate::projects::page::ListPage;
use crate::projects::tasks::fee_text;
use crate::projects::tasks::part_text;
use crate::projects::tasks::tracked_text;
use crate::text::contains_text;
use crate::text::decimal;
use crate::text::digit;
use crate::text::lowercase;
use crate::text::two_digits;
use vstd::prelude::*;

verus! {

// ---- Budgets ----

/// Minutes are rounded to the nearest hundredth of an hour, a half up.
pub proof fn hours_are_rounded_to_the_nearest(minutes: nat)
    ensures
        -30 <= 100 * minutes - 60 * hundredth_hours(minutes) < 30,
        hundredth_hours(60 * minutes) == 100 * minutes,
{
}

/// Hundredths are written after the point as far as they are not zeros.
pub proof fn hundredths_are_written_short(whole: nat, fraction: nat)
    requires
        fraction < 100,
    ensures
        fraction == 0 ==> short_decimal(100 * whole + fraction) == decimal(whole),
        fraction != 0 && fraction % 10 == 0 ==> short_decimal(100 * whole + fraction) == decimal(
            whole,
        ) + "."@ + seq![digit((fraction / 10) as int)],
        fraction % 10 != 0 ==> short_decimal(100 * whole + fraction) == decimal(whole) + "."@
            + two_digits(fraction as int),
{
    assert((100 * whole + fraction) / 100 == whole);
    assert((100 * whole + fraction) % 100 == fraction);
}

/// Hours keep their sign: what is owed is written as what is left, after a minus.
pub proof fn hours_keep_their_sign(minutes: int, hours: nat)
    requires
        minutes > 0,
    ensures
        hours_text(-minutes) == "-"@ + hours_text(minutes),
        hours_text(60 * hours as int) == decimal(hours) + "h"@,
{
    hundredths_are_written_short(hours, 0);
    hours_are_rounded_to_the_nearest(hours);
    assert(("-"@ + short_decimal(hundredth_hours(minutes as nat))) + "h"@ =~= "-"@ + (short_decimal(
        hundredth_hours(minutes as nat),
    ) + "h"@));
}

/// A figure of a budget of hours is written in hours, any other with its currency.
pub proof fn figures_are_in_the_budgets_unit(currency: Seq<char>, figure: int)
    ensures
        figure_text(BudgetKind::Hours, currency, figure) == hours_text(figure),
        figure_text(BudgetKind::Amount, currency, figure) == crate::text::trimmed(currency) + " "@
            + cents_text(figure),
        figure_text(BudgetKind::Unset, currency, figure) == crate::text::trimmed(currency) + " "@
            + cents_text(figure),
{
}

/// What is shown of a budget adds up: what is spent and what remains make the budget. What is
/// not known leaves a dash, and no share.
pub proof fn spending_and_rest_make_the_budget(
    row: RowSpend,
    kind: BudgetKind,
    currency: Seq<char>,
    budget: i64,
    spent: i64,
    recurring: bool,
)
    requires
        row.shows(kind, currency, Some(budget), Some(spent), recurring),
        i64::MIN <= budget - spent <= i64::MAX,
    ensures
        row.budget@ == figure_text(kind, currency, budget as int),
        row.spent@ == figure_text(kind, currency, spent as int),
        exists|rest: int|
            rest + spent == budget && row.remaining@ == #[trigger] figure_text(kind, currency, rest),
        row.recurring == recurring,
        row.pct == share_used(spent as int, budget as int),
        row.pct is Some ==> opt_view(row.pct_label) == Some(
            "("@ + decimal((100 - row.pct->0) as nat) + "%)"@,
        ),
        row.pct is None ==> row.pct_label is None,
{
    assert(row.remaining@ == figure_text(kind, currency, budget - spent));
}

/// A budget that is not known, or spending that is not, leaves no rest and no share.
pub proof fn unknown_budgets_leave_a_dash(
    row: RowSpend,
    kind: BudgetKind,
    currency: Seq<char>,
    budget: Option<i64>,
    spent: Option<i64>,
    recurring: bool,
)
    requires
        row.shows(kind, currency, budget, spent, recurring),
        budget is None || spent is None,
    ensures
        row.remaining@ == "—"@,
        row.pct is None,
        row.pct_label is None,
        budget is None ==> row.budget@ == "—"@,
        spent is None ==> row.spent@ == "Unavailable"@,
{
}

/// A sum is shown wherever all figures are there and no sum on the way is too large.
pub proof fn sums_are_shown_where_they_can_be(figures: Seq<Option<i64>>, n: int)
    requires
        0 <= n <= figures.len(),
        forall|i: int| 0 <= i < n ==> figures[i] is Some,
        forall|i: int| 0 <= i <= n ==> i64::MIN <= #[trigger] plain_sum(figures, i) <= i64::MAX,
    ensures
        checked_sum(figures, n) == Some(plain_sum(figures, n) as i64),
    decreases n,
{
    if n > 0 {
        sums_are_shown_where_they_can_be(figures, n - 1);
        assert(i64::MIN <= plain_sum(figures, n) <= i64::MAX);
        assert(i64::MIN <= plain_sum(figures, n - 1) <= i64::MAX);
        assert(figures[n - 1] is Some);
    }
}

/// The sums of a budget are of its parts: of what each has and of what each has used.
pub proof fn parts_are_summed(rows: Seq<ProjectBudgetProgress>, i: int)
    ensures
        budgets_of(rows).len() == rows.len(),
        consumed_of(rows).len() == rows.len(),
        0 <= i < rows.len() ==> budgets_of(rows)[i] == rows[i].budget,
        0 <= i < rows.len() ==> consumed_of(rows)[i] == Some(rows[i].consumed),
{
}

/// The parts of a budget are those of its own project.
pub proof fn parts_are_of_their_project(
    rows: Seq<ProjectBudgetProgress>,
    id: u128,
    row: ProjectBudgetProgress,
)
    ensures
        rows.filter(of_project(id)).contains(row) <==> rows.contains(row) && row.project_id == id,
{
    filter_holds(rows, of_project(id), row);
}

// ---- One project ----

/// What is spent on a project is what is listed of it, and nothing where it is not listed.
pub proof fn spending_is_what_is_listed(spend: Map<u128, (i64, i64)>, id: u128)
    ensures
        spend.contains_key(id) ==> spend_of(spend, id) == spend[id],
        !spend.contains_key(id) ==> spend_of(spend, id) == (0i64, 0i64),
{
}

/// The words for two types of a project differ, and so do those for what a budget counts.
pub proof fn words_of_forms_differ(a: ProjectType, b: ProjectType, c: BudgetKind, d: BudgetKind)
    ensures
        type_value(a) == type_value(b) ==> a == b,
        kind_value(c) == kind_value(d) ==> c == d,
{
    reveal_strlit("time_and_materials");
    reveal_strlit("fixed_fee");
    reveal_strlit("non_billable");
    reveal_strlit("retainer");
    reveal_strlit("none");
    reveal_strlit("amount");
    reveal_strlit("hours");
    assert("time_and_materials"@.len() == 18 && "fixed_fee"@.len() == 9 && "non_billable"@.len()
        == 12 && "retainer"@.len() == 8);
    assert("none"@.len() == 4 && "amount"@.len() == 6 && "hours"@.len() == 5);
}

/// An amount in a field reads back as itself, and an empty field as none, so that saving a form
/// that nothing was typed into keeps the amount.
pub proof fn amounts_in_fields_read_back(cents: i64)
    ensures
        parsed_cents(amount_field(Some(cents))) == Some(cents),
        amount_field(None) == Seq::<char>::empty(),
{
    crate::money::cents_read_back(cents);
}

/// The figure of a budget is in its field as an amount or as hours and minutes, by what the
/// budget counts.
pub proof fn budgets_are_in_their_field(p: Project)
    ensures
        p.budget_kind == BudgetKind::Amount ==> budget_field(p) == amount_field(
            p.budget_amount_cents,
        ),
        p.budget_kind == BudgetKind::Hours && p.budget_minutes is Some && p.budget_minutes->0 >= 0
            ==> budget_field(p) == crate::clock::clock_text(p.budget_minutes->0 as nat),
        p.budget_kind == BudgetKind::Hours && p.budget_minutes is Some && p.budget_minutes->0 < 0
            ==> budget_field(p) == crate::clock::clock_text(0),
        p.budget_kind == BudgetKind::Hours && p.budget_minutes is None ==> budget_field(p)
            == Seq::<char>::empty(),
        p.budget_kind == BudgetKind::Unset ==> budget_field(p) == Seq::<char>::empty(),
{
}

/// A planned date is written as a day, and words stand for one that is not planned.
pub proof fn planned_dates_are_days(date: Date, otherwise: Seq<char>)
    ensures
        planned_text(None, otherwise) == otherwise,
        planned_text(Some(date), otherwise) == crate::date::date_text(date.days, "%d %b %Y"@),
{
}

/// The day after the last one of a month is the first one of the next.
pub proof fn months_end_before_the_next(today: Date)
    ensures
        one_month_on(month_start(today.days)) is Some && one_month_on(month_start(today.days))->0
            > FIRST_DAY ==> month_end(today) + 1 == one_month_on(month_start(today.days))->0,
        one_month_on(month_start(today.days)) is None ==> month_end(today) == today.days,
{
}

// ---- The list ----

/// A project has a tag exactly where a link says so by the tag's identity; without a chosen tag
/// none has.
pub proof fn tags_are_linked_by_identity(links: Seq<ProjectTagLink>, tag: u128, id: u128, i: int)
    ensures
        0 <= i < links.len() && links[i].tag_id == tag ==> tagged(links, Some(tag)).contains(
            links[i].project_id,
        ),
        tagged(links, Some(tag)).contains(id) ==> exists|k: int|
            0 <= k < links.len() && (#[trigger] links[k]).project_id == id && links[k].tag_id == tag,
        !tagged(links, None).contains(id),
{
    if 0 <= i < links.len() && links[i].tag_id == tag {
        assert(Some(links[i].tag_id) == Some(tag));
    }
    if tagged(links, Some(tag)).contains(id) {
        let k = choose|k: int|
            0 <= k < links.len() && (#[trigger] links[k]).project_id == id && Some(links[k].tag_id)
                == Some(tag);
        assert(links[k].tag_id == tag);
    }
}

/// Every tag of the links is offered once, by the name that the links first give it.
pub proof fn tags_are_offered_once(links: Seq<ProjectTagLink>, n: int, i: int, p: int, q: int)
    requires
        0 <= n <= links.len(),
    ensures
        0 <= i < n ==> has_tag(first_tags(links, n), links[i].tag_id),
        0 <= i < n && (forall|k: int| 0 <= k < i ==> (#[trigger] links[k]).tag_id
            != links[i].tag_id) ==> first_tags(links, n).contains(
            (links[i].tag_id, links[i].name@),
        ),
        0 <= p < q < first_tags(links, n).len() ==> first_tags(links, n)[p].0 != first_tags(
            links,
            n,
        )[q].0,
        0 <= p < first_tags(links, n).len() ==> exists|k: int|
            0 <= k < n && (#[trigger] links[k]).tag_id == first_tags(links, n)[p].0 && links[k].name@
                == first_tags(links, n)[p].1,
    decreases n,
{
    if n > 0 {
        let before = first_tags(links, n - 1);
        let link = links[n - 1];
        let all = first_tags(links, n);
        tags_are_offered_once(links, n - 1, i, p, q);
        if has_tag(before, link.tag_id) {
            if i == n - 1 {
                let k = choose|k: int| 0 <= k < before.len() && (#[trigger] before[k]).0
                    == link.tag_id;
                tags_are_offered_once(links, n - 1, i, k, k);
                let m = choose|m: int|
                    0 <= m < n - 1 && (#[trigger] links[m]).tag_id == before[k].0 && links[m].name@
                        == before[k].1;
                assert(links[m].tag_id == links[i].tag_id);
            }
        } else {
            assert(all[before.len() as int] == (link.tag_id, link.name@));
            if 0 <= i < n - 1 {
                let k = choose|k: int| 0 <= k < before.len() && (#[trigger] before[k]).0
                    == links[i].tag_id;
                assert(all[k].0 == links[i].tag_id);
                if before.contains((links[i].tag_id, links[i].name@)) {
                    let m = choose|m: int|
                        0 <= m < before.len() && before[m] == (links[i].tag_id, links[i].name@);
                    assert(all[m] == before[m]);
                }
            } else if i == n - 1 {
                assert(all[before.len() as int].0 == links[i].tag_id);
            }
            if 0 <= p < q < all.len() && q == before.len() {
                assert(before[p].0 != link.tag_id);
            }
            if p == before.len() {
                assert(links[n - 1].tag_id == all[p].0);
            }
        }
    }
}

/// The list of archived projects shows those and no others; the list of budgeted ones shows the
/// active ones with a budget; any other shows the active ones.
pub proof fn scopes_tell_projects(project: Project, scope: Seq<char>)
    ensures
        scope == "archived"@ ==> (of_scope(project, scope) <==> !project.active),
        scope == "budgeted"@ ==> (of_scope(project, scope) <==> project.active
            && project.budget_kind != BudgetKind::Unset),
        scope != "archived"@ && scope != "budgeted"@ ==> (of_scope(project, scope)
            <==> project.active),
{
    reveal_strlit("archived");
    reveal_strlit("budgeted");
    assert("archived"@[0] == 'a' && "budgeted"@[0] == 'b');
}

/// A project is listed exactly where it is of the status, of the chosen client, carries the
/// chosen tag, and the search stands in its name or in its client's, whatever the case.
pub proof fn projects_are_listed_by_all_filters(
    filter: ListFilter,
    client_names: Map<u128, String>,
    project: Project,
)
    ensures
        filter.keeps(client_names)(project) <==> {
            &&& of_scope(project, filter.scope@)
            &&& filter.client@.len() == 0 || filter.client@ == id_text(project.client_id)
            &&& filter.tag is None || (filter.tags_ready && filter.tag_projects@.contains(
                project.id,
            ))
            &&& lowercase(filter.query@).len() == 0 || contains_text(
                lowercase(project.name@),
                lowercase(filter.query@),
            ) || (client_names.contains_key(project.client_id) && contains_text(
                lowercase(client_names[project.client_id]@),
                lowercase(filter.query@),
            ))
        },
{
}

/// The list shows the projects that pass the filters, and no others.
pub proof fn only_listed_projects_are_shown(
    projects: Seq<Project>,
    filter: ListFilter,
    client_names: Map<u128, String>,
    project: Project,
)
    ensures
        projects.filter(filter.keeps(client_names)).contains(project) <==> projects.contains(project)
            && filter.keeps(client_names)(project),
{
    filter_holds(projects, filter.keeps(client_names), project);
}

/// What is selected of the list is what is shown and selected; what is counted of a status is of
/// that status.
pub proof fn selected_projects_are_shown(
    visible: Seq<Project>,
    selected: Set<u128>,
    scope: Seq<char>,
    project: Project,
)
    ensures
        visible.filter(is_selected(selected)).contains(project) <==> visible.contains(project)
            && selected.contains(project.id),
        visible.filter(scoped(scope)).contains(project) <==> visible.contains(project) && of_scope(
            project,
            scope,
        ),
{
    filter_holds(visible, is_selected(selected), project);
    filter_holds(visible, scoped(scope), project);
}

/// The identities of projects are theirs and no others.
pub proof fn project_identities_are_their_own(projects: Seq<Project>, id: u128)
    ensures
        project_ids(projects).contains(id) <==> exists|i: int|
            0 <= i < projects.len() && (#[trigger] projects[i]).id == id,
{
    let ids = projects.map_values(|project: Project| project.id);
    if ids.contains(id) {
        let i = choose|i: int| 0 <= i < ids.len() && ids[i] == id;
        assert(projects[i].id == id);
    }
    if exists|i: int| 0 <= i < projects.len() && (#[trigger] projects[i]).id == id {
        let i = choose|i: int| 0 <= i < projects.len() && (#[trigger] projects[i]).id == id;
        assert(ids[i] == id);
    }
}

/// A project is called by its name, after its code in brackets where it has one.
pub proof fn projects_are_called_by_code_and_name(project: Project)
    ensures
        project.code is None ==> project_title(project) == project.name@,
        project.code is Some ==> project_title(project) == "["@ + project.code->0@ + "] "@
            + project.name@,
{
}

/// A change of projects is asked for and told by what it does and how many it is of.
pub proof fn changes_are_told_by_number(action: BulkProjectAction)
    ensures
        action.activate ==> confirm_text(Some(action)) == "Reactivate"@ + " "@ + decimal(
            action.projects.len() as nat,
        ) + " "@ + projects_noun(action.projects.len() as nat) + "?"@,
        !action.activate ==> confirm_text(Some(action)) == "Archive"@ + " "@ + decimal(
            action.projects.len() as nat,
        ) + " "@ + projects_noun(action.projects.len() as nat) + "?"@,
        action.activate ==> ListPage::success_text(action) == "Reactivated"@ + " "@ + decimal(
            action.projects.len() as nat,
        ) + " "@ + projects_noun(action.projects.len() as nat),
        !action.activate ==> ListPage::success_text(action) == "Archived"@ + " "@ + decimal(
            action.projects.len() as nat,
        ) + " "@ + projects_noun(action.projects.len() as nat),
        forall|count: nat| #[trigger] projects_noun(count) == "project"@ <==> count == 1,
        forall|count: nat| count != 1 ==> #[trigger] projects_noun(count) == "projects"@,
{
    reveal_strlit("project");
    reveal_strlit("projects");
    assert("project"@.len() == 7 && "projects"@.len() == 8);
}

/// The clients of a status are those and no others, by their name whatever the case.
pub proof fn clients_are_offered_by_name(
    clients: Seq<Client>,
    active: bool,
    client: Client,
    p: int,
    q: int,
)
    ensures
        clients_by_name(clients, active).contains(client) <==> clients.contains(client)
            && client.active == active,
        0 <= p < q < clients_by_name(clients, active).len() ==> !text_precedes(
            lowercase(clients_by_name(clients, active)[q].name@),
            lowercase(clients_by_name(clients, active)[p].name@),
        ),
{
    let kept = clients.filter(with_status(active));
    filter_holds(clients, with_status(active), client);
    let by = client_ranks(kept);
    let order = sorted_order::<TextPair>(by);
    sorted_order_exists::<TextPair>(by);
    let sorted = clients_by_name(clients, active);
    if kept.contains(client) {
        let i = choose|i: int| 0 <= i < kept.len() && kept[i] == client;
        assert(order.contains(i));
        let k = choose|k: int| 0 <= k < order.len() && order[k] == i;
        assert(sorted[k] == client);
    }
    if sorted.contains(client) {
        let k = choose|k: int| 0 <= k < sorted.len() && sorted[k] == client;
        assert(0 <= order[k] < kept.len());
        assert(kept[order[k]] == client);
    }
    if 0 <= p < q < sorted.len() {
        assert(0 <= order[p] < kept.len() && 0 <= order[q] < kept.len());
        assert(comes_first::<TextPair>(by, order[p], order[q]));
        let (a, b) = (by[order[p]], by[order[q]]);
        assert(a.0 == lowercase(sorted[p].name@) && b.0 == lowercase(sorted[q].name@));
        if TextPair::precedes(a, b) {
            TextPair::asymmetric(a, b);
        }
    }
}

/// Projects are listed by their client's name, and those of one client by their own, whatever
/// the case; none is lost and none comes in.
pub proof fn projects_are_listed_by_client_and_name(
    projects: Seq<Project>,
    client_names: Map<u128, String>,
    project: Project,
    p: int,
    q: int,
)
    requires
        0 <= p < q < sorted_projects(projects, client_names).len(),
    ensures
        sorted_projects(projects, client_names).len() == projects.len(),
        sorted_projects(projects, client_names).contains(project) <==> projects.contains(project),
        ({
            let a = sorted_projects(projects, client_names)[p];
            let b = sorted_projects(projects, client_names)[q];
            let known = client_names.contains_key(a.client_id) && client_names.contains_key(
                b.client_id,
            );
            let (x, y) = (
                lowercase(client_names[a.client_id]@),
                lowercase(client_names[b.client_id]@),
            );
            &&& known ==> !text_precedes(y, x)
            &&& known && x == y ==> !text_precedes(lowercase(b.name@), lowercase(a.name@))
        }),
{
    let by = project_ranks(projects, client_names);
    let order = sorted_order::<TextPair>(by);
    sorted_order_exists::<TextPair>(by);
    let sorted = sorted_projects(projects, client_names);
    if projects.contains(project) {
        let i = choose|i: int| 0 <= i < projects.len() && projects[i] == project;
        assert(order.contains(i));
        let k = choose|k: int| 0 <= k < order.len() && order[k] == i;
        assert(sorted[k] == project);
    }
    if sorted.contains(project) {
        let k = choose|k: int| 0 <= k < sorted.len() && sorted[k] == project;
        assert(0 <= order[k] < projects.len());
        assert(projects[order[k]] == project);
    }
    assert(0 <= order[p] < projects.len() && 0 <= order[q] < projects.len());
    assert(comes_first::<TextPair>(by, order[p], order[q]));
    let (a, b) = (by[order[p]], by[order[q]]);
    assert(a.1 == lowercase(sorted[p].name@) && b.1 == lowercase(sorted[q].name@));
    if TextPair::precedes(a, b) {
        TextPair::asymmetric(a, b);
    }
}

/// Every project of the list stands in a group that is called by its client.
pub proof fn projects_stand_with_their_client(
    groups: Seq<ProjectGroup>,
    projects: Seq<Project>,
    client_names: Map<u128, String>,
    p: int,
) -> (g: int)
    requires
        are_groups(groups, projects, client_names),
        0 <= p < projects.len(),
    ensures
        0 <= g < groups.len(),
        groups[g].projects@.contains(projects[p]),
        client_names.contains_key(projects[p].client_id) ==> groups[g].name@
            == client_names[projects[p].client_id]@,
        !client_names.contains_key(projects[p].client_id) ==> groups[g].name@ == "Unknown client"@,
        groups[g].projects.len() > 0,
        g > 0 ==> groups[g].name@ != groups[g - 1].name@,
{
    let g = group_of(groups, groups.len() as int, p);
    let i = choose|i: int| 0 <= i < groups[g].projects.len() && groups[g].projects@[i] == projects[p];
    assert(group_name(client_names, groups[g].projects@[i]) == groups[g].name@);
    g
}

proof fn group_of(groups: Seq<ProjectGroup>, n: int, p: int) -> (g: int)
    requires
        0 <= n <= groups.len(),
        0 <= p < grouped(groups, n).len(),
    ensures
        0 <= g < n,
        groups[g].projects@.contains(grouped(groups, n)[p]),
    decreases n,
{
    let before = grouped(groups, n - 1);
    if p < before.len() {
        group_of(groups, n - 1, p)
    } else {
        assert(groups[n - 1].projects@[p - before.len()] == grouped(groups, n)[p]);
        n - 1
    }
}

/// A change is sent for the very projects that it was confirmed for.
pub proof fn changes_are_sent_as_confirmed(request: BulkRequest, action: BulkProjectAction, i: int)
    requires
        request.sends(action),
    ensures
        request.activate == action.activate,
        request.ids.len() == action.projects.len(),
        0 <= i < action.projects.len() ==> request.ids@[i]@ == id_text(action.projects@[i].id),
{
}

/// A page whose filters changed keeps the change that waits, what went wrong and what went well;
/// a change is under way only while one waits.
pub proof fn filters_keep_the_change(a: ListPage, b: ListPage)
    ensures
        a.same_change(b) <==> a.action == b.action && a.busy == b.busy && a.error == b.error
            && a.success == b.success,
        a.well_formed() && a.action is None ==> !a.busy,
        !a.busy ==> a.well_formed(),
{
}

/// What is said of a fee is what it is, its currency and its exact amount; what is said of a
/// budget names its period where it has one.
pub proof fn fees_and_budgets_are_told(
    what: Seq<char>,
    currency: Seq<char>,
    cents: i64,
    config: ProjectBudgetProgress,
    minutes: i64,
    shown: RowSpend,
)
    ensures
        fee_text(what, currency, cents) == what + currency + " "@ + cents_text(cents as int),
        config.period_key@ == "lifetime"@ ==> tracked_text(config, minutes) == Seq::<char>::empty()
            + "Total tracked: "@ + hours_text(minutes as int),
        config.period_key@ != "lifetime"@ ==> tracked_text(config, minutes) == "Budget period: "@
            + config.period_key@ + " · "@ + "Total tracked: "@ + hours_text(minutes as int),
        config.label is Some && config.budget is Some ==> part_text(config, shown)
            == config.label->0@ + ": "@ + ("Budget "@ + shown.budget@ + " · "@) + "Spent "@
            + shown.spent@ + " · Remaining "@ + shown.remaining@,
        config.label is None && config.budget is None ==> part_text(config, shown)
            == "No allocated budget"@ + ": "@ + "No budget set · "@ + "Spent "@ + shown.spent@
            + " · Remaining "@ + shown.remaining@,
{
}

/// A project's type and what its budget counts are called by their own words in forms.
pub proof fn forms_hold_the_words_of_choices(project_type: ProjectType, kind: BudgetKind)
    ensures
        type_value(project_type) == "time_and_materials"@ <==> project_type
            == ProjectType::TimeAndMaterials,
        type_value(project_type) == "fixed_fee"@ <==> project_type == ProjectType::FixedFee,
        type_value(project_type) == "non_billable"@ <==> project_type == ProjectType::NonBillable,
        type_value(project_type) == "retainer"@ <==> project_type == ProjectType::Retainer,
        kind_value(kind) == "none"@ <==> kind == BudgetKind::Unset,
        kind_value(kind) == "amount"@ <==> kind == BudgetKind::Amount,
        kind_value(kind) == "hours"@ <==> kind == BudgetKind::Hours,
{
    words_of_forms_differ(project_type, ProjectType::TimeAndMaterials, kind, BudgetKind::Unset);
    words_of_forms_differ(project_type, ProjectType::FixedFee, kind, BudgetKind::Amount);
    words_of_forms_differ(project_type, ProjectType::NonBillable, kind, BudgetKind::Hours);
    words_of_forms_differ(project_type, ProjectType::Retainer, kind, BudgetKind::Hours);
}

/// A closed form holds nothing of the project that was edited in it.
pub proof fn closed_forms_hold_nothing(form: ProjectForm)
    requires
        form.is_closed(),
    ensures
        !form.open,
        form.editing is None,
        form.error is None,
        form.name@.len() == 0,
        form.rate@.len() == 0,
        form.budget@.len() == 0,
        form.project_type@ == "time_and_materials"@,
        form.budget_kind@ == "none"@,
        form.currency@ == "USD"@,
{
}

/// Two options that offer different clients differ in what they stand for.
pub proof fn options_stand_for_their_client(
    a: ClientOption,
    b: ClientOption,
    client: Client,
    other: Client,
    group: Seq<char>,
    rest: Seq<char>,
)
    requires
        a.offers(client, group),
        b.offers(other, rest),
    ensures
        a.value@ == b.value@ <==> client.id == other.id,
        a.label@ == client.name@,
        a.group@ == group,
{
    if a.value@ == b.value@ {
        crate::ids::ids_can_be_told(client.id, other.id);
    }
}

/// No group of the list is empty, and no two that follow one another are of the same name.
pub proof fn groups_hold_projects(
    groups: Seq<ProjectGroup>,
    projects: Seq<Project>,
    client_names: Map<u128, String>,
    g: int,
)
    requires
        are_groups(groups, projects, client_names),
        0 <= g < groups.len(),
    ensures
        groups[g].projects.len() > 0,
        g > 0 ==> groups[g].name@ != groups[g - 1].name@,
{
}

} // verus!
