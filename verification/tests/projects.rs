use chrono::Datelike;
use chrono::NaiveDate;
use horae::date::Date;
use horae::order::TextPair;
use horae::projects::budget::budget_display;
use horae::projects::budget::BudgetKind;
use horae::projects::budget::configured_row_spend;
use horae::projects::budget::hours;
use horae::projects::budget::Project;
use horae::projects::budget::ProjectBudgetProgress;
use horae::projects::budget::ProjectType;
use horae::projects::budget::row_spend;
use horae::projects::detail::explicit_rate;
use horae::projects::detail::fee_period;
use horae::projects::detail::planning_dates;
use horae::projects::detail::project_spend;
use horae::projects::detail::ProjectForm;
use horae::projects::detail::user_option;
use horae::projects::list::all_selected;
use horae::projects::list::budget_rows;
use horae::projects::list::bulk_label;
use horae::projects::list::bulk_success;
use horae::projects::list::Client;
use horae::projects::list::client_options;
use horae::projects::list::confirm_title;
use horae::projects::list::export_url;
use horae::projects::list::group_projects;
use horae::projects::list::ListFilter;
use horae::projects::list::matches_lowered;
use horae::projects::list::matches_project_filters;
use horae::projects::list::matching_tag_projects;
use horae::projects::list::Picked;
use horae::projects::list::ProjectTagLink;
use horae::projects::list::push_by_keys;
use horae::projects::list::request_bulk;
use horae::projects::list::scope_label;
use horae::projects::list::selection;
use horae::projects::list::selection_label;
use horae::projects::list::sort_by_keys;
use horae::projects::list::tag_label;
use horae::projects::list::tag_options;
use horae::projects::list::toggle;
use horae::projects::list::toggle_all;
use horae::projects::list::visible_projects;
use horae::projects::page::bulk_complaint;
use horae::projects::page::empty_hint;
use horae::projects::page::list_notice;
use horae::projects::page::ListNotice;
use horae::projects::page::ListPage;
use horae::projects::page::partly_selected;
use horae::projects::page::progress_notice;
use horae::projects::page::ProgressNotice;
use horae::projects::tasks::assign_options;
use horae::projects::tasks::Assignable;
use horae::projects::tasks::AssignForm;
use horae::projects::tasks::breakdown_title;
use horae::projects::tasks::fee_lines;
use horae::projects::tasks::FeeBalance;
use horae::projects::tasks::part_line;
use horae::projects::tasks::TaskPanel;
use horae::projects::tasks::tracked_line;
use horae::projects::tasks::user_name;
use std::collections::BTreeSet;
use std::collections::HashMap;
use uuid::Uuid;

fn link(project_id: u128, tag_id: u128, name: &str) -> ProjectTagLink {
    ProjectTagLink { project_id, tag_id, name: name.into() }
}

#[test]
fn tag_filter_matches_identity_without_duplicates_or_name_collisions() {
    let tag_id = 1;
    let project_id = 2;
    let links = [
        link(project_id, tag_id, "Launch"),
        link(project_id, tag_id, "Launch"),
        link(3, 4, "Launch"),
    ];
    assert_eq!(matching_tag_projects(&links, Some(tag_id)), BTreeSet::from([project_id]));
    assert!(matching_tag_projects(&links, Some(0)).is_empty());
    assert!(matching_tag_projects(&[], Some(tag_id)).is_empty());
}

#[test]
fn tags_are_offered_once_in_the_order_of_their_links() {
    let links = [link(2, 9, "zeta"), link(3, 1, "Alpha"), link(4, 9, "zeta"), link(5, 3, "beta")];
    let options = tag_options(&links);
    let names: Vec<_> = options.iter().map(|option| option.name.as_str()).collect();
    assert_eq!(names, ["zeta", "Alpha", "beta"]);
    assert_eq!(tag_label(None, &options), "All tags");
    assert_eq!(tag_label(Some(9), &options), "Tag: zeta");
    assert_eq!(tag_label(Some(7), &options), "Selected tag unavailable");
}

fn scope(budget: Option<i64>, consumed: i64) -> ProjectBudgetProgress {
    ProjectBudgetProgress {
        project_id: 0,
        task_id: Some(0),
        user_id: None,
        scope: "task".to_string(),
        label: Some("Development".to_string()),
        kind: BudgetKind::Hours,
        currency: "EUR".to_string(),
        period_key: "2026-09".to_string(),
        budget,
        consumed,
    }
}

#[test]
fn configured_scopes_sum_without_hiding_an_individual_overrun() {
    let rows = [scope(Some(60), 120), scope(Some(180), 0)];
    let total = configured_row_spend(&rows).unwrap();
    assert_eq!(
        (total.budget.as_str(), total.spent.as_str(), total.remaining.as_str()),
        ("4h", "2h", "2h")
    );
    assert_eq!(
        (total.pct, total.pct_label.as_deref(), total.recurring),
        (Some(50), Some("(50%)"), true)
    );
    let first = budget_display(
        rows[0].kind,
        &rows[0].currency,
        rows[0].budget,
        Some(rows[0].consumed),
        false,
    );
    assert_eq!(first.remaining, "-1h");
    assert_eq!((first.pct, first.pct_label.as_deref()), (Some(100), Some("(0%)")));
}

#[test]
fn unallocated_zero_and_overflow_budgets_are_not_conflated() {
    let unallocated = configured_row_spend(&[scope(Some(60), 30), scope(None, 60)]).unwrap();
    assert_eq!(
        (
            unallocated.budget.as_str(),
            unallocated.spent.as_str(),
            unallocated.remaining.as_str()
        ),
        ("—", "1.5h", "—")
    );
    assert_eq!(unallocated.pct, None);
    let zero = configured_row_spend(&[scope(Some(0), 60)]).unwrap();
    assert_eq!(
        (zero.budget.as_str(), zero.remaining.as_str(), zero.pct),
        ("0h", "-1h", None)
    );
    let overflow =
        configured_row_spend(&[scope(Some(i64::MAX), i64::MAX), scope(Some(1), 1)]).unwrap();
    assert_eq!(
        (overflow.budget.as_str(), overflow.spent.as_str(), overflow.remaining.as_str()),
        ("—", "Unavailable", "—")
    );
    assert!(configured_row_spend(&[]).is_none());
    let mut no_budget = scope(None, 0);
    no_budget.kind = BudgetKind::Unset;
    assert!(configured_row_spend(&[no_budget]).is_none());
}

#[test]
fn display_preserves_units_sign_and_large_integer_values() {
    assert_eq!(hours(-1), "-0.02h");
    assert_eq!(hours(59), "0.98h");
    assert_eq!(hours(60), "1h");
    assert_eq!(hours(i64::MIN), "-153722867280912930.13h");
    let amount = budget_display(BudgetKind::Amount, " EUR ", Some(100), Some(150), false);
    assert_eq!(
        (amount.budget.as_str(), amount.spent.as_str(), amount.remaining.as_str()),
        ("EUR 1.00", "EUR 1.50", "EUR -0.50")
    );
}

fn project(id: u128, client_id: u128, name: &str, active: bool) -> Project {
    Project {
        id,
        client_id,
        name: name.into(),
        code: None,
        project_type: ProjectType::TimeAndMaterials,
        currency: "EUR".into(),
        rate_cents: Some(9050),
        budget_kind: BudgetKind::Unset,
        budget_amount_cents: None,
        budget_minutes: None,
        active,
    }
}

#[test]
fn projects_are_found_by_name_client_and_code() {
    let names = HashMap::from([(1, "Ada Ltd".to_string())]);
    let mut found = project(5, 1, "Été", true);
    assert!(matches_project_filters(&found, "", "", "", &names));
    assert!(matches_project_filters(&found, "éT", "", "", &names) == false);
    assert!(matches_project_filters(&found, "été", "", "", &names));
    assert!(matches_project_filters(&found, "ada", "", "", &names));
    assert!(!matches_project_filters(&found, "bell", "", "", &names));
    assert!(!matches_project_filters(&found, "", "archived", "", &names));
    assert!(!matches_project_filters(&found, "", "budgeted", "", &names));
    found.budget_kind = BudgetKind::Hours;
    assert!(matches_project_filters(&found, "", "budgeted", "", &names));
    assert!(matches_project_filters(&found, "", "", &Uuid::from_u128(1).to_string(), &names));
    assert!(!matches_project_filters(&found, "", "", &Uuid::from_u128(2).to_string(), &names));
}

#[test]
fn selected_projects_are_archived_together() {
    let projects = vec![
        project(1, 1, "A", true),
        project(2, 1, "B", true),
        project(3, 2, "C", false),
    ];
    let names = HashMap::new();
    let mut filter = ListFilter {
        query: String::new(),
        scope: "active".into(),
        client: String::new(),
        tag: None,
        tags_ready: false,
        tag_projects: BTreeSet::new(),
    };
    let visible = visible_projects(&projects, &filter, &names);
    assert_eq!(visible.iter().map(|project| project.id).collect::<Vec<_>>(), [1, 2]);
    assert_eq!(scope_label(&projects, "archived"), "Archived projects (1)");
    assert_eq!(scope_label(&projects, "active"), "Active projects (2)");
    assert_eq!(scope_label(&projects, "budgeted"), "Budgeted projects (0)");
    let mut selected = BTreeSet::new();
    toggle(&mut selected, 2);
    toggle(&mut selected, 3);
    assert_eq!(selection(&visible, &selected).len(), 1);
    assert!(!all_selected(&visible, 1));
    toggle_all(&mut selected, &visible, false);
    let picked = selection(&visible, &selected);
    assert!(all_selected(&visible, picked.len()));
    assert_eq!(selection_label(picked.len()), "2 projects selected");
    assert_eq!(selection_label(1), "1 project selected");
    assert_eq!(selection_label(0), "Select projects first");
    assert!(request_bulk(vec![], "active", false).is_none());
    let action = request_bulk(picked, "active", false);
    assert_eq!(confirm_title(&action), "Archive 2 projects?");
    assert_eq!(bulk_success(&action.unwrap()), "Archived 2 projects");
    let many: Vec<Picked> =
        (0..101).map(|id| Picked { id, label: String::new() }).collect();
    assert!(request_bulk(many, "active", false).is_none());
    let one = request_bulk(vec![Picked { id: 1, label: String::new() }], "archived", false);
    assert_eq!(confirm_title(&one), "Reactivate 1 project?");
    assert_eq!(bulk_label("archived"), "Reactivate projects");
    assert_eq!(bulk_label("active"), "Archive projects");
    filter.tag = Some(1);
    filter.tags_ready = true;
    filter.tag_projects = BTreeSet::from([2]);
    assert_eq!(visible_projects(&projects, &filter, &names).len(), 1);
}

#[test]
fn projects_stand_under_their_clients() {
    let names = HashMap::from([(1, "Bell".to_string()), (2, "Ada".to_string())]);
    let projects =
        vec![project(1, 1, "z", true), project(2, 2, "y", true), project(3, 9, "x", true)];
    let groups = group_projects(&projects, &names);
    let shown: Vec<_> = groups.iter().map(|group| group.name.as_str()).collect();
    assert_eq!(shown, ["Unknown client", "Ada", "Bell"]);
    let clients = vec![
        Client { id: 1, name: "Bell".into(), active: false },
        Client { id: 2, name: "Ada".into(), active: true },
    ];
    let options = client_options(&clients);
    assert_eq!(options[0].group, "Active clients");
    assert_eq!(options[1].label, "Bell");
    assert_eq!(options[1].value, Uuid::from_u128(1).to_string());
    assert_eq!(export_url("csv", "active"), "/api/projects/export/csv?scope=active");
    let mut other = scope(Some(1), 1);
    other.project_id = 4;
    assert_eq!(budget_rows(&vec![other, scope(Some(2), 2)], 4).len(), 1);
}

#[test]
fn spend_comes_from_the_budget_or_the_entries() {
    let mut plain = project(7, 1, "A", true);
    plain.budget_kind = BudgetKind::Amount;
    plain.budget_amount_cents = Some(1000);
    let spent = HashMap::from([(7, (60, 250))]);
    let row = project_spend(&vec![], &spent, &plain);
    assert_eq!((row.spent.as_str(), row.remaining.as_str()), ("EUR 2.50", "EUR 7.50"));
    let none = project_spend(&vec![], &HashMap::new(), &plain);
    assert_eq!(none.spent, "EUR 0.00");
    let mut part = scope(Some(120), 60);
    part.project_id = 7;
    let configured = project_spend(&vec![part], &spent, &plain);
    assert_eq!(configured.spent, "1h");
    let unset = row_spend(&project(7, 1, "A", true), 90, 100);
    assert_eq!(unset.budget, "—");
}

fn ymd(year: i32, month: u32, day: u32) -> Date {
    Date { days: NaiveDate::from_ymd_opt(year, month, day).unwrap().num_days_from_ce() }
}

#[test]
fn fees_are_proposed_for_the_current_month() {
    assert_eq!(
        fee_period(ymd(2028, 2, 10)),
        ("2028-02-01".to_string(), "2028-02-29".to_string())
    );
    assert_eq!(
        fee_period(ymd(2026, 12, 31)),
        ("2026-12-01".to_string(), "2026-12-31".to_string())
    );
}

#[test]
fn planned_dates_are_written_out() {
    assert_eq!(
        planning_dates(Some(ymd(2026, 1, 5)), None),
        "05 Jan 2026 — No end date"
    );
    assert_eq!(
        planning_dates(None, Some(ymd(2026, 1, 5))),
        "No start date — 05 Jan 2026"
    );
}

#[test]
fn forms_show_what_a_project_has() {
    let closed = ProjectForm::closed();
    assert_eq!(
        (closed.currency.as_str(), closed.budget_kind.as_str(), closed.open),
        ("USD", "none", false)
    );
    let mut shown = project(4, 1, "A", true);
    shown.budget_kind = BudgetKind::Hours;
    shown.budget_minutes = Some(90);
    let form = ProjectForm::edit(&shown);
    assert_eq!((form.editing, form.open), (Some(4), true));
    assert_eq!((form.rate.as_str(), form.budget.as_str()), ("90.50", "1:30"));
    assert_eq!(form.project_type, "time_and_materials");
    let update = form.update().unwrap();
    assert_eq!((update.id, update.budget), (Uuid::from_u128(4).to_string(), "1:30".into()));
    assert_eq!(form.budget_words().0, "Budget hours");
    let mut form = form;
    form.saved(Err("taken".into()));
    assert_eq!((form.open, form.error.as_deref()), (true, Some("taken")));
    form.saved(Ok(()));
    assert!(!form.open && !form.has_budget() && form.update().is_none());
    assert_eq!(form.budget_words().1, "12000 or 12,000.50");
    assert!(explicit_rate(&Some("EUR".into()), " ").is_none());
    assert!(explicit_rate(&None, "1").is_none());
    assert_eq!(explicit_rate(&Some("EUR".into()), "1").unwrap().amount, "1");
    assert_eq!(user_option("Ada", "a@b.c"), "Ada (a@b.c)");
}

fn picked(id: u128) -> Picked {
    Picked { id, label: id.to_string() }
}

#[test]
fn changes_of_many_projects_are_confirmed_and_can_be_retried() {
    let mut page = ListPage::new();
    page.selected = BTreeSet::from([1, 2]);
    assert!(page.confirm().is_none());
    assert!(page.can_request(100) && !page.can_request(0) && !page.can_request(101));
    page.request(vec![picked(1), picked(2)]);
    assert_eq!(page.confirm_label(), "Archive projects");
    let request = page.confirm().unwrap();
    assert_eq!(request.ids, [Uuid::from_u128(1).to_string(), Uuid::from_u128(2).to_string()]);
    assert!(!request.activate);
    assert_eq!(page.confirm_label(), "Updating projects…");
    assert!(page.confirm().is_none() && !page.can_request(1));
    page.dismiss();
    assert!(page.action.is_some());
    assert!(!page.replied(Err("offline".into())));
    assert_eq!(page.error.as_deref(), Some("offline"));
    assert_eq!(page.selected.len(), 2);
    assert_eq!(page.confirm().unwrap().ids, request.ids);
    assert!(page.replied(Ok(())));
    assert_eq!(page.success.as_deref(), Some("Archived 2 projects"));
    assert!(page.selected.is_empty() && page.action.is_none());
    page.pick_scope("archived".into());
    page.request(vec![picked(3)]);
    assert_eq!((page.success.as_deref(), page.confirm_label()), (None, "Reactivate projects"));
    page.dismiss();
    assert!(page.action.is_none());
}

#[test]
fn changing_a_filter_selects_nothing() {
    let mut page = ListPage::new();
    let changes: [fn(&mut ListPage); 5] = [
        |page| page.search("x".into()),
        |page| page.pick_scope("budgeted".into()),
        |page| page.pick_client("y".into()),
        |page| page.pick_tag(Some(1)),
        |page| page.reset_filters(),
    ];
    for change in changes {
        page.selected = BTreeSet::from([1]);
        change(&mut page);
        assert!(page.selected.is_empty());
    }
    assert_eq!((page.query.as_str(), page.scope.as_str(), page.tag), ("", "active", None));
}

#[test]
fn notices_stand_where_nothing_can_be_shown() {
    assert_eq!(list_notice(true, false, true, true), ListNotice::TagsUnavailable);
    assert_eq!(list_notice(true, true, true, true), ListNotice::Loading);
    assert_eq!(list_notice(false, false, false, true), ListNotice::Failed);
    assert_eq!(list_notice(false, false, false, false), ListNotice::Shown);
    assert_eq!(progress_notice(false, true, true, false), ProgressNotice::Failed);
    assert_eq!(progress_notice(false, false, true, false), ProgressNotice::Loading);
    assert_eq!(progress_notice(false, false, true, true), ProgressNotice::Ready);
    assert!(partly_selected(1, false) && !partly_selected(1, true) && !partly_selected(0, false));
    assert!(bulk_complaint("x").starts_with("Could not confirm project status: x. You"));
    assert!(empty_hint(false, false).contains("Ask a manager"));
    assert!(empty_hint(true, true).starts_with("Try another"));
}

#[test]
fn tasks_are_enabled_and_created_one_at_a_time() {
    let mut panel = TaskPanel::new();
    assert!(panel.enable(&None).is_none() && panel.create().is_none());
    panel.rate = "5".into();
    panel.pick("t".into());
    assert_eq!(panel.rate, "");
    panel.rate = "7".into();
    let asked = panel.enable(&Some("EUR".into())).unwrap();
    assert_eq!((asked.task_id.as_str(), asked.rate.unwrap().amount.as_str()), ("t", "7"));
    assert!(panel.enable(&None).is_none());
    assert!(!panel.enabled(Err("no".into())));
    assert_eq!((panel.selected.as_str(), panel.error.as_deref()), ("t", Some("no")));
    assert!(panel.enabled(Ok(())));
    assert_eq!((panel.selected.as_str(), panel.error.as_deref()), ("", None));
    panel.name = " ".into();
    assert!(panel.create().is_none());
    panel.name = "Build".into();
    assert!(panel.create().unwrap().billable);
    assert!(panel.create().is_none());
    assert!(!panel.created(Err("no".into())) && panel.created(Ok(())));
    assert_eq!(panel.name, "");
    let mut form = AssignForm::new();
    form.shown = true;
    form.role = "lead".into();
    form.assigned(Err("no".into()));
    assert_eq!((form.shown, form.role.as_str()), (true, "lead"));
    form.assigned(Ok(()));
    assert_eq!((form.shown, form.role.as_str()), (false, "freelancer"));
    assert_eq!(user_name(&HashMap::new(), 1), Uuid::from_u128(1).to_string());
    assert_eq!(user_name(&HashMap::from([(1, "Ada".to_string())]), 1), "Ada");
}

#[test]
fn figures_of_a_budget_are_written_out() {
    let rows = [scope(Some(120), 60)];
    assert_eq!(
        tracked_line(&rows, 90).as_deref(),
        Some("Budget period: 2026-09 · Total tracked: 1.5h")
    );
    assert_eq!(tracked_line(&[], 90), None);
    assert_eq!(breakdown_title(&rows[0]).as_deref(), Some("Budget by task"));
    assert_eq!(
        part_line(&rows[0]),
        "Development: Budget 2h · Spent 1h · Remaining 1h"
    );
    let mut open = scope(None, 60);
    open.label = None;
    open.scope = "project".into();
    assert_eq!(breakdown_title(&open), None);
    assert_eq!(
        part_line(&open),
        "No allocated budget: No budget set · Spent 1h · Remaining —"
    );
    let lines = fee_lines(&FeeBalance {
        currency: "EUR".into(),
        agreed_cents: 100,
        invoiced_cents: 150,
        remaining_cents: -50,
    });
    assert_eq!(lines.0, "Agreed: EUR 1.00");
    assert_eq!(lines.1, "Invoiced (including drafts): EUR 1.50");
    assert_eq!(lines.2, "Over-invoiced: EUR -0.50");
}

#[test]
fn people_to_assign_are_named_with_their_address() {
    let users = vec![Assignable { id: 1, name: "Ada".into(), email: "ada@x.org".into() }];
    let options = assign_options(&users);
    assert_eq!(options[0], (String::new(), "Select a user...".to_string()));
    assert_eq!(options[1], (Uuid::from_u128(1).to_string(), "Ada (ada@x.org)".to_string()));
    assert_eq!(options.len(), 2);
}

#[test]
fn lists_are_searched_and_sorted_by_lowered_names() {
    let found = project(5, 1, "Shown", true);
    assert!(matches_lowered(&found, "abc", None, "bc", "", ""));
    assert!(!matches_lowered(&found, "abc", None, "shown", "", ""));
    assert!(matches_lowered(&found, "abc", Some("xyz"), "y", "", ""));
    assert!(!matches_lowered(&found, "abc", Some("xyz"), "y", "archived", ""));
    let key = |first: &str, second: &str| TextPair {
        first: first.chars().collect(),
        second: second.chars().collect(),
    };
    let projects = vec![project(1, 1, "a", true), project(2, 1, "b", true), project(3, 1, "c", true)];
    let keys = vec![key("b", "a"), key("a", "z"), key("a", "b")];
    let ids: Vec<_> = sort_by_keys(&projects, &keys).iter().map(|project| project.id).collect();
    assert_eq!(ids, [3, 2, 1]);
    let clients = vec![
        Client { id: 1, name: "A".into(), active: true },
        Client { id: 2, name: "B".into(), active: true },
    ];
    let mut options = vec![];
    let keys = vec![key("z", ""), key("y", "")];
    push_by_keys(&mut options, &clients, &vec![0, 1], &keys, "Group");
    assert_eq!((options[0].label.as_str(), options[1].label.as_str()), ("B", "A"));
}
