use horae::new_project::basics::add_keyed_tag;
use horae::new_project::basics::add_tags;
use horae::new_project::basics::client_choices;
use horae::new_project::basics::client_menu;
use horae::new_project::basics::commit_tags;
use horae::new_project::basics::CreationClient;
use horae::new_project::basics::currency_options;
use horae::new_project::basics::inherited_currency;
use horae::new_project::basics::NewClient;
use horae::new_project::basics::pick_client;
use horae::new_project::basics::pick_currency;
use horae::new_project::basics::remove_last_tag;
use horae::new_project::basics::remove_tag;
use horae::new_project::basics::search_note;
use horae::new_project::basics::SearchNote;
use horae::new_project::basics::shown_date;
use horae::new_project::basics::unavailable_client;
use horae::new_project::billing::add_milestone;
use horae::new_project::billing::alert_can_change;
use horae::new_project::billing::alert_control;
use horae::new_project::billing::amount_label;
use horae::new_project::billing::budget_choices;
use horae::new_project::billing::budget_title;
use horae::new_project::billing::edit_milestone;
use horae::new_project::billing::fee_label;
use horae::new_project::billing::fee_total;
use horae::new_project::billing::milestone_error_id;
use horae::new_project::billing::milestone_has_error;
use horae::new_project::billing::milestone_label;
use horae::new_project::billing::MilestoneField;
use horae::new_project::billing::monthly_day_text;
use horae::new_project::billing::pick_budget;
use horae::new_project::billing::project_currency;
use horae::new_project::billing::read_monthly_day;
use horae::new_project::billing::remove_milestone;
use horae::new_project::billing::select_type;
use horae::new_project::billing::selected_budget;
use horae::new_project::draft::DraftSaved;
use horae::new_project::draft::DraftState;
use horae::new_project::draft::ProjectDraft;
use horae::new_project::editor::EditableProject;
use horae::new_project::editor::Editor;
use horae::new_project::editor::EditorStep;
use horae::new_project::editor::Failure;
use horae::new_project::editor::Intent;
use horae::new_project::editor::time_of_day;
use horae::new_project::fields::billing_error_id;
use horae::new_project::fields::error_for;
use horae::new_project::fields::field_id;
use horae::new_project::fields::FieldDetail;
use horae::new_project::fields::is_definite_rejection;
use horae::new_project::fields::is_validation_error;
use horae::new_project::fields::ProjectFormField;
use horae::new_project::fields::RequestError;
use horae::new_project::fields::validation_field;
use horae::new_project::form::BudgetMode;
use horae::new_project::form::MonthlyFeeDay;
use horae::new_project::form::ProjectForm;
use horae::new_project::form::ProjectTaskInput;
use horae::new_project::form::RateMode;
use horae::new_project::form::TaskAccess;
use horae::new_project::form::TaskSource;
use horae::new_project::options::CreationOptions;
use horae::new_project::tasks::access_label;
use horae::new_project::tasks::AccessDialog;
use horae::new_project::tasks::add_named;
use horae::new_project::tasks::add_named_task;
use horae::new_project::tasks::add_task;
use horae::new_project::tasks::budget_label;
use horae::new_project::tasks::CreationTask;
use horae::new_project::tasks::edit_task;
use horae::new_project::tasks::is_chosen;
use horae::new_project::tasks::named_by_key;
use horae::new_project::tasks::named_task;
use horae::new_project::tasks::NamedTask;
use horae::new_project::tasks::rate_placeholder;
use horae::new_project::tasks::remove_task;
use horae::new_project::tasks::set_all_billable;
use horae::new_project::tasks::task_name;
use horae::new_project::tasks::TaskEdit;
use horae::new_project::tasks::toggle_access;
use horae::new_project::team::add_members;
use horae::new_project::team::billable_placeholder;
use horae::new_project::team::cost_placeholder;
use horae::new_project::team::CreationPerson;
use horae::new_project::team::edit_member;
use horae::new_project::team::EveryoneSearch;
use horae::new_project::team::member_error;
use horae::new_project::team::member_has_error;
use horae::new_project::team::member_name;
use horae::new_project::team::member_role;
use horae::new_project::team::MemberEdit;
use horae::new_project::team::NextPage;
use horae::new_project::team::pick_person;
use horae::new_project::team::remove_member;
use horae::new_project::team::shows_person_rates;
use horae::projects::budget::ProjectType;
use uuid::Uuid;

fn id() -> u128 {
    Uuid::now_v7().as_u128()
}

fn rejection(code: u16, detail: Option<FieldDetail>) -> RequestError {
    RequestError::Server { code, message: "Rejected".into(), detail }
}

#[test]
fn only_known_validation_fields_can_target_a_control() {
    const BAD_REQUEST: u16 = 400;
    const CONFLICT: u16 = 409;
    const NOT_FOUND: u16 = 404;
    const FORBIDDEN: u16 = 403;
    let row = Uuid::now_v7();
    let of_row = |name: &str| {
        Some(FieldDetail::Row { name: name.into(), row: row.to_string() })
    };
    let alone = |name: &str| Some(FieldDetail::Form { name: name.into() });
    for (code, detail, expected) in [
        (
            BAD_REQUEST,
            of_row("milestone_amount"),
            Some(ProjectFormField::MilestoneAmount(row.as_u128())),
        ),
        (
            BAD_REQUEST,
            Some(FieldDetail::Row { name: "milestone_amount".into(), row: "not-a-uuid".into() }),
            None,
        ),
        (BAD_REQUEST, alone("tax"), Some(ProjectFormField::Tax)),
        (BAD_REQUEST, alone("unknown"), None),
        (BAD_REQUEST, Some(FieldDetail::Other { json: "42".into() }), None),
        (BAD_REQUEST, None, None),
        (CONFLICT, alone("tax"), None),
        (NOT_FOUND, alone("client"), Some(ProjectFormField::Client)),
        (NOT_FOUND, of_row("task"), Some(ProjectFormField::Task(row.as_u128()))),
        (NOT_FOUND, of_row("person"), Some(ProjectFormField::Person(row.as_u128()))),
        (CONFLICT, of_row("task_name"), Some(ProjectFormField::TaskName(row.as_u128()))),
        (NOT_FOUND, alone("name"), None),
        (FORBIDDEN, alone("client"), None),
        (CONFLICT, None, None),
    ] {
        assert_eq!(validation_field(&rejection(code, detail)), expected);
    }
    assert_eq!(field_id(ProjectFormField::Tax), "np-tax");
    assert_eq!(
        field_id(ProjectFormField::MilestoneAmount(row.as_u128())),
        format!("np-milestone-amount-{row}")
    );
}

#[test]
fn a_rejected_creation_can_be_edited_but_an_uncertain_commit_must_be_retried() {
    for code in [400, 403, 404, 409] {
        let error = rejection(code, None);
        assert!(is_definite_rejection(&error));
        assert_eq!(is_validation_error(&error), code == 400);
    }
    let uncertain = rejection(500, None);
    assert!(!is_definite_rejection(&uncertain));
    assert!(!is_validation_error(&uncertain));
    let lost = RequestError::Other { message: "timeout".into() };
    assert!(!is_definite_rejection(&lost));
}

#[test]
fn messages_stand_at_the_field_that_is_wrong() {
    let wrong = Some(ProjectFormField::Tax);
    assert_eq!(
        billing_error_id(wrong, ProjectFormField::Tax).as_deref(),
        Some("np-billing-field-error")
    );
    assert_eq!(billing_error_id(wrong, ProjectFormField::Name), None);
    let message = Some("Too high".to_string());
    let fields = vec![ProjectFormField::Discount, ProjectFormField::Tax];
    assert_eq!(error_for(wrong, &fields, &message), message);
    assert_eq!(error_for(None, &fields, &message), None);
    assert_eq!(error_for(Some(ProjectFormField::Name), &fields, &message), None);
}

#[test]
fn tags_trim_and_deduplicate_without_changing_existing_spelling() {
    assert_eq!(
        add_tags(&vec!["Équipe".into()], " équipe , Q3, q3, , platform ").unwrap(),
        ["Équipe", "Q3", "platform"]
    );
}

#[test]
fn a_full_tag_list_still_accepts_a_duplicate() {
    let current: Vec<String> = (0..50).map(|index| format!("tag-{index}")).collect();
    assert_eq!(add_tags(&current, " TAG-0 ").unwrap(), current);
}

#[test]
fn a_batch_that_would_exceed_the_tag_limit_is_rejected() {
    let current: Vec<String> = (0..49).map(|index| format!("tag-{index}")).collect();
    assert_eq!(
        add_tags(&current, "last, overflow"),
        Err("A project can have at most 50 tags. Remove a tag before adding another.")
    );
}

#[test]
fn tag_length_counts_characters_instead_of_bytes() {
    let tag = "é".repeat(50);
    assert_eq!(add_tags(&vec![], &tag).unwrap(), [tag]);
}

#[test]
fn overlong_tags_are_rejected_without_truncation() {
    assert_eq!(
        add_tags(&vec![], &"é".repeat(51)),
        Err("Each tag must contain at most 50 characters and no null character.")
    );
    assert_eq!(
        add_tags(&vec![], "a\0b"),
        Err("Each tag must contain at most 50 characters and no null character.")
    );
}

#[test]
fn refused_tags_stay_typed() {
    let mut tags = vec!["a".to_string()];
    let mut input = "b, c".to_string();
    assert_eq!(commit_tags(&mut tags, &mut input), None);
    assert_eq!((tags.join(" "), input.as_str()), ("a b c".to_string(), ""));
    input = "x".repeat(51);
    assert!(commit_tags(&mut tags, &mut input).is_some());
    assert_eq!((tags.len(), input.len()), (3, 51));
    remove_tag(&mut tags, "b");
    assert_eq!(tags, ["a", "c"]);
    remove_last_tag(&mut tags, "typing");
    assert_eq!(tags.len(), 2);
    remove_last_tag(&mut tags, "");
    assert_eq!(tags, ["a"]);
}

fn client(id: u128, name: &str, active: bool) -> CreationClient {
    CreationClient { id, name: name.into(), currency: "EUR".into(), active }
}

#[test]
fn the_selected_client_is_offered_though_it_was_not_found() {
    let catalog = vec![client(1, "Ada", true), client(2, "Bell", false)];
    let found = vec![client(3, "Curie", true)];
    let choices = client_choices(&found, &catalog, Some(2));
    assert_eq!(choices.iter().map(|client| client.id).collect::<Vec<_>>(), [2, 3]);
    assert_eq!(client_choices(&found, &catalog, Some(3)).len(), 1);
    assert_eq!(client_choices(&found, &catalog, None).len(), 1);
    let menu = client_menu(&choices, Some(2));
    assert_eq!(menu[0].label, "Select a client…");
    assert_eq!(menu[1].label, "Bell (archived)");
    assert!(menu[1].disabled && !menu[2].disabled);
    let missing = client_menu(&found, Some(9));
    assert_eq!(missing[1].label, "Previously selected client — search to verify");
    assert!(missing[1].value.ends_with("000009"));
    assert!(unavailable_client(&choices, Some(2)));
    assert!(!unavailable_client(&choices, Some(3)));
    assert!(unavailable_client(&choices, Some(9)));
    assert!(!unavailable_client(&choices, None));
}

#[test]
fn currencies_come_from_the_project_or_its_client() {
    assert_eq!(inherited_currency(Some(&client(1, "Ada", true))), "Client default (EUR)");
    assert_eq!(inherited_currency(None), "Client default (select a client)");
    let known = vec!["CHF".to_string(), "EUR".to_string()];
    let options = currency_options(false, &None, "Client default (EUR)".into(), &known);
    assert_eq!(options.len(), 3);
    assert_eq!(options[0].1, "Client default (EUR)");
    assert_eq!(options[2].0, "EUR");
    let fixed = currency_options(true, &Some("USD".into()), String::new(), &known);
    assert_eq!(fixed, [("USD".to_string(), "USD".to_string())]);
    let mut form = ProjectForm::default();
    let clients = vec![client(1, "Ada", true)];
    assert_eq!(project_currency(&form, &clients, "Select a currency"), "Select a currency");
    form.client_id = Some(1);
    assert_eq!(project_currency(&form, &clients, "x"), "EUR");
    form.currency = Some("CHF".into());
    assert_eq!(project_currency(&form, &clients, "x"), "CHF");
}

#[test]
fn dates_are_shown_and_what_is_no_date_stays_as_typed() {
    assert_eq!(shown_date("2026-07-04", "Starts on"), "04 Jul 2026");
    assert_eq!(shown_date("", "Starts on"), "Starts on");
    assert_eq!(shown_date("soon", "Starts on"), "soon");
}

#[test]
fn a_created_client_becomes_the_projects() {
    let mut dialog = NewClient {
        name: "old".into(),
        currency: "EUR".into(),
        rate: "1".into(),
        busy: false,
        error: Some("x".into()),
    };
    dialog.open();
    assert!(!dialog.can_submit());
    dialog.name = "Ada".into();
    assert!(dialog.can_submit());
    assert!(dialog.submit());
    assert!(!dialog.submit());
    let mut selected = None;
    let mut clients = vec![];
    dialog.created(Err("taken".into()), &mut selected, &mut clients);
    assert_eq!(dialog.error.as_deref(), Some("taken"));
    assert!(dialog.submit());
    dialog.created(Ok(client(7, "Ada", true)), &mut selected, &mut clients);
    assert_eq!((selected, clients.len()), (Some(7), 1));
}

#[test]
fn budgets_follow_the_type_of_a_project() {
    let all = vec![BudgetMode::Unset, BudgetMode::HoursPerPerson, BudgetMode::TotalHours];
    let choices = budget_choices(false, &all);
    assert_eq!(
        choices,
        [BudgetMode::Unset, BudgetMode::TotalHours, BudgetMode::HoursPerPerson]
    );
    assert_eq!(
        budget_choices(true, &vec![]),
        [BudgetMode::Unset, BudgetMode::TotalHours, BudgetMode::TotalFees]
    );
    assert_eq!(selected_budget(BudgetMode::TotalHours, &choices), "total_hours");
    assert_eq!(selected_budget(BudgetMode::TotalFees, &choices), "none");
    let mut form = ProjectForm::default();
    pick_budget(&mut form, &choices, "hours_per_person");
    assert_eq!(form.budget_mode, BudgetMode::HoursPerPerson);
    pick_budget(&mut form, &choices, "total_fees");
    assert_eq!(form.budget_mode, BudgetMode::HoursPerPerson);
    select_type(&mut form, ProjectType::FixedFee, false);
    assert_eq!(form.budget_mode, BudgetMode::Unset);
    assert_eq!(budget_title(BudgetMode::FeesPerTask), "Fees per task");
    assert_eq!(amount_label(BudgetMode::TotalFees, "EUR"), "Budget (EUR)");
    assert_eq!(amount_label(BudgetMode::TotalHours, "EUR"), "Budget hours");
    assert!(alert_can_change(false, true) && !alert_can_change(false, false));
}

#[test]
fn milestones_are_added_edited_and_summed() {
    let mut milestones = vec![];
    add_milestone(&mut milestones);
    add_milestone(&mut milestones);
    let (first, second) = (milestones[0].id, milestones[1].id);
    assert_ne!(first, second);
    assert_eq!(fee_total(&milestones), None);
    assert_eq!(fee_label("EUR", &milestones), "Enter valid amounts");
    edit_milestone(&mut milestones, first, MilestoneField::Amount, "10".into());
    edit_milestone(&mut milestones, second, MilestoneField::Amount, "2.50".into());
    edit_milestone(&mut milestones, second, MilestoneField::Name, "Beta".into());
    edit_milestone(&mut milestones, second, MilestoneField::DueOn, "2026-01-01".into());
    edit_milestone(&mut milestones, 0, MilestoneField::Name, "nobody".into());
    assert_eq!(fee_label("EUR", &milestones), "EUR 12.50");
    assert_eq!(milestone_label(&milestones[0]), "New milestone");
    assert_eq!(milestone_label(&milestones[1]), "Milestone Beta");
    edit_milestone(&mut milestones, first, MilestoneField::Amount, "-1".into());
    assert_eq!(fee_total(&milestones), None);
    edit_milestone(
        &mut milestones,
        first,
        MilestoneField::Amount,
        "92233720368547758.07".into(),
    );
    assert_eq!(fee_total(&milestones), None);
    remove_milestone(&mut milestones, second);
    assert_eq!(fee_total(&milestones), Some(i64::MAX));
    for _ in 0..200 {
        add_milestone(&mut milestones);
    }
    assert_eq!(milestones.len(), 100);
    assert!(milestone_has_error(Some(ProjectFormField::MilestoneDate(first)), first));
    assert!(!milestone_has_error(Some(ProjectFormField::MilestoneDate(first)), second));
    assert_eq!(
        milestone_error_id(Some(ProjectFormField::Tax), ProjectFormField::Tax, 1).as_deref(),
        Some("np-milestone-error-00000000-0000-0000-0000-000000000001")
    );
}

#[test]
fn monthly_days_read_back() {
    for day in [MonthlyFeeDay::First, MonthlyFeeDay::Fifteenth, MonthlyFeeDay::Last] {
        assert_eq!(read_monthly_day(monthly_day_text(day)), day);
    }
    assert_eq!(read_monthly_day("never"), MonthlyFeeDay::First);
}

fn catalog_task(id: u128, name: &str, billable: bool) -> CreationTask {
    CreationTask { id, name: name.into(), billable, default_rate_cents: Some(8500) }
}

#[test]
fn tasks_are_added_once_and_billed_as_the_catalog_says() {
    let catalog = vec![catalog_task(1, "Design", false)];
    let mut tasks = vec![];
    assert_eq!(add_task(&mut tasks, &catalog, TaskSource::Existing { task_id: 1 }), None);
    assert_eq!(add_task(&mut tasks, &catalog, TaskSource::Existing { task_id: 2 }), None);
    assert_eq!(add_task(&mut tasks, &catalog, TaskSource::New { name: "Build".into() }), None);
    assert_eq!(
        tasks.iter().map(|task| task.billable).collect::<Vec<_>>(),
        [false, false, true]
    );
    assert_eq!(
        add_task(&mut tasks, &catalog, TaskSource::New { name: "Build".into() }),
        Some(["This", "task", "is already selected."].join(" "))
    );
    assert_eq!(task_name(&tasks[0], &catalog), "Design");
    assert_eq!(
        task_name(&tasks[1], &catalog),
        "Unavailable task (00000000-0000-0000-0000-000000000002)"
    );
    assert_eq!(task_name(&tasks[2], &catalog), "Build");
    assert_eq!(rate_placeholder(&tasks[0], &catalog, "EUR", "EUR"), "85.00");
    assert_eq!(rate_placeholder(&tasks[0], &catalog, "EUR", "USD"), "Inherit");
    set_all_billable(&mut tasks, true);
    assert!(tasks.iter().all(|task| task.billable));
    let second = tasks[1].id;
    edit_task(&mut tasks, second, TaskEdit::ToggleBillable);
    edit_task(&mut tasks, second, TaskEdit::Rate { value: "9".into() });
    edit_task(&mut tasks, second, TaskEdit::Budget { value: "3".into() });
    assert!(!tasks[1].billable && tasks[0].billable);
    assert_eq!((tasks[1].rate.as_str(), tasks[1].budget.as_str()), ("9", "3"));
    remove_task(&mut tasks, second);
    assert_eq!(tasks.len(), 2);
    while tasks.len() < 500 {
        let name = format!("task {}", tasks.len());
        add_task(&mut tasks, &catalog, TaskSource::New { name });
    }
    assert_eq!(
        add_task(&mut tasks, &catalog, TaskSource::New { name: "one more".into() }),
        Some("A project can have at most 500 tasks.".to_string())
    );
}

#[test]
fn a_name_finds_its_task_whatever_the_case() {
    let mut catalog = vec![];
    let found = vec![catalog_task(4, "Équipe", true)];
    let mut tasks = vec![];
    assert_eq!(add_named(&mut tasks, &mut catalog, &found, " éQUIPE "), None);
    assert!(matches!(tasks[0].source, TaskSource::Existing { task_id: 4 }));
    assert!(tasks[0].billable);
    assert_eq!(catalog.len(), 1);
    assert_eq!(add_named(&mut tasks, &mut catalog, &found, "Other"), None);
    assert!(matches!(&tasks[1].source, TaskSource::New { name } if name == "Other"));
    assert_eq!(
        add_named(&mut tasks, &mut catalog, &found, "  "),
        Some("Enter a task name from 1 to 200 characters.".to_string())
    );
    assert!(add_named(&mut tasks, &mut catalog, &found, &"é".repeat(200)).is_none());
    assert!(add_named(&mut tasks, &mut catalog, &found, &"é".repeat(201)).is_some());
}

#[test]
fn access_is_granted_person_by_person() {
    assert_eq!(access_label(&TaskAccess::Everyone), "Everyone");
    let access = TaskAccess::Restricted { user_ids: vec![] };
    assert_eq!(access_label(&access), "Restricted (0)");
    let access = toggle_access(toggle_access(access, 1), 2);
    assert!(matches!(&access, TaskAccess::Restricted { user_ids } if user_ids == &[1, 2]));
    let access = toggle_access(access, 1);
    assert!(matches!(&access, TaskAccess::Restricted { user_ids } if user_ids == &[2]));
    assert!(matches!(toggle_access(TaskAccess::Everyone, 1), TaskAccess::Everyone));
    assert_eq!(budget_label(BudgetMode::FeesPerTask, "Build", "EUR"), "Budget for Build (EUR)");
    assert_eq!(budget_label(BudgetMode::HoursPerTask, "Build", "EUR"), "Budget hours for Build");
}

fn person(id: u128) -> CreationPerson {
    CreationPerson {
        id,
        name: "Member".into(),
        billable_rate_cents: None,
        cost_rate_cents: None,
    }
}

#[test]
fn adding_everyone_deduplicates_without_replacing_project_overrides() {
    let person = person(id());
    let mut form = ProjectForm::default();
    add_members(&mut form, &[person.clone(), person.clone()]).unwrap();
    form.team[0].manager = true;
    form.team[0].cost_rate = "0".into();
    add_members(&mut form, &[person]).unwrap();
    assert_eq!(form.team.len(), 1);
    assert!(form.team[0].manager);
    assert_eq!(form.team[0].cost_rate, "0");
}

#[test]
fn exceeding_the_team_limit_does_not_partially_add_people() {
    let people: Vec<_> = (0..501).map(|_| person(id())).collect();
    let mut form = ProjectForm::default();
    assert!(add_members(&mut form, &people).is_err());
    assert!(form.team.is_empty());
    add_members(&mut form, &people[..500]).unwrap();
    assert_eq!(form.team.len(), 500);
    assert_eq!(
        add_members(&mut form, &people[500..]),
        Err("A project can have at most 500 people.")
    );
}

#[test]
fn removing_a_member_keeps_an_empty_restricted_task_restricted() {
    let person = person(id());
    let mut form = ProjectForm::default();
    add_members(&mut form, std::slice::from_ref(&person)).unwrap();
    form.tasks.push(ProjectTaskInput {
        id: id(),
        source: TaskSource::New { name: "Task".into() },
        billable: true,
        rate: String::new(),
        budget: String::new(),
        access: TaskAccess::Restricted { user_ids: vec![person.id] },
    });
    remove_member(&mut form, person.id);
    assert!(form.team.is_empty());
    assert!(
        matches!(&form.tasks[0].access, TaskAccess::Restricted { user_ids } if user_ids.is_empty())
    );
}

#[test]
fn everyone_is_gathered_page_by_page() {
    let mut search = EveryoneSearch::new();
    assert_eq!(
        search.page((0..50).map(person).collect(), true),
        NextPage::More { offset: 50 }
    );
    assert_eq!(search.page(vec![person(50)], false), NextPage::Done);
    let mut form = ProjectForm::default();
    let mut catalog = vec![person(3)];
    search.finish(&mut form, &mut catalog).unwrap();
    assert_eq!((form.team.len(), catalog.len()), (51, 51));
    let mut many = EveryoneSearch::new();
    assert_eq!(many.page((0..501).map(person).collect(), true), NextPage::TooMany);
}

#[test]
fn people_are_picked_named_and_edited() {
    let known = CreationPerson {
        id: 5,
        name: "Ada".into(),
        billable_rate_cents: Some(9000),
        cost_rate_cents: Some(100),
    };
    let found = vec![known.clone()];
    let mut form = ProjectForm::default();
    let mut catalog = vec![];
    pick_person(&mut form, &mut catalog, &found, "nobody").unwrap();
    pick_person(&mut form, &mut catalog, &found, &Uuid::from_u128(6).to_string()).unwrap();
    assert!(form.team.is_empty());
    pick_person(&mut form, &mut catalog, &found, &Uuid::from_u128(5).to_string()).unwrap();
    assert_eq!((form.team.len(), catalog.len()), (1, 1));
    assert_eq!(member_name(5, &catalog), "Ada");
    assert!(member_name(6, &catalog).starts_with("Unavailable teammate (0000"));
    assert_eq!(billable_placeholder(Some(&known), "EUR", "EUR"), "90.00");
    assert_eq!(billable_placeholder(Some(&known), "EUR", "USD"), "Inherit");
    assert_eq!(cost_placeholder(Some(&known)), "1.00");
    assert_eq!(cost_placeholder(None), "No rate");
    edit_member(&mut form.team, 5, MemberEdit::ToggleManager);
    edit_member(&mut form.team, 5, MemberEdit::BillableRate { value: "1".into() });
    edit_member(&mut form.team, 5, MemberEdit::CostRate { value: "2".into() });
    edit_member(&mut form.team, 5, MemberEdit::Budget { value: "3".into() });
    edit_member(&mut form.team, 6, MemberEdit::ToggleManager);
    let member = &form.team[0];
    assert!(member.manager);
    assert_eq!(
        (member.billable_rate.as_str(), member.cost_rate.as_str(), member.budget.as_str()),
        ("1", "2", "3")
    );
    assert!(shows_person_rates(ProjectType::TimeAndMaterials, RateMode::Person));
    assert!(!shows_person_rates(ProjectType::FixedFee, RateMode::Person));
    assert!(shows_person_rates(ProjectType::FixedFee, RateMode::Legacy));
    assert!(member_has_error(Some(ProjectFormField::CostRate(5)), 5));
    assert!(!member_has_error(Some(ProjectFormField::CostRate(5)), 6));
    let message = Some("Gone.".to_string());
    assert_eq!(
        member_error(Some(ProjectFormField::Person(5)), &message, 5).as_deref(),
        Some("Gone. Remove this person and select an available teammate below.")
    );
    assert_eq!(
        member_error(Some(ProjectFormField::CostRate(5)), &message, 5),
        message
    );
    assert_eq!(member_error(Some(ProjectFormField::CostRate(5)), &message, 6), None);
    assert_eq!((member_role(true), member_role(false)), ("Project manager", "Project member"));
}

#[test]
fn choices_are_completed_with_what_a_project_needs() {
    let mut form = ProjectForm::default();
    form.client_id = Some(1);
    let mut options = CreationOptions { clients: vec![], tasks: vec![], people: vec![person(7)] };
    add_task(&mut form.tasks, &options.tasks, TaskSource::Existing { task_id: 4 });
    add_task(&mut form.tasks, &options.tasks, TaskSource::New { name: "x".into() });
    add_members(&mut form, &[person(7), person(8)]).unwrap();
    let missing = options.missing(&form);
    assert_eq!(missing.client, Some(1));
    assert_eq!((missing.tasks, missing.people), (vec![4], vec![8]));
    options.extend(
        Some(client(1, "Ada", true)),
        vec![catalog_task(4, "Design", true)],
        vec![person(8)],
    );
    let missing = options.missing(&form);
    assert!(missing.client.is_none() && missing.tasks.is_empty() && missing.people.is_empty());
    options.replace(
        client(1, "Ada Ltd", false),
        &vec![catalog_task(4, "Design work", true)],
        &vec![person(7)],
    );
    assert_eq!((options.clients.len(), options.clients[0].name.as_str()), (1, "Ada Ltd"));
    assert_eq!((options.tasks.len(), options.tasks[0].name.as_str()), (1, "Design work"));
    assert_eq!(options.people.iter().map(|person| person.id).collect::<Vec<_>>(), [8, 7]);
}

fn named(name: &str) -> ProjectForm {
    ProjectForm { name: name.into(), ..Default::default() }
}

#[test]
fn an_empty_form_is_not_reported_as_saved() {
    let state = DraftState::new(None);
    assert!(state.saved_at.is_none());
    assert_eq!(state.revision, 0);
    assert!(!state.is_dirty(&ProjectForm::default()));
}

#[test]
fn a_retry_keeps_the_unacknowledged_payload_and_revision() {
    let mut state = DraftState::new(None);
    let first = named("First edit");
    let latest = named("Later edit");
    let request = state.request(&first);
    assert!(state.request(&latest).equals(&request));
    state
        .acknowledge(DraftSaved { id: state.id, revision: 1, saved_at: 1 })
        .unwrap();
    assert!(state.is_dirty(&latest));
    assert!(!state.is_dirty(&first));
    assert_eq!(state.request(&latest).revision, 1);
    assert!(state.request(&latest).form.equals(&latest));
}

#[test]
fn a_mismatched_acknowledgement_does_not_lose_pending_input() {
    let mut state = DraftState::new(None);
    let form = named("Keep me");
    let request = state.request(&form);
    for (id, revision) in [(id(), 1), (state.id, 9)] {
        assert!(state
            .acknowledge(DraftSaved { id, revision, saved_at: 1 })
            .is_err());
        assert!(state.request(&form).equals(&request));
        assert_eq!(state.revision, 0);
    }
}

#[test]
fn a_validation_rejection_allows_corrected_input_at_the_same_revision() {
    let mut state = DraftState::new(None);
    let _ = state.request(&named("Invalid input"));
    state.reject_validation();
    let corrected = named("Corrected");
    let request = state.request(&corrected);
    assert!(request.form.equals(&corrected));
    assert_eq!(request.revision, 0);
}

#[test]
fn resuming_preserves_the_server_identity_and_incomplete_fields() {
    let form = ProjectForm { project_rate: "12.".into(), ..Default::default() };
    let draft = ProjectDraft { id: id(), revision: 7, saved_at: 123, form: form.copy() };
    let identity = draft.id;
    let state = DraftState::new(Some(draft));
    assert_eq!(state.id, identity);
    assert_eq!(state.revision, 7);
    assert_eq!(state.saved_at, Some(123));
    assert!(!state.is_dirty(&form));
}

#[test]
fn an_acknowledgement_without_a_request_is_refused() {
    let mut state = DraftState::new(None);
    assert_eq!(
        state.acknowledge(DraftSaved { id: state.id, revision: 1, saved_at: 1 }),
        Err("No draft save is awaiting acknowledgement.")
    );
    state.revision = i64::MAX;
    let _ = state.request(&named("x"));
    assert_eq!(
        state.acknowledge(DraftSaved { id: state.id, revision: i64::MIN, saved_at: 1 }),
        Err("Unexpected draft revision. Reload the saved draft before continuing.")
    );
}

#[test]
fn typing_is_saved_before_a_project_is_created() {
    let mut editor = Editor::new(None, None);
    assert_eq!(editor.begin_draft(), None);
    assert_eq!(editor.status(), "No draft saved yet");
    editor.form.name = "Apollo".into();
    editor.form.client_id = Some(1);
    assert!(editor.can_create(&vec![client(1, "Ada", true)]));
    assert!(!editor.can_create(&vec![client(1, "Ada", false)]));
    assert_eq!(editor.status(), "Saving draft…");
    assert_eq!(editor.begin_draft(), Some(true));
    assert_eq!(editor.begin_draft(), None);
    assert!(editor.settled(&editor.form.copy()));
    assert!(!editor.settled(&ProjectForm::default()));
    assert!(matches!(editor.request_intent(Intent::Create), EditorStep::Rest));
    assert!(editor.locked());
    assert_eq!(editor.save_label(), "Saving project…");
    let EditorStep::SaveDraft { id, request } = editor.continue_draft() else {
        panic!("the draft is saved first")
    };
    assert_eq!(request.revision, 0);
    editor.form.code = "typed meanwhile".into();
    let saved = DraftSaved { id, revision: 1, saved_at: 3_661_000_000 };
    assert!(matches!(editor.draft_saved(saved), EditorStep::Rest));
    assert!(!editor.busy);
    assert_eq!(editor.begin_draft(), Some(false));
    let EditorStep::SaveDraft { id, request } = editor.continue_draft() else {
        panic!("the later edit is saved")
    };
    assert_eq!((request.revision, request.form.code.as_str()), (1, "typed meanwhile"));
    let step = editor.draft_saved(DraftSaved { id, revision: 2, saved_at: 3_661_000_000 });
    assert!(matches!(step, EditorStep::Finalize { revision: 2, .. }));
    assert!(matches!(
        editor.finalized(Err(rejection(500, None))),
        EditorStep::Rest
    ));
    assert!(editor.locked() && editor.unresolved_request());
    assert_eq!(editor.status(), "Changes need attention");
    assert!(editor.error_hint().contains("Retry a failed request"));
    editor.retry();
    assert_eq!(editor.begin_draft(), Some(false));
    assert!(matches!(editor.continue_draft(), EditorStep::Finalize { revision: 2, .. }));
    let wrong = Some(FieldDetail::Form { name: "name".into() });
    editor.finalized(Err(rejection(400, wrong)));
    assert_eq!(editor.invalid_field, Some(ProjectFormField::Name));
    assert!(!editor.locked() && !editor.unresolved_request());
    editor.retry();
    assert_eq!(editor.status(), "Draft saved at 01:01:01 UTC");
    editor.request_intent(Intent::Create);
    assert_eq!(editor.begin_draft(), Some(false));
    editor.continue_draft();
    assert!(matches!(
        editor.finalized(Ok(77)),
        EditorStep::OpenProject { id: 77 }
    ));
    assert!(!editor.locked());
}

#[test]
fn an_invalid_draft_is_given_up_and_a_lost_answer_is_asked_for_again() {
    let mut editor = Editor::new(None, None);
    editor.form.name = "a".into();
    editor.begin_draft();
    editor.continue_draft();
    editor.draft_failed(Failure { error: rejection(400, None), shown: "bad".into() });
    assert_eq!(editor.error.as_deref(), Some("bad"));
    editor.retry();
    editor.form.name = "b".into();
    editor.begin_draft();
    let EditorStep::SaveDraft { request, .. } = editor.continue_draft() else { panic!() };
    assert_eq!(request.form.name, "b");
    editor.draft_failed(Failure {
        error: RequestError::Other { message: "lost".into() },
        shown: "lost".into(),
    });
    editor.retry();
    editor.form.name = "c".into();
    editor.begin_draft();
    let EditorStep::SaveDraft { request, .. } = editor.continue_draft() else { panic!() };
    assert_eq!(request.form.name, "b");
}

#[test]
fn a_draft_is_left_or_discarded() {
    let mut editor = Editor::new(None, None);
    editor.request_intent(Intent::Leave);
    assert_eq!(editor.begin_draft(), Some(false));
    assert!(matches!(editor.continue_draft(), EditorStep::OpenList));
    assert!(!editor.busy && editor.intent.is_none());
    let mut fresh = Editor::new(None, None);
    fresh.confirm_discard();
    fresh.begin_draft();
    assert!(matches!(fresh.continue_draft(), EditorStep::OpenList));
    let draft = ProjectDraft { id: 3, revision: 2, saved_at: 1, form: named("x") };
    let mut saved = Editor::new(Some(draft), None);
    saved.confirm_discard();
    saved.begin_draft();
    assert!(matches!(
        saved.continue_draft(),
        EditorStep::RemoveDraft { id: 3, revision: 2 }
    ));
    let step = saved.discarded(Err(Failure { error: rejection(500, None), shown: "down".into() }));
    assert!(matches!(step, EditorStep::Rest));
    assert_eq!(saved.intent, Some(Intent::Discard));
    assert!(matches!(saved.discarded(Ok(())), EditorStep::OpenList));
}

#[test]
fn changes_of_a_project_are_sent_again_until_their_outcome_is_known() {
    let project = EditableProject { id: 9, revision: 4, form: named("x"), configured: true };
    let mut editor = Editor::new(None, Some(project));
    assert_eq!((editor.status().as_str(), editor.edit_state()), ("No unsaved changes", "clean"));
    assert!(matches!(editor.request_intent(Intent::Leave), EditorStep::OpenList));
    editor.form.name = "y".into();
    assert_eq!((editor.status().as_str(), editor.edit_state()), ("Unsaved changes", "dirty"));
    editor.request_intent(Intent::Leave);
    assert!(editor.discard_open);
    assert!(editor.begin_edit().is_none());
    editor.request_intent(Intent::Save);
    let sent = editor.begin_edit().unwrap();
    assert_eq!((sent.project_id, sent.expected_revision), (9, 4));
    assert_eq!(editor.status(), "Saving changes…");
    assert!(editor.begin_edit().is_none());
    editor.edit_saved(Err(rejection(502, None)));
    assert_eq!(editor.edit_state(), "pending");
    editor.form.name = "z".into();
    editor.retry();
    let again = editor.begin_edit().unwrap();
    assert_eq!((again.id, again.form.name.as_str()), (sent.id, "y"));
    editor.edit_saved(Err(rejection(409, None)));
    assert!(!editor.unresolved_request());
    editor.retry();
    let fresh = editor.begin_edit().unwrap();
    assert_ne!(fresh.id, sent.id);
    assert_eq!(fresh.form.name, "z");
    assert!(matches!(
        editor.edit_saved(Ok(9)),
        EditorStep::OpenProject { id: 9 }
    ));
    assert!(matches!(editor.confirm_discard(), EditorStep::OpenList));
}

#[test]
fn times_of_day_are_written_to_the_second() {
    assert_eq!(time_of_day(0), "00:00:00");
    assert_eq!(time_of_day(86_399_999_999), "23:59:59");
    assert_eq!(time_of_day(-1), "23:59:59");
    assert_eq!(time_of_day(1_700_000_000_000_000), "22:13:20");
}

#[test]
fn picked_clients_are_remembered() {
    let mut form = ProjectForm::default();
    let mut catalog = vec![client(1, "Ada", true)];
    let found = vec![client(1, "Ada", true), client(2, "Bell", true)];
    pick_client(&mut form, &mut catalog, &found, &Uuid::from_u128(2).to_string());
    assert_eq!((form.client_id, catalog.len()), (Some(2), 2));
    pick_client(&mut form, &mut catalog, &found, &Uuid::from_u128(2).to_string());
    assert_eq!(catalog.len(), 2);
    pick_client(&mut form, &mut catalog, &found, "");
    assert_eq!((form.client_id, catalog.len()), (None, 2));
    pick_currency(&mut form, "CHF".into());
    assert_eq!(form.currency.as_deref(), Some("CHF"));
    pick_currency(&mut form, String::new());
    assert_eq!(form.currency, None);
    assert_eq!(search_note(true, true, Some(0), true), SearchNote::Nothing);
    assert_eq!(search_note(false, true, None, false), SearchNote::Failed);
    assert_eq!(search_note(false, false, Some(0), false), SearchNote::NoMatches);
    assert_eq!(search_note(false, false, Some(50), true), SearchNote::More);
    assert_eq!(search_note(false, false, None, true), SearchNote::Nothing);
}

#[test]
fn access_is_set_only_when_it_is_applied() {
    let mut tasks = vec![];
    add_task(&mut tasks, &vec![], TaskSource::Existing { task_id: 4 });
    assert!(is_chosen(&tasks, 4) && !is_chosen(&tasks, 5));
    let task = tasks[0].id;
    let mut dialog = AccessDialog::new();
    dialog.open(&tasks, task);
    dialog.restrict(true);
    dialog.access = toggle_access(dialog.access, 8);
    dialog.dismiss();
    assert!(matches!(tasks[0].access, TaskAccess::Everyone));
    dialog.open(&tasks, task);
    assert!(matches!(dialog.access, TaskAccess::Everyone));
    dialog.restrict(true);
    dialog.apply(&mut tasks);
    assert!(
        matches!(&tasks[0].access, TaskAccess::Restricted { user_ids } if user_ids.is_empty())
    );
    assert_eq!(dialog.task, None);
    dialog.open(&tasks, task);
    dialog.restrict(false);
    dialog.apply(&mut tasks);
    assert!(matches!(tasks[0].access, TaskAccess::Everyone));
}

#[test]
fn open_requests_hold_the_page() {
    let mut editor = Editor::new(None, None);
    assert!(editor.can_leave() && editor.can_discard());
    assert_eq!(editor.save_intent(), Intent::Create);
    editor.form.name = "Apollo".into();
    editor.form.client_id = Some(1);
    let clients = vec![client(1, "Ada", true)];
    assert!(editor.can_save(&clients));
    editor.ask_to_discard();
    assert!(editor.discard_open);
    editor.keep_editing();
    assert!(!editor.discard_open);
    editor.request_intent(Intent::Create);
    assert!(!editor.can_save(&clients) && !editor.can_leave() && !editor.can_discard());
}

#[test]
fn budget_errors_target_a_control_that_can_be_corrected() {
    for field in [
        ProjectFormField::BudgetAlert,
        ProjectFormField::BudgetAlertAt,
    ] {
        let form = ProjectForm {
            budget_mode: BudgetMode::TotalHours,
            budget_alert: true,
            budget_alert_at: "101".into(),
            ..Default::default()
        };
        let message = Some("Correct this setting".to_owned());
        let email_available = field == ProjectFormField::BudgetAlertAt;
        let control =
            alert_control(&form, field, email_available, Some(field), &message).unwrap();
        assert_eq!(control.id, field_id(field));
        assert!(!control.disabled, "Rejected control must remain editable: {control:?}");
        assert_eq!(control.error_id.as_deref(), Some("np-billing-field-error"));
        assert_eq!(control.message.as_deref(), Some("Correct this setting"));
    }
}

#[test]
fn alert_controls_are_shown_where_there_is_a_budget() {
    let mut form = ProjectForm {
        budget_mode: BudgetMode::TotalHours,
        budget_alert: false,
        ..Default::default()
    };
    let shown = |form: &ProjectForm, field, email| alert_control(form, field, email, None, &None);
    assert!(shown(&form, ProjectFormField::BudgetAlert, false).unwrap().disabled);
    assert!(shown(&form, ProjectFormField::BudgetAlertAt, true).is_none());
    form.budget_alert = true;
    assert!(shown(&form, ProjectFormField::BudgetAlertAt, false).unwrap().disabled);
    assert_eq!(shown(&form, ProjectFormField::BudgetAlertAt, true).unwrap().error_id, None);
    assert!(shown(&form, ProjectFormField::Name, true).is_none());
    form.rate_mode = RateMode::Legacy;
    assert!(shown(&form, ProjectFormField::BudgetAlert, true).is_none());
    form.rate_mode = ProjectForm::default().rate_mode;
    form.budget_mode = BudgetMode::Unset;
    assert!(shown(&form, ProjectFormField::BudgetAlert, true).is_none());
}

#[test]
fn entering_tags_again_changes_nothing() {
    let once = add_tags(&vec!["Q3".into()], "a, B ,b, q3").unwrap();
    assert_eq!(once, ["Q3", "a", "B"]);
    assert_eq!(add_tags(&once, "a, B ,b, q3").unwrap(), once);
}

#[test]
fn tags_are_compared_by_their_keys() {
    let keys = vec!["x".to_string(), "y".to_string()];
    let mut tags = vec!["X".to_string(), "Y".to_string()];
    assert_eq!(add_keyed_tag(&mut tags, &keys, "Anything".into(), "y"), Ok(()));
    assert_eq!(add_keyed_tag(&mut tags, &keys, "Z".into(), "z"), Ok(()));
    assert_eq!(add_keyed_tag(&mut tags, &keys, "".into(), "w"), Ok(()));
    assert_eq!(tags, ["X", "Y", "Z"]);
    assert!(add_keyed_tag(&mut tags, &keys, "t".repeat(51), "t").is_err());
}

#[test]
fn tasks_are_named_by_their_keys() {
    let task = |id, name: &str| CreationTask {
        id,
        name: name.into(),
        billable: true,
        default_rate_cents: None,
    };
    let found = vec![task(1, "One"), task(2, "Two"), task(3, "Three")];
    let keys: Vec<String> = vec!["a".into(), "b".into(), "b".into()];
    assert!(matches!(
        named_by_key(&found, &keys, "Other".into(), "b"),
        NamedTask::Known { task } if task.id == 2
    ));
    assert!(matches!(
        named_by_key(&found, &keys, "Other".into(), "c"),
        NamedTask::Fresh { name } if name == "Other"
    ));
    assert!(matches!(named_by_key(&found, &keys, "".into(), "a"), NamedTask::Unnamed));
    assert!(matches!(
        named_task(&found, " TWO "),
        NamedTask::Known { task } if task.id == 2
    ));
    let (mut tasks, mut catalog) = (vec![], vec![]);
    let error = add_named_task(&mut tasks, &mut catalog, NamedTask::Unnamed);
    assert_eq!(error.as_deref(), Some("Enter a task name from 1 to 200 characters."));
    let named = NamedTask::Known { task: task(4, "Four") };
    assert_eq!(add_named_task(&mut tasks, &mut catalog, named), None);
    assert_eq!((tasks.len(), catalog.len()), (1, 1));
}

#[test]
fn a_project_is_loaded_again_once_confirmed() {
    let mut fresh = Editor::new(None, None);
    assert_eq!(fresh.reload_label(), "Reload saved draft (lose local edits)");
    assert!(fresh.ask_to_reload() && !fresh.reload_open);
    fresh.busy = true;
    assert!(!fresh.ask_to_reload());
    let project = EditableProject { id: 9, revision: 4, form: named("x"), configured: true };
    let mut editor = Editor::new(None, Some(project));
    assert_eq!(editor.reload_label(), "Reload project…");
    assert!(!editor.ask_to_reload() && editor.reload_open);
    editor.dismiss_reload();
    assert!(!editor.reload_open);
}
