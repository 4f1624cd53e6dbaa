use chrono::Datelike;
use chrono::NaiveDate;
use horae::approvals::ActionState;
use horae::approvals::awaiting_label;
use horae::approvals::badge_variant;
use horae::approvals::can_approve;
use horae::approvals::can_reopen;
use horae::approvals::hhmm;
use horae::approvals::pending_ids;
use horae::approvals::status_arg;
use horae::approvals::Submission;
use horae::approvals::submitted_text;
use horae::approvals::totals;
use horae::date::Date;
use horae::money::format_cents;
use horae::reports::cost_label;
use horae::reports::counted_minutes;
use horae::reports::default_period;
use horae::reports::is_gone;
use horae::reports::Minutes;
use horae::reports::minutes_total;
use horae::reports::Money;
use horae::reports::money_total;
use horae::reports::month_to;
use horae::reports::opt;
use horae::reports::ReportFilters;
use horae::reports::ReportRow;
use horae::timesheet::entry::EntryState;

fn row(currency: &str, cents: i64) -> ReportRow {
    ReportRow {
        group_id: 0,
        label: "Same label".into(),
        total_minutes: 60,
        rounded_minutes: 60,
        billable_minutes: 60,
        billable_cents: cents,
        cost_cents: Some(0),
        currency: currency.into(),
        cost_currency: "EUR".into(),
    }
}

#[test]
fn redacted_costs_do_not_become_zero_or_partial_totals() {
    let mut restricted = row("EUR", 100);
    restricted.cost_cents = None;
    let rows = [row("EUR", 250), restricted];
    assert_eq!(money_total(&rows, Money::Cost), "Restricted");
    assert_eq!(cost_label(&rows[1]), "Restricted");
}

#[test]
fn mixed_currencies_are_not_added_even_when_the_numbers_would_overflow() {
    let rows = [row("EUR", i64::MAX), row("USD", i64::MAX)];
    assert_eq!(money_total(&rows, Money::Billable), "\u{2014}");
}

#[test]
fn monetary_total_overflow_is_visible_instead_of_panicking() {
    let rows = [row("EUR", i64::MAX), row("EUR", 1)];
    assert_eq!(
        money_total(&rows, Money::Billable),
        "Amount exceeds supported range"
    );
}

#[test]
fn single_currency_totals_are_formatted_and_empty_reports_have_no_amount() {
    let rows = [row("EUR", 100), row("EUR", 250)];
    assert_eq!(money_total(&rows, Money::Billable), format_cents(350, "EUR"));
    assert_eq!(money_total(&rows, Money::Billable), "EUR 3.50");
    assert_eq!(money_total(&[], Money::Billable), "\u{2014}");
}

#[test]
fn cost_total_uses_organization_currency_across_billing_currencies() {
    let mut rows = [row("USD", 100), row("CHF", 250)];
    rows[0].cost_cents = Some(50);
    rows[1].cost_cents = Some(75);
    assert_eq!(money_total(&rows, Money::Cost), format_cents(125, "EUR"));
}

#[test]
fn sums_on_the_way_must_be_held_too() {
    let rows = [row("EUR", i64::MAX), row("EUR", 1), row("EUR", -1)];
    assert_eq!(
        money_total(&rows, Money::Billable),
        "Amount exceeds supported range"
    );
}

#[test]
fn times_are_added_by_column() {
    let mut rows = [row("EUR", 1), row("EUR", 1)];
    rows[1].rounded_minutes = 75;
    rows[1].billable_minutes = 0;
    assert_eq!(minutes_total(&rows, Minutes::Total), 120);
    assert_eq!(minutes_total(&rows, Minutes::Rounded), 135);
    assert_eq!(minutes_total(&rows, Minutes::Billable), 60);
}

#[test]
fn exports_carry_the_filters_that_are_set() {
    let mut filters = ReportFilters {
        from: "2026-01-01".into(),
        to: "2026-01-31".into(),
        client: "c".into(),
        project: "p".into(),
        user: String::new(),
        tag: "t".into(),
    };
    assert_eq!(
        filters.export_query(),
        "from=2026-01-01&to=2026-01-31&client_id=c&project_id=p&tag_id=t"
    );
    filters.choose_client("d".into());
    assert_eq!(
        filters.export_url("csv"),
        "/api/reports/export/csv?from=2026-01-01&to=2026-01-31&client_id=d&tag_id=t"
    );
    assert_eq!(opt(String::new()), None);
    assert_eq!(opt("x".into()), Some("x".to_string()));
    assert!(!is_gone("", &vec![1]));
    assert!(!is_gone("00000000-0000-0000-0000-000000000001", &vec![1]));
    assert!(is_gone("00000000-0000-0000-0000-000000000002", &vec![1]));
}

#[test]
fn reports_cover_this_month_at_first() {
    let day = NaiveDate::from_ymd_opt(2024, 2, 29).unwrap().num_days_from_ce();
    assert_eq!(
        month_to(Date { days: day }),
        ("2024-02-01".to_string(), "2024-02-29".to_string())
    );
    let (from, to) = default_period();
    assert!(from.ends_with("-01"));
    assert!(from <= to);
}

fn submission(id: u128, state: EntryState, total: i64, billable: i64) -> Submission {
    Submission { id, user_id: 1, state, submitted_at: 0, total_minutes: total, billable_minutes: billable }
}

#[test]
fn approvals_show_what_is_billable() {
    assert_eq!(hhmm(65), "1:05");
    assert_eq!(hhmm(-5), "0:00");
    assert_eq!(hhmm(6000), "100:00");
    assert_eq!(status_arg("Approved").as_deref(), Some("approved"));
    assert_eq!(status_arg("All"), None);
    assert_eq!(status_arg("Pending").as_deref(), Some("submitted"));
    let items = vec![
        submission(1, EntryState::Submitted, 100, 50),
        submission(2, EntryState::Approved, 50, 50),
        submission(3, EntryState::Submitted, 0, 0),
    ];
    let sums = totals(&items);
    assert_eq!((sums.total, sums.billable, sums.nonbillable), (150, 100, 50));
    assert_eq!((sums.billable_percent, sums.nonbillable_percent), (66, 34));
    let none = totals(&vec![]);
    assert_eq!((none.billable_percent, none.nonbillable_percent), (0, 0));
    assert_eq!(
        pending_ids(&items),
        [
            "00000000-0000-0000-0000-000000000001",
            "00000000-0000-0000-0000-000000000003"
        ]
    );
    assert!(can_approve(EntryState::Submitted) && !can_approve(EntryState::Approved));
    assert!(can_reopen(EntryState::Approved) && !can_reopen(EntryState::Invoiced));
    assert_eq!(badge_variant(EntryState::Submitted), "warning");
}

#[test]
fn actions_reload_the_list_whatever_becomes_of_them() {
    let mut state = ActionState { refresh: 0, error: None };
    state.acted(Err("denied".into()));
    assert_eq!((state.refresh, state.error.as_deref()), (1, Some("denied")));
    state.acted(Ok(()));
    assert_eq!((state.refresh, state.error.as_deref()), (2, None));
    assert_eq!(awaiting_label(0), None);
    assert_eq!(
        awaiting_label(2).as_deref(),
        Some("2 timesheet(s) awaiting your approval")
    );
}

#[test]
fn reports_ask_for_the_filters_that_are_set() {
    let filters = ReportFilters {
        from: "a".into(),
        to: "b".into(),
        client: "c".into(),
        project: String::new(),
        user: String::new(),
        tag: "t".into(),
    };
    let request = filters.request("person");
    assert_eq!((request.from.as_str(), request.group_by.as_str()), ("a", "person"));
    assert_eq!((request.client.as_deref(), request.project), (Some("c"), None));
    assert_eq!((request.tag.as_deref(), request.user), (Some("t"), None));
    assert_eq!((counted_minutes(7, None), counted_minutes(7, Some(15))), (7, 15));
}

#[test]
fn submissions_show_when_they_were_made() {
    let at = |micros: i64| {
        let mut item = submission(1, EntryState::Submitted, 0, 0);
        item.submitted_at = micros;
        submitted_text(&item)
    };
    assert_eq!(at(0), "01 Jan, 00:00");
    assert_eq!(at(-1), "31 Dec, 23:59");
    for micros in [1_768_484_705_123_456, -1_768_484_705_123_456, 86_399_999_999, 60_000_000] {
        let moment = chrono::DateTime::from_timestamp_micros(micros).unwrap();
        assert_eq!(at(micros), moment.format("%d %b, %H:%M").to_string());
    }
}
