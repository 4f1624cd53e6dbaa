use chrono::Datelike;
use chrono::NaiveDate;
use horae::admin::active_class;
use horae::admin::active_label;
use horae::admin::TaskForm;
use horae::admin::UserForm;
use horae::clients::ClientForm;
use horae::clients::ClientRecord;
use horae::clock::format_hhmm;
use horae::date::Date;
use horae::money::format_cents;
use horae::money::format_cents_plain;
use horae::money::parse_cents;
use horae::money::used_percent;
use horae::money::Percentage;
use horae::order::sort_texts;
use horae::render::build_inputs;
use horae::render::opt;
use horae::render::InputValue;
use horae::render::Invoice;
use horae::render::InvoiceLine;
use horae::render::OrgBranding;
use horae::text::contains;
use horae::text::decimal_text;
use horae::text::signed_text;
use horae::text::trim;

#[test]
fn amounts_read_back() {
    for cents in [0, 5, 99, 100, 123456, -5, -123456, i64::MAX, i64::MIN] {
        assert_eq!(parse_cents(&format_cents_plain(cents)), Some(cents));
    }
    assert_eq!(format_cents(-5, "EUR"), "EUR -0.05");
    assert_eq!(parse_cents("1.2"), Some(120));
    assert_eq!(parse_cents("1.234"), None);
    assert_eq!(parse_cents("ten"), None);
    assert_eq!(parse_cents(""), None);
}

#[test]
fn percentages_stop_at_a_hundred() {
    assert_eq!(Percentage::parse("7.5").unwrap().basis_points, 750);
    assert_eq!(Percentage::parse("100").unwrap().basis_points, 10000);
    assert!(Percentage::parse("100.01").is_none());
    assert!(Percentage::parse("-1").is_none());
    assert_eq!(used_percent(50, 200), Some(25));
    assert_eq!(used_percent(500, 200), Some(100));
    assert_eq!(used_percent(1, 0), None);
}

#[test]
fn texts_are_trimmed_searched_and_sorted() {
    assert_eq!(trim("\u{a0} é \t"), "é");
    assert!(contains("Apollo", "oll") && contains("", "") && !contains("ab", "ba"));
    assert_eq!((decimal_text(u128::MAX), signed_text(i64::MIN)), (
        u128::MAX.to_string(),
        i64::MIN.to_string(),
    ));
    assert_eq!(format_hhmm(1439), "23:59");
    let sorted = sort_texts(&vec!["b".into(), "B".into(), "a".into()]);
    assert_eq!(sorted, ["B", "a", "b"]);
}

#[test]
fn created_users_and_tasks_clear_their_forms() {
    let mut users = UserForm::new();
    users.email = "a@b.c".into();
    users.shown = true;
    users.created(Err("taken".into()));
    assert_eq!((users.shown, users.error.as_deref()), (true, Some("taken")));
    users.created(Ok(()));
    assert!(!users.shown && users.email.is_empty() && users.error.is_none());
    users.changed(Err("denied".into()));
    assert_eq!(users.row_error.as_deref(), Some("denied"));
    users.changed(Ok(()));
    assert_eq!(users.row_error, None);
    let mut tasks = TaskForm::new();
    tasks.name = "Build".into();
    tasks.shown = true;
    tasks.created(Ok(()));
    assert!(!tasks.shown && tasks.name.is_empty());
    assert_ne!(active_class(true), active_class(false));
    assert_ne!(active_label(true), active_label(false));
}

#[test]
fn an_unchanged_client_is_sent_as_it_was() {
    let client = ClientRecord {
        id: 3,
        name: "Ada".into(),
        currency: "EUR".into(),
        address: Some("Rue 1".into()),
        tax_id: None,
        active: true,
    };
    let mut form = ClientForm::reset();
    form.edit(&client);
    let request = form.request();
    assert_eq!(request.id, Some(3));
    assert_eq!((request.address, request.tax_id), (client.address, client.tax_id));
    assert_ne!(form.title(), ClientForm::reset().title());
    form.saved(Err("no".into()));
    assert!(form.shown);
    form.saved(Ok(()));
    assert!(!form.shown && form.editing.is_none());
    form.toggle();
    assert!(form.shown);
}

fn ymd(year: i32, month: u32, day: u32) -> Date {
    Date { days: NaiveDate::from_ymd_opt(year, month, day).unwrap().num_days_from_ce() }
}

#[test]
fn invoices_are_laid_out_with_exact_amounts() {
    let invoice = Invoice {
        number: "2026-1".into(),
        issued_on: ymd(2026, 7, 4),
        due_on: ymd(2026, 8, 3),
        currency: "EUR".into(),
        total_cents: i64::MAX,
        notes: None,
    };
    let lines = [InvoiceLine {
        description: "Work".into(),
        minutes: 90,
        rate_cents: 100,
        amount_cents: 150,
    }];
    let branding = OrgBranding {
        provider_name: Some("Horae".into()),
        provider_address: None,
        provider_tax_id: None,
        provider_email: None,
        provider_phone: None,
        bank_name: None,
        bank_iban: None,
        bank_bic: None,
        bank_routing: None,
        bank_account: None,
        invoice_payment_terms: None,
    };
    let inputs = build_inputs(&invoice, &lines, "Ada", Some("Rue 1"), None, &branding);
    let value = |name: &str| &inputs.values.iter().find(|(key, _)| *key == name).unwrap().1;
    assert!(matches!(value("total_cents"), InputValue::Number { number: i64::MAX }));
    assert!(matches!(value("client_address"), InputValue::Text { text } if text == "Rue 1"));
    assert!(matches!(value("notes"), InputValue::Absent));
    assert_eq!((inputs.lines.len(), inputs.lines[0].minutes), (1, 90));
    assert!(matches!(opt(&None), InputValue::Absent));
}
