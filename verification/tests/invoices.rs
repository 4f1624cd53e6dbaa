use horae::date::Date;
use horae::invoices::defaults_form::add_second_tax;
use horae::invoices::defaults_form::custom_terms;
use horae::invoices::defaults_form::edit_second_tax;
use horae::invoices::defaults_form::fields_from;
use horae::invoices::defaults_form::InvoiceDefaults;
use horae::invoices::defaults_form::InvoiceDefaultsInput;
use horae::invoices::defaults_form::parse_fields;
use horae::invoices::defaults_form::pick_terms;
use horae::invoices::defaults_form::picked_terms;
use horae::invoices::defaults_form::remove_second_tax;
use horae::invoices::defaults_form::SecondTaxInput;
use horae::invoices::defaults_form::TaxEdit;
use horae::invoices::defaults_form::terms_label;
use horae::invoices::editing::agreed_line;
use horae::invoices::editing::DraftEditForm;
use horae::invoices::editing::excess_lines as draft_excess_lines;
use horae::invoices::editing::FeeLineInput;
use horae::invoices::editing::FeeReview;
use horae::invoices::editing::InvoiceDraftEdit;
use horae::invoices::editing::InvoiceEditReview;
use horae::invoices::editing::InvoiceExcessConfirmation;
use horae::invoices::editing::InvoiceFeeEdit;
use horae::invoices::editing::parse_edit;
use horae::invoices::editing::reviewed_line;
use horae::invoices::fees::balance_line;
use horae::invoices::fees::FeeInput;
use horae::invoices::fees::from_review;
use horae::invoices::fees::InvoiceFeeBalance;
use horae::invoices::fees::InvoiceSource;
use horae::invoices::fees::parse;
use horae::invoices::fees::PreparedLine;
use horae::invoices::fees::refresh;
use horae::invoices::list::amount_label;
use horae::invoices::list::client_name;
use horae::invoices::list::client_options;
use horae::invoices::list::invoice_badge_class;
use horae::invoices::list::InvoicePage;
use horae::invoices::list::InvoiceStatus;
use horae::invoices::list::minutes_label;
use horae::invoices::list::pdf_url;
use horae::invoices::list::rate_label;
use horae::invoices::list::remaining_label;
use horae::invoices::list::status_word;
use horae::invoices::list::toggle_form;
use horae::invoices::list::transition_label;
use horae::invoices::list::transitions;
use horae::invoices::preparation::dates_line;
use horae::invoices::preparation::excess_lines;
use horae::invoices::preparation::InvoiceExcess;
use horae::invoices::preparation::InvoicePreparation;
use horae::invoices::preparation::InvoiceRequest;
use horae::invoices::preparation::is_reviewed;
use horae::invoices::preparation::Preparation;
use horae::invoices::recovery::check_size;
use horae::invoices::recovery::fault_message;
use horae::invoices::recovery::GateStep;
use horae::invoices::recovery::PendingInvoice;
use horae::invoices::recovery::RecordFault;
use horae::invoices::recovery::RecoveryGate;
use horae::invoices::recovery::storage_key;
use horae::invoices::recovery::take_record;
use horae::new_project::fields::RequestError;
use horae::projects::list::Client;
use horae::render::build_inputs;
use horae::render::InputValue;
use horae::render::Invoice;
use horae::render::InvoiceLine;
use horae::render::OrgBranding;

fn rejected(code: u16) -> RequestError {
    RequestError::Server { code, message: "Rejected".into(), detail: None }
}

#[test]
fn invoice_fields_preserve_exact_percentages_and_custom_terms() {
    let defaults = InvoiceDefaults {
        terms_days: 21,
        po_number: "PO-123".into(),
        tax1_bps: 2100,
        discount_bps: 1250,
        tax2_name: Some("Local tax".into()),
        tax2_bps: Some(150),
    };
    assert!(parse_fields(&fields_from(&defaults)).unwrap().equals(&defaults));
    assert_eq!(fields_from(&defaults).discount, "12.50");
}

#[test]
fn invoice_fields_reject_invalid_percentages_terms_and_second_tax() {
    for value in ["-1", "100.01", "1.001", "NaN"] {
        let fields = InvoiceDefaultsInput { tax: value.into(), ..Default::default() };
        assert!(parse_fields(&fields).is_err());
    }
    for value in ["", "-1", "366", "1.5"] {
        let fields = InvoiceDefaultsInput { terms_days: value.into(), ..Default::default() };
        assert!(parse_fields(&fields).is_err());
    }
    let fields = InvoiceDefaultsInput {
        second_tax: Some(SecondTaxInput { name: " ".into(), percentage: "1.5".into() }),
        ..Default::default()
    };
    assert!(parse_fields(&fields).is_err());
}

#[test]
fn invoice_fields_bound_metadata_by_characters_and_reject_nul() {
    let mut fields = InvoiceDefaultsInput {
        po_number: "é".repeat(200),
        second_tax: Some(SecondTaxInput { name: "é".repeat(100), percentage: "100".into() }),
        ..Default::default()
    };
    assert!(parse_fields(&fields).is_ok());
    fields.po_number.push('é');
    assert!(parse_fields(&fields).is_err());
    fields.po_number = "PO\0number".into();
    assert!(parse_fields(&fields).is_err());
    fields.po_number.clear();
    fields.second_tax.as_mut().unwrap().name.push('é');
    assert!(parse_fields(&fields).is_err());
    fields.second_tax.as_mut().unwrap().name = "Tax\0name".into();
    assert!(parse_fields(&fields).is_err());
}

#[test]
fn invoice_fields_preserve_receipt_terms_and_empty_optional_percentages() {
    let fields = InvoiceDefaultsInput { terms_days: "0".into(), ..Default::default() };
    assert!(parse_fields(&fields)
        .unwrap()
        .equals(&InvoiceDefaults { terms_days: 0, ..Default::default() }));
}

#[test]
fn invoice_fields_name_the_first_thing_that_is_wrong() {
    let mut fields = InvoiceDefaultsInput {
        terms_days: "x".into(),
        po_number: "\0".into(),
        tax: "x".into(),
        ..Default::default()
    };
    assert_eq!(
        parse_fields(&fields).unwrap_err(),
        "Payment terms must be between 0 and 365 days."
    );
    fields.terms_days = " +365 ".into();
    assert_eq!(
        parse_fields(&fields).unwrap_err(),
        "Purchase order must contain at most 200 characters."
    );
    fields.po_number = " PO ".into();
    assert_eq!(
        parse_fields(&fields).unwrap_err(),
        "Percentages must be between 0 and 100, with at most two decimal places."
    );
    fields.tax = "7.7".into();
    let read = parse_fields(&fields).unwrap();
    assert_eq!((read.terms_days, read.tax1_bps, read.po_number.as_str()), (365, 770, "PO"));
    assert!(custom_terms(false, "21"));
    assert!(!custom_terms(false, "30"));
    assert_eq!(terms_label(0), "Due on receipt");
    assert_eq!(terms_label(15), "Net 15");
}

#[test]
fn invoice_review_requires_matching_sources_and_valid_values() {
    let request = || InvoiceRequest {
        client: "client".into(),
        from: "2026-01-01".into(),
        to: "2026-01-31".into(),
        projects: None,
        overrides: Some(InvoiceDefaults::default()),
        fees: None,
    };
    assert!(is_reviewed(Some(&request()), Some(&request())));
    assert!(!is_reviewed(None, Some(&request())));
    assert!(!is_reviewed(None, None));
    assert!(!is_reviewed(Some(&request()), None));
    let changes = [
        InvoiceRequest { client: "different".into(), ..request() },
        InvoiceRequest { from: "2026-01-02".into(), ..request() },
        InvoiceRequest { to: "2026-02-01".into(), ..request() },
        InvoiceRequest { projects: Some(vec!["project".into()]), ..request() },
        InvoiceRequest { overrides: None, ..request() },
        InvoiceRequest { fees: Some(Vec::new()), ..request() },
        InvoiceRequest {
            overrides: Some(InvoiceDefaults { tax1_bps: 2100, ..Default::default() }),
            ..request()
        },
    ];
    for changed in changes {
        assert!(!is_reviewed(Some(&changed), Some(&request())));
    }
}

fn fee() -> FeeInput {
    FeeInput {
        present: true,
        source: InvoiceSource::Fee {
            project_id: uuid::Uuid::now_v7().as_u128(),
            period_key: "single".into(),
        },
        label: "Fee".into(),
        description: "Fee".into(),
        amount: "0.00".into(),
        selected: false,
        currency: "EUR".into(),
        balance: InvoiceFeeBalance { agreed_cents: 100, invoiced_cents: 100, remaining_cents: 0 },
    }
}

#[test]
fn refresh_keeps_raw_edits_and_does_not_select_new_sources() {
    let mut old = fee();
    old.amount = "invalid input kept".into();
    old.description = "My edited description".into();
    old.selected = true;
    let mut current = old.clone();
    current.balance.remaining_cents = -50;
    let mut added = fee();
    added.selected = true;
    let refreshed = refresh(&[old.clone()], vec![current, added]);
    assert_eq!(refreshed[0].amount, old.amount);
    assert_eq!(refreshed[0].description, old.description);
    assert!(refreshed[0].selected);
    assert_eq!(refreshed[0].balance.remaining_cents, -50);
    assert!(!refreshed[1].selected);
    assert!(parse(&refreshed).is_err());
}

#[test]
fn refresh_preserves_missing_or_relabelled_edits_until_explicit_removal() {
    let mut old = fee();
    old.amount = "9.99".into();
    old.selected = true;
    let mut changed_currency = old.clone();
    changed_currency.currency = "USD".into();
    let refreshed = refresh(&[old.clone()], vec![changed_currency]);
    assert_eq!(refreshed.len(), 2);
    assert_eq!(refreshed[0].currency, "EUR");
    assert_eq!(refreshed[0].amount, "9.99");
    assert!(parse(&refreshed).unwrap_err().contains("unavailable"));
    assert!(!refreshed[1].selected);
    let restored = refresh(&refreshed[..1], vec![old]);
    assert_eq!(parse(&restored).unwrap()[0].amount_cents, 999);
    assert!(parse(&refresh(&restored, Vec::new())).is_err());
}

#[test]
fn fee_inputs_require_exact_amounts_and_an_explicit_positive_charge() {
    let mut fee = fee();
    assert!(!parse(&[fee.clone()]).unwrap()[0].selected);
    fee.selected = true;
    assert!(parse(&[fee.clone()]).is_err());
    for invalid in ["-1", "0.001", "NaN", "999999999999999999999999"] {
        fee.amount = invalid.into();
        assert!(parse(&[fee.clone()]).is_err(), "{invalid}");
    }
    fee.amount = "1.25".into();
    assert_eq!(parse(&[fee.clone()]).unwrap()[0].amount_cents, 125);
    fee.description = "  ".into();
    assert!(parse(&[fee]).is_err());
}

#[test]
fn new_fees_come_by_source_and_currency() {
    let at = |project_id: u128, period: &str, currency: &str| FeeInput {
        source: InvoiceSource::Fee { project_id, period_key: period.into() },
        currency: currency.into(),
        ..fee()
    };
    let refreshed = refresh(
        &[],
        vec![at(2, "a", "EUR"), at(1, "b", "EUR"), at(1, "a", "USD"), at(1, "a", "EUR")],
    );
    let keys: Vec<_> = refreshed
        .iter()
        .map(|fee| match &fee.source {
            InvoiceSource::Fee { project_id, period_key } => {
                (*project_id, period_key.as_str(), fee.currency.as_str())
            }
            InvoiceSource::Time { .. } => unreachable!(),
        })
        .collect();
    assert_eq!(
        keys,
        [(1, "a", "EUR"), (1, "a", "USD"), (1, "b", "EUR"), (2, "a", "EUR")]
    );
}

fn line(amount: i64, selected: bool, is_fee: bool) -> PreparedLine {
    PreparedLine {
        source: if is_fee {
            InvoiceSource::Fee { project_id: 1, period_key: "single".into() }
        } else {
            InvoiceSource::Time { key: "single".into() }
        },
        description: "Launch".into(),
        minutes: if is_fee { None } else { Some(90) },
        rate_cents: if is_fee { None } else { Some(20_000) },
        amount_cents: amount,
        net_before_tax_cents: Some(amount),
        selected,
        currency: "EUR".into(),
        fee_balance: if is_fee {
            Some(InvoiceFeeBalance { agreed_cents: 500, invoiced_cents: 0, remaining_cents: 500 })
        } else {
            None
        },
    }
}

fn review(defaults: Option<InvoiceDefaults>) -> InvoicePreparation {
    InvoicePreparation {
        issued_on: Date { days: 739_000 },
        due_on: Some(Date { days: 739_030 }),
        currency: "EUR".into(),
        defaults,
        projects: vec![],
        lines: vec![line(300, true, false), line(700, true, true)],
        excess: vec![InvoiceExcess {
            source: InvoiceSource::Fee { project_id: 1, period_key: "single".into() },
            excess_cents: 200,
        }],
    }
}

#[test]
fn only_fees_are_taken_from_a_review() {
    let fees = from_review(&review(None).lines);
    assert_eq!(fees.len(), 1);
    assert_eq!((fees[0].amount.as_str(), fees[0].label.as_str()), ("7.00", "Launch"));
    assert_eq!(review(None).fee_selection().len(), 1);
}

#[test]
fn an_invoice_is_generated_as_it_was_reviewed() {
    let mut form = Preparation::new();
    form.choose_client("c".into());
    form.from = "2026-01-01".into();
    form.to = "2026-01-31".into();
    assert!(!form.generate_enabled());
    let asked = form.begin_review().unwrap();
    assert!(asked.overrides.is_none() && asked.fees.is_none());
    assert!(form.begin_review().is_none());
    form.review_arrived(asked, review(Some(InvoiceDefaults::default())));
    assert!(form.ready());
    assert!(form.generate_enabled());
    assert!(form.asks_to_confirm());
    form.fees[0].amount = "8".into();
    assert!(!form.ready());
    assert!(form.generate(true).is_none());
    form.fees[0].amount = "7.00".into();
    let sent = form.generate(true).unwrap();
    assert_eq!(sent.request.confirmed_excess.len(), 1);
    assert_eq!(form.generated(Err(rejected(500)), "shown".into()), None);
    assert!(form.uncertain && form.busy);
    assert_eq!(form.generate_label(), "Retry generation");
    assert!(form.error.as_ref().unwrap().contains("may have been saved"));
    let again = form.generate(false).unwrap();
    assert_eq!(again.request.request_id, sent.request.request_id);
    assert_eq!(again.request.confirmed_excess.len(), 1);
    assert_eq!(form.generated(Ok(9), String::new()), Some(9));
    assert!(!form.busy);
    assert!(form.generate(false).is_some());
    assert_eq!(form.generated(Err(rejected(409)), "conflict".into()), None);
    assert_eq!(form.error.as_deref(), Some("conflict"));
    assert!(!form.ready());
}

#[test]
fn disagreeing_projects_leave_the_values_to_be_chosen() {
    let mut form = Preparation::new();
    let asked = form.begin_review().unwrap();
    form.review_arrived(asked, review(None));
    assert!(!form.ready());
    assert_eq!(form.fields.terms_days, "");
    assert!(form.begin_review().is_none());
    assert_eq!(
        form.error.as_deref(),
        Some("Payment terms must be between 0 and 365 days.")
    );
    form.use_defaults(&InvoiceDefaults::default());
    assert!(form.begin_review().is_some());
    form.review_failed("offline".into());
    assert_eq!(form.error.as_deref(), Some("offline"));
}

#[test]
fn chosen_projects_are_kept_in_order() {
    let mut form = Preparation::new();
    form.toggle_project("b");
    assert_eq!(form.selected, None);
    form.toggle_all_projects();
    for id in ["b", "c", "a"] {
        form.toggle_project(id);
    }
    assert_eq!(form.selected.as_ref().unwrap(), &["a", "b", "c"]);
    form.toggle_project("b");
    assert_eq!(form.selected.as_ref().unwrap(), &["a", "c"]);
    form.toggle_all_projects();
    assert_eq!(form.selected, None);
}

fn edit() -> InvoiceDraftEdit {
    InvoiceDraftEdit {
        revision: 4,
        defaults: InvoiceDefaults::default(),
        fees: vec![InvoiceFeeEdit { line_id: 1, description: "Launch".into(), amount_cents: 700 }],
    }
}

fn edit_review(excess: i64) -> InvoiceEditReview {
    InvoiceEditReview {
        total_cents: 700,
        fees: vec![FeeReview {
            line_id: 1,
            period_key: "single".into(),
            agreed_cents: 500,
            other_invoiced_cents: 100,
            net_cents: 700,
            remaining_cents: -excess,
            excess_cents: excess,
        }],
    }
}

#[test]
fn an_opened_draft_reads_back_as_it_is() {
    let form = DraftEditForm::new(&edit());
    assert_eq!(form.fees[0].amount, "7.00");
    let read = parse_edit(form.revision, &form.fields, &form.fees).unwrap();
    assert!(read.equals(&edit()));
}

#[test]
fn draft_fees_name_the_first_thing_that_is_wrong() {
    let fields = InvoiceDefaultsInput::default();
    let mut fees = vec![
        FeeLineInput { id: 1, description: " ".into(), amount: "x".into() },
        FeeLineInput { id: 2, description: "ok".into(), amount: "1".into() },
    ];
    assert_eq!(
        parse_edit(1, &fields, &fees).unwrap_err(),
        "Fee descriptions must contain 1–1000 characters without NUL."
    );
    fees[0].description = "Fee".into();
    assert_eq!(
        parse_edit(1, &fields, &fees).unwrap_err(),
        "Enter an exact fee amount with at most two decimal places."
    );
    fees[0].amount = "-1".into();
    assert_eq!(
        parse_edit(1, &fields, &fees).unwrap_err(),
        "Fee amounts cannot be negative."
    );
    fees[0].amount = "0".into();
    assert_eq!(parse_edit(1, &fields, &fees).unwrap().fees[1].amount_cents, 100);
}

#[test]
fn only_reviewed_changes_of_a_draft_are_saved() {
    let mut form = DraftEditForm::new(&edit());
    assert!(form.save(false).is_none());
    let asked = form.begin_review().unwrap();
    form.review_replied(asked, Ok(edit_review(50)));
    assert!(form.save_enabled() && form.asks_to_confirm());
    form.fees[0].amount = "7".into();
    assert!(form.ready());
    form.fees[0].amount = "8".into();
    assert!(!form.ready() && form.save(false).is_none());
    form.fees[0].amount = "7.00".into();
    let sent = form.save(true).unwrap();
    assert_eq!(
        sent.confirmed_excess,
        vec![InvoiceExcessConfirmation { line_id: 1, excess_cents: 50 }]
    );
    assert!(form.save(true).is_none());
    assert!(!form.save_replied(Err(rejected(503)), "x".into()));
    assert_eq!(form.save_label(), "Retry invoice save");
    form.fees[0].amount = "9".into();
    let again = form.save(false).unwrap();
    assert_eq!(again.request_id, sent.request_id);
    assert_eq!(again.edit.fees[0].amount_cents, 700);
    assert!(!form.save_replied(Err(rejected(400)), "wrong".into()));
    assert_eq!(form.error.as_deref(), Some("wrong"));
    assert!(form.reviewed.is_none());
    form.fees[0].amount = "x".into();
    assert!(form.begin_review().is_none());
    form.fees[0].amount = "7".into();
    let asked = form.begin_review().unwrap();
    form.review_replied(asked, Ok(edit_review(0)));
    assert!(!form.asks_to_confirm());
    let sent = form.save(false).unwrap();
    assert!(sent.confirmed_excess.is_empty());
    assert!(form.save_replied(Ok(()), String::new()));
}

#[test]
fn a_recovered_request_is_cleared_before_its_invoice_is_opened() {
    let mut gate = RecoveryGate::new();
    gate.begin_loading();
    assert!(!gate.open());
    gate.found(Err("offline".into()));
    assert_eq!(gate.loading_error.as_deref(), Some("offline"));
    let mut form = DraftEditForm::new(&edit());
    let asked = form.begin_review().unwrap();
    form.review_replied(asked, Ok(edit_review(0)));
    let request = form.save(false).unwrap();
    let pending = PendingInvoice::Save { invoice_id: 8, request };
    assert_eq!(pending.outcome(1), 8);
    gate.found(Ok(Some(pending)));
    assert!(!gate.open());
    assert_eq!(gate.editor_state(), "pending");
    assert_eq!(gate.discard(), GateStep::Rest);
    assert!(gate.recover());
    assert!(!gate.recover());
    assert_eq!(gate.submitted(Err(rejected(500)), "down".into()), GateStep::Rest);
    assert_eq!(gate.discard(), GateStep::Rest);
    assert!(gate.recover());
    assert_eq!(gate.submitted(Err(rejected(404)), "gone".into()), GateStep::Rest);
    assert_eq!(gate.editor_state(), "clean");
    assert!(gate.recover());
    assert_eq!(gate.submitted(Ok(8), String::new()), GateStep::Clear);
    assert_eq!(gate.cleared(Err("full".into())), GateStep::Rest);
    assert_eq!(
        gate.error.as_deref(),
        Some("The invoice is saved, but recovery could not be cleared: full")
    );
    assert!(gate.recover());
    assert_eq!(gate.submitted(Ok(8), String::new()), GateStep::Clear);
    assert_eq!(gate.cleared(Ok(())), GateStep::Open { id: 8 });
    assert!(gate.open());
}

#[test]
fn recovery_records_are_bounded_and_belong_to_a_manager() {
    assert!(check_size(&"é".repeat(262144)).is_ok());
    assert_eq!(
        check_size(&("é".repeat(262144) + "x")),
        Err("Invoice recovery data exceeds 512 KiB.")
    );
    assert_eq!(storage_key(false, 1, 2), Err("Invoices require manager access."));
    assert_eq!(
        storage_key(true, 1, 2).unwrap(),
        "horae-invoice-request:v1:00000000-0000-0000-0000-000000000001:00000000-0000-0000-0000-000000000002"
    );
}

#[test]
fn invoices_move_on_until_they_are_settled() {
    assert_eq!(invoice_badge_class(InvoiceStatus::Paid), "badge badge-success");
    assert_eq!(invoice_badge_class(InvoiceStatus::Sent), "badge badge-info");
    assert_eq!(invoice_badge_class(InvoiceStatus::Void), "badge badge-neutral");
    assert_eq!(invoice_badge_class(InvoiceStatus::Draft), "badge badge-warning");
    let next: Vec<_> = transitions(InvoiceStatus::Draft)
        .iter()
        .map(|transition| {
            (status_word(transition.to), transition_label(transition.to), transition.primary)
        })
        .collect();
    assert_eq!(next, [("sent", "Mark Sent", true), ("void", "Void", false)]);
    assert_eq!(transitions(InvoiceStatus::Sent)[0].to, InvoiceStatus::Paid);
    assert!(transitions(InvoiceStatus::Paid).is_empty());
    assert!(transitions(InvoiceStatus::Void).is_empty());
}

#[test]
fn invoices_are_shown_with_their_clients_and_amounts() {
    let clients = vec![Client { id: 5, name: "Ada".into(), active: true }];
    assert_eq!(client_name(&clients, 5), "Ada");
    assert_eq!(client_name(&clients, 6), "00000000-0000-0000-0000-000000000006");
    let options = client_options(&clients);
    assert_eq!(options[0].1, "Select a client…");
    assert_eq!(options[1].0, "00000000-0000-0000-0000-000000000005");
    assert_eq!(amount_label(" EUR", -150), "EUR -1.50");
    assert_eq!(minutes_label(Some(90)), "1:30");
    assert_eq!(minutes_label(None), "—");
    assert_eq!(rate_label(Some(8500)), "85.00/hr");
    assert_eq!(rate_label(None), "—");
    assert_eq!(remaining_label(-1), "Over-invoiced: ");
    assert_eq!(remaining_label(0), "Available: ");
}

#[test]
fn templates_are_filled_by_name() {
    let invoice = Invoice {
        number: "INV-1".into(),
        issued_on: Date { days: 738156 },
        due_on: Date { days: 738186 },
        currency: " EUR".into(),
        total_cents: i64::MAX,
        notes: None,
    };
    let lines = [InvoiceLine {
        description: "Work".into(),
        minutes: 90,
        rate_cents: 8500,
        amount_cents: 12750,
    }];
    let branding = OrgBranding {
        provider_name: Some("Horae".into()),
        provider_address: None,
        provider_tax_id: None,
        provider_email: None,
        provider_phone: None,
        bank_name: None,
        bank_iban: Some("CH00".into()),
        bank_bic: None,
        bank_routing: None,
        bank_account: None,
        invoice_payment_terms: None,
    };
    let filled = build_inputs(&invoice, &lines, "Ada", Some("Street"), None, &branding);
    let text = |name: &str| {
        filled.values.iter().find(|(key, _)| *key == name).map(|(_, value)| match value {
            InputValue::Text { text } => text.clone(),
            InputValue::Number { number } => number.to_string(),
            InputValue::Absent => "none".to_string(),
        })
    };
    assert_eq!(filled.values.len(), 20);
    assert_eq!(text("issued_on").as_deref(), Some("2022-01-01"));
    assert_eq!(text("due_on").as_deref(), Some("2022-01-31"));
    assert_eq!(text("currency").as_deref(), Some("EUR"));
    assert_eq!(text("total_cents").as_deref(), Some("9223372036854775807"));
    assert_eq!(text("client_address").as_deref(), Some("Street"));
    assert_eq!(text("client_tax_id").as_deref(), Some("none"));
    assert_eq!(text("bank_iban").as_deref(), Some("CH00"));
    assert_eq!(text("missing"), None);
    assert_eq!((filled.lines[0].minutes, filled.lines[0].amount_cents), (90, 12750));
}

#[test]
fn terms_and_a_second_tax_are_filled_in() {
    let mut fields = InvoiceDefaultsInput::default();
    let mut custom = false;
    pick_terms(&mut fields, &mut custom, "45".into());
    assert_eq!((fields.terms_days.as_str(), custom), ("45", false));
    pick_terms(&mut fields, &mut custom, "custom".into());
    assert_eq!((fields.terms_days.as_str(), custom), ("45", true));
    assert_eq!(picked_terms(&fields, custom), "custom");
    assert_eq!(picked_terms(&fields, false), "45");
    fields.terms_days = "21".into();
    assert_eq!(picked_terms(&fields, false), "custom");
    edit_second_tax(&mut fields, TaxEdit::Name { value: "x".into() });
    assert!(fields.second_tax.is_none());
    add_second_tax(&mut fields);
    edit_second_tax(&mut fields, TaxEdit::Name { value: "City".into() });
    edit_second_tax(&mut fields, TaxEdit::Percentage { value: "2".into() });
    let tax = fields.second_tax.as_ref().unwrap();
    assert_eq!((tax.name.as_str(), tax.percentage.as_str()), ("City", "2"));
    remove_second_tax(&mut fields);
    assert!(fields.second_tax.is_none());
}

#[test]
fn an_invoice_changes_one_status_at_a_time() {
    let mut page = InvoicePage::new();
    assert_eq!(page.begin_change(false, InvoiceStatus::Sent), None);
    assert_eq!(page.begin_change(true, InvoiceStatus::Sent), Some("sent"));
    assert_eq!(page.begin_change(true, InvoiceStatus::Void), None);
    assert!(!page.changed(Err("conflict".into())));
    assert_eq!((page.busy, page.error.as_deref()), (false, Some("conflict")));
    page.editing = true;
    assert_eq!(page.begin_change(true, InvoiceStatus::Void), None);
    page.editing = false;
    assert_eq!(page.begin_change(true, InvoiceStatus::Void), Some("void"));
    assert!(page.changed(Ok(())));
    assert_eq!(
        pdf_url(1),
        "/api/invoices/00000000-0000-0000-0000-000000000001/export/pdf"
    );
    assert!(toggle_form(false, false, true) && !toggle_form(true, false, true));
    assert!(toggle_form(true, true, true) && !toggle_form(false, false, false));
}

#[test]
fn records_of_requests_are_kept_short() {
    assert_eq!(take_record(None), Ok(None));
    assert_eq!(take_record(Some("x".into())), Ok(Some("x".to_string())));
    assert_eq!(
        take_record(Some("é".repeat(262145))),
        Err("Invoice recovery data exceeds 512 KiB.")
    );
    for fault in [
        RecordFault::NotEncoded,
        RecordFault::NotReached,
        RecordFault::NotAcknowledged,
        RecordFault::NotRead,
        RecordFault::NotDecoded,
    ] {
        assert!(fault_message(fault).contains("nvoice recovery"));
    }
}

#[test]
fn identities_are_written_in_groups() {
    assert_eq!(
        pdf_url(0x0123_4567_89ab_cdef_fedc_ba98_7654_3210),
        "/api/invoices/01234567-89ab-cdef-fedc-ba9876543210/export/pdf"
    );
    assert_eq!(
        pdf_url(u128::MAX),
        "/api/invoices/ffffffff-ffff-ffff-ffff-ffffffffffff/export/pdf"
    );
    assert_ne!(pdf_url(0x10), pdf_url(0x100));
}

#[test]
fn excesses_are_confirmed_line_by_line() {
    let mut shown = review(None);
    assert_eq!(excess_lines(&shown), ["Launch · Excess: EUR 2.00"]);
    shown.lines[1].description = "Fee".into();
    assert_eq!(excess_lines(&shown), ["Fee · Excess: EUR 2.00"]);
    shown.lines.pop();
    assert!(excess_lines(&shown).is_empty());
    assert_eq!(
        draft_excess_lines(&edit_review(150).fees, " USD "),
        ["single · Excess: USD 1.50"]
    );
    assert!(draft_excess_lines(&edit_review(0).fees, "USD").is_empty());
}

#[test]
fn reviews_are_shown_with_their_balances() {
    let reviewed = edit_review(150);
    assert_eq!(
        agreed_line(&reviewed.fees[0], " EUR"),
        "Agreed: EUR 5.00 · Other invoiced: EUR 1.00"
    );
    assert_eq!(
        reviewed_line(&reviewed.fees[0], "EUR"),
        "single · Net charge: EUR 7.00 · Remaining: EUR -1.50 · Over-invoiced"
    );
    assert_eq!(
        reviewed_line(&edit_review(0).fees[0], "EUR"),
        "single · Net charge: EUR 7.00 · Remaining: EUR 0.00"
    );
    let mut fee = fee();
    assert_eq!(
        balance_line(&fee),
        "Last review · Agreed: EUR 1.00 · Invoiced (including drafts): EUR 1.00 · Remaining: EUR 0.00"
    );
    fee.balance.remaining_cents = -1;
    assert!(balance_line(&fee).ends_with("EUR -0.01 · Over-invoiced"));
    let day = |text: &str| Date {
        days: chrono::Datelike::num_days_from_ce(&text.parse::<chrono::NaiveDate>().unwrap()),
    };
    let mut shown = review(None);
    shown.issued_on = day("2026-01-05");
    shown.due_on = Some(day("2026-02-04"));
    assert_eq!(dates_line(&shown), "Invoice date: 2026-01-05 · Due: 2026-02-04");
    shown.due_on = None;
    assert_eq!(dates_line(&shown), "Invoice date: 2026-01-05 · Due: ");
}

#[test]
fn a_review_goes_back_whole() {
    let shown = review(Some(InvoiceDefaults::default()));
    let copy = shown.copy();
    assert_eq!(format!("{copy:?}"), format!("{shown:?}"));
    let time = InvoiceSource::Time { key: "a".into() };
    let fee = InvoiceSource::Fee { project_id: 0, period_key: "a".into() };
    assert!(time.equals(&time.clone()) && fee.equals(&fee.clone()));
    assert!(!time.equals(&fee) && !fee.equals(&time));
}
