//! What the template of an invoice is filled with.

use crate::date::iso_text;
use crate::date::iso_text_of;
use crate::date::Date;
use crate::lists::opt_view;
use crate::text::trim;
use crate::text::trimmed;
use vstd::prelude::*;

verus! {

/// An invoice.
#[derive(Debug)]
pub struct Invoice {
    pub number: String,
    pub issued_on: Date,
    pub due_on: Date,
    pub currency: String,
    pub total_cents: i64,
    pub notes: Option<String>,
}

/// A line of an invoice.
#[derive(Debug)]
pub struct InvoiceLine {
    pub description: String,
    pub minutes: i32,
    pub rate_cents: i64,
    pub amount_cents: i64,
}

/// What an organization shows of itself on its invoices.
#[derive(Debug)]
pub struct OrgBranding {
    pub provider_name: Option<String>,
    pub provider_address: Option<String>,
    pub provider_tax_id: Option<String>,
    pub provider_email: Option<String>,
    pub provider_phone: Option<String>,
    pub bank_name: Option<String>,
    pub bank_iban: Option<String>,
    pub bank_bic: Option<String>,
    pub bank_routing: Option<String>,
    pub bank_account: Option<String>,
    pub invoice_payment_terms: Option<String>,
}

/// A line as the template takes it.
#[derive(Debug)]
pub struct LineInput {
    pub description: String,
    pub minutes: i64,
    pub rate_cents: i64,
    pub amount_cents: i64,
}

impl LineInput {
    /// Whether this is what the template takes for a line.
    pub open spec fn is_of(self, line: InvoiceLine) -> bool {
        &&& self.description@ == line.description@
        &&& self.minutes == line.minutes
        &&& self.rate_cents == line.rate_cents
        &&& self.amount_cents == line.amount_cents
    }
}

/// A value that the template takes.
#[derive(Debug)]
pub enum InputValue {
    Text { text: String },
    Number { number: i64 },
    Absent,
}

/// What a value is.
pub enum Input {
    Text(Seq<char>),
    Number(int),
    Absent,
}

impl View for InputValue {
    type V = Input;

    open spec fn view(&self) -> Input {
        match *self {
            InputValue::Text { text } => Input::Text(text@),
            InputValue::Number { number } => Input::Number(number as int),
            InputValue::Absent => Input::Absent,
        }
    }
}

/// A text that may be missing, as the template takes it.
pub open spec fn given(text: Option<Seq<char>>) -> Input {
    match text {
        Some(text) => Input::Text(text),
        None => Input::Absent,
    }
}

/// What an optional text is.
pub open spec fn str_view(text: Option<&str>) -> Option<Seq<char>> {
    match text {
        Some(text) => Some(text@),
        None => None,
    }
}

/// What the template is filled with, by name; lines apart.
pub open spec fn inputs(
    invoice: Invoice,
    client_name: Seq<char>,
    client_address: Option<Seq<char>>,
    client_tax_id: Option<Seq<char>>,
    branding: OrgBranding,
) -> Seq<(Seq<char>, Input)> {
    seq![
        ("invoice_number"@, Input::Text(invoice.number@)),
        ("issued_on"@, Input::Text(iso_text(invoice.issued_on.days))),
        ("due_on"@, Input::Text(iso_text(invoice.due_on.days))),
        ("currency"@, Input::Text(trimmed(invoice.currency@))),
        ("total_cents"@, Input::Number(invoice.total_cents as int)),
        ("notes"@, given(opt_view(invoice.notes))),
        ("client_name"@, Input::Text(client_name)),
        ("client_address"@, given(client_address)),
        ("client_tax_id"@, given(client_tax_id)),
        ("provider_name"@, given(opt_view(branding.provider_name))),
        ("provider_address"@, given(opt_view(branding.provider_address))),
        ("provider_tax_id"@, given(opt_view(branding.provider_tax_id))),
        ("provider_email"@, given(opt_view(branding.provider_email))),
        ("provider_phone"@, given(opt_view(branding.provider_phone))),
        ("bank_name"@, given(opt_view(branding.bank_name))),
        ("bank_iban"@, given(opt_view(branding.bank_iban))),
        ("bank_bic"@, given(opt_view(branding.bank_bic))),
        ("bank_routing"@, given(opt_view(branding.bank_routing))),
        ("bank_account"@, given(opt_view(branding.bank_account))),
        ("payment_terms"@, given(opt_view(branding.invoice_payment_terms))),
    ]
}

/// What the template is filled with.
#[derive(Debug)]
pub struct Inputs {
    pub values: Vec<(&'static str, InputValue)>,
    pub lines: Vec<LineInput>,
}

impl Inputs {
    /// The values by name.
    pub open spec fn named(self) -> Seq<(Seq<char>, Input)> {
        Seq::new(
            self.values@.len(),
            |i: int| (self.values@[i].0@, self.values@[i].1@),
        )
    }
}

/// A text that may be missing, as the template takes it.
pub fn opt(text: &Option<String>) -> (value: InputValue)
    ensures
        value@ == given(opt_view(*text)),
{
    match text {
        Some(text) => InputValue::Text { text: text.clone() },
        None => InputValue::Absent,
    }
}

fn opt_str(text: Option<&str>) -> (value: InputValue)
    ensures
        value@ == given(str_view(text)),
{
    match text {
        Some(text) => InputValue::Text { text: text.to_owned() },
        None => InputValue::Absent,
    }
}

fn line_inputs(lines: &[InvoiceLine]) -> (inputs: Vec<LineInput>)
    ensures
        inputs.len() == lines@.len(),
        forall|i: int| 0 <= i < lines@.len() ==> (#[trigger] inputs@[i]).is_of(lines@[i]),
{
    let mut inputs: Vec<LineInput> = Vec::new();
    let mut i: usize = 0;
    while i < lines.len()
        invariant
            i <= lines.len(),
            inputs.len() == i,
            forall|k: int| 0 <= k < i ==> (#[trigger] inputs@[k]).is_of(lines@[k]),
        decreases lines.len() - i,
    {
        let line = &lines[i];
        inputs.push(
            LineInput {
                description: line.description.clone(),
                minutes: line.minutes as i64,
                rate_cents: line.rate_cents,
                amount_cents: line.amount_cents,
            },
        );
        i += 1;
    }
    inputs
}

/// What the template is filled with for an invoice.
pub fn build_inputs(
    invoice: &Invoice,
    lines: &[InvoiceLine],
    client_name: &str,
    client_address: Option<&str>,
    client_tax_id: Option<&str>,
    branding: &OrgBranding,
) -> (filled: Inputs)
    requires
        invoice.issued_on.valid(),
        invoice.due_on.valid(),
    ensures
        filled.named() == inputs(
            *invoice,
            client_name@,
            str_view(client_address),
            str_view(client_tax_id),
            *branding,
        ),
        filled.lines.len() == lines@.len(),
        forall|i: int| 0 <= i < lines@.len() ==> (#[trigger] filled.lines@[i]).is_of(lines@[i]),
{
    let mut values: Vec<(&'static str, InputValue)> = Vec::new();
    values.push(("invoice_number", InputValue::Text { text: invoice.number.clone() }));
    values.push(("issued_on", InputValue::Text { text: iso_text_of(invoice.issued_on.days) }));
    values.push(("due_on", InputValue::Text { text: iso_text_of(invoice.due_on.days) }));
    values.push(("currency", InputValue::Text { text: trim(invoice.currency.as_str()) }));
    values.push(("total_cents", InputValue::Number { number: invoice.total_cents }));
    values.push(("notes", opt(&invoice.notes)));
    values.push(("client_name", InputValue::Text { text: client_name.to_owned() }));
    values.push(("client_address", opt_str(client_address)));
    values.push(("client_tax_id", opt_str(client_tax_id)));
    values.push(("provider_name", opt(&branding.provider_name)));
    values.push(("provider_address", opt(&branding.provider_address)));
    values.push(("provider_tax_id", opt(&branding.provider_tax_id)));
    values.push(("provider_email", opt(&branding.provider_email)));
    values.push(("provider_phone", opt(&branding.provider_phone)));
    values.push(("bank_name", opt(&branding.bank_name)));
    values.push(("bank_iban", opt(&branding.bank_iban)));
    values.push(("bank_bic", opt(&branding.bank_bic)));
    values.push(("bank_routing", opt(&branding.bank_routing)));
    values.push(("bank_account", opt(&branding.bank_account)));
    values.push(("payment_terms", opt(&branding.invoice_payment_terms)));
    let filled = Inputs { values, lines: line_inputs(lines) };
    proof {
        assert(filled.named() =~= inputs(
            *invoice,
            client_name@,
            str_view(client_address),
            str_view(client_tax_id),
            *branding,
        ));
    }
    filled
}

} // verus!
