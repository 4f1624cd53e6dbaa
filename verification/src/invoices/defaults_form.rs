//! The values of an invoice that are not charges: terms, purchase order, taxes, discount.

use crate::lists::opt_view;
use crate::money::cents_text;
use crate::money::format_cents_plain;
use crate::money::percentage_reads_back;
use crate::money::Percentage;
use crate::text::chars_of;
use crate::text::decimal;
use crate::text::decimal_reads_back;
use crate::text::decimal_text;
use crate::text::index_of;
use crate::text::index_from_is_first;
use crate::text::is_digit;
use crate::text::is_number;
use crate::text::number;
use crate::text::number_within;
use crate::text::same;
use crate::text::signed_decimal;
use crate::text::signed_text;
use crate::text::trim;
use crate::text::trim_bounds;
use crate::text::trim_end;
use crate::text::trim_start;
use crate::text::trimmed;
use vstd::prelude::*;

verus! {

/// The values of an invoice. Taxes and the discount are in hundredths of a percent.
#[derive(Debug)]
pub struct InvoiceDefaults {
    pub terms_days: i16,
    pub po_number: String,
    pub tax1_bps: i16,
    pub discount_bps: i16,
    pub tax2_name: Option<String>,
    pub tax2_bps: Option<i16>,
}

/// What an invoice's values are.
pub struct Defaults {
    pub terms_days: int,
    pub po_number: Seq<char>,
    pub tax1_bps: int,
    pub discount_bps: int,
    pub tax2_name: Option<Seq<char>>,
    pub tax2_bps: Option<i16>,
}

impl View for InvoiceDefaults {
    type V = Defaults;

    open spec fn view(&self) -> Defaults {
        Defaults {
            terms_days: self.terms_days as int,
            po_number: self.po_number@,
            tax1_bps: self.tax1_bps as int,
            discount_bps: self.discount_bps as int,
            tax2_name: opt_view(self.tax2_name),
            tax2_bps: self.tax2_bps,
        }
    }
}

impl Default for InvoiceDefaults {
    fn default() -> (defaults: Self)
        ensures
            defaults.terms_days == 30,
            defaults.po_number@ == Seq::<char>::empty(),
            defaults.tax1_bps == 0,
            defaults.discount_bps == 0,
            defaults.tax2_name is None,
            defaults.tax2_bps is None,
    {
        InvoiceDefaults {
            terms_days: 30,
            po_number: String::new(),
            tax1_bps: 0,
            discount_bps: 0,
            tax2_name: None,
            tax2_bps: None,
        }
    }
}

impl Clone for InvoiceDefaults {
    fn clone(&self) -> (copy: Self)
        ensures
            copy == *self,
    {
        InvoiceDefaults {
            terms_days: self.terms_days,
            po_number: self.po_number.clone(),
            tax1_bps: self.tax1_bps,
            discount_bps: self.discount_bps,
            tax2_name: match &self.tax2_name {
                Some(name) => Some(name.clone()),
                None => None,
            },
            tax2_bps: self.tax2_bps,
        }
    }
}

/// Whether two optional texts are the same.
pub fn same_text(a: &Option<String>, b: &Option<String>) -> (equal: bool)
    ensures
        equal == (opt_view(*a) == opt_view(*b)),
{
    match (a, b) {
        (Some(a), Some(b)) => same(a.as_str(), b.as_str()),
        (None, None) => true,
        _ => false,
    }
}

impl InvoiceDefaults {
    /// Whether two invoices have the same values.
    pub fn equals(&self, other: &InvoiceDefaults) -> (equal: bool)
        ensures
            equal == (self@ == other@),
    {
        self.terms_days == other.terms_days && same(
            self.po_number.as_str(),
            other.po_number.as_str(),
        ) && self.tax1_bps == other.tax1_bps && self.discount_bps == other.discount_bps
            && same_text(&self.tax2_name, &other.tax2_name) && self.tax2_bps == other.tax2_bps
    }
}

/// A second tax as it was typed.
#[derive(Debug)]
pub struct SecondTaxInput {
    pub name: String,
    pub percentage: String,
}

/// The values of an invoice as they were typed.
#[derive(Debug)]
pub struct InvoiceDefaultsInput {
    pub terms_days: String,
    pub po_number: String,
    pub tax: String,
    pub discount: String,
    pub second_tax: Option<SecondTaxInput>,
}

/// What was typed for an invoice's values.
pub struct Fields {
    pub terms_days: Seq<char>,
    pub po_number: Seq<char>,
    pub tax: Seq<char>,
    pub discount: Seq<char>,
    /// The name and the percentage of a second tax.
    pub second_tax: Option<(Seq<char>, Seq<char>)>,
}

impl View for InvoiceDefaultsInput {
    type V = Fields;

    open spec fn view(&self) -> Fields {
        Fields {
            terms_days: self.terms_days@,
            po_number: self.po_number@,
            tax: self.tax@,
            discount: self.discount@,
            second_tax: match self.second_tax {
                Some(tax) => Some((tax.name@, tax.percentage@)),
                None => None,
            },
        }
    }
}

impl Default for InvoiceDefaultsInput {
    fn default() -> (fields: Self)
        ensures
            fields.terms_days@ == "30"@,
            fields.po_number@ == Seq::<char>::empty(),
            fields.tax@ == Seq::<char>::empty(),
            fields.discount@ == Seq::<char>::empty(),
            fields.second_tax is None,
    {
        InvoiceDefaultsInput {
            terms_days: "30".to_owned(),
            po_number: String::new(),
            tax: String::new(),
            discount: String::new(),
            second_tax: None,
        }
    }
}

/// How an invoice's values are written into fields.
pub open spec fn written(defaults: Defaults) -> Fields {
    Fields {
        terms_days: signed_decimal(defaults.terms_days),
        po_number: defaults.po_number,
        tax: cents_text(defaults.tax1_bps),
        discount: cents_text(defaults.discount_bps),
        second_tax: match (defaults.tax2_name, defaults.tax2_bps) {
            (Some(name), Some(bps)) => Some((name, cents_text(bps as int))),
            _ => None,
        },
    }
}

/// Writes an invoice's values into fields.
pub fn fields_from(defaults: &InvoiceDefaults) -> (fields: InvoiceDefaultsInput)
    ensures
        fields@ == written(defaults@),
{
    let second_tax = match (&defaults.tax2_name, defaults.tax2_bps) {
        (Some(name), Some(bps)) => Some(
            SecondTaxInput { name: name.clone(), percentage: format_cents_plain(bps as i64) },
        ),
        _ => None,
    };
    InvoiceDefaultsInput {
        terms_days: signed_text(defaults.terms_days as i64),
        po_number: defaults.po_number.clone(),
        tax: format_cents_plain(defaults.tax1_bps as i64),
        discount: format_cents_plain(defaults.discount_bps as i64),
        second_tax,
    }
}

/// The number of days, from 0 to 365, that a text stands for: digits after an optional
/// sign, with white space around them.
pub open spec fn read_terms(s: Seq<char>) -> Option<int> {
    let t = trimmed(s);
    let signed = t.len() > 0 && (t[0] == '+' || t[0] == '-');
    let digits = if signed {
        t.subrange(1, t.len() as int)
    } else {
        t
    };
    if !is_number(digits) || number(digits) > 365 || (signed && t[0] == '-' && number(digits) > 0) {
        None
    } else {
        Some(number(digits) as int)
    }
}

/// Whether a text has at most `most` characters, none of which is null.
pub open spec fn is_short(s: Seq<char>, most: int) -> bool {
    s.len() <= most && !s.contains('\0')
}

/// The hundredths of a percent that a field stands for: none where it is blank.
pub open spec fn read_percentage(s: Seq<char>) -> Option<i16> {
    if trimmed(s).len() == 0 {
        Some(0)
    } else {
        match Percentage::named(s) {
            Some(n) => Some(n as i16),
            None => None,
        }
    }
}

/// What a second tax is, or why it is not taken.
pub open spec fn read_second_tax(tax: Option<(Seq<char>, Seq<char>)>) -> Result<
    (Option<Seq<char>>, Option<i16>),
    Seq<char>,
> {
    match tax {
        None => Ok((None, None)),
        Some((name, percentage)) => if trimmed(name).len() == 0 || !is_short(name, 100) {
            Err("The second tax needs a name of 1–100 characters."@)
        } else {
            match read_percentage(percentage) {
                Some(bps) => Ok((Some(trimmed(name)), Some(bps))),
                None => Err(
                    "Percentages must be between 0 and 100, with at most two decimal places."@,
                ),
            }
        },
    }
}

/// What fields stand for, or the first reason why they are not taken.
pub open spec fn read_fields(fields: Fields) -> Result<Defaults, Seq<char>> {
    let terms = read_terms(fields.terms_days);
    if terms is None {
        Err("Payment terms must be between 0 and 365 days."@)
    } else if !is_short(fields.po_number, 200) {
        Err("Purchase order must contain at most 200 characters."@)
    } else {
        match read_second_tax(fields.second_tax) {
            Err(message) => Err(message),
            Ok((tax2_name, tax2_bps)) => {
                let discount = read_percentage(fields.discount);
                let tax = read_percentage(fields.tax);
                if discount is None || tax is None {
                    Err("Percentages must be between 0 and 100, with at most two decimal places."@)
                } else {
                    Ok(
                        Defaults {
                            terms_days: terms->0,
                            po_number: trimmed(fields.po_number),
                            tax1_bps: tax->0 as int,
                            discount_bps: discount->0 as int,
                            tax2_name,
                            tax2_bps,
                        },
                    )
                }
            },
        }
    }
}

fn parse_terms(text: &str) -> (days: Option<i16>)
    ensures
        match read_terms(text@) {
            Some(n) => days is Some && days->0 == n,
            None => days is None,
        },
{
    let chars = chars_of(text);
    let (from, to) = trim_bounds(&chars);
    let ghost t = trimmed(text@);
    let negative = from < to && chars[from] == '-';
    let signed = negative || (from < to && chars[from] == '+');
    let first: usize = if signed {
        from + 1
    } else {
        from
    };
    proof {
        assert(t == chars@.subrange(from as int, to as int));
        if from < to {
            assert(t[0] == chars@[from as int]);
        }
        if signed {
            assert(t.subrange(1, t.len() as int) =~= chars@.subrange(first as int, to as int));
        }
    }
    match number_within(&chars, first, to, 365) {
        Some(n) => if negative && n > 0 {
            None
        } else {
            Some(n as i16)
        },
        None => None,
    }
}

/// Whether a text has at most `most` characters, none of which is null.
pub fn short_enough(text: &str, most: usize) -> (r: bool)
    ensures
        r == is_short(text@, most as int),
{
    let chars = chars_of(text);
    if chars.len() > most {
        return false;
    }
    let at: usize = index_of(&chars, '\0');
    proof {
        index_from_is_first(chars@, '\0', 0);
        if at < chars.len() {
            assert(chars@[at as int] == '\0');
        }
    }
    at == chars.len()
}

fn parse_percentage(text: &str) -> (bps: Result<i16, String>)
    ensures
        match read_percentage(text@) {
            Some(n) => bps == Ok::<i16, String>(n),
            None => bps is Err && bps->Err_0@
                == "Percentages must be between 0 and 100, with at most two decimal places."@,
        },
{
    if trim(text).as_str().is_empty() {
        return Ok(0);
    }
    match Percentage::parse(text) {
        Some(percentage) => Ok(percentage.basis_points as i16),
        None => Err(
            "Percentages must be between 0 and 100, with at most two decimal places.".to_owned(),
        ),
    }
}

/// Reads the values of an invoice; an error names the first field that is not taken.
pub fn parse_fields(fields: &InvoiceDefaultsInput) -> (defaults: Result<InvoiceDefaults, String>)
    ensures
        match defaults {
            Ok(defaults) => read_fields(fields@) == Ok::<Defaults, Seq<char>>(defaults@),
            Err(message) => read_fields(fields@) == Err::<Defaults, Seq<char>>(message@),
        },
{
    let terms_days: i16 = match parse_terms(fields.terms_days.as_str()) {
        Some(days) => days,
        None => {
            return Err("Payment terms must be between 0 and 365 days.".to_owned());
        },
    };
    if !short_enough(fields.po_number.as_str(), 200) {
        return Err("Purchase order must contain at most 200 characters.".to_owned());
    }
    let (tax2_name, tax2_bps): (Option<String>, Option<i16>) = match &fields.second_tax {
        Some(tax) => {
            let name = trim(tax.name.as_str());
            if name.as_str().is_empty() || !short_enough(tax.name.as_str(), 100) {
                return Err("The second tax needs a name of 1–100 characters.".to_owned());
            }
            match parse_percentage(tax.percentage.as_str()) {
                Ok(bps) => (Some(name), Some(bps)),
                Err(message) => {
                    return Err(message);
                },
            }
        },
        None => (None, None),
    };
    let discount_bps: i16 = match parse_percentage(fields.discount.as_str()) {
        Ok(bps) => bps,
        Err(message) => {
            return Err(message);
        },
    };
    let tax1_bps: i16 = match parse_percentage(fields.tax.as_str()) {
        Ok(bps) => bps,
        Err(message) => {
            return Err(message);
        },
    };
    Ok(
        InvoiceDefaults {
            terms_days,
            po_number: trim(fields.po_number.as_str()),
            tax1_bps,
            discount_bps,
            tax2_name,
            tax2_bps,
        },
    )
}

/// Whether an invoice's values are ones that fields can stand for.
pub open spec fn storable(defaults: Defaults) -> bool {
    &&& 0 <= defaults.terms_days <= 365
    &&& is_short(defaults.po_number, 200)
    &&& trimmed(defaults.po_number) == defaults.po_number
    &&& 0 <= defaults.tax1_bps <= 10000
    &&& 0 <= defaults.discount_bps <= 10000
    &&& (defaults.tax2_name is Some <==> defaults.tax2_bps is Some)
    &&& defaults.tax2_name is Some ==> {
        &&& is_short(defaults.tax2_name->0, 100)
        &&& defaults.tax2_name->0.len() > 0
        &&& trimmed(defaults.tax2_name->0) == defaults.tax2_name->0
        &&& 0 <= defaults.tax2_bps->0 <= 10000
    }
}

/// Values that were written into fields read back as themselves: exact percentages and any
/// number of days included.
pub proof fn written_fields_read_back(defaults: Defaults)
    requires
        storable(defaults),
    ensures
        read_fields(written(defaults)) == Ok::<Defaults, Seq<char>>(defaults),
{
    let fields = written(defaults);
    decimal_reads_back(defaults.terms_days as nat);
    number_is_trimmed(decimal(defaults.terms_days as nat));
    let digits = decimal(defaults.terms_days as nat);
    assert(is_digit(digits[0]));
    percentage_field_reads_back(defaults.tax1_bps);
    percentage_field_reads_back(defaults.discount_bps);
    if defaults.tax2_name is Some {
        percentage_field_reads_back(defaults.tax2_bps->0 as int);
    }
}

proof fn percentage_field_reads_back(bps: int)
    requires
        0 <= bps <= 10000,
    ensures
        read_percentage(cents_text(bps)) == Some(bps as i16),
{
    let s = cents_text(bps);
    percentage_reads_back(bps as u16);
    reveal_strlit(".");
    decimal_reads_back((bps / 100) as nat);
    let whole = decimal(bps as nat / 100);
    assert(is_digit(whole[0]));
    assert(s[0] == whole[0]);
    assert(trim_start(s) == s);
    let last = s.last();
    assert(last == crate::text::digit((bps % 100) % 10));
    crate::text::digit_reads_back((bps % 100) % 10);
    assert(trim_end(s) == s);
}

/// A number has no white space around it.
proof fn number_is_trimmed(s: Seq<char>)
    requires
        is_number(s),
    ensures
        trimmed(s) == s,
{
    assert(is_digit(s[0]));
    assert(is_digit(s[s.len() - 1]));
    assert(trim_start(s) == s);
    assert(trim_end(s) == s);
}

/// Whether the days are not one of the usual terms, so that they are typed.
pub fn custom_terms(custom: bool, terms_days: &str) -> (r: bool)
    ensures
        r == (custom || !(terms_days@ == "0"@ || terms_days@ == "15"@ || terms_days@ == "30"@
            || terms_days@ == "45"@ || terms_days@ == "60"@)),
{
    custom || !(same(terms_days, "0") || same(terms_days, "15") || same(terms_days, "30") || same(
        terms_days,
        "45",
    ) || same(terms_days, "60"))
}

/// Picks the terms of payment: usual ones, or the word that stands for days that are typed.
pub fn pick_terms(fields: &mut InvoiceDefaultsInput, custom: &mut bool, value: String)
    ensures
        *final(custom) == (value@ == "custom"@),
        *final(fields) == (if value@ == "custom"@ {
            *old(fields)
        } else {
            InvoiceDefaultsInput { terms_days: value, ..*old(fields) }
        }),
{
    *custom = same(value.as_str(), "custom");
    if !*custom {
        fields.terms_days = value;
    }
}

/// Which choice of terms is shown as picked.
pub fn picked_terms(fields: &InvoiceDefaultsInput, custom: bool) -> (value: String)
    ensures
        value@ == (if custom || !(fields.terms_days@ == "0"@ || fields.terms_days@ == "15"@
            || fields.terms_days@ == "30"@ || fields.terms_days@ == "45"@ || fields.terms_days@
            == "60"@) {
            "custom"@
        } else {
            fields.terms_days@
        }),
{
    if custom_terms(custom, fields.terms_days.as_str()) {
        "custom".to_owned()
    } else {
        fields.terms_days.clone()
    }
}

/// Adds a second tax that is yet to be filled in.
pub fn add_second_tax(fields: &mut InvoiceDefaultsInput)
    ensures
        final(fields).second_tax is Some,
        final(fields).second_tax->0.name@.len() == 0,
        final(fields).second_tax->0.percentage@.len() == 0,
        *final(fields) == (InvoiceDefaultsInput {
            second_tax: final(fields).second_tax,
            ..*old(fields)
        }),
{
    fields.second_tax = Some(SecondTaxInput { name: String::new(), percentage: String::new() });
}

/// Removes the second tax.
pub fn remove_second_tax(fields: &mut InvoiceDefaultsInput)
    ensures
        *final(fields) == (InvoiceDefaultsInput { second_tax: None, ..*old(fields) }),
{
    fields.second_tax = None;
}

/// What is typed of a second tax.
#[derive(Debug)]
pub enum TaxEdit {
    Name { value: String },
    Percentage { value: String },
}

/// A second tax after a change.
pub open spec fn edited_tax(tax: SecondTaxInput, edit: TaxEdit) -> SecondTaxInput {
    match edit {
        TaxEdit::Name { value } => SecondTaxInput { name: value, ..tax },
        TaxEdit::Percentage { value } => SecondTaxInput { percentage: value, ..tax },
    }
}

/// Changes the second tax, where there is one.
pub fn edit_second_tax(fields: &mut InvoiceDefaultsInput, edit: TaxEdit)
    ensures
        *final(fields) == (InvoiceDefaultsInput {
            second_tax: match old(fields).second_tax {
                Some(tax) => Some(edited_tax(tax, edit)),
                None => None,
            },
            ..*old(fields)
        }),
{
    fields.second_tax = match fields.second_tax.take() {
        Some(tax) => Some(
            match edit {
                TaxEdit::Name { value } => SecondTaxInput {
                    name: value,
                    percentage: tax.percentage,
                },
                TaxEdit::Percentage { value } => SecondTaxInput {
                    name: tax.name,
                    percentage: value,
                },
            },
        ),
        None => None,
    };
}

/// The name of usual terms.
pub fn terms_label(days: u32) -> (label: String)
    ensures
        label@ == (if days == 0 {
            "Due on receipt"@
        } else {
            "Net "@ + decimal(days as nat)
        }),
{
    if days == 0 {
        "Due on receipt".to_owned()
    } else {
        let mut label = "Net ".to_owned();
        label.append(decimal_text(days as u128).as_str());
        label
    }
}

} // verus!
