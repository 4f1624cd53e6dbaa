//! Reports over time and money.

use crate::date::first_of_month;
use crate::date::iso_text;
use crate::date::iso_text_of;
use crate::date::month_start;
use crate::date::today;
use crate::date::Date;
use crate::ids::id_text;
use crate::ids::id_to_text;
use crate::lists::opt_view;
use crate::money::cents_text;
use crate::money::format_cents;
use crate::projects::budget::checked_sum;
use crate::projects::budget::sum_figures;
use crate::text::same;
use vstd::prelude::*;

verus! {

/// A row of a report: what a group comes to, in minutes and in cents. A cost that may not be
/// seen is missing.
#[derive(Debug)]
pub struct ReportRow {
    pub group_id: u128,
    pub label: String,
    pub total_minutes: i64,
    pub rounded_minutes: i64,
    pub billable_minutes: i64,
    pub billable_cents: i64,
    pub cost_cents: Option<i64>,
    pub currency: String,
    pub cost_currency: String,
}

/// What of the money in a report is meant.
#[derive(Clone, Copy, PartialEq, Eq, Structural, Debug)]
pub enum Money {
    /// What is billed, in the currency of the row.
    Billable,
    /// What it costs, in the currency of the organization.
    Cost,
}

impl ReportRow {
    /// An amount of the row.
    pub open spec fn amount(self, money: Money) -> Option<i64> {
        match money {
            Money::Billable => Some(self.billable_cents),
            Money::Cost => self.cost_cents,
        }
    }

    /// The currency of an amount of the row.
    pub open spec fn currency_of(self, money: Money) -> Seq<char> {
        match money {
            Money::Billable => self.currency@,
            Money::Cost => self.cost_currency@,
        }
    }

    fn read_amount(&self, money: Money) -> (amount: Option<i64>)
        ensures
            amount == self.amount(money),
    {
        match money {
            Money::Billable => Some(self.billable_cents),
            Money::Cost => self.cost_cents,
        }
    }

    fn read_currency(&self, money: Money) -> (currency: &str)
        ensures
            currency@ == self.currency_of(money),
    {
        match money {
            Money::Billable => self.currency.as_str(),
            Money::Cost => self.cost_currency.as_str(),
        }
    }
}

/// The amounts of rows.
pub open spec fn amounts(rows: Seq<ReportRow>, money: Money) -> Seq<Option<i64>> {
    Seq::new(rows.len(), |i: int| rows[i].amount(money))
}

/// The total of a report: none where there are no rows, or where they have more than one
/// currency; not told where an amount may not be seen; and said to be too large where it is.
pub open spec fn total_text(rows: Seq<ReportRow>, money: Money) -> Seq<char> {
    if rows.len() == 0 {
        "\u{2014}"@
    } else if exists|i: int| 0 <= i < rows.len() && (#[trigger] rows[i]).amount(money) is None {
        "Restricted"@
    } else if exists|i: int|
        0 <= i < rows.len() && (#[trigger] rows[i]).currency_of(money) != rows[0].currency_of(
            money,
        ) {
        "\u{2014}"@
    } else {
        match checked_sum(amounts(rows, money), rows.len() as int) {
            Some(total) => rows[0].currency_of(money) + " "@ + cents_text(total as int),
            None => "Amount exceeds supported range"@,
        }
    }
}

/// The total of a report. Amounts are added only once they are known to have one currency.
pub fn money_total(rows: &[ReportRow], money: Money) -> (text: String)
    ensures
        text@ == total_text(rows@, money),
{
    if rows.len() == 0 {
        return "\u{2014}".to_owned();
    }
    let mut figures: Vec<Option<i64>> = Vec::new();
    let mut i: usize = 0;
    while i < rows.len()
        invariant
            i <= rows.len(),
            rows@.len() > 0,
            figures@ == amounts(rows@, money).take(i as int),
            forall|k: int| 0 <= k < i ==> (#[trigger] rows@[k]).amount(money) is Some,
        decreases rows.len() - i,
    {
        let amount = rows[i].read_amount(money);
        if amount.is_none() {
            return "Restricted".to_owned();
        }
        figures.push(amount);
        proof {
            assert(amounts(rows@, money).take(i + 1) =~= amounts(rows@, money).take(
                i as int,
            ).push(amount));
        }
        i += 1;
    }
    let mut k: usize = 0;
    while k < rows.len()
        invariant
            k <= rows.len(),
            rows@.len() > 0,
            forall|j: int| 0 <= j < rows@.len() ==> (#[trigger] rows@[j]).amount(money) is Some,
            forall|j: int|
                0 <= j < k ==> (#[trigger] rows@[j]).currency_of(money) == rows@[0].currency_of(
                    money,
                ),
        decreases rows.len() - k,
    {
        if !same(rows[k].read_currency(money), rows[0].read_currency(money)) {
            return "\u{2014}".to_owned();
        }
        k += 1;
    }
    proof {
        assert(figures@ =~= amounts(rows@, money));
    }
    match sum_figures(&figures) {
        Some(total) => format_cents(total, rows[0].read_currency(money)),
        None => "Amount exceeds supported range".to_owned(),
    }
}

/// Money of different currencies is not added: where two rows differ in theirs, there is no
/// total.
pub proof fn currencies_are_not_mixed(rows: Seq<ReportRow>, money: Money, i: int, j: int)
    requires
        0 <= i < rows.len(),
        0 <= j < rows.len(),
        rows[i].currency_of(money) != rows[j].currency_of(money),
        forall|k: int| 0 <= k < rows.len() ==> (#[trigger] rows[k]).amount(money) is Some,
    ensures
        total_text(rows, money) == "\u{2014}"@,
{
    if rows[i].currency_of(money) == rows[0].currency_of(money) {
        assert(rows[j].currency_of(money) != rows[0].currency_of(money));
    }
}

/// A cost that may not be seen is not taken for zero: where one is missing, no total is told.
pub proof fn hidden_amounts_hide_the_total(rows: Seq<ReportRow>, money: Money, i: int)
    requires
        0 <= i < rows.len(),
        rows[i].amount(money) is None,
    ensures
        total_text(rows, money) == "Restricted"@,
{
}

/// What of the time in a report is meant.
#[derive(Clone, Copy, PartialEq, Eq, Structural, Debug)]
pub enum Minutes {
    Total,
    Rounded,
    Billable,
}

impl ReportRow {
    /// A time of the row.
    pub open spec fn minutes(self, column: Minutes) -> i64 {
        match column {
            Minutes::Total => self.total_minutes,
            Minutes::Rounded => self.rounded_minutes,
            Minutes::Billable => self.billable_minutes,
        }
    }
}

/// The times of rows.
pub open spec fn times(rows: Seq<ReportRow>, column: Minutes) -> Seq<Option<i64>> {
    Seq::new(rows.len(), |i: int| Some(rows[i].minutes(column)))
}

/// The time that a report comes to.
pub fn minutes_total(rows: &[ReportRow], column: Minutes) -> (total: i64)
    requires
        checked_sum(times(rows@, column), rows@.len() as int) is Some,
    ensures
        Some(total) == checked_sum(times(rows@, column), rows@.len() as int),
{
    let mut figures: Vec<Option<i64>> = Vec::new();
    let mut i: usize = 0;
    while i < rows.len()
        invariant
            i <= rows.len(),
            figures@ == times(rows@, column).take(i as int),
        decreases rows.len() - i,
    {
        let minutes = match column {
            Minutes::Total => rows[i].total_minutes,
            Minutes::Rounded => rows[i].rounded_minutes,
            Minutes::Billable => rows[i].billable_minutes,
        };
        figures.push(Some(minutes));
        proof {
            assert(times(rows@, column).take(i + 1) =~= times(rows@, column).take(i as int).push(
                Some(minutes),
            ));
        }
        i += 1;
    }
    proof {
        assert(figures@ =~= times(rows@, column));
    }
    match sum_figures(&figures) {
        Some(total) => total,
        None => 0,
    }
}

/// A cost as it is shown: not told where it may not be seen.
pub fn cost_label(row: &ReportRow) -> (label: String)
    ensures
        label@ == (match row.cost_cents {
            Some(cents) => row.cost_currency@ + " "@ + cents_text(cents as int),
            None => "Restricted"@,
        }),
{
    match row.cost_cents {
        Some(cents) => format_cents(cents, row.cost_currency.as_str()),
        None => "Restricted".to_owned(),
    }
}

/// What a filter is set to, if it is set.
pub fn opt(v: String) -> (choice: Option<String>)
    ensures
        choice == (if v@.len() == 0 {
            None
        } else {
            Some(v)
        }),
{
    if v.as_str().is_empty() {
        None
    } else {
        Some(v)
    }
}

/// What a report is narrowed to. Empty filters narrow nothing.
#[derive(Debug)]
pub struct ReportFilters {
    pub from: String,
    pub to: String,
    pub client: String,
    pub project: String,
    pub user: String,
    pub tag: String,
}

/// What is asked for of a report; a filter that is missing narrows nothing.
#[derive(Debug)]
pub struct ReportRequest {
    pub from: String,
    pub to: String,
    pub group_by: String,
    pub client: Option<String>,
    pub project: Option<String>,
    pub user: Option<String>,
    pub tag: Option<String>,
}

/// What a filter is set to, if it is set.
pub open spec fn set_text(value: Seq<char>) -> Option<Seq<char>> {
    if value.len() == 0 {
        None
    } else {
        Some(value)
    }
}

/// A filter in an address, where it is set.
pub open spec fn filter_text(name: Seq<char>, value: Seq<char>) -> Seq<char> {
    if value.len() == 0 {
        Seq::empty()
    } else {
        "&"@ + name + "="@ + value
    }
}

impl ReportFilters {
    /// The filters in an address.
    pub open spec fn query(self) -> Seq<char> {
        "from="@ + self.from@ + "&to="@ + self.to@ + filter_text("client_id"@, self.client@)
            + filter_text("project_id"@, self.project@) + filter_text("user_id"@, self.user@)
            + filter_text("tag_id"@, self.tag@)
    }

    /// The filters in an address: those that are set, so that an export holds what is shown.
    pub fn export_query(&self) -> (query: String)
        ensures
            query@ == self.query(),
    {
        let mut query = "from=".to_owned();
        query.append(self.from.as_str());
        query.append("&to=");
        query.append(self.to.as_str());
        append_filter(&mut query, "client_id", self.client.as_str());
        append_filter(&mut query, "project_id", self.project.as_str());
        append_filter(&mut query, "user_id", self.user.as_str());
        append_filter(&mut query, "tag_id", self.tag.as_str());
        query
    }

    /// Where what is shown can be had as a file.
    pub fn export_url(&self, format: &str) -> (url: String)
        ensures
            url@ == "/api/reports/export/"@ + format@ + "?"@ + self.query(),
    {
        let mut url = "/api/reports/export/".to_owned();
        url.append(format);
        url.append("?");
        url.append(self.export_query().as_str());
        url
    }

    /// What is asked for, grouped in some way.
    pub fn request(&self, group_by: &str) -> (request: ReportRequest)
        ensures
            request.from@ == self.from@,
            request.to@ == self.to@,
            request.group_by@ == group_by@,
            opt_view(request.client) == set_text(self.client@),
            opt_view(request.project) == set_text(self.project@),
            opt_view(request.user) == set_text(self.user@),
            opt_view(request.tag) == set_text(self.tag@),
    {
        ReportRequest {
            from: self.from.clone(),
            to: self.to.clone(),
            group_by: group_by.to_owned(),
            client: opt(self.client.clone()),
            project: opt(self.project.clone()),
            user: opt(self.user.clone()),
            tag: opt(self.tag.clone()),
        }
    }

    /// Narrows a report to a client; a project of another does not stay chosen.
    pub fn choose_client(&mut self, client: String)
        ensures
            final(self).project@.len() == 0,
            *final(self) == (ReportFilters { client, project: final(self).project, ..*old(self) }),
    {
        self.client = client;
        self.project = String::new();
    }
}

fn append_filter(query: &mut String, name: &str, value: &str)
    ensures
        final(query)@ == old(query)@ + filter_text(name@, value@),
{
    if !value.is_empty() {
        query.append("&");
        query.append(name);
        query.append("=");
        query.append(value);
    }
    proof {
        assert(query@ =~= old(query)@ + filter_text(name@, value@));
    }
}

/// The time from the first of a day's month to the day.
pub fn month_to(day: Date) -> (period: (String, String))
    requires
        day.valid(),
    ensures
        period.0@ == iso_text(month_start(day.days)),
        period.1@ == iso_text(day.days),
{
    let first: i32 = match first_of_month(day.days) {
        Some(first) => first,
        None => day.days,
    };
    (iso_text_of(first), iso_text_of(day.days))
}

/// The time that a report covers at first: this month up to today.
pub fn default_period() -> (period: (String, String))
    ensures
        exists|day: Date| #[trigger]
            day.valid() && period.0@ == iso_text(month_start(day.days)) && period.1@ == iso_text(day.days),
{
    let day = Date { days: today() };
    proof {
        assert(day.valid());
    }
    month_to(day)
}

/// A choice that is not among those there are any more.
pub fn is_gone(chosen: &str, ids: &Vec<u128>) -> (gone: bool)
    ensures
        gone == (chosen@.len() > 0 && forall|i: int|
            0 <= i < ids.len() ==> id_text(#[trigger] ids@[i]) != chosen@),
{
    if chosen.is_empty() {
        return false;
    }
    let mut i: usize = 0;
    while i < ids.len()
        invariant
            i <= ids.len(),
            chosen@.len() > 0,
            forall|k: int| 0 <= k < i ==> id_text(#[trigger] ids@[k]) != chosen@,
        decreases ids.len() - i,
    {
        if same(id_to_text(ids[i]).as_str(), chosen) {
            return false;
        }
        i += 1;
    }
    true
}

/// The minutes of an entry that a report counts: rounded where they are.
pub fn counted_minutes(minutes: i32, rounded: Option<i32>) -> (counted: i64)
    ensures
        counted == (match rounded {
            Some(rounded) => rounded,
            None => minutes,
        }),
{
    match rounded {
        Some(rounded) => rounded as i64,
        None => minutes as i64,
    }
}

} // verus!
