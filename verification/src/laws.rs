//! What holds of texts, amounts, approvals, reports and documents.

use crate::admin::UserForm;
use crate::approvals::awaiting;
use crate::approvals::billable_of;
use crate::approvals::moment_day;
use crate::approvals::moment_text;
use crate::approvals::quotient;
use crate::approvals::shown_minutes;
use crate::approvals::total_of;
use crate::approvals::Submission;
use crate::clients::optional;
use crate::clients::ClientForm;
use crate::clock::clock_text;
use crate::date::date_text;
use crate::date::iso_text;
use crate::date::weekday;
use crate::ids::id_text;
use crate::lists::filter_holds;
use crate::lists::is_first_text;
use crate::lists::opt_view;
use crate::lists::other_text;
use crate::lists::views;
use crate::money::cents_text;
use crate::money::hundredths;
use crate::money::parsed_cents;
use crate::money::share_used;
use crate::money::Percentage;
use crate::order::text_precedes;
use crate::projects::budget::checked_sum;
use crate::projects::budget::plain_sum;
use crate::projects::budget::shown_sums_are_exact;
use crate::render::inputs;
use crate::render::Input;
use crate::render::Inputs;
use crate::render::Invoice;
use crate::render::InvoiceLine;
use crate::render::LineInput;
use crate::render::OrgBranding;
use crate::reports::amounts;
use crate::reports::filter_text;
use crate::reports::set_text;
use crate::reports::times;
use crate::reports::total_text;
use crate::reports::Minutes;
use crate::reports::Money;
use crate::reports::ReportFilters;
use crate::reports::ReportRow;
use crate::text::contains_text;
use crate::text::decimal;
use crate::text::decimal_reads_back;
use crate::text::digit;
use crate::text::digit_reads_back;
use crate::text::hex_digit;
use crate::text::index_from_at;
use crate::text::is_digit;
use crate::text::is_number;
use crate::text::number;
use crate::text::signed_decimal;
use crate::text::stands_at;
use crate::text::trimmed;
use crate::text::trimmed_within;
use crate::text::two_digits;
use crate::text::white_space;
use crate::timesheet::entry::EntryState;
use vstd::prelude::*;

verus! {

// ---- Texts ----

/// What is trimmed off a text is white space at its ends and nothing else: what is left begins
/// and ends with something else, or is empty.
pub proof fn only_white_space_is_trimmed(s: Seq<char>) -> (bounds: (int, int))
    ensures
        0 <= bounds.0 <= bounds.1 <= s.len(),
        trimmed(s) == s.subrange(bounds.0, bounds.1),
        forall|k: int| 0 <= k < bounds.0 ==> white_space(#[trigger] s[k]),
        forall|k: int| bounds.1 <= k < s.len() ==> white_space(#[trigger] s[k]),
        trimmed(s).len() > 0 ==> !white_space(trimmed(s).first()) && !white_space(
            trimmed(s).last(),
        ),
        (exists|k: int| 0 <= k < s.len() && !white_space(#[trigger] s[k])) ==> trimmed(s).len() > 0,
{
    let bounds = trimmed_within(s);
    if bounds.0 < bounds.1 {
        assert(trimmed(s).first() == s[bounds.0]);
        assert(trimmed(s).last() == s[bounds.1 - 1]);
    }
    bounds
}

/// Spaces, tabs and the ends of lines are white space; what is printed of ASCII is not.
pub proof fn printed_characters_are_not_white_space(c: char)
    ensures
        white_space(' '),
        white_space('\t'),
        white_space('\n'),
        white_space('\r'),
        '!' <= c && c <= '~' ==> !white_space(c),
{
}

/// A number is written without zeros before it.
pub proof fn numbers_have_no_leading_zeros(n: nat)
    ensures
        n > 0 ==> decimal(n)[0] != '0',
        decimal(n).len() > 0,
    decreases n,
{
    if n < 10 {
        digit_reads_back(n as int);
    } else {
        numbers_have_no_leading_zeros(n / 10);
    }
}

/// Digits that follow others count a tenth of them: a number with a digit behind it is ten times
/// the number and the digit.
pub proof fn digits_count_by_tens(s: Seq<char>, d: int)
    requires
        0 <= d < 10,
        is_number(s),
    ensures
        is_number(s.push(digit(d))),
        number(s.push(digit(d))) == 10 * number(s) + d,
        number(seq![digit(d)]) == d,
{
    digit_reads_back(d);
    let more = s.push(digit(d));
    assert(more.drop_last() =~= s);
    assert forall|i: int| 0 <= i < more.len() implies is_digit(#[trigger] more[i]) by {
        if i < s.len() {
            assert(is_digit(s[i]));
        }
    }
    assert(seq![digit(d)].drop_last() =~= Seq::<char>::empty());
    reveal_with_fuel(number, 2);
}

/// A part stands in every text that holds it, and in no text that is shorter.
pub proof fn parts_are_found(a: Seq<char>, part: Seq<char>, b: Seq<char>)
    ensures
        contains_text(a + part + b, part),
        part.len() > a.len() ==> !contains_text(a, part),
        contains_text(a, part) ==> exists|i: int|
            0 <= i && i + part.len() <= a.len() && #[trigger] a.subrange(i, i + part.len()) == part,
{
    let all = a + part + b;
    assert(all.subrange(a.len() as int, a.len() as int + part.len()) =~= part);
    assert(stands_at(all, part, a.len() as int));
    if contains_text(a, part) {
        let i = choose|i: int| #[trigger] stands_at(a, part, i);
        assert(a.subrange(i, i + part.len()) == part);
    }
}

/// Of two texts that begin alike, the first character in which they differ decides, and a text
/// comes before one that goes on behind it.
pub proof fn the_first_difference_decides(
    start: Seq<char>,
    c: char,
    d: char,
    a: Seq<char>,
    b: Seq<char>,
)
    ensures
        c != d ==> (text_precedes(start + (seq![c] + a), start + (seq![d] + b)) <==> (c as int) < (
        d as int)),
        text_precedes(start, start + (seq![d] + b)),
        !text_precedes(start, start),
    decreases start.len(),
{
    let (x, y) = (start + (seq![c] + a), start + (seq![d] + b));
    if start.len() == 0 {
        assert(x[0] == c && y[0] == d);
    } else {
        let rest = start.drop_first();
        the_first_difference_decides(rest, c, d, a, b);
        assert(x.drop_first() =~= rest + (seq![c] + a));
        assert(y.drop_first() =~= rest + (seq![d] + b));
        assert(x[0] == start[0] && y[0] == start[0]);
    }
}

/// The texts of a list are its own, one for each; a missing text has none.
pub proof fn texts_are_their_own(texts: Seq<String>, text: Option<String>, i: int)
    ensures
        views(texts).len() == texts.len(),
        0 <= i < texts.len() ==> views(texts)[i] == texts[i]@,
        text is Some ==> opt_view(text) == Some(text->0@),
        text is None ==> opt_view(text) is None,
{
}

/// Removing a text removes it wherever it stands, and nothing else.
pub proof fn removed_texts_are_gone(texts: Seq<Seq<char>>, text: Seq<char>, other: Seq<char>, i: int)
    ensures
        texts.filter(other_text(text)).contains(other) <==> texts.contains(other) && other != text,
        is_first_text(texts, text, i) ==> 0 <= i < texts.len() && texts[i] == text,
        is_first_text(texts, text, i) ==> forall|k: int| 0 <= k < i ==> #[trigger] texts[k] != text,
{
    filter_holds(texts, other_text(text), other);
}

/// Minutes are written as whole hours and the minutes that are left.
pub proof fn clocks_show_hours_and_minutes(hours: nat, minutes: nat)
    requires
        minutes < 60,
    ensures
        clock_text(60 * hours + minutes) == decimal(hours) + ":"@ + two_digits(minutes as int),
{
    assert((60 * hours + minutes) / 60 == hours);
    assert((60 * hours + minutes) % 60 == minutes);
}

// ---- Amounts ----

/// An amount is read by its units and by at most two decimals, the first of which counts tenths;
/// without a digit before or behind the point it is none.
pub proof fn amounts_are_read_by_their_decimals(whole: Seq<char>, decimals: Seq<char>)
    requires
        is_number(whole),
        is_number(decimals),
    ensures
        hundredths(whole) == Some(100 * number(whole)),
        decimals.len() == 1 ==> hundredths(whole + seq!['.'] + decimals) == Some(
            100 * number(whole) + 10 * number(decimals),
        ),
        decimals.len() == 2 ==> hundredths(whole + seq!['.'] + decimals) == Some(
            100 * number(whole) + number(decimals),
        ),
        decimals.len() > 2 ==> hundredths(whole + seq!['.'] + decimals) is None,
        hundredths(whole + seq!['.']) is None,
        hundredths(seq!['.'] + decimals) is None,
        hundredths(Seq::empty()) is None,
{
    let n = whole.len() as int;
    assert forall|k: int| 0 <= k < n implies whole[k] != '.' by {
        assert(is_digit(whole[k]));
    }
    index_from_at(whole, '.', 0, n);
    assert(whole.subrange(0, n) =~= whole);
    let s = whole + seq!['.'] + decimals;
    assert forall|k: int| 0 <= k < n implies s[k] != '.' by {
        assert(s[k] == whole[k]);
    }
    assert(s[n] == '.');
    index_from_at(s, '.', 0, n);
    assert(s.subrange(0, n) =~= whole);
    assert(s.subrange(n + 1, s.len() as int) =~= decimals);
    let t = whole + seq!['.'];
    assert forall|k: int| 0 <= k < n implies t[k] != '.' by {
        assert(t[k] == whole[k]);
    }
    assert(t[n] == '.');
    index_from_at(t, '.', 0, n);
    assert(t.subrange(0, n) =~= whole);
    assert(t.subrange(n + 1, t.len() as int) =~= Seq::<char>::empty());
    let u = seq!['.'] + decimals;
    assert(u[0] == '.');
    index_from_at(u, '.', 0, 0);
    assert(u.subrange(0, 0) =~= Seq::<char>::empty());
    let e = Seq::<char>::empty();
    index_from_at(e, '.', 0, 0);
    assert(e.subrange(0, 0) =~= e);
}

/// An amount after a minus is the negative of the amount, and one that cannot be held is none.
pub proof fn a_minus_negates_amounts(s: Seq<char>)
    requires
        s.len() > 0,
        s[0] != '-',
    ensures
        parsed_cents(s) is Some <==> hundredths(s) is Some && hundredths(s)->0 <= i64::MAX,
        parsed_cents(s) is Some ==> parsed_cents(s)->0 == hundredths(s)->0,
        parsed_cents(s) is Some ==> parsed_cents(seq!['-'] + s) == Some(
            (-parsed_cents(s)->0) as i64,
        ),
        hundredths(s) is None ==> parsed_cents(seq!['-'] + s) is None,
        Percentage::named(s) is Some <==> hundredths(s) is Some && hundredths(s)->0 <= 10000,
        Percentage::named(s) is Some ==> Percentage::named(s)->0 == hundredths(s)->0,
{
    let t = seq!['-'] + s;
    assert(t[0] == '-');
    assert(t.subrange(1, t.len() as int) =~= s);
}

/// An amount is written as its units and two digits of cents, a debt after a minus.
pub proof fn amounts_are_written_with_cents(units: nat, cents: nat)
    requires
        cents < 100,
    ensures
        cents_text((100 * units + cents) as int) == decimal(units) + "."@ + two_digits(cents as int),
        units + cents > 0 ==> cents_text(-((100 * units + cents) as int)) == "-"@ + cents_text(
            (100 * units + cents) as int,
        ),
{
    assert((100 * units + cents) / 100 == units);
    assert((100 * units + cents) % 100 == cents);
}

/// The share that is used of a budget is rounded down to whole percents: from none to all of it,
/// and none of a budget of nothing.
pub proof fn shares_are_rounded_down(spent: int, budget: int)
    ensures
        budget <= 0 ==> share_used(spent, budget) is None,
        budget > 0 && spent <= 0 ==> share_used(spent, budget) == Some(0u8),
        budget > 0 && spent >= budget ==> share_used(spent, budget) == Some(100u8),
        0 < spent < budget ==> {
            &&& share_used(spent, budget) is Some
            &&& share_used(spent, budget)->0 * budget <= 100 * spent
            &&& 100 * spent < (share_used(spent, budget)->0 + 1) * budget
        },
{
    if 0 < spent < budget {
        let share = spent * 100 / budget;
        assert(0 <= share < 100 && share * budget <= 100 * spent < (share + 1) * budget)
            by (nonlinear_arith)
            requires
                0 < spent < budget,
                share == spent * 100 / budget,
        ;
    }
}

// ---- Approvals ----

/// Minutes are shown as they are, and a negative number of them as none.
pub proof fn minutes_are_shown_as_they_are(minutes: i64)
    ensures
        0 <= minutes <= u32::MAX ==> shown_minutes(minutes) == minutes,
        minutes < 0 ==> shown_minutes(minutes) == 0,
{
}

/// A moment is shown by its day and its time of day, of which the seconds do not show.
pub proof fn moments_are_days_and_times(days: int, hour: int, minute: int, micros: int)
    requires
        0 <= hour < 24,
        0 <= minute < 60,
        0 <= micros < 60_000_000,
    ensures
        ({
            let moment = (days * 1440 + hour * 60 + minute) * 60_000_000 + micros;
            &&& moment_day(moment) == 719163 + days
            &&& moment_text(moment) == date_text((719163 + days) as i32, "%d %b"@) + ", "@
                + two_digits(hour) + ":"@ + two_digits(minute)
        }),
{
    let all = days * 1440 + hour * 60 + minute;
    let moment = all * 60_000_000 + micros;
    assert(moment / 60_000_000 == all);
    assert(all / 1440 == days);
    assert(all % 1440 == hour * 60 + minute);
    assert((hour * 60 + minute) / 60 == hour);
    assert((hour * 60 + minute) % 60 == minute);
}

/// The time of submissions is added up: each adds its own.
pub proof fn submissions_add_up(items: Seq<Submission>, item: Submission, n: int)
    requires
        0 <= n <= items.len(),
    ensures
        total_of(items.push(item), n) == total_of(items, n),
        billable_of(items.push(item), n) == billable_of(items, n),
        total_of(items.push(item), items.len() as int + 1) == total_of(items.push(item), items.len() as int)
            + item.total_minutes,
        billable_of(items.push(item), items.len() as int + 1) == billable_of(
            items.push(item),
            items.len() as int,
        ) + item.billable_minutes,
        total_of(items, 0) == 0,
        billable_of(items, 0) == 0,
    decreases n,
{
    if n > 0 {
        submissions_add_up(items, item, n - 1);
    }
}

/// A quotient is rounded toward zero, on both sides alike.
pub proof fn quotients_are_rounded_toward_zero(a: int, b: int)
    requires
        b > 0,
    ensures
        a >= 0 ==> quotient(a, b) * b <= a < (quotient(a, b) + 1) * b,
        quotient(-a, b) == -quotient(a, b),
{
    if a >= 0 {
        let q = a / b;
        assert(q * b <= a < (q + 1) * b) by (nonlinear_arith)
            requires
                a >= 0,
                b > 0,
                q == a / b,
        ;
    }
    if a == 0 {
        assert(0int / b == 0) by (nonlinear_arith)
            requires
                b > 0,
        ;
    }
}

/// What is approved together is each submission that awaits it, and no other.
pub proof fn waiting_submissions_are_approved(items: Seq<Submission>, i: int, k: int)
    ensures
        0 <= i < items.len() && items[i].state == EntryState::Submitted ==> awaiting(items).contains(
            id_text(items[i].id),
        ),
        0 <= k < awaiting(items).len() ==> exists|j: int|
            0 <= j < items.len() && (#[trigger] items[j]).state == EntryState::Submitted && awaiting(
                items,
            )[k] == id_text(items[j].id),
        (forall|j: int| 0 <= j < items.len() ==> (#[trigger] items[j]).state
            == EntryState::Submitted) ==> awaiting(items).len() == items.len(),
    decreases items.len(),
{
    if items.len() > 0 {
        let rest = items.drop_last();
        let last = items.last();
        let before = awaiting(rest);
        let all = awaiting(items);
        waiting_submissions_are_approved(rest, i, k);
        if last.state == EntryState::Submitted {
            assert(all[before.len() as int] == id_text(last.id));
        }
        if 0 <= i < rest.len() && items[i].state == EntryState::Submitted {
            assert(rest[i] == items[i]);
            let m = choose|m: int| 0 <= m < before.len() && before[m] == id_text(items[i].id);
            assert(all[m] == before[m]);
        }
        if 0 <= k < before.len() {
            assert(before[k] == all[k]);
            let j = choose|j: int|
                0 <= j < rest.len() && (#[trigger] rest[j]).state == EntryState::Submitted
                    && before[k] == id_text(rest[j].id);
            assert(items[j] == rest[j]);
        } else if k == before.len() {
            assert(items[items.len() - 1] == last);
        }
        if forall|j: int| 0 <= j < items.len() ==> (#[trigger] items[j]).state
            == EntryState::Submitted {
            assert forall|j: int| 0 <= j < rest.len() implies (#[trigger] rest[j]).state
                == EntryState::Submitted by {
                assert(items[j].state == EntryState::Submitted);
            }
            assert(items[items.len() - 1].state == EntryState::Submitted);
        }
    }
}

// ---- Forms ----

/// An empty field stands for none, and any other for what was typed.
pub proof fn empty_fields_stand_for_none(text: Seq<char>)
    ensures
        optional(Seq::empty()) is None,
        text.len() > 0 ==> optional(text) == Some(text),
        set_text(Seq::empty()) is None,
        text.len() > 0 ==> set_text(text) == Some(text),
{
}

/// A form that was saved is closed and holds nothing of what was typed.
pub proof fn saved_forms_are_empty(client: ClientForm, user: UserForm)
    ensures
        client.is_reset() ==> !client.shown && client.editing is None && client.name@
            == Seq::<char>::empty() && client.address@ == Seq::<char>::empty() && client.tax_id@
            == Seq::<char>::empty() && client.currency@ == "USD"@ && client.error is None,
        user.is_empty() ==> user.email@ == Seq::<char>::empty() && user.name@ == Seq::<char>::empty()
            && user.role@ == "member"@,
{
}

// ---- Reports ----

/// The money of a row is what is billed in its own currency, or what it costs in that of the
/// organization; its time is the column that is asked for.
pub proof fn rows_tell_what_is_asked(row: ReportRow)
    ensures
        row.amount(Money::Billable) == Some(row.billable_cents),
        row.amount(Money::Cost) == row.cost_cents,
        row.currency_of(Money::Billable) == row.currency@,
        row.currency_of(Money::Cost) == row.cost_currency@,
        row.minutes(Minutes::Total) == row.total_minutes,
        row.minutes(Minutes::Rounded) == row.rounded_minutes,
        row.minutes(Minutes::Billable) == row.billable_minutes,
{
}

/// The cents of the first `n` rows together.
pub open spec fn cents_before(rows: Seq<ReportRow>, money: Money, n: int) -> int
    decreases n,
{
    if n <= 0 {
        0
    } else {
        cents_before(rows, money, n - 1) + match money {
            Money::Billable => rows[n - 1].billable_cents as int,
            Money::Cost => rows[n - 1].cost_cents->0 as int,
        }
    }
}

proof fn cents_are_amounts(rows: Seq<ReportRow>, money: Money, n: int)
    requires
        0 <= n <= rows.len(),
    ensures
        cents_before(rows, money, n) == plain_sum(amounts(rows, money), n),
    decreases n,
{
    if n > 0 {
        cents_are_amounts(rows, money, n - 1);
    }
}

/// Where all amounts are seen and have one currency, the total is their sum in it, as long as
/// the sums on the way can be held; without rows there is none.
pub proof fn totals_are_sums(rows: Seq<ReportRow>, money: Money)
    requires
        forall|i: int| 0 <= i < rows.len() ==> (#[trigger] rows[i]).amount(money) is Some,
        forall|i: int|
            0 <= i < rows.len() ==> (#[trigger] rows[i]).currency_of(money) == rows[0].currency_of(
                money,
            ),
        forall|n: int|
            0 <= n <= rows.len() ==> i64::MIN <= #[trigger] cents_before(rows, money, n) <= i64::MAX,
    ensures
        rows.len() == 0 ==> total_text(rows, money) == "\u{2014}"@,
        rows.len() > 0 ==> total_text(rows, money) == rows[0].currency_of(money) + " "@ + cents_text(
            cents_before(rows, money, rows.len() as int),
        ),
{
    let n = rows.len() as int;
    let figures = amounts(rows, money);
    assert forall|i: int| 0 <= i < n implies figures[i] is Some by {
        assert(rows[i].amount(money) is Some);
    }
    assert forall|i: int| 0 <= i <= n implies i64::MIN <= #[trigger] plain_sum(figures, i)
        <= i64::MAX by {
        cents_are_amounts(rows, money, i);
        assert(i64::MIN <= cents_before(rows, money, i) <= i64::MAX);
    }
    crate::projects::laws::sums_are_shown_where_they_can_be(figures, n);
    cents_are_amounts(rows, money, n);
}

/// The time that a report comes to is the sum of the column that is asked for.
pub proof fn times_are_sums(rows: Seq<ReportRow>, column: Minutes, n: int)
    requires
        0 <= n <= rows.len(),
        checked_sum(times(rows, column), n) is Some,
    ensures
        n == 0 ==> checked_sum(times(rows, column), n) == Some(0i64),
        n > 0 ==> checked_sum(times(rows, column), n - 1) is Some && checked_sum(
            times(rows, column),
            n,
        )->0 == checked_sum(times(rows, column), n - 1)->0 + match column {
            Minutes::Total => rows[n - 1].total_minutes,
            Minutes::Rounded => rows[n - 1].rounded_minutes,
            Minutes::Billable => rows[n - 1].billable_minutes,
        },
{
    shown_sums_are_exact(times(rows, column), n);
    if n > 0 {
        assert(times(rows, column)[n - 1] == Some(rows[n - 1].minutes(column)));
    }
}

/// An address holds the dates and those filters that are set, each by its name.
pub proof fn addresses_hold_the_filters(filters: ReportFilters, name: Seq<char>, value: Seq<char>)
    ensures
        filter_text(name, Seq::empty()) == Seq::<char>::empty(),
        value.len() > 0 ==> filter_text(name, value) == "&"@ + name + "="@ + value,
        filters.query() == "from="@ + filters.from@ + "&to="@ + filters.to@ + filter_text(
            "client_id"@,
            filters.client@,
        ) + filter_text("project_id"@, filters.project@) + filter_text("user_id"@, filters.user@)
            + filter_text("tag_id"@, filters.tag@),
{
}

// ---- Documents ----

/// A document is filled with what the invoice, its client and its sender hold, each by its name,
/// and with nothing where they hold nothing.
pub proof fn documents_hold_what_the_invoice_holds(
    invoice: Invoice,
    client_name: Seq<char>,
    client_address: Option<Seq<char>>,
    client_tax_id: Option<Seq<char>>,
    branding: OrgBranding,
    filled: Seq<(Seq<char>, Input)>,
)
    requires
        filled == inputs(invoice, client_name, client_address, client_tax_id, branding),
    ensures
        filled.len() == 20,
        filled.contains(("invoice_number"@, Input::Text(invoice.number@))),
        filled.contains(("issued_on"@, Input::Text(iso_text(invoice.issued_on.days)))),
        filled.contains(("due_on"@, Input::Text(iso_text(invoice.due_on.days)))),
        filled.contains(("currency"@, Input::Text(trimmed(invoice.currency@)))),
        filled.contains(("total_cents"@, Input::Number(invoice.total_cents as int))),
        invoice.notes is Some ==> filled.contains(("notes"@, Input::Text(invoice.notes->0@))),
        invoice.notes is None ==> filled.contains(("notes"@, Input::Absent)),
        filled.contains(("client_name"@, Input::Text(client_name))),
        client_address is Some ==> filled.contains(("client_address"@, Input::Text(client_address->0))),
        client_address is None ==> filled.contains(("client_address"@, Input::Absent)),
        client_tax_id is Some ==> filled.contains(("client_tax_id"@, Input::Text(client_tax_id->0))),
        client_tax_id is None ==> filled.contains(("client_tax_id"@, Input::Absent)),
        branding.provider_name is Some ==> filled.contains(("provider_name"@, Input::Text(branding.provider_name->0@))),
        branding.provider_name is None ==> filled.contains(("provider_name"@, Input::Absent)),
        branding.provider_address is Some ==> filled.contains(("provider_address"@, Input::Text(branding.provider_address->0@))),
        branding.provider_address is None ==> filled.contains(("provider_address"@, Input::Absent)),
        branding.provider_tax_id is Some ==> filled.contains(("provider_tax_id"@, Input::Text(branding.provider_tax_id->0@))),
        branding.provider_tax_id is None ==> filled.contains(("provider_tax_id"@, Input::Absent)),
        branding.provider_email is Some ==> filled.contains(("provider_email"@, Input::Text(branding.provider_email->0@))),
        branding.provider_email is None ==> filled.contains(("provider_email"@, Input::Absent)),
        branding.provider_phone is Some ==> filled.contains(("provider_phone"@, Input::Text(branding.provider_phone->0@))),
        branding.provider_phone is None ==> filled.contains(("provider_phone"@, Input::Absent)),
        branding.bank_name is Some ==> filled.contains(("bank_name"@, Input::Text(branding.bank_name->0@))),
        branding.bank_name is None ==> filled.contains(("bank_name"@, Input::Absent)),
        branding.bank_iban is Some ==> filled.contains(("bank_iban"@, Input::Text(branding.bank_iban->0@))),
        branding.bank_iban is None ==> filled.contains(("bank_iban"@, Input::Absent)),
        branding.bank_bic is Some ==> filled.contains(("bank_bic"@, Input::Text(branding.bank_bic->0@))),
        branding.bank_bic is None ==> filled.contains(("bank_bic"@, Input::Absent)),
        branding.bank_routing is Some ==> filled.contains(("bank_routing"@, Input::Text(branding.bank_routing->0@))),
        branding.bank_routing is None ==> filled.contains(("bank_routing"@, Input::Absent)),
        branding.bank_account is Some ==> filled.contains(("bank_account"@, Input::Text(branding.bank_account->0@))),
        branding.bank_account is None ==> filled.contains(("bank_account"@, Input::Absent)),
        branding.invoice_payment_terms is Some ==> filled.contains(("payment_terms"@, Input::Text(branding.invoice_payment_terms->0@))),
        branding.invoice_payment_terms is None ==> filled.contains(("payment_terms"@, Input::Absent)),
{
    assert(filled[0].0 == "invoice_number"@);
    assert(filled[1].0 == "issued_on"@);
    assert(filled[2].0 == "due_on"@);
    assert(filled[3].0 == "currency"@);
    assert(filled[4].0 == "total_cents"@);
    assert(filled[5].0 == "notes"@);
    assert(filled[6].0 == "client_name"@);
    assert(filled[7].0 == "client_address"@);
    assert(filled[8].0 == "client_tax_id"@);
    assert(filled[9].0 == "provider_name"@);
    assert(filled[10].0 == "provider_address"@);
    assert(filled[11].0 == "provider_tax_id"@);
    assert(filled[12].0 == "provider_email"@);
    assert(filled[13].0 == "provider_phone"@);
    assert(filled[14].0 == "bank_name"@);
    assert(filled[15].0 == "bank_iban"@);
    assert(filled[16].0 == "bank_bic"@);
    assert(filled[17].0 == "bank_routing"@);
    assert(filled[18].0 == "bank_account"@);
    assert(filled[19].0 == "payment_terms"@);
}

/// The values of a document are its own, by name; its lines are those of the invoice.
pub proof fn documents_hold_their_lines(
    document: Inputs,
    line: LineInput,
    of: InvoiceLine,
    i: int,
)
    ensures
        document.named().len() == document.values.len(),
        0 <= i < document.values.len() ==> document.named()[i].0 == document.values@[i].0@
            && document.named()[i].1 == document.values@[i].1@,
        line.is_of(of) <==> line.description@ == of.description@ && line.minutes == of.minutes
            && line.rate_cents == of.rate_cents && line.amount_cents == of.amount_cents,
{
}

/// A hexadecimal digit is one of the ten digits or one of the letters from a to f, by its value.
pub proof fn hexadecimal_digits_are_digits_or_letters(d: int)
    requires
        0 <= d < 16,
    ensures
        d <= 9 ==> '0' <= hex_digit(d) <= '9' && hex_digit(d) as int - '0' as int == d,
        d >= 10 ==> 'a' <= hex_digit(d) <= 'f' && hex_digit(d) as int - 'a' as int == d - 10,
{
}

/// A number is written with a minus exactly where it is negative, and but for it as the number
/// without its sign.
pub proof fn negative_numbers_have_a_minus(n: int)
    ensures
        signed_decimal(n)[0] == '-' <==> n < 0,
        n < 0 ==> signed_decimal(n) == seq!['-'] + signed_decimal(-n),
        n >= 0 ==> is_number(signed_decimal(n)) && number(signed_decimal(n)) == n,
{
    if n >= 0 {
        decimal_reads_back(n as nat);
        assert(decimal(n as nat).len() > 0) by {
            numbers_have_no_leading_zeros(n as nat);
        }
        assert(is_digit(signed_decimal(n)[0]));
    }
}

/// The weekdays follow one another, Sunday being followed by Monday. The first day of 1970 was a
/// Thursday.
pub proof fn weekdays_follow_one_another(day: int)
    ensures
        0 <= weekday(day) <= 6,
        weekday(day) < 6 ==> weekday(day + 1) == weekday(day) + 1,
        weekday(day) == 6 ==> weekday(day + 1) == 0,
        weekday(719163) == 3,
{
}

} // verus!
