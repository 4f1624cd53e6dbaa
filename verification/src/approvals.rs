//! Reviewing submitted timesheets.

use crate::clock::clock_text;
use crate::clock::format_hhmm;
use crate::date::date_text;
use crate::date::format_day;
use crate::date::valid_day;
use crate::ids::id_text;
use crate::ids::id_to_text;
use crate::text::decimal;
use crate::text::decimal_text;
use crate::text::same;
use crate::text::two_digit_text;
use crate::text::two_digits;
use crate::timesheet::entry::EntryState;
use vstd::prelude::*;

verus! {

/// What minutes are shown as: nothing less than none, and no more than 32 bits hold.
pub open spec fn shown_minutes(minutes: i64) -> nat {
    if minutes < 0 {
        0
    } else {
        (minutes as u32) as nat
    }
}

/// Minutes as hours and minutes.
pub fn hhmm(minutes: i64) -> (text: String)
    ensures
        text@ == clock_text(shown_minutes(minutes)),
{
    if minutes < 0 {
        format_hhmm(0)
    } else {
        #[verifier::truncate]
        let held: u32 = minutes as u32;
        format_hhmm(held as u64)
    }
}

/// What a choice of state asks for: all where it is none.
pub fn status_arg(label: &str) -> (status: Option<String>)
    ensures
        match status {
            Some(status) => label@ != "All"@ && status@ == (if label@ == "Approved"@ {
                "approved"@
            } else {
                "submitted"@
            }),
            None => label@ == "All"@,
        },
{
    proof {
        reveal_strlit("All");
        reveal_strlit("Approved");
        assert("All"@.len() != "Approved"@.len());
    }
    if same(label, "Approved") {
        Some("approved".to_owned())
    } else if same(label, "All") {
        None
    } else {
        Some("submitted".to_owned())
    }
}

/// A submitted timesheet.
#[derive(Debug)]
pub struct Submission {
    pub id: u128,
    pub user_id: u128,
    pub state: EntryState,
    /// When it was submitted, in microseconds since the start of 1970.
    pub submitted_at: i64,
    pub total_minutes: i64,
    pub billable_minutes: i64,
}

/// The microseconds of a minute.
pub const MINUTE_MICROS: i64 = 60_000_000;

/// The first of January of 1970.
pub const EPOCH_DAY: i32 = 719163;

/// The minutes from the start of 1970 to a moment.
pub open spec fn epoch_minutes(micros: int) -> int {
    micros / MINUTE_MICROS as int
}

/// The day of a moment.
pub open spec fn moment_day(micros: int) -> int {
    EPOCH_DAY + epoch_minutes(micros) / 1440
}

/// A moment as it is shown: its day and month, and its time of day.
pub open spec fn moment_text(micros: int) -> Seq<char> {
    let minute = epoch_minutes(micros) % 1440;
    date_text(moment_day(micros) as i32, "%d %b"@) + ", "@ + two_digits(minute / 60) + ":"@
        + two_digits(minute % 60)
}

fn minutes_since_epoch(micros: i64) -> (minutes: i64)
    ensures
        minutes == epoch_minutes(micros as int),
{
    if micros >= 0 {
        micros / MINUTE_MICROS
    } else {
        -((-(micros + 1)) / MINUTE_MICROS) - 1
    }
}

fn days_since_epoch(minutes: i64) -> (days: i64)
    requires
        -200_000_000_000 <= minutes <= 200_000_000_000,
    ensures
        days == minutes as int / 1440,
{
    if minutes >= 0 {
        minutes / 1440
    } else {
        -((-(minutes + 1)) / 1440) - 1
    }
}

/// When a timesheet was submitted, as it is shown.
pub fn submitted_text(item: &Submission) -> (text: String)
    requires
        valid_day(moment_day(item.submitted_at as int)),
    ensures
        text@ == moment_text(item.submitted_at as int),
{
    let minutes: i64 = minutes_since_epoch(item.submitted_at);
    let days: i64 = days_since_epoch(minutes);
    let minute: i64 = minutes - days * 1440;
    let mut text = format_day((EPOCH_DAY as i64 + days) as i32, "%d %b");
    text.append(", ");
    text.append(two_digit_text((minute / 60) as u32).as_str());
    text.append(":");
    text.append(two_digit_text((minute % 60) as u32).as_str());
    text
}

/// The time of the first `n` submissions.
pub open spec fn total_of(items: Seq<Submission>, n: int) -> int
    decreases n,
{
    if n <= 0 {
        0
    } else {
        total_of(items, n - 1) + items[n - 1].total_minutes
    }
}

/// The billable time of the first `n` submissions.
pub open spec fn billable_of(items: Seq<Submission>, n: int) -> int
    decreases n,
{
    if n <= 0 {
        0
    } else {
        billable_of(items, n - 1) + items[n - 1].billable_minutes
    }
}

/// Whether the sums over submissions can be held, and what the shares are found from.
pub open spec fn sums_fit(items: Seq<Submission>) -> bool {
    &&& forall|n: int|
        0 <= n <= items.len() ==> i64::MIN <= #[trigger] total_of(items, n) <= i64::MAX
    &&& forall|n: int|
        0 <= n <= items.len() ==> i64::MIN <= #[trigger] billable_of(items, n) <= i64::MAX
    &&& i64::MIN <= total_of(items, items.len() as int) - billable_of(items, items.len() as int)
        <= i64::MAX
    &&& total_of(items, items.len() as int) > 0 ==> {
        let hundredfold = 100 * billable_of(items, items.len() as int);
        &&& i64::MIN <= hundredfold <= i64::MAX
        &&& 100 - quotient(hundredfold, total_of(items, items.len() as int)) <= i64::MAX
    }
}

/// A quotient, rounded toward zero.
pub open spec fn quotient(a: int, b: int) -> int {
    if a >= 0 {
        a / b
    } else {
        -((-a) / b)
    }
}

/// What submissions come to.
#[derive(Clone, Copy, PartialEq, Eq, Structural, Debug)]
pub struct Totals {
    pub total: i64,
    pub billable: i64,
    pub nonbillable: i64,
    pub billable_percent: i64,
    pub nonbillable_percent: i64,
}

/// What submissions come to, and which part of it is billable.
pub fn totals(items: &Vec<Submission>) -> (totals: Totals)
    requires
        sums_fit(items@),
    ensures
        totals.total == total_of(items@, items.len() as int),
        totals.billable == billable_of(items@, items.len() as int),
        totals.nonbillable == (if totals.total > totals.billable {
            totals.total - totals.billable
        } else {
            0
        }),
        totals.billable_percent == (if totals.total > 0 {
            quotient(100 * totals.billable, totals.total as int)
        } else {
            0
        }),
        totals.nonbillable_percent == (if totals.total > 0 {
            100 - totals.billable_percent
        } else {
            0
        }),
{
    let mut total: i64 = 0;
    let mut billable: i64 = 0;
    let mut i: usize = 0;
    while i < items.len()
        invariant
            i <= items.len(),
            sums_fit(items@),
            total == total_of(items@, i as int),
            billable == billable_of(items@, i as int),
        decreases items.len() - i,
    {
        proof {
            assert(total_of(items@, i + 1) == total + items@[i as int].total_minutes);
            assert(billable_of(items@, i + 1) == billable + items@[i as int].billable_minutes);
        }
        total = total + items[i].total_minutes;
        billable = billable + items[i].billable_minutes;
        i += 1;
    }
    let left: i64 = total - billable;
    let nonbillable: i64 = if left > 0 {
        left
    } else {
        0
    };
    let billable_percent: i64 = if total > 0 {
        billable * 100 / total
    } else {
        0
    };
    let nonbillable_percent: i64 = if total > 0 {
        100 - billable_percent
    } else {
        0
    };
    Totals { total, billable, nonbillable, billable_percent, nonbillable_percent }
}

/// The two parts of what submissions come to make up the whole: where no more than all of it
/// is billable.
pub proof fn parts_make_the_whole(total: int, billable: int)
    requires
        0 < total,
        0 <= billable <= total,
    ensures
        billable + (if total > billable {
            total - billable
        } else {
            0
        }) == total,
        0 <= quotient(100 * billable, total) <= 100,
{
    assert(quotient(100 * billable, total) <= 100) by (nonlinear_arith)
        requires
            0 < total,
            0 <= billable <= total,
            quotient(100 * billable, total) == (100 * billable) / total,
    ;
    assert(0 <= (100 * billable) / total) by (nonlinear_arith)
        requires
            0 < total,
            0 <= billable,
    ;
}

/// Whether a submission awaits its approval.
pub open spec fn awaits(item: Submission) -> bool {
    item.state == EntryState::Submitted
}

/// The identities of the submissions that await their approval, in their order.
pub open spec fn awaiting(items: Seq<Submission>) -> Seq<Seq<char>>
    decreases items.len(),
{
    if items.len() == 0 {
        Seq::empty()
    } else {
        let before = awaiting(items.drop_last());
        if awaits(items.last()) {
            before.push(id_text(items.last().id))
        } else {
            before
        }
    }
}

/// The submissions that are approved together: those that are shown and await it.
pub fn pending_ids(items: &Vec<Submission>) -> (ids: Vec<String>)
    ensures
        ids.len() == awaiting(items@).len(),
        forall|i: int| 0 <= i < ids.len() ==> (#[trigger] ids@[i])@ == awaiting(items@)[i],
{
    let mut ids: Vec<String> = Vec::new();
    let mut i: usize = 0;
    proof {
        assert(items@.take(0) =~= Seq::<Submission>::empty());
    }
    while i < items.len()
        invariant
            i <= items.len(),
            ids.len() == awaiting(items@.take(i as int)).len(),
            forall|k: int|
                0 <= k < ids.len() ==> (#[trigger] ids@[k])@ == awaiting(items@.take(i as int))[k],
        decreases items.len() - i,
    {
        proof {
            assert(items@.take(i + 1).drop_last() =~= items@.take(i as int));
            assert(items@.take(i + 1).last() == items@[i as int]);
        }
        if items[i].state == EntryState::Submitted {
            ids.push(id_to_text(items[i].id));
        }
        i += 1;
    }
    proof {
        assert(items@.take(items.len() as int) =~= items@);
    }
    ids
}

/// Whether a submission can be approved.
pub fn can_approve(state: EntryState) -> (can_approve: bool)
    ensures
        can_approve == (state == EntryState::Submitted),
{
    state == EntryState::Submitted
}

/// Whether a submission can be opened again.
pub fn can_reopen(state: EntryState) -> (can_reopen: bool)
    ensures
        can_reopen == (state == EntryState::Submitted || state == EntryState::Approved),
{
    state == EntryState::Submitted || state == EntryState::Approved
}

/// The kind of the badge for a state.
pub fn badge_variant(state: EntryState) -> (variant: &'static str)
    ensures
        variant@ == (match state {
            EntryState::Submitted => "warning"@,
            EntryState::Approved => "success"@,
            _ => "neutral"@,
        }),
{
    match state {
        EntryState::Submitted => "warning",
        EntryState::Approved => "success",
        _ => "neutral",
    }
}

/// What a page that acts on submissions shows of its actions.
#[derive(Debug)]
pub struct ActionState {
    /// How often the list was loaded again.
    pub refresh: u32,
    pub error: Option<String>,
}

impl ActionState {
    /// Takes what became of an action: the error of the one before is gone, and the list is
    /// loaded again either way.
    pub fn acted(&mut self, result: Result<(), String>)
        requires
            old(self).refresh < u32::MAX,
        ensures
            final(self).refresh == old(self).refresh + 1,
            final(self).error == (match result {
                Ok(_) => None,
                Err(message) => Some(message),
            }),
    {
        self.error = match result {
            Ok(_) => None,
            Err(message) => Some(message),
        };
        self.refresh = self.refresh + 1;
    }
}

/// What is said of the submissions that wait, where there are any.
pub fn awaiting_label(count: usize) -> (label: Option<String>)
    ensures
        label is Some <==> count > 0,
        label is Some ==> label->0@ == decimal(count as nat)
            + " timesheet(s) awaiting your approval"@,
{
    if count == 0 {
        return None;
    }
    let mut label = decimal_text(count as u128);
    label.append(" timesheet(s) awaiting your approval");
    Some(label)
}

} // verus!
