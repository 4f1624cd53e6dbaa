//! The entries of a week: by day, in totals and in the rows of the week grid.

use crate::date::iso_text;
use crate::date::iso_text_of;
use crate::date::valid_day;
use crate::date::Date;
use crate::lists::filter_all;
use crate::lists::filter_step;
use crate::timesheet::entry::EntryState;
use crate::timesheet::entry::TimeEntry;
use crate::timesheet::view::offset_in_week;
use crate::timesheet::view::today_offset;
use vstd::prelude::*;

verus! {

/// Which entries are asked for.
#[derive(Debug)]
pub struct EntriesRequest {
    pub from: String,
    pub to: String,
    pub limit: u32,
}

/// Asks for the entries of the week that starts at `week_start`.
pub fn entries_request(week_start: Date) -> (request: EntriesRequest)
    requires
        week_start.valid(),
        valid_day(week_start.days + 6),
    ensures
        request.from@ == iso_text(week_start.days),
        request.to@ == iso_text((week_start.days + 6) as i32),
        request.limit == 200,
{
    EntriesRequest {
        from: iso_text_of(week_start.days),
        to: iso_text_of(week_start.days + 6),
        limit: 200,
    }
}

/// Whether an entry was made in the week that starts at `week_start`.
pub open spec fn in_week(week_start: Date) -> spec_fn(TimeEntry) -> bool {
    |entry: TimeEntry| offset_in_week(entry.spent_date, week_start) is Some
}

/// Whether an entry was made on the `day`th day of the week that starts at `week_start`.
pub open spec fn on_day(week_start: Date, day: usize) -> spec_fn(TimeEntry) -> bool {
    |entry: TimeEntry| offset_in_week(entry.spent_date, week_start) == Some(day)
}

/// The entries of the week that starts at `week_start`, in their order.
pub fn week_entries(entries: &Vec<TimeEntry>, week_start: Date) -> (found: Vec<TimeEntry>)
    ensures
        found@ == entries@.filter(in_week(week_start)),
{
    let mut found: Vec<TimeEntry> = Vec::new();
    let mut i: usize = 0;
    proof {
        filter_all(entries@, in_week(week_start));
    }
    while i < entries.len()
        invariant
            i <= entries.len(),
            found@ == entries@.take(i as int).filter(in_week(week_start)),
        decreases entries.len() - i,
    {
        proof {
            filter_step(entries@, i as int, in_week(week_start));
        }
        if today_offset(entries[i].spent_date, week_start).is_some() {
            found.push(entries[i].clone());
        }
        i += 1;
    }
    found
}

/// The entries of one day of the week that starts at `week_start`, in their order.
pub fn day_entries(entries: &Vec<TimeEntry>, week_start: Date, day: usize) -> (found: Vec<
    TimeEntry,
>)
    ensures
        found@ == entries@.filter(on_day(week_start, day)),
{
    let mut found: Vec<TimeEntry> = Vec::new();
    let mut i: usize = 0;
    proof {
        filter_all(entries@, on_day(week_start, day));
    }
    while i < entries.len()
        invariant
            i <= entries.len(),
            found@ == entries@.take(i as int).filter(on_day(week_start, day)),
        decreases entries.len() - i,
    {
        proof {
            filter_step(entries@, i as int, on_day(week_start, day));
        }
        if let Some(offset) = today_offset(entries[i].spent_date, week_start) {
            if offset == day {
                found.push(entries[i].clone());
            }
        }
        i += 1;
    }
    found
}

/// The entries of a week by weekday, from Monday on.
pub fn by_day(entries: &Vec<TimeEntry>, week_start: Date) -> (days: Vec<Vec<TimeEntry>>)
    ensures
        days.len() == 7,
        forall|day: int|
            0 <= day < 7 ==> (#[trigger] days@[day])@ == entries@.filter(
                on_day(week_start, day as usize),
            ),
{
    let mut days: Vec<Vec<TimeEntry>> = Vec::new();
    let mut day: usize = 0;
    while day < 7
        invariant
            day <= 7,
            days.len() == day,
            forall|d: int|
                0 <= d < day ==> (#[trigger] days@[d])@ == entries@.filter(
                    on_day(week_start, d as usize),
                ),
        decreases 7 - day,
    {
        days.push(day_entries(entries, week_start, day));
        day += 1;
    }
    days
}

/// The sum of the entries' minutes.
pub open spec fn minutes_of(entries: Seq<TimeEntry>) -> int
    decreases entries.len(),
{
    if entries.len() == 0 {
        0
    } else {
        minutes_of(entries.drop_last()) + entries.last().minutes
    }
}

/// Whether the entries' minutes can be added up one after the other.
pub open spec fn summable(entries: Seq<TimeEntry>) -> bool {
    forall|n: int|
        0 <= n <= entries.len() ==> i32::MIN <= minutes_of(#[trigger] entries.take(n)) <= i32::MAX
}

/// The sum of the entries' minutes.
pub fn total_minutes(entries: &Vec<TimeEntry>) -> (total: i32)
    requires
        summable(entries@),
    ensures
        total == minutes_of(entries@),
{
    let mut total: i32 = 0;
    let mut i: usize = 0;
    while i < entries.len()
        invariant
            i <= entries.len(),
            summable(entries@),
            total == minutes_of(entries@.take(i as int)),
        decreases entries.len() - i,
    {
        proof {
            assert(entries@.take(i + 1).drop_last() =~= entries@.take(i as int));
            assert(i32::MIN <= minutes_of(entries@.take(i + 1)) <= i32::MAX);
        }
        total = total + entries[i].minutes;
        i += 1;
    }
    proof {
        assert(entries@.take(entries.len() as int) =~= entries@);
    }
    total
}

/// Each day's minutes.
pub fn daily_totals(days: &Vec<Vec<TimeEntry>>) -> (totals: Vec<i32>)
    requires
        forall|d: int| 0 <= d < days.len() ==> summable((#[trigger] days@[d])@),
    ensures
        totals.len() == days.len(),
        forall|d: int|
            0 <= d < days.len() ==> #[trigger] totals@[d] == minutes_of(days@[d]@),
{
    let mut totals: Vec<i32> = Vec::new();
    let mut d: usize = 0;
    while d < days.len()
        invariant
            d <= days.len(),
            forall|k: int| 0 <= k < days.len() ==> summable((#[trigger] days@[k])@),
            totals.len() == d,
            forall|k: int| 0 <= k < d ==> #[trigger] totals@[k] == minutes_of(days@[k]@),
        decreases days.len() - d,
    {
        totals.push(total_minutes(&days[d]));
        d += 1;
    }
    totals
}

/// The sum of numbers of minutes.
pub open spec fn sum_of(totals: Seq<i32>) -> int
    decreases totals.len(),
{
    if totals.len() == 0 {
        0
    } else {
        sum_of(totals.drop_last()) + totals.last()
    }
}

/// Whether numbers of minutes can be added up one after the other.
pub open spec fn totals_fit(totals: Seq<i32>) -> bool {
    forall|n: int|
        0 <= n <= totals.len() ==> i32::MIN <= sum_of(#[trigger] totals.take(n)) <= i32::MAX
}

/// The minutes of all days.
pub fn week_total(totals: &Vec<i32>) -> (total: i32)
    requires
        totals_fit(totals@),
    ensures
        total == sum_of(totals@),
{
    let mut total: i32 = 0;
    let mut i: usize = 0;
    while i < totals.len()
        invariant
            i <= totals.len(),
            totals_fit(totals@),
            total == sum_of(totals@.take(i as int)),
        decreases totals.len() - i,
    {
        proof {
            assert(totals@.take(i + 1).drop_last() =~= totals@.take(i as int));
            assert(i32::MIN <= sum_of(totals@.take(i + 1)) <= i32::MAX);
        }
        total = total + totals[i];
        i += 1;
    }
    proof {
        assert(totals@.take(totals.len() as int) =~= totals@);
    }
    total
}

/// What stands below the week grid: nothing, the mark of a submitted week, or the button
/// that submits it.
#[derive(Clone, Copy, PartialEq, Eq, Structural, Debug)]
pub enum SubmitBar {
    Nothing,
    Submitted,
    Submit { disabled: bool },
}

/// Whether some entry is open.
pub open spec fn has_open(entries: Seq<TimeEntry>) -> bool {
    exists|i: int| 0 <= i < entries.len() && (#[trigger] entries[i]).state == EntryState::Open
}

/// Whether some entry is not open any more.
pub open spec fn has_non_open(entries: Seq<TimeEntry>) -> bool {
    exists|i: int| 0 <= i < entries.len() && (#[trigger] entries[i]).state != EntryState::Open
}

/// What stands below the grid of a week with these entries: a week without an open entry
/// is submitted; one with open entries can be submitted unless some are not open.
pub fn submit_bar(entries: &Vec<TimeEntry>) -> (bar: SubmitBar)
    ensures
        bar == (if entries.len() == 0 {
            SubmitBar::Nothing
        } else if !has_open(entries@) {
            SubmitBar::Submitted
        } else {
            SubmitBar::Submit { disabled: has_non_open(entries@) }
        }),
{
    let mut open = false;
    let mut non_open = false;
    let mut i: usize = 0;
    while i < entries.len()
        invariant
            i <= entries.len(),
            open == has_open(entries@.take(i as int)),
            non_open == has_non_open(entries@.take(i as int)),
        decreases entries.len() - i,
    {
        let ghost before = entries@.take(i as int);
        let ghost after = entries@.take(i + 1);
        proof {
            assert(after[i as int] == entries@[i as int]);
            assert(forall|k: int| 0 <= k < i ==> #[trigger] before[k] == after[k]);
            if has_open(before) {
                let k = choose|k: int| 0 <= k < before.len() && (#[trigger] before[k]).state
                    == EntryState::Open;
                assert(after[k].state == EntryState::Open);
            }
            if has_non_open(before) {
                let k = choose|k: int| 0 <= k < before.len() && (#[trigger] before[k]).state
                    != EntryState::Open;
                assert(after[k].state != EntryState::Open);
            }
            if has_open(after) {
                let k = choose|k: int| 0 <= k < after.len() && (#[trigger] after[k]).state
                    == EntryState::Open;
                if k < i {
                    assert(before[k].state == EntryState::Open);
                }
            }
            if has_non_open(after) {
                let k = choose|k: int| 0 <= k < after.len() && (#[trigger] after[k]).state
                    != EntryState::Open;
                if k < i {
                    assert(before[k].state != EntryState::Open);
                }
            }
        }
        if entries[i].state == EntryState::Open {
            open = true;
        } else {
            non_open = true;
        }
        i += 1;
    }
    proof {
        assert(entries@.take(entries.len() as int) =~= entries@);
    }
    if entries.len() == 0 {
        SubmitBar::Nothing
    } else if !open {
        SubmitBar::Submitted
    } else {
        SubmitBar::Submit { disabled: non_open }
    }
}

} // verus!
