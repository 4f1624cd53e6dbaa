//! What the timesheet promises: where entries go, what is saved of them and what is shown.

use crate::clock::clock_text;
use crate::date::Date;
use crate::lists::filter_holds;
use crate::lists::filter_keeps_order;
use crate::order::comes_first;
use crate::order::sorted_order;
use crate::order::sorted_order_exists;
use crate::order::Pair;
use crate::text::decimal;
use crate::text::trimmed;
use crate::text::trimmed_within;
use crate::text::two_digits;
use crate::text::white_space;
use crate::timesheet::calendar::block_height;
use crate::timesheet::calendar::block_starts_at;
use crate::timesheet::calendar::block_style;
use crate::timesheet::calendar::free_at;
use crate::timesheet::calendar::grid_columns;
use crate::timesheet::calendar::is_earliest;
use crate::timesheet::calendar::is_untimed;
use crate::timesheet::calendar::pixels;
use crate::timesheet::calendar::shown;
use crate::timesheet::calendar::stack_keys;
use crate::timesheet::calendar::stack_tops;
use crate::timesheet::calendar::stacked;
use crate::timesheet::calendar::top_minute;
use crate::timesheet::calendar::CalEvent;
use crate::timesheet::calendar::CalLabels;
use crate::timesheet::calendar::PlacedDay;
use crate::timesheet::dialog::DialogRequest;
use crate::timesheet::dialog::is_first_with;
use crate::timesheet::dialog::stepped;
use crate::timesheet::dialog::EntryAction;
use crate::timesheet::dialog::EntryDialog;
use crate::timesheet::dialog::EntryFields;
use crate::timesheet::drag::drop_place;
use crate::timesheet::drag::half;
use crate::timesheet::drag::made_on;
use crate::timesheet::drag::other_than;
use crate::timesheet::drag::previewed;
use crate::timesheet::drag::restacked;
use crate::timesheet::drag::restacking_keeps_the_rest;
use crate::timesheet::drag::stack_without;
use crate::timesheet::drag::CalDrag;
use crate::timesheet::drag::DragKind;
use crate::timesheet::drag::DragOutcome;
use crate::timesheet::entry::EntryState;
use crate::timesheet::entry::TimeEntry;
use crate::timesheet::grid::cell_entries;
use crate::timesheet::grid::grid_keys;
use crate::timesheet::grid::ids_of;
use crate::timesheet::grid::in_cell;
use crate::timesheet::grid::key_of;
use crate::timesheet::grid::pending_keys;
use crate::timesheet::grid::seen_keys;
use crate::timesheet::grid::with_key;
use crate::timesheet::grid::GridRow;
use crate::timesheet::grid::RowKey;
use crate::timesheet::names::clients_by_project;
use crate::timesheet::names::names_by_id;
use crate::timesheet::names::Named;
use crate::timesheet::view::cell_class;
use crate::timesheet::view::col_class;
use crate::timesheet::view::hm_text;
use crate::timesheet::view::offset_in_week;
use crate::timesheet::view::CalSpan;
use crate::timesheet::view::ViewMode;
use crate::timesheet::view::titled_view;
use crate::timesheet::view::view_title;
use crate::timesheet::view::weekday_name;
use crate::timesheet::week::has_non_open;
use crate::timesheet::week::has_open;
use crate::timesheet::week::in_week;
use crate::timesheet::week::minutes_of;
use crate::timesheet::week::on_day;
use crate::timesheet::week::sum_of;
use crate::ids::id_text;
use crate::date::iso_text;
use crate::projects::budget::Project;
use vstd::prelude::*;

verus! {

// ---- Days and sums ----

/// The entries of a week are those of its seven days, and no others.
pub proof fn a_week_has_seven_days(entries: Seq<TimeEntry>, week_start: Date, entry: TimeEntry)
    ensures
        entries.filter(in_week(week_start)).contains(entry) <==> entries.contains(entry)
            && week_start.days <= entry.spent_date.days <= week_start.days + 6,
{
    filter_holds(entries, in_week(week_start), entry);
}

/// The entries of a weekday are those of that date, and no others.
pub proof fn a_weekday_is_one_date(
    entries: Seq<TimeEntry>,
    week_start: Date,
    day: usize,
    entry: TimeEntry,
)
    requires
        day < 7,
    ensures
        entries.filter(on_day(week_start, day)).contains(entry) <==> entries.contains(entry)
            && entry.spent_date.days == week_start.days + day,
        day as int != entry.spent_date.days - week_start.days ==> offset_in_week(
            entry.spent_date,
            week_start,
        ) != Some(day),
{
    filter_holds(entries, on_day(week_start, day), entry);
}

/// Minutes are added up: those of two lists together are the sum of both.
pub proof fn minutes_add_up(a: Seq<TimeEntry>, b: Seq<TimeEntry>, entry: TimeEntry)
    ensures
        minutes_of(a + b) == minutes_of(a) + minutes_of(b),
        minutes_of(seq![entry]) == entry.minutes,
        minutes_of(Seq::<TimeEntry>::empty()) == 0,
    decreases b.len(),
{
    if b.len() == 0 {
        assert(a + b =~= a);
    } else {
        minutes_add_up(a, b.drop_last(), entry);
        assert((a + b).drop_last() =~= a + b.drop_last());
    }
    reveal_with_fuel(minutes_of, 2);
    assert(seq![entry].drop_last() =~= Seq::<TimeEntry>::empty());
}

/// Totals are added up: those of two lists together are the sum of both.
pub proof fn totals_add_up(a: Seq<i32>, b: Seq<i32>, total: i32)
    ensures
        sum_of(a + b) == sum_of(a) + sum_of(b),
        sum_of(seq![total]) == total,
        sum_of(Seq::<i32>::empty()) == 0,
    decreases b.len(),
{
    if b.len() == 0 {
        assert(a + b =~= a);
    } else {
        totals_add_up(a, b.drop_last(), total);
        assert((a + b).drop_last() =~= a + b.drop_last());
    }
    reveal_with_fuel(sum_of, 2);
    assert(seq![total].drop_last() =~= Seq::<i32>::empty());
}

/// Every entry is either open or not: an open one makes a week that can be submitted, any other
/// one a week that cannot be submitted again, and a week without entries has neither.
pub proof fn every_entry_counts_for_the_submission(entries: Seq<TimeEntry>, i: int)
    requires
        0 <= i < entries.len(),
    ensures
        entries[i].state == EntryState::Open ==> has_open(entries),
        entries[i].state == EntryState::Submitted || entries[i].state == EntryState::Approved
            || entries[i].state == EntryState::Invoiced ==> has_non_open(entries),
        (forall|k: int| 0 <= k < entries.len() ==> (#[trigger] entries[k]).state == EntryState::Open)
            ==> !has_non_open(entries),
        (forall|k: int| 0 <= k < entries.len() ==> (#[trigger] entries[k]).state != EntryState::Open)
            ==> !has_open(entries),
{
}

/// A duration is shown as whole hours and the minutes that are left, two digits of them.
pub proof fn durations_are_hours_and_minutes(hours: nat, minutes: nat)
    requires
        minutes < 60,
    ensures
        hm_text((60 * hours + minutes) as int) == decimal(hours) + ":"@ + two_digits(
            minutes as int,
        ),
        clock_text(60 * hours + minutes) == hm_text((60 * hours + minutes) as int),
{
    assert((60 * hours + minutes) / 60 == hours);
    assert((60 * hours + minutes) % 60 == minutes);
}

/// A negative duration is shown as none.
pub proof fn negative_durations_are_none(minutes: int)
    requires
        minutes < 0,
    ensures
        hm_text(minutes) == hm_text(0),
{
}

// ---- The week grid ----

/// Entries share a row exactly when they are for the same task of the same project.
pub proof fn rows_are_for_one_task(a: TimeEntry, b: TimeEntry)
    ensures
        key_of(a) == key_of(b) <==> a.project_id == b.project_id && a.task_id == b.task_id,
        key_of(a).project_id == a.project_id,
        key_of(a).task_id == a.task_id,
{
}

/// The minutes that entries spend on a task of a project on a day.
pub open spec fn spent(
    entries: Seq<TimeEntry>,
    project_id: u128,
    task_id: u128,
    day: int,
) -> int
    decreases entries.len(),
{
    if entries.len() == 0 {
        0
    } else {
        spent(entries.drop_last(), project_id, task_id, day) + if entries.last().project_id
            == project_id && entries.last().task_id == task_id && entries.last().spent_date.days
            == day {
            entries.last().minutes as int
        } else {
            0
        }
    }
}

/// The identities of the entries for a task of a project on a day, in their order.
pub open spec fn spending(
    entries: Seq<TimeEntry>,
    project_id: u128,
    task_id: u128,
    day: int,
) -> Seq<u128>
    decreases entries.len(),
{
    if entries.len() == 0 {
        Seq::empty()
    } else {
        let before = spending(entries.drop_last(), project_id, task_id, day);
        if entries.last().project_id == project_id && entries.last().task_id == task_id
            && entries.last().spent_date.days == day {
            before.push(entries.last().id)
        } else {
            before
        }
    }
}

proof fn cells_hold_what_is_spent(
    entries: Seq<TimeEntry>,
    week_start: Date,
    key: RowKey,
    day: usize,
)
    requires
        day < 7,
    ensures
        minutes_of(cell_entries(entries, week_start, key, day)) == spent(
            entries,
            key.project_id,
            key.task_id,
            week_start.days + day,
        ),
        ids_of(cell_entries(entries, week_start, key, day)) == spending(
            entries,
            key.project_id,
            key.task_id,
            week_start.days + day,
        ),
    decreases entries.len(),
{
    reveal(Seq::filter);
    let keep = in_cell(week_start, key, day);
    if entries.len() == 0 {
        assert(entries.filter(keep) =~= Seq::<TimeEntry>::empty());
        assert(ids_of(entries.filter(keep)) =~= Seq::<u128>::empty());
    } else {
        let before = entries.drop_last();
        cells_hold_what_is_spent(before, week_start, key, day);
        let last = entries.last();
        assert(keep(last) <==> last.project_id == key.project_id && last.task_id == key.task_id
            && last.spent_date.days == week_start.days + day);
        if keep(last) {
            let cell = before.filter(keep);
            assert(entries.filter(keep) == cell.push(last));
            assert(cell.push(last).drop_last() =~= cell);
            assert(ids_of(cell.push(last)) =~= ids_of(cell).push(last.id));
        }
    }
}

/// A cell of the grid shows the minutes that were spent on its task on its day, and the entries
/// behind them.
pub proof fn cells_show_what_is_spent(
    row: GridRow,
    entries: Seq<TimeEntry>,
    week_start: Date,
    day: int,
)
    requires
        row.shows(entries, week_start),
        0 <= day < 7,
    ensures
        row.mins@[day] == spent(
            entries,
            row.key.project_id,
            row.key.task_id,
            week_start.days + day,
        ),
        row.ids@[day]@ == spending(
            entries,
            row.key.project_id,
            row.key.task_id,
            week_start.days + day,
        ),
        row.mins.len() == 7,
        row.ids.len() == 7,
{
    cells_hold_what_is_spent(entries, week_start, row.key, day as usize);
    assert(row.mins@[day] == minutes_of(
        cell_entries(entries, week_start, row.key, day as usize),
    ));
    assert(row.ids@[day]@ == ids_of(cell_entries(entries, week_start, row.key, day as usize)));
}

/// Every row of the grid is there for an entry of the week or because it was added, and every
/// row that was added is there.
pub proof fn rows_have_reasons(
    entries: Seq<TimeEntry>,
    week_start: Date,
    pending: Seq<RowKey>,
    key: RowKey,
)
    ensures
        grid_keys(entries, week_start, pending).contains(key) <==> pending.contains(key) || exists|
            i: int,
        |
            0 <= i < entries.len() && (#[trigger] entries[i]).project_id == key.project_id
                && entries[i].task_id == key.task_id && week_start.days
                <= entries[i].spent_date.days < week_start.days + 7,
{
    let seen = seen_keys(entries, week_start, entries.len() as int);
    seen_rows(entries, week_start, entries.len() as int, key);
    pending_rows(seen, pending, pending.len() as int, key);
    if pending.contains(key) {
        let i = choose|i: int| 0 <= i < pending.len() && pending[i] == key;
        assert(pending[i] == key);
    }
}

proof fn pushed_key(keys: Seq<RowKey>, key: RowKey, other: RowKey)
    ensures
        with_key(keys, key).contains(other) <==> keys.contains(other) || key == other,
{
    if !keys.contains(key) {
        let more = keys.push(key);
        assert(more[keys.len() as int] == key);
        if keys.contains(other) {
            let i = choose|i: int| 0 <= i < keys.len() && keys[i] == other;
            assert(more[i] == other);
        }
        if more.contains(other) {
            let i = choose|i: int| 0 <= i < more.len() && more[i] == other;
            if i < keys.len() {
                assert(keys[i] == other);
            }
        }
    }
}

proof fn seen_rows(entries: Seq<TimeEntry>, week_start: Date, n: int, key: RowKey)
    requires
        0 <= n <= entries.len(),
    ensures
        seen_keys(entries, week_start, n).contains(key) <==> exists|i: int|
            0 <= i < n && (#[trigger] entries[i]).project_id == key.project_id
                && entries[i].task_id == key.task_id && week_start.days
                <= entries[i].spent_date.days < week_start.days + 7,
    decreases n,
{
    if n > 0 {
        seen_rows(entries, week_start, n - 1, key);
        pushed_key(seen_keys(entries, week_start, n - 1), key_of(entries[n - 1]), key);
        assert(entries[n - 1].project_id == key.project_id && entries[n - 1].task_id == key.task_id
            <==> key_of(entries[n - 1]) == key);
    }
}

proof fn pending_rows(keys: Seq<RowKey>, pending: Seq<RowKey>, n: int, key: RowKey)
    requires
        0 <= n <= pending.len(),
    ensures
        pending_keys(keys, pending, n).contains(key) <==> keys.contains(key) || exists|i: int|
            0 <= i < n && #[trigger] pending[i] == key,
    decreases n,
{
    if n > 0 {
        pending_rows(keys, pending, n - 1, key);
        pushed_key(pending_keys(keys, pending, n - 1), pending[n - 1], key);
    }
}

/// Rows stand as their tasks are first seen: before the row of an entry stand only rows of
/// entries before it.
pub proof fn rows_stand_as_first_seen(
    entries: Seq<TimeEntry>,
    week_start: Date,
    pending: Seq<RowKey>,
    p: int,
    q: int,
    j: int,
)
    requires
        0 <= p < q < grid_keys(entries, week_start, pending).len(),
        0 <= j < entries.len(),
        week_start.days <= entries[j].spent_date.days < week_start.days + 7,
        grid_keys(entries, week_start, pending)[q].project_id == entries[j].project_id,
        grid_keys(entries, week_start, pending)[q].task_id == entries[j].task_id,
    ensures
        exists|i: int|
            0 <= i < j && (#[trigger] entries[i]).project_id == grid_keys(
                entries,
                week_start,
                pending,
            )[p].project_id && entries[i].task_id == grid_keys(
                entries,
                week_start,
                pending,
            )[p].task_id,
{
    let n = entries.len() as int;
    let all = grid_keys(entries, week_start, pending);
    let before = seen_keys(entries, week_start, j);
    let with = seen_keys(entries, week_start, j + 1);
    seen_grow(entries, week_start, j + 1, n);
    seen_grow(entries, week_start, j, j + 1);
    pending_grow(seen_keys(entries, week_start, n), pending, pending.len() as int);
    crate::timesheet::grid::rows_are_distinct(entries, week_start, pending);
    let key = key_of(entries[j]);
    assert(all[q] == key);
    pushed_key(before, key, key);
    assert(with.contains(key));
    let r = choose|r: int| 0 <= r < with.len() && with[r] == key;
    assert(all[r] == with[r]);
    assert(r == q);
    assert(p < with.len() && p < before.len()) by {
        assert(with.len() <= before.len() + 1);
    }
    assert(all[p] == before[p]);
    seen_rows(entries, week_start, j, before[p]);
    assert(before.contains(before[p]));
}

proof fn seen_grow(entries: Seq<TimeEntry>, week_start: Date, m: int, n: int)
    requires
        0 <= m <= n <= entries.len(),
    ensures
        seen_keys(entries, week_start, m).len() <= seen_keys(entries, week_start, n).len(),
        forall|i: int|
            0 <= i < seen_keys(entries, week_start, m).len() ==> #[trigger] seen_keys(
                entries,
                week_start,
                m,
            )[i] == seen_keys(entries, week_start, n)[i],
    decreases n - m,
{
    if m < n {
        seen_grow(entries, week_start, m, n - 1);
    }
}

proof fn pending_grow(keys: Seq<RowKey>, pending: Seq<RowKey>, n: int)
    requires
        0 <= n <= pending.len(),
    ensures
        keys.len() <= pending_keys(keys, pending, n).len(),
        forall|i: int|
            0 <= i < keys.len() ==> #[trigger] pending_keys(keys, pending, n)[i] == keys[i],
    decreases n,
{
    if n > 0 {
        pending_grow(keys, pending, n - 1);
    }
}

/// Adding a row puts it at the end, once.
pub proof fn added_rows_come_last(keys: Seq<RowKey>, key: RowKey)
    ensures
        keys.contains(key) ==> with_key(keys, key) == keys,
        !keys.contains(key) ==> with_key(keys, key).len() == keys.len() + 1 && with_key(
            keys,
            key,
        ).last() == key && with_key(keys, key).drop_last() == keys,
{
    assert(keys.push(key).drop_last() =~= keys);
}

// ---- Saving an entry ----

/// An entry that is there is updated to exactly what was entered, billable or not as that says.
pub proof fn entries_are_updated_as_entered(action: EntryAction, id: u128, fields: EntryFields)
    requires
        action.saves(Some(id), fields),
        fields.minutes != 0,
    ensures
        action is Update,
        action->Update_id@ == id_text(id),
        action->Update_minutes == fields.minutes,
        action->Update_notes == fields.notes,
        action->Update_billable == fields.billable,
        action->Update_start_minute == fields.start_minute,
{
}

/// An entry that is there and gets no minutes is deleted.
pub proof fn emptied_entries_are_deleted(action: EntryAction, id: u128, fields: EntryFields)
    requires
        action.saves(Some(id), fields),
        fields.minutes == 0,
    ensures
        action is Delete,
        action->Delete_id@ == id_text(id),
{
}

/// A new entry is made exactly as it was entered; without minutes none is made.
pub proof fn entries_are_created_as_entered(action: EntryAction, fields: EntryFields)
    requires
        action.saves(None, fields),
    ensures
        fields.minutes <= 0 ==> action is Nothing,
        fields.minutes > 0 ==> {
            &&& action is Create
            &&& action->Create_project_id == fields.project_id
            &&& action->Create_task_id == fields.task_id
            &&& action->day@ == iso_text(fields.day.days)
            &&& action->Create_minutes == fields.minutes
            &&& action->Create_notes == fields.notes
            &&& action->Create_billable == fields.billable
            &&& action->Create_start_minute == fields.start_minute
        },
{
}

/// What is found under an identity has it, and nothing before it does.
pub proof fn the_first_entry_is_found(entries: Seq<TimeEntry>, id: u128, i: int, k: int)
    requires
        is_first_with(entries, id, i),
    ensures
        0 <= i < entries.len(),
        entries[i].id == id,
        0 <= k < entries.len() && entries[k].id == id ==> i <= k,
{
}

/// A timer is started for nothing but a new entry of today without a start and without a
/// duration; and for each of those.
pub proof fn timers_are_for_new_entries_of_today(
    dialog: EntryDialog,
    today: Date,
    parsed: Option<u32>,
)
    ensures
        dialog.editing is Some ==> !dialog.starts_timer(today, parsed),
        dialog.start is Some ==> !dialog.starts_timer(today, parsed),
        dialog.open != Some(today) ==> !dialog.starts_timer(today, parsed),
        parsed is Some && parsed->0 > 0 ==> !dialog.starts_timer(today, parsed),
        dialog.open == Some(today) && dialog.editing is None && dialog.start is None && (parsed
            is None || parsed->0 == 0) ==> dialog.starts_timer(today, parsed),
{
}

/// Notes are kept without the white space around them, and blank ones not at all.
pub proof fn notes_are_kept_trimmed(dialog: EntryDialog)
    ensures
        (forall|k: int|
            0 <= k < dialog.notes@.len() ==> white_space(#[trigger] dialog.notes@[k]))
            <==> dialog.kept_notes() is None,
        dialog.kept_notes() is Some ==> {
            let kept = dialog.kept_notes()->0;
            &&& kept.len() > 0
            &&& !white_space(kept.first())
            &&& !white_space(kept.last())
            &&& exists|i: int, j: int|
                0 <= i <= j <= dialog.notes@.len() && kept == #[trigger] dialog.notes@.subrange(
                    i,
                    j,
                )
        },
{
    let (i, j) = trimmed_within(dialog.notes@);
    let kept = trimmed(dialog.notes@);
    if i < j {
        assert(kept[0] == dialog.notes@[i]);
        assert(kept.last() == dialog.notes@[j - 1]);
    }
    assert(kept == dialog.notes@.subrange(i, j));
}

/// A step of the pager leads to the next day or to the same weekday of the next week.
pub proof fn steps_are_days_or_weeks(mode: ViewMode, day: int)
    ensures
        mode == ViewMode::Day ==> stepped(mode, day, true) == day + 1,
        mode != ViewMode::Day ==> stepped(mode, day, true) == day + 7,
        mode == ViewMode::Day ==> stepped(mode, day, false) == day - 1,
        mode != ViewMode::Day ==> stepped(mode, day, false) == day - 7,
{
}

/// A path that names no view leads to the week.
pub proof fn stray_paths_lead_to_the_week(text: Seq<char>)
    requires
        text != "day"@,
        text != "calendar"@,
    ensures
        ViewMode::named(text) == ViewMode::Week,
{
}

/// The calendar shows the days of a week from Monday on: seven, five, or the anchor day alone.
pub proof fn calendars_show_their_days(anchor: usize, day: usize)
    requires
        anchor < 7,
    ensures
        CalSpan::Week.days(anchor).contains(day) <==> day < 7,
        CalSpan::WorkWeek.days(anchor).contains(day) <==> day < 5,
        CalSpan::Day.days(anchor) == seq![anchor],
        forall|span: CalSpan, i: int, j: int|
            0 <= i < j < span.days(anchor).len() ==> #[trigger] span.days(anchor)[i]
                < #[trigger] span.days(anchor)[j],
{
    let week = CalSpan::Week.days(anchor);
    let work = CalSpan::WorkWeek.days(anchor);
    if day < 7 {
        assert(week[day as int] == day);
    }
    if day < 5 {
        assert(work[day as int] == day);
    }
    assert(CalSpan::Day.days(anchor) =~= seq![anchor]);
}

// ---- Dragging ----

/// The minutes of the first `n` entries of a stack together.
pub open spec fn sum_before(stack: Seq<TimeEntry>, n: int) -> int
    decreases n,
{
    if n <= 0 {
        0
    } else {
        sum_before(stack, n - 1) + stack[n - 1].minutes
    }
}

proof fn sums_are_minutes(stack: Seq<TimeEntry>, n: int)
    requires
        0 <= n <= stack.len(),
    ensures
        sum_before(stack, n) == minutes_of(stack.take(n)),
    decreases n,
{
    if n > 0 {
        sums_are_minutes(stack, n - 1);
        assert(stack.take(n).drop_last() =~= stack.take(n - 1));
    }
}

proof fn dropped_at_the_middle(stack: Seq<TimeEntry>, cur: int, from: int)
    requires
        0 <= from <= stack.len(),
        forall|i: int| 0 <= i < stack.len() ==> (#[trigger] stack[i]).minutes >= 0,
        forall|i: int|
            0 <= i < from ==> cur >= sum_before(stack, i) + (#[trigger] stack[i]).minutes / 2,
    ensures
        ({
            let p = drop_place(stack, cur, from);
            &&& from <= p <= stack.len()
            &&& forall|i: int|
                0 <= i < p ==> cur >= sum_before(stack, i) + (#[trigger] stack[i]).minutes / 2
            &&& p < stack.len() ==> cur < sum_before(stack, p) + stack[p].minutes / 2
        }),
    decreases stack.len() - from,
{
    if from < stack.len() {
        sums_are_minutes(stack, from);
        assert(stack[from].minutes >= 0);
        if cur >= sum_before(stack, from) + stack[from].minutes / 2 {
            dropped_at_the_middle(stack, cur, from + 1);
        }
    }
}

/// An entry that is dropped into a stack goes below every entry whose middle is at or above the
/// pointer, and above the first one whose middle is below it. The middle of an entry is where the
/// entries before it end, and half of its own minutes.
///
/// `order` is the order that the drop gives the day, and `p` the place of the dropped entry in it.
pub proof fn entries_drop_between_middles(
    entries: Seq<TimeEntry>,
    date: Date,
    entry: TimeEntry,
    cur: int,
    order: Seq<TimeEntry>,
    p: int,
)
    requires
        order == restacked(entries, date, entry, cur),
        0 <= p < order.len(),
        order[p].id == entry.id,
        forall|i: int| 0 <= i < order.len() && i != p ==> (#[trigger] order[i]).minutes >= 0,
    ensures
        order[p] == entry,
        ({
            let rest = order.remove(p);
            &&& forall|i: int|
                0 <= i < p ==> cur >= sum_before(rest, i) + (#[trigger] rest[i]).minutes / 2
            &&& p < rest.len() ==> cur < sum_before(rest, p) + rest[p].minutes / 2
        }),
{
    let rest = stack_without(entries, date, entry.id);
    let place = restacking_keeps_the_rest(entries, date, entry, cur);
    if p != place {
        let k = if p < place {
            p
        } else {
            p - 1
        };
        assert(order.remove(place)[k] == order[p]);
        assert(ids_of(rest)[k] == entry.id);
        assert(ids_of(rest).contains(entry.id));
    }
    assert(order.remove(p) == rest);
    assert forall|i: int| 0 <= i < rest.len() implies (#[trigger] rest[i]).minutes >= 0 by {
        let k = if i < p {
            i
        } else {
            i + 1
        };
        assert(order.remove(p)[i] == order[k]);
    }
    dropped_at_the_middle(rest, cur, 0);
    let q = drop_place(rest, cur, 0);
    let other = rest.insert(q, entry);
    assert(other == order);
    assert(other[q] == entry);
    if q != p {
        let k = if q < p {
            q
        } else {
            q - 1
        };
        assert(order.remove(p)[k] == order[q]);
        assert(ids_of(rest)[k] == entry.id);
        assert(ids_of(rest).contains(entry.id));
    }
}

/// An entry that is dropped above the middle of the first entry becomes the first one.
pub proof fn entries_drop_on_top(
    entries: Seq<TimeEntry>,
    date: Date,
    entry: TimeEntry,
    cur: int,
)
    requires
        stack_without(entries, date, entry.id).len() > 0,
        forall|i: int|
            0 <= i < stack_without(entries, date, entry.id).len() ==> (
            #[trigger] stack_without(entries, date, entry.id)[i]).minutes >= 0,
        cur < stack_without(entries, date, entry.id)[0].minutes / 2,
    ensures
        restacked(entries, date, entry, cur)[0] == entry,
        restacked(entries, date, entry, cur).drop_first() == stack_without(entries, date, entry.id),
{
    let rest = stack_without(entries, date, entry.id);
    dropped_at_the_middle(rest, cur, 0);
    assert(sum_before(rest, 0) == 0);
    let q = drop_place(rest, cur, 0);
    if q > 0 {
        assert(cur >= sum_before(rest, 0) + rest[0].minutes / 2);
    }
    assert(rest.insert(0, entry).drop_first() =~= rest);
}

/// Whether `a` may stand before `b` in a stack: by their explicit order, then the newest first.
pub open spec fn stands_before(a: TimeEntry, b: TimeEntry) -> bool {
    a.sort_order < b.sort_order || (a.sort_order == b.sort_order && a.created_at >= b.created_at)
}

proof fn stacks_are_sorted(day: Seq<TimeEntry>)
    ensures
        forall|i: int, j: int|
            0 <= i < j < stacked(day).len() ==> #[trigger] stands_before(
                stacked(day)[i],
                stacked(day)[j],
            ),
{
    let untimed = day.filter(is_untimed());
    let keys = stack_keys(untimed);
    let order = sorted_order::<Pair>(keys);
    sorted_order_exists::<Pair>(keys);
    assert forall|i: int, j: int| 0 <= i < j < stacked(day).len() implies #[trigger] stands_before(
        stacked(day)[i],
        stacked(day)[j],
    ) by {
        assert(0 <= order[i] < keys.len());
        assert(0 <= order[j] < keys.len());
        assert(comes_first::<Pair>(keys, order[i], order[j]));
        assert(keys[order[i]] == (
            untimed[order[i]].sort_order as int,
            -(untimed[order[i]].created_at as int),
        ));
        assert(keys[order[j]] == (
            untimed[order[j]].sort_order as int,
            -(untimed[order[j]].created_at as int),
        ));
    }
}

/// A day's stack holds its entries without a start time and no others, by their explicit order
/// and then the newest first.
pub proof fn stacks_stand_in_order(day: Seq<TimeEntry>, entry: TimeEntry, i: int, j: int)
    ensures
        stacked(day).contains(entry) <==> day.contains(entry) && entry.start_minute is None,
        0 <= i < j < stacked(day).len() ==> stacked(day)[i].sort_order < stacked(day)[j].sort_order
            || (stacked(day)[i].sort_order == stacked(day)[j].sort_order
            && stacked(day)[i].created_at >= stacked(day)[j].created_at),
{
    crate::timesheet::calendar::stacking_keeps_every_entry(day, entry);
    filter_holds(day, is_untimed(), entry);
    stacks_are_sorted(day);
    if 0 <= i < j < stacked(day).len() {
        assert(stands_before(stacked(day)[i], stacked(day)[j]));
    }
}

/// The stack that an entry is dropped into holds the other entries of that date without a start
/// time, in their order, and no others.
pub proof fn dropped_entries_stand_with_the_day(
    entries: Seq<TimeEntry>,
    date: Date,
    id: u128,
    entry: TimeEntry,
    i: int,
    j: int,
)
    ensures
        stack_without(entries, date, id).contains(entry) <==> entries.contains(entry)
            && entry.spent_date == date && entry.start_minute is None && entry.id != id,
        0 <= i < j < stack_without(entries, date, id).len() ==> ({
            let rest = stack_without(entries, date, id);
            rest[i].sort_order < rest[j].sort_order || (rest[i].sort_order == rest[j].sort_order
                && rest[i].created_at >= rest[j].created_at)
        }),
{
    let day = entries.filter(made_on(date));
    filter_holds(entries, made_on(date), entry);
    filter_holds(stacked(day), other_than(id), entry);
    stacks_stand_in_order(day, entry, i, j);
    stacks_are_sorted(day);
    let related = |a: TimeEntry, b: TimeEntry| stands_before(a, b);
    assert forall|k: int, m: int| 0 <= k < m < stacked(day).len() implies #[trigger] related(
        stacked(day)[k],
        stacked(day)[m],
    ) by {
        assert(stands_before(stacked(day)[k], stacked(day)[m]));
    }
    filter_keeps_order(stacked(day), other_than(id), related);
    let rest = stack_without(entries, date, id);
    if 0 <= i < j < rest.len() {
        assert(related(rest[i], rest[j]));
    }
}

/// A moved entry follows the pointer: it is moved by as many minutes as the pointer, within the
/// day.
pub proof fn moved_entries_follow_the_pointer(d: CalDrag)
    ensures
        0 <= d.moved_start() <= 1439,
        0 <= d.start_min + (d.cur_min - d.grab_min) <= 1439 ==> d.moved_start() - d.start_min
            == d.cur_min - d.grab_min,
        d.start_min + (d.cur_min - d.grab_min) < 0 ==> d.moved_start() == 0,
        d.start_min + (d.cur_min - d.grab_min) > 1439 ==> d.moved_start() == 1439,
{
}

/// A resized entry ends at the pointer, but never before its shortest duration is over.
pub proof fn resized_entries_end_at_the_pointer(d: CalDrag, min_duration: u16)
    ensures
        d.resized_end(min_duration) >= d.cur_min,
        d.resized_end(min_duration) - d.start_min >= min_duration,
        d.resized_end(min_duration) == d.cur_min || d.resized_end(min_duration) - d.start_min
            == min_duration,
{
}

/// A slot is the same whichever of its ends was pressed first. It starts at the earlier one and
/// lasts to the later one; where that is too short it lasts an hour.
pub proof fn slots_are_drawn_either_way(d: CalDrag, e: CalDrag, min_duration: u16)
    requires
        e.start_min == d.cur_min,
        e.cur_min == d.start_min,
    ensures
        d.drawn(min_duration) == e.drawn(min_duration),
        0 <= d.start_min <= d.cur_min <= 1439 ==> d.drawn(min_duration).0 == d.start_min,
        d.cur_min - d.start_min >= min_duration ==> d.drawn(min_duration).1 == d.cur_min
            - d.start_min,
        0 <= d.cur_min - d.start_min < min_duration ==> d.drawn(min_duration).1 == 60,
        0 <= d.drawn(min_duration).0 <= 1439,
{
}

/// A drag asks for a time exactly where it is not of a locked entry, and draws a slot, resizes
/// an entry or moves one away from where it was.
pub proof fn drags_ask_for_times(d: CalDrag, min_duration: u16)
    ensures
        d.entry is Some && d.entry->0.state != EntryState::Open ==> d.asked(min_duration) is None,
        d.kind == DragKind::Reorder ==> d.asked(min_duration) is None,
        d.kind == DragKind::Create && (d.entry is None || d.entry->0.state == EntryState::Open)
            ==> d.asked(min_duration) == Some(d.drawn(min_duration)),
        d.kind == DragKind::Resize && d.entry is Some && d.entry->0.state == EntryState::Open
            ==> d.asked(min_duration) is Some && (d.asked(min_duration)->0).0 == d.start_min && (
        d.asked(min_duration)->0).0 + (d.asked(min_duration)->0).1 == d.resized_end(min_duration),
        d.kind == DragKind::Move && d.entry is Some && d.entry->0.state == EntryState::Open && (
        d.day != d.orig_day || d.moved_start() != d.start_min) ==> d.asked(min_duration) == Some(
            (d.moved_start(), d.orig_dur as int),
        ),
        d.kind == DragKind::Move && d.day == d.orig_day && d.moved_start() == d.start_min
            ==> d.asked(min_duration) is None,
        d.entry is None && d.kind != DragKind::Create ==> d.asked(min_duration) is None,
{
}

/// Only the block of the dragged entry is shown at another time: a moved one in the pointer's
/// column and a resized one where it is.
pub proof fn only_dragged_blocks_are_previewed(
    d: CalDrag,
    day: usize,
    id: u128,
    min_duration: u16,
)
    ensures
        previewed(d, day, id, min_duration) is Some ==> d.entry is Some && d.entry->0.id == id && (
        d.kind == DragKind::Resize || (d.kind == DragKind::Move && d.day == day)),
        d.entry is Some && d.entry->0.id == id && d.kind == DragKind::Resize ==> previewed(
            d,
            day,
            id,
            min_duration,
        ) == Some((d.start_min as int, d.resized_end(min_duration))),
        d.entry is Some && d.entry->0.id == id && d.kind == DragKind::Move && d.day == day
            ==> previewed(d, day, id, min_duration) == Some(
            (d.moved_start(), d.moved_start() + d.orig_dur),
        ),
{
}

/// What a release opens or reschedules is the entry itself, at the time that is given.
pub proof fn releases_are_of_the_entry(
    outcome: DragOutcome,
    entry: TimeEntry,
    date: i32,
    start: int,
    minutes: int,
)
    ensures
        outcome.opens(Some(entry)) <==> outcome == DragOutcome::OpenEdit(entry),
        !outcome.opens(None),
        outcome.reschedules(entry, date as int, start, minutes) ==> {
            &&& outcome is Reschedule
            &&& outcome->id@ == id_text(entry.id)
            &&& outcome->Reschedule_date@ == iso_text(date)
            &&& outcome->Reschedule_start == start
            &&& outcome->minutes == minutes
        },
{
}

// ---- The calendar ----

/// An hour is as high as the calendar says; a longer time is never drawn lower, and part of a
/// pixel is not drawn.
pub proof fn minutes_are_drawn_to_scale(hours: int, a: int, b: int)
    ensures
        pixels(60 * hours) == 48 * hours,
        a <= b ==> pixels(a) <= pixels(b),
        a >= 0 ==> pixels(a) * 60 <= a * 48 < (pixels(a) + 1) * 60,
        pixels(-a) == -pixels(a),
{
}

/// Blocks are as high as their time, but never too low to be read.
pub proof fn blocks_can_be_read(minutes: int)
    ensures
        block_height(minutes) >= 20,
        block_height(minutes) >= pixels(minutes),
        block_height(minutes) == 20 || block_height(minutes) == pixels(minutes),
{
}

proof fn tops_are_sums(ordered: Seq<TimeEntry>, n: int, k: int)
    requires
        0 <= k < n <= ordered.len(),
        forall|i: int, j: int|
            0 <= i < j < ordered.len() ==> (#[trigger] ordered[i]).id != (#[trigger] ordered[j]).id,
    ensures
        stack_tops(ordered, n).contains_key(ordered[k].id),
        stack_tops(ordered, n)[ordered[k].id] == sum_before(ordered, k),
    decreases n,
{
    sums_are_minutes(ordered, n - 1);
    if k < n - 1 {
        tops_are_sums(ordered, n - 1, k);
    }
}

/// A block with a start time stands at it. The others are stacked from the top of the day, each
/// where the one before it ends.
pub proof fn blocks_stand_at_their_time(day: Seq<TimeEntry>, entry: TimeEntry, k: int)
    requires
        forall|i: int, j: int|
            0 <= i < j < stacked(day).len() ==> (#[trigger] stacked(day)[i]).id != (
            #[trigger] stacked(day)[j]).id,
    ensures
        entry.start_minute is Some ==> top_minute(day, entry) == entry.start_minute->0,
        0 <= k < stacked(day).len() && entry == stacked(day)[k] ==> top_minute(day, entry)
            == sum_before(stacked(day), k),
{
    let ordered = stacked(day);
    if 0 <= k < ordered.len() && entry == ordered[k] {
        assert(ordered.contains(entry));
        stacks_stand_in_order(day, entry, 0, 0);
        tops_are_sums(ordered, ordered.len() as int, k);
    }
}

/// Every entry of a day has its own block, with its own names, duration and times, and takes
/// the minutes from its top on.
pub proof fn blocks_show_their_entries(
    placed: PlacedDay,
    day: Seq<TimeEntry>,
    labels: CalLabels,
    i: int,
)
    requires
        placed.shows(day, labels),
        0 <= i < day.len(),
    ensures
        placed.events.len() == day.len(),
        placed.occupied.len() == day.len(),
        placed.events@[i].entry == day[i],
        placed.events@[i].timed <==> day[i].start_minute is Some,
        placed.events@[i].top == pixels(top_minute(day, day[i])),
        placed.events@[i].height == block_height(day[i].minutes as int),
        placed.events@[i].duration@ == hm_text(day[i].minutes as int),
        day[i].start_minute is None ==> placed.events@[i].time_label@ == Seq::<char>::empty(),
        labels.projects@.contains_key(day[i].project_id) ==> placed.events@[i].project@
            == labels.projects@[day[i].project_id]@,
        labels.tasks@.contains_key(day[i].task_id) ==> placed.events@[i].task@
            == labels.tasks@[day[i].task_id]@,
        labels.clients@.contains_key(day[i].project_id) ==> placed.events@[i].client@
            == labels.clients@[day[i].project_id].0@ + " · "@
            + labels.clients@[day[i].project_id].1@,
        placed.occupied@[i].0 == top_minute(day, day[i]) as i32,
        placed.occupied@[i].1 == (top_minute(day, day[i]) + day[i].minutes) as i32,
        day[i].start_minute is None ==> placed.events@[i].lane == 0 && placed.events@[i].lanes == 1,
{
    assert(placed.events@[i].places(day[i], top_minute(day, day[i]), labels));
    assert(placed.occupied@[i] == (
        top_minute(day, day[i]) as i32,
        (top_minute(day, day[i]) + day[i].minutes) as i32,
    ));
    assert(placed.events@.map_values(|event: CalEvent| event.lane)[i] == placed.events@[i].lane);
    assert(placed.events@.map_values(|event: CalEvent| event.lanes)[i] == placed.events@[i].lanes);
}

/// The times on a block are those of its start and its end, and the end of the day at most.
pub proof fn blocks_show_their_times(start: i32, end: i32)
    requires
        0 <= start,
        0 <= end,
        start <= 1440,
    ensures
        end <= 1440 ==> crate::timesheet::calendar::times_text(start, end) == clock_text(
            start as nat,
        ) + "–"@ + clock_text(end as nat),
        end > 1440 ==> crate::timesheet::calendar::times_text(start, end)
            == crate::timesheet::calendar::times_text(start, 1440),
{
}

/// A minute is free exactly where no block takes it: a block takes its first minute and leaves
/// its end free.
pub proof fn free_minutes_are_taken_by_none(occupied: Seq<(i32, i32)>, minute: int, i: int)
    requires
        0 <= i < occupied.len(),
    ensures
        occupied[i].0 <= minute < occupied[i].1 ==> !free_at(occupied, minute),
        occupied.len() == 1 && minute == occupied[0].1 ==> free_at(occupied, minute),
        occupied.len() == 1 && minute < occupied[0].0 ==> free_at(occupied, minute),
{
}

/// The calendar opens at a block of a visible day, and none of them starts before it.
pub proof fn calendars_open_at_the_first_block(
    days: Seq<Vec<(i32, i32)>>,
    visible: Seq<usize>,
    earliest: Option<i32>,
    k: int,
    b: int,
)
    requires
        is_earliest(days, visible, visible.len() as int, earliest),
        0 <= k < visible.len(),
        visible[k] < days.len(),
        0 <= b < days[visible[k] as int].len(),
    ensures
        earliest is Some,
        earliest->0 <= days[visible[k] as int]@[b].0,
        exists|q: int, c: int|
            0 <= q < visible.len() && visible[q] < days.len() && 0 <= c
                < days[visible[q] as int].len() && (#[trigger] days[visible[q] as int]@[c]).0
                == earliest->0,
{
    let minute = days[visible[k] as int]@[b].0;
    assert(block_starts_at(days, visible, visible.len() as int, minute));
}

/// The total of the visible days counts each of them.
pub proof fn visible_days_are_totalled(totals: Seq<i32>, visible: Seq<usize>, k: int)
    requires
        0 <= k < visible.len(),
    ensures
        shown(totals, visible).len() == visible.len(),
        shown(totals, visible)[k] == totals[visible[k] as int],
{
}

/// Only a block that can be moved says nothing of why it cannot, and is not marked as locked.
pub proof fn locked_blocks_say_why(state: EntryState)
    ensures
        crate::timesheet::calendar::lock_reason(state).len() == 0 <==> state == EntryState::Open,
        state != EntryState::Open ==> crate::timesheet::calendar::event_class(
            false,
            false,
            false,
            state,
        ) == "ts-cal-event locked"@,
        state == EntryState::Open ==> crate::timesheet::calendar::event_class(
            false,
            false,
            false,
            state,
        ) == "ts-cal-event"@,
{
    reveal_strlit("Submitted for approval — can't be moved");
    reveal_strlit("Approved — can't be moved");
    reveal_strlit("Invoiced — can't be moved");
    reveal_strlit("");
    reveal_strlit("ts-cal-event locked");
    reveal_strlit("ts-cal-event");
    reveal_strlit(" locked");
    assert("ts-cal-event"@ + " locked"@ =~= "ts-cal-event locked"@);
}

// ---- Names ----

/// A thing is called by the name that stands last under its identity; what is not among the
/// things has no name.
pub proof fn later_names_count(things: Seq<Named>, n: int, k: int)
    requires
        0 <= k < n <= things.len(),
        forall|j: int| k < j < n ==> (#[trigger] things[j]).id != things[k].id,
    ensures
        names_by_id(things, n).contains_key(things[k].id),
        names_by_id(things, n)[things[k].id] == things[k].name,
    decreases n,
{
    if k < n - 1 {
        later_names_count(things, n - 1, k);
    }
}

/// What is not among the things has no name.
pub proof fn only_things_have_names(things: Seq<Named>, n: int, id: u128)
    requires
        0 <= n <= things.len(),
        forall|j: int| 0 <= j < n ==> (#[trigger] things[j]).id != id,
    ensures
        !names_by_id(things, n).contains_key(id),
    decreases n,
{
    if n > 0 {
        only_things_have_names(things, n - 1, id);
    }
}

/// A project is shown with the name of its own client, where that has one, and its own currency.
pub proof fn projects_show_their_clients(
    projects: Seq<Project>,
    clients: Map<u128, String>,
    n: int,
    k: int,
)
    requires
        0 <= k < n <= projects.len(),
        forall|j: int| k < j < n ==> (#[trigger] projects[j]).id != projects[k].id,
    ensures
        clients_by_project(projects, clients, n).contains_key(projects[k].id),
        clients_by_project(projects, clients, n)[projects[k].id].1 == projects[k].currency@,
        clients.contains_key(projects[k].client_id) ==> clients_by_project(projects, clients, n)[
            projects[k].id].0 == clients[projects[k].client_id]@,
        !clients.contains_key(projects[k].client_id) ==> clients_by_project(projects, clients, n)[
            projects[k].id].0 == Seq::<char>::empty(),
    decreases n,
{
    if k < n - 1 {
        projects_show_their_clients(projects, clients, n - 1, k);
    }
}

/// Half of some minutes and the other half are all of them, but for a minute that cannot be
/// halved, and lost minutes are halved as gained ones are.
pub proof fn halves_make_the_whole(minutes: int)
    ensures
        minutes >= 0 ==> 0 <= minutes - 2 * half(minutes) <= 1,
        half(-minutes) == -half(minutes),
{
}

/// The days of a week are called by their names, from Monday on.
pub proof fn weekdays_are_called_by_their_names(i: int)
    requires
        0 <= i < 7,
    ensures
        weekday_name(i) == seq!["Mon"@, "Tue"@, "Wed"@, "Thu"@, "Fri"@, "Sat"@, "Sun"@][i],
{
}

/// A view is called by what it shows, in the switch and in a path, and a span by its days.
pub proof fn views_are_called_by_what_they_show(mode: ViewMode, span: CalSpan)
    ensures
        view_title(mode) == "Day"@ <==> mode == ViewMode::Day,
        view_title(mode) == "Week"@ <==> mode == ViewMode::Week,
        view_title(mode) == "Calendar"@ <==> mode == ViewMode::Calendar,
        mode.path() == "day"@ <==> mode == ViewMode::Day,
        mode.path() == "week"@ <==> mode == ViewMode::Week,
        mode.path() == "calendar"@ <==> mode == ViewMode::Calendar,
        span.name() == "Week view"@ <==> span == CalSpan::Week,
        span.name() == "5-day view"@ <==> span == CalSpan::WorkWeek,
        span.name() == "Day view"@ <==> span == CalSpan::Day,
{
    reveal_strlit("Day");
    reveal_strlit("Week");
    reveal_strlit("Calendar");
    reveal_strlit("day");
    reveal_strlit("week");
    reveal_strlit("calendar");
    reveal_strlit("Week view");
    reveal_strlit("5-day view");
    reveal_strlit("Day view");
    assert("Day"@.len() == 3 && "Week"@.len() == 4 && "Calendar"@.len() == 8);
    assert("day"@.len() == 3 && "week"@.len() == 4 && "calendar"@.len() == 8);
    assert("Week view"@.len() == 9 && "5-day view"@.len() == 10 && "Day view"@.len() == 8);
}

/// Only the word of the day's view leads to it, and so for the calendar: any other word leads to
/// the week.
pub proof fn other_words_lead_to_the_week(text: Seq<char>)
    ensures
        titled_view(text) == ViewMode::Day <==> text == "Day"@,
        titled_view(text) == ViewMode::Calendar <==> text == "Calendar"@,
        ViewMode::named(text) == ViewMode::Day <==> text == "day"@,
        ViewMode::named(text) == ViewMode::Calendar <==> text == "calendar"@,
{
    reveal_strlit("Day");
    reveal_strlit("Calendar");
    reveal_strlit("day");
    reveal_strlit("calendar");
    assert("Day"@.len() == 3 && "Calendar"@.len() == 8);
    assert("day"@.len() == 3 && "calendar"@.len() == 8);
}

/// Of the days of a week only today's column is marked as today's, whatever the weekday; of the
/// others the weekend's are marked. A cell is marked as empty where no minutes are in it.
pub proof fn only_today_is_marked_as_today(base: Seq<char>, minutes: int, today: usize, i: usize)
    ensures
        col_class(base, Some(i), i) == base + " today"@,
        today != i && i >= 5 ==> col_class(base, Some(today), i) == base + " weekend"@,
        today != i && i < 5 ==> col_class(base, Some(today), i) == base,
        i >= 5 ==> col_class(base, None, i) == base + " weekend"@,
        i < 5 ==> col_class(base, None, i) == base,
        minutes != 0 ==> cell_class(base, minutes, Some(i), i) == base + " today"@,
        minutes != 0 && today != i ==> cell_class(base, minutes, Some(today), i) == base,
        minutes != 0 ==> cell_class(base, minutes, None, i) == base,
        cell_class(base, 0, Some(today), i) == base + " empty"@,
        cell_class(base, 0, None, i) == base + " empty"@,
{
}

/// What is said of a failed request tells what could not be done, and then why.
pub proof fn failures_tell_what_could_not_be_done(request: DialogRequest, message: Seq<char>)
    ensures
        request == DialogRequest::StartTimer ==> EntryDialog::complaint(request, message)
            == "Could not start timer: "@ + message,
        request == DialogRequest::Save ==> EntryDialog::complaint(request, message)
            == "Could not save: "@ + message,
        request == DialogRequest::Delete ==> EntryDialog::complaint(request, message)
            == "Could not delete: "@ + message,
{
}

/// A locked block tells what became of its entry.
pub proof fn locked_blocks_tell_their_state(state: EntryState)
    ensures
        state == EntryState::Submitted ==> crate::timesheet::calendar::lock_reason(state)
            == "Submitted for approval — can't be moved"@,
        state == EntryState::Approved ==> crate::timesheet::calendar::lock_reason(state)
            == "Approved — can't be moved"@,
        state == EntryState::Invoiced ==> crate::timesheet::calendar::lock_reason(state)
            == "Invoiced — can't be moved"@,
{
}

/// A day shows one block for each of its entries, and no others.
pub proof fn every_entry_has_its_block(placed: PlacedDay, day: Seq<TimeEntry>, labels: CalLabels)
    requires
        placed.shows(day, labels),
    ensures
        placed.events.len() == day.len(),
        placed.occupied.len() == day.len(),
{
}

/// A calendar has room for the hours, for each of its days and for the total: each day more
/// makes it wider by as much.
pub proof fn calendars_have_room_for_their_days(n: nat, width: nat)
    requires
        width == 56 + 100 + 106 * n,
    ensures
        grid_columns(n) == "grid-template-columns: 56px repeat("@ + decimal(n)
            + ", 1fr) 100px; min-width: "@ + decimal(width) + "px;"@,
        n > 0 ==> grid_columns((n - 1) as nat) == "grid-template-columns: 56px repeat("@ + decimal(
            (n - 1) as nat,
        ) + ", 1fr) 100px; min-width: "@ + decimal((width - 106) as nat) + "px;"@,
{
}

/// Blocks that stand side by side share the width of the day equally, but for its margins.
pub proof fn blocks_share_the_width(top: i32, height: i32, lane: i32, lanes: i32)
    requires
        0 <= top,
        0 <= height,
        0 <= lane < lanes,
    ensures
        block_style(top, height, lane, lanes) == "top: "@ + decimal(top as nat) + "px; height: "@
            + decimal(height as nat) + "px; left: calc(4px + "@ + decimal(lane as nat)
            + " * (100% - 8px) / "@ + decimal(lanes as nat) + "); width: calc((100% - 8px) / "@
            + decimal(lanes as nat) + " - 2px); right: auto;"@,
{
}

} // verus!
