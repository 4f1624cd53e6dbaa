//! The week grid: one row for each project and task, one cell for each day.

use crate::date::Date;
use crate::ids::id_text;
use crate::ids::id_to_text;
use crate::lists::filter_all;
use crate::lists::filter_step;
use crate::text::trim;
use crate::text::trimmed;
use crate::timesheet::entry::TimeEntry;
use crate::timesheet::view::cell_class;
use crate::timesheet::view::format_hm;
use crate::timesheet::view::hm_text;
use crate::timesheet::view::offset_in_week;
use crate::timesheet::view::today_offset;
use crate::timesheet::view::value_cell_class;
use crate::timesheet::week::minutes_of;
use crate::timesheet::week::on_day;
use crate::timesheet::week::summable;
use crate::timesheet::week::total_minutes;
use std::collections::HashMap;
use vstd::prelude::*;

verus! {

broadcast use vstd::std_specs::hash::group_hash_axioms;

/// What a row of the grid is for.
#[derive(Clone, Copy, PartialEq, Eq, Structural, Debug)]
pub struct RowKey {
    pub project_id: u128,
    pub task_id: u128,
}

/// A row: for each day, the minutes and the entries behind them.
#[derive(Debug)]
pub struct GridRow {
    pub key: RowKey,
    pub mins: Vec<i32>,
    pub ids: Vec<Vec<u128>>,
}

/// The row that an entry stands in.
pub open spec fn key_of(entry: TimeEntry) -> RowKey {
    RowKey { project_id: entry.project_id, task_id: entry.task_id }
}

/// `keys` with `key` at the end where it is new.
pub open spec fn with_key(keys: Seq<RowKey>, key: RowKey) -> Seq<RowKey> {
    if keys.contains(key) {
        keys
    } else {
        keys.push(key)
    }
}

/// The rows that the first `n` entries need in the week from `week_start` on, as they
/// are first seen.
pub open spec fn seen_keys(entries: Seq<TimeEntry>, week_start: Date, n: int) -> Seq<RowKey>
    decreases n,
{
    if n <= 0 {
        Seq::empty()
    } else if offset_in_week(entries[n - 1].spent_date, week_start) is Some {
        with_key(seen_keys(entries, week_start, n - 1), key_of(entries[n - 1]))
    } else {
        seen_keys(entries, week_start, n - 1)
    }
}

/// `keys` and after them the first `n` pending rows that are not among them.
pub open spec fn pending_keys(keys: Seq<RowKey>, pending: Seq<RowKey>, n: int) -> Seq<RowKey>
    decreases n,
{
    if n <= 0 {
        keys
    } else {
        with_key(pending_keys(keys, pending, n - 1), pending[n - 1])
    }
}

/// The keys of the grid's rows: those of entries, then those that were added.
pub open spec fn grid_keys(
    entries: Seq<TimeEntry>,
    week_start: Date,
    pending: Seq<RowKey>,
) -> Seq<RowKey> {
    pending_keys(
        seen_keys(entries, week_start, entries.len() as int),
        pending,
        pending.len() as int,
    )
}

/// Whether an entry stands in a cell.
pub open spec fn in_cell(week_start: Date, key: RowKey, day: usize) -> spec_fn(TimeEntry) -> bool {
    |entry: TimeEntry|
        key_of(entry) == key && offset_in_week(entry.spent_date, week_start) == Some(day)
}

/// The entries of a cell, in their order.
pub open spec fn cell_entries(
    entries: Seq<TimeEntry>,
    week_start: Date,
    key: RowKey,
    day: usize,
) -> Seq<TimeEntry> {
    entries.filter(in_cell(week_start, key, day))
}

/// Whether every cell's minutes can be added up.
pub open spec fn cells_fit(entries: Seq<TimeEntry>, week_start: Date) -> bool {
    forall|key: RowKey, day: usize| summable(#[trigger] cell_entries(entries, week_start, key, day))
}

/// The identities of entries.
pub open spec fn ids_of(entries: Seq<TimeEntry>) -> Seq<u128> {
    entries.map_values(|entry: TimeEntry| entry.id)
}

impl GridRow {
    /// Whether the row shows the entries of its key.
    pub open spec fn shows(self, entries: Seq<TimeEntry>, week_start: Date) -> bool {
        &&& self.mins.len() == 7
        &&& self.ids.len() == 7
        &&& forall|day: int|
            0 <= day < 7 ==> #[trigger] self.mins@[day] == minutes_of(
                cell_entries(entries, week_start, self.key, day as usize),
            )
        &&& forall|day: int|
            0 <= day < 7 ==> (#[trigger] self.ids@[day])@ == ids_of(
                cell_entries(entries, week_start, self.key, day as usize),
            )
    }
}

fn contains_key(keys: &Vec<RowKey>, key: RowKey) -> (found: bool)
    ensures
        found == keys@.contains(key),
{
    let mut i: usize = 0;
    while i < keys.len()
        invariant
            i <= keys.len(),
            forall|k: int| 0 <= k < i ==> keys@[k] != key,
        decreases keys.len() - i,
    {
        if keys[i] == key {
            return true;
        }
        i += 1;
    }
    false
}

fn collect_keys(entries: &Vec<TimeEntry>, week_start: Date, pending: &Vec<RowKey>) -> (keys: Vec<
    RowKey,
>)
    ensures
        keys@ == grid_keys(entries@, week_start, pending@),
{
    let mut keys: Vec<RowKey> = Vec::new();
    let mut i: usize = 0;
    while i < entries.len()
        invariant
            i <= entries.len(),
            keys@ == seen_keys(entries@, week_start, i as int),
        decreases entries.len() - i,
    {
        if today_offset(entries[i].spent_date, week_start).is_some() {
            let key = RowKey {
                project_id: entries[i].project_id,
                task_id: entries[i].task_id,
            };
            if !contains_key(&keys, key) {
                keys.push(key);
            }
        }
        i += 1;
    }
    let ghost seen = keys@;
    let mut j: usize = 0;
    while j < pending.len()
        invariant
            j <= pending.len(),
            keys@ == pending_keys(seen, pending@, j as int),
        decreases pending.len() - j,
    {
        if !contains_key(&keys, pending[j]) {
            keys.push(pending[j]);
        }
        j += 1;
    }
    keys
}

fn collect_cell(entries: &Vec<TimeEntry>, week_start: Date, key: RowKey, day: usize) -> (found: Vec<
    TimeEntry,
>)
    ensures
        found@ == cell_entries(entries@, week_start, key, day),
{
    let mut found: Vec<TimeEntry> = Vec::new();
    let mut i: usize = 0;
    proof {
        filter_all(entries@, in_cell(week_start, key, day));
    }
    while i < entries.len()
        invariant
            i <= entries.len(),
            found@ == entries@.take(i as int).filter(in_cell(week_start, key, day)),
        decreases entries.len() - i,
    {
        proof {
            filter_step(entries@, i as int, in_cell(week_start, key, day));
        }
        if entries[i].project_id == key.project_id && entries[i].task_id == key.task_id {
            if let Some(offset) = today_offset(entries[i].spent_date, week_start) {
                if offset == day {
                    found.push(entries[i].clone());
                }
            }
        }
        i += 1;
    }
    found
}

/// The identities of entries, in their order.
pub fn collect_ids(entries: &Vec<TimeEntry>) -> (ids: Vec<u128>)
    ensures
        ids@ == ids_of(entries@),
{
    let mut ids: Vec<u128> = Vec::new();
    let mut i: usize = 0;
    while i < entries.len()
        invariant
            i <= entries.len(),
            ids@ == ids_of(entries@).take(i as int),
        decreases entries.len() - i,
    {
        proof {
            assert(ids_of(entries@).take(i + 1) =~= ids_of(entries@).take(i as int).push(
                entries@[i as int].id,
            ));
        }
        ids.push(entries[i].id);
        i += 1;
    }
    proof {
        assert(ids_of(entries@).take(entries.len() as int) =~= ids_of(entries@));
    }
    ids
}

fn collect_row(entries: &Vec<TimeEntry>, week_start: Date, key: RowKey) -> (row: GridRow)
    requires
        cells_fit(entries@, week_start),
    ensures
        row.key == key,
        row.shows(entries@, week_start),
{
    let mut mins: Vec<i32> = Vec::new();
    let mut ids: Vec<Vec<u128>> = Vec::new();
    let mut day: usize = 0;
    while day < 7
        invariant
            day <= 7,
            cells_fit(entries@, week_start),
            mins.len() == day,
            ids.len() == day,
            forall|d: int|
                0 <= d < day ==> #[trigger] mins@[d] == minutes_of(
                    cell_entries(entries@, week_start, key, d as usize),
                ),
            forall|d: int|
                0 <= d < day ==> (#[trigger] ids@[d])@ == ids_of(
                    cell_entries(entries@, week_start, key, d as usize),
                ),
        decreases 7 - day,
    {
        let cell = collect_cell(entries, week_start, key, day);
        mins.push(total_minutes(&cell));
        ids.push(collect_ids(&cell));
        day += 1;
    }
    GridRow { key, mins, ids }
}

/// The rows of the week grid: one for each project and task that has entries in the week
/// from `week_start` on, as they are first seen, then the pending ones that have none.
pub fn week_rows(entries: &Vec<TimeEntry>, week_start: Date, pending: &Vec<RowKey>) -> (rows: Vec<
    GridRow,
>)
    requires
        cells_fit(entries@, week_start),
    ensures
        rows@.map_values(|row: GridRow| row.key) == grid_keys(entries@, week_start, pending@),
        forall|r: int| 0 <= r < rows.len() ==> (#[trigger] rows@[r]).shows(entries@, week_start),
{
    let keys = collect_keys(entries, week_start, pending);
    let mut rows: Vec<GridRow> = Vec::new();
    let mut i: usize = 0;
    while i < keys.len()
        invariant
            i <= keys.len(),
            cells_fit(entries@, week_start),
            rows.len() == i,
            forall|r: int|
                0 <= r < i ==> (#[trigger] rows@[r]).shows(entries@, week_start) && rows@[r].key
                    == keys@[r],
        decreases keys.len() - i,
    {
        rows.push(collect_row(entries, week_start, keys[i]));
        i += 1;
    }
    proof {
        assert(rows@.map_values(|row: GridRow| row.key) =~= keys@);
    }
    rows
}

/// A cell of the grid. One with at most one entry behind it takes a duration; one with
/// several shows their total.
#[derive(Debug)]
pub enum Cell {
    Input { existing: Option<u128>, value: String, class: String },
    Total { text: String, class: String },
}

/// The cell of a row for one day.
pub fn row_cell(row: &GridRow, day: usize, today_off: Option<usize>) -> (cell: Cell)
    requires
        day < row.mins.len(),
        day < row.ids.len(),
    ensures
        ({
            let mins = row.mins@[day as int];
            let ids = row.ids@[day as int]@;
            match cell {
                Cell::Input { existing, value, class } => {
                    &&& ids.len() <= 1
                    &&& existing == (if ids.len() == 1 {
                        Some(ids[0])
                    } else {
                        None
                    })
                    &&& value@ == (if mins > 0 {
                        hm_text(mins as int)
                    } else {
                        Seq::empty()
                    })
                    &&& class@ == cell_class("ts-cell-input"@, mins as int, today_off, day)
                },
                Cell::Total { text, class } => {
                    &&& ids.len() > 1
                    &&& text@ == hm_text(mins as int)
                    &&& class@ == cell_class("ts-cell-box"@, mins as int, today_off, day)
                },
            }
        }),
{
    let mins: i32 = row.mins[day];
    let ids = &row.ids[day];
    if ids.len() <= 1 {
        let existing = if ids.len() == 1 {
            Some(ids[0])
        } else {
            None
        };
        let value = if mins > 0 {
            format_hm(mins)
        } else {
            String::new()
        };
        Cell::Input {
            existing,
            value,
            class: value_cell_class("ts-cell-input", mins, today_off, day),
        }
    } else {
        Cell::Total {
            text: format_hm(mins),
            class: value_cell_class("ts-cell-box", mins, today_off, day),
        }
    }
}

/// The minutes that a cell's text stands for: none where it is blank, else what it
/// parses to, `parsed`, if that is no more than a day; `None` where the text is not
/// taken.
pub fn cell_minutes(value: &str, parsed: Option<u32>) -> (minutes: Option<i32>)
    ensures
        minutes == (if trimmed(value@).len() == 0 {
            Some(0i32)
        } else {
            match parsed {
                Some(m) => if m <= 1440 {
                    Some(m as i32)
                } else {
                    None
                },
                None => None,
            }
        }),
{
    if trim(value).as_str().is_empty() {
        Some(0)
    } else {
        match parsed {
            Some(m) => if m <= 1440 {
                Some(m as i32)
            } else {
                None
            },
            None => None,
        }
    }
}

/// The total below a column: none is a bare zero.
pub fn column_total(total: i32) -> (text: String)
    ensures
        text@ == (if total > 0 {
            hm_text(total as int)
        } else {
            "0"@
        }),
{
    if total > 0 {
        format_hm(total)
    } else {
        "0".to_owned()
    }
}

/// Adds a pending row, unless it is there.
pub fn add_row(pending: &mut Vec<RowKey>, key: RowKey)
    ensures
        final(pending)@ == with_key(old(pending)@, key),
{
    if !contains_key(pending, key) {
        pending.push(key);
    }
}

/// Removes a row: it is no longer pending, and the entries that it shows, whose
/// identities come back, are to be deleted.
pub fn remove_row(pending: &mut Vec<RowKey>, entries: &Vec<TimeEntry>, key: RowKey) -> (ids: Vec<
    u128,
>)
    ensures
        final(pending)@ == old(pending)@.filter(|k: RowKey| k != key),
        ids@ == ids_of(entries@.filter(|e: TimeEntry| key_of(e) == key)),
{
    let ghost others = |k: RowKey| k != key;
    let ghost its = |e: TimeEntry| key_of(e) == key;
    let mut kept: Vec<RowKey> = Vec::new();
    let mut i: usize = 0;
    proof {
        filter_all(pending@, others);
        filter_all(entries@, its);
    }
    while i < pending.len()
        invariant
            i <= pending.len(),
            others == (|k: RowKey| k != key),
            kept@ == pending@.take(i as int).filter(others),
        decreases pending.len() - i,
    {
        proof {
            filter_step(pending@, i as int, others);
        }
        if pending[i] != key {
            kept.push(pending[i]);
        }
        i += 1;
    }
    *pending = kept;
    let mut ids: Vec<u128> = Vec::new();
    let mut j: usize = 0;
    while j < entries.len()
        invariant
            j <= entries.len(),
            its == (|e: TimeEntry| key_of(e) == key),
            ids@ == ids_of(entries@.take(j as int).filter(its)),
        decreases entries.len() - j,
    {
        proof {
            filter_step(entries@, j as int, its);
        }
        if entries[j].project_id == key.project_id && entries[j].task_id == key.task_id {
            ids.push(entries[j].id);
        }
        j += 1;
    }
    ids
}

/// What a row or an entry is called by.
#[derive(Debug)]
pub struct Names {
    pub project: String,
    pub task: String,
}

/// The names of a project and a task: a project without one is called by its identity,
/// a task without one by a dash.
pub fn names_of(
    project_names: &HashMap<u128, String>,
    task_names: &HashMap<u128, String>,
    key: RowKey,
) -> (names: Names)
    ensures
        names.project@ == (if project_names@.contains_key(key.project_id) {
            project_names@[key.project_id]@
        } else {
            id_text(key.project_id)
        }),
        names.task@ == (if task_names@.contains_key(key.task_id) {
            task_names@[key.task_id]@
        } else {
            "\u{2014}"@
        }),
{
    let project = match project_names.get(&key.project_id) {
        Some(name) => name.clone(),
        None => id_to_text(key.project_id),
    };
    let task = match task_names.get(&key.task_id) {
        Some(name) => name.clone(),
        None => "\u{2014}".to_owned(),
    };
    Names { project, task }
}

/// The notes shown with an entry: none where they are blank.
pub fn shown_notes(entry: &TimeEntry) -> (notes: Option<String>)
    ensures
        notes == (if entry.notes is Some && trimmed(entry.notes->0@).len() > 0 {
            entry.notes
        } else {
            None
        }),
{
    match &entry.notes {
        Some(notes) => if trim(notes.as_str()).as_str().is_empty() {
            None
        } else {
            Some(notes.clone())
        },
        None => None,
    }
}

/// The day of the week that a day view shows.
pub fn shown_day(selected: i64) -> (day: usize)
    ensures
        day == (if selected < 0 {
            0
        } else if selected > 6 {
            6
        } else {
            selected as int
        }),
{
    if selected < 0 {
        0
    } else if selected > 6 {
        6
    } else {
        selected as usize
    }
}

/// No two rows are for the same project and task.
pub proof fn rows_are_distinct(entries: Seq<TimeEntry>, week_start: Date, pending: Seq<RowKey>)
    ensures
        grid_keys(entries, week_start, pending).no_duplicates(),
{
    seen_are_distinct(entries, week_start, entries.len() as int);
    pending_are_distinct(
        seen_keys(entries, week_start, entries.len() as int),
        pending,
        pending.len() as int,
    );
}

proof fn seen_are_distinct(entries: Seq<TimeEntry>, week_start: Date, n: int)
    ensures
        seen_keys(entries, week_start, n).no_duplicates(),
    decreases n,
{
    if n > 0 {
        seen_are_distinct(entries, week_start, n - 1);
    }
}

proof fn pending_are_distinct(keys: Seq<RowKey>, pending: Seq<RowKey>, n: int)
    requires
        keys.no_duplicates(),
    ensures
        pending_keys(keys, pending, n).no_duplicates(),
    decreases n,
{
    if n > 0 {
        pending_are_distinct(keys, pending, n - 1);
    }
}

/// Every entry of the week has a row.
pub proof fn every_entry_has_a_row(
    entries: Seq<TimeEntry>,
    week_start: Date,
    pending: Seq<RowKey>,
    i: int,
)
    requires
        0 <= i < entries.len(),
        offset_in_week(entries[i].spent_date, week_start) is Some,
    ensures
        grid_keys(entries, week_start, pending).contains(key_of(entries[i])),
{
    let n = entries.len() as int;
    key_is_seen(entries, week_start, n, i);
    pending_keep(seen_keys(entries, week_start, n), pending, pending.len() as int, key_of(entries[i]));
}

proof fn key_is_seen(entries: Seq<TimeEntry>, week_start: Date, n: int, i: int)
    requires
        0 <= i < n <= entries.len(),
        offset_in_week(entries[i].spent_date, week_start) is Some,
    ensures
        seen_keys(entries, week_start, n).contains(key_of(entries[i])),
    decreases n,
{
    let before = seen_keys(entries, week_start, n - 1);
    let key = key_of(entries[n - 1]);
    if i == n - 1 {
        if !before.contains(key) {
            assert(before.push(key).last() == key);
        }
    } else {
        key_is_seen(entries, week_start, n - 1, i);
        let k = choose|k: int| 0 <= k < before.len() && before[k] == key_of(entries[i]);
        if !before.contains(key) {
            assert(before.push(key)[k] == key_of(entries[i]));
        }
    }
}

proof fn pending_keep(keys: Seq<RowKey>, pending: Seq<RowKey>, n: int, key: RowKey)
    requires
        keys.contains(key),
    ensures
        pending_keys(keys, pending, n).contains(key),
    decreases n,
{
    if n > 0 {
        pending_keep(keys, pending, n - 1, key);
        let before = pending_keys(keys, pending, n - 1);
        let k = choose|k: int| 0 <= k < before.len() && before[k] == key;
        if !before.contains(pending[n - 1]) {
            assert(before.push(pending[n - 1])[k] == key);
        }
    }
}

/// The sum of a column's cells over the rows of `keys`.
pub open spec fn column_sum(
    entries: Seq<TimeEntry>,
    week_start: Date,
    keys: Seq<RowKey>,
    day: usize,
) -> int
    decreases keys.len(),
{
    if keys.len() == 0 {
        0
    } else {
        column_sum(entries, week_start, keys.drop_last(), day) + minutes_of(
            cell_entries(entries, week_start, keys.last(), day),
        )
    }
}

/// The cells of a column add up to the minutes of its day.
pub proof fn columns_add_up(
    entries: Seq<TimeEntry>,
    week_start: Date,
    pending: Seq<RowKey>,
    day: usize,
)
    requires
        day < 7,
    ensures
        column_sum(entries, week_start, grid_keys(entries, week_start, pending), day) == minutes_of(
            entries.filter(on_day(week_start, day)),
        ),
{
    let keys = grid_keys(entries, week_start, pending);
    rows_are_distinct(entries, week_start, pending);
    assert forall|i: int|
        0 <= i < entries.len() && offset_in_week(
            (#[trigger] entries[i]).spent_date,
            week_start,
        ) is Some implies keys.contains(key_of(entries[i])) by {
        every_entry_has_a_row(entries, week_start, pending, i);
    }
    columns_add_up_to(entries, week_start, keys, day, entries.len() as int);
    assert(entries.take(entries.len() as int) =~= entries);
}

proof fn columns_add_up_to(
    entries: Seq<TimeEntry>,
    week_start: Date,
    keys: Seq<RowKey>,
    day: usize,
    n: int,
)
    requires
        0 <= n <= entries.len(),
        keys.no_duplicates(),
        forall|i: int|
            0 <= i < entries.len() && offset_in_week(
                (#[trigger] entries[i]).spent_date,
                week_start,
            ) is Some ==> keys.contains(key_of(entries[i])),
    ensures
        column_sum(entries.take(n), week_start, keys, day) == minutes_of(
            entries.take(n).filter(on_day(week_start, day)),
        ),
    decreases n,
{
    if n == 0 {
        filter_all(entries, on_day(week_start, day));
        empty_column(entries, week_start, keys, day);
    } else {
        columns_add_up_to(entries, week_start, keys, day, n - 1);
        filter_step(entries, n - 1, on_day(week_start, day));
        one_more_entry(entries, week_start, keys, day, n - 1);
        let before = entries.take(n - 1).filter(on_day(week_start, day));
        assert(before.push(entries[n - 1]).drop_last() =~= before);
    }
}

proof fn empty_column(entries: Seq<TimeEntry>, week_start: Date, keys: Seq<RowKey>, day: usize)
    ensures
        column_sum(entries.take(0), week_start, keys, day) == 0,
    decreases keys.len(),
{
    if keys.len() > 0 {
        empty_column(entries, week_start, keys.drop_last(), day);
        filter_all(entries, in_cell(week_start, keys.last(), day));
    }
}

proof fn one_more_entry(
    entries: Seq<TimeEntry>,
    week_start: Date,
    keys: Seq<RowKey>,
    day: usize,
    n: int,
)
    requires
        0 <= n < entries.len(),
        keys.no_duplicates(),
    ensures
        column_sum(entries.take(n + 1), week_start, keys, day) == column_sum(
            entries.take(n),
            week_start,
            keys,
            day,
        ) + if offset_in_week(entries[n].spent_date, week_start) == Some(day) && keys.contains(
            key_of(entries[n]),
        ) {
            entries[n].minutes as int
        } else {
            0
        },
    decreases keys.len(),
{
    if keys.len() > 0 {
        let rest = keys.drop_last();
        let last = keys.last();
        one_more_entry(entries, week_start, rest, day, n);
        filter_step(entries, n, in_cell(week_start, last, day));
        let before = entries.take(n).filter(in_cell(week_start, last, day));
        assert(before.push(entries[n]).drop_last() =~= before);
        let key = key_of(entries[n]);
        if key == last {
            assert(keys[keys.len() - 1] == key);
            assert(!rest.contains(key)) by {
                if rest.contains(key) {
                    let k = choose|k: int| 0 <= k < rest.len() && rest[k] == key;
                    assert(keys[k] == keys[keys.len() - 1]);
                }
            }
        } else if keys.contains(key) {
            let k = choose|k: int| 0 <= k < keys.len() && keys[k] == key;
            assert(rest[k] == key);
        } else if rest.contains(key) {
            let k = choose|k: int| 0 <= k < rest.len() && rest[k] == key;
            assert(keys[k] == key);
        }
    }
}

} // verus!
