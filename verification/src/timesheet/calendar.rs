//! The calendar: where each entry of a day stands, and what is written on it.

use crate::clock::clock_text;
use crate::clock::format_hhmm;
use crate::date::month_day;
use crate::date::month_day_of;
use crate::date::valid_day;
use crate::date::Date;
use crate::lists::filter_all;
use crate::lists::filter_step;
use crate::order::ranks;
use crate::order::sort_order;
use crate::order::sorted_order;
use crate::order::sorted_order_exists;
use crate::order::Pair;
use crate::order::SortKey;
use crate::text::decimal;
use crate::text::decimal_text;
use crate::text::signed_decimal;
use crate::text::signed_text;
use crate::timesheet::entry::EntryState;
use crate::timesheet::entry::TimeEntry;
use crate::timesheet::lanes::drawable;
use crate::timesheet::lanes::is_layout;
use crate::timesheet::lanes::timed_lanes;
use crate::timesheet::view::day_label;
use crate::timesheet::view::format_hm;
use crate::timesheet::view::hm_text;
use crate::timesheet::view::weekday_name;
use crate::timesheet::week::minutes_of;
use crate::timesheet::week::sum_of;
use crate::timesheet::week::summable;
use std::collections::HashMap;
use vstd::prelude::*;

verus! {

broadcast use vstd::std_specs::hash::group_hash_axioms;

/// The calendar's pixels for an hour.
pub const CAL_HOUR: i32 = 48;

/// Whether an entry has a duration only.
pub open spec fn is_untimed() -> spec_fn(TimeEntry) -> bool {
    |entry: TimeEntry| entry.start_minute is None
}

/// What untimed entries are stacked by: their explicit order, then the newest first.
pub open spec fn stack_keys(entries: Seq<TimeEntry>) -> Seq<(int, int)> {
    entries.map_values(|entry: TimeEntry| (entry.sort_order as int, -(entry.created_at as int)))
}

/// A day's untimed entries as they are stacked.
pub open spec fn stacked(day: Seq<TimeEntry>) -> Seq<TimeEntry> {
    let untimed = day.filter(is_untimed());
    let order = sorted_order::<Pair>(stack_keys(untimed));
    Seq::new(untimed.len(), |p: int| untimed[order[p]])
}

/// A day's entries without a start time, in stacking order: by their explicit order, then
/// the newest first, then as they stood.
pub fn untimed_ordered(day: &Vec<TimeEntry>) -> (ordered: Vec<TimeEntry>)
    ensures
        ordered@ == stacked(day@),
{
    let mut untimed: Vec<TimeEntry> = Vec::new();
    let mut keys: Vec<Pair> = Vec::new();
    let mut i: usize = 0;
    proof {
        filter_all(day@, is_untimed());
    }
    while i < day.len()
        invariant
            i <= day.len(),
            untimed@ == day@.take(i as int).filter(is_untimed()),
            ranks(keys@) == stack_keys(untimed@),
        decreases day.len() - i,
    {
        proof {
            filter_step(day@, i as int, is_untimed());
        }
        if day[i].start_minute.is_none() {
            let ghost before = untimed@;
            let ghost earlier = keys@;
            untimed.push(day[i].clone());
            keys.push(
                Pair { first: day[i].sort_order as i128, second: -(day[i].created_at as i128) },
            );
            proof {
                assert(stack_keys(untimed@) =~= stack_keys(before).push(keys@.last().rank()));
                assert(ranks(keys@) =~= ranks(earlier).push(keys@.last().rank()));
            }
        }
        i += 1;
    }
    let order = sort_order(&keys);
    let ghost positions = order@.map_values(|i: usize| i as int);
    let mut ordered: Vec<TimeEntry> = Vec::new();
    let mut p: usize = 0;
    while p < order.len()
        invariant
            p <= order.len(),
            order.len() == untimed.len(),
            positions == order@.map_values(|i: usize| i as int),
            forall|i: int|
                0 <= i < positions.len() ==> 0 <= #[trigger] positions[i] < untimed.len(),
            ordered.len() == p,
            forall|i: int| 0 <= i < p ==> ordered@[i] == untimed@[#[trigger] positions[i]],
        decreases order.len() - p,
    {
        proof {
            assert(positions[p as int] == order@[p as int]);
        }
        ordered.push(untimed[order[p]].clone());
        p += 1;
    }
    proof {
        assert(ordered@ =~= stacked(day@));
    }
    ordered
}

/// The stack of a day holds the day's untimed entries, all of them and nothing else.
pub proof fn stacking_keeps_every_entry(day: Seq<TimeEntry>, entry: TimeEntry)
    ensures
        stacked(day).len() == day.filter(is_untimed()).len(),
        stacked(day).contains(entry) <==> day.filter(is_untimed()).contains(entry),
{
    let untimed = day.filter(is_untimed());
    let keys = stack_keys(untimed);
    let order = sorted_order::<Pair>(keys);
    sorted_order_exists::<Pair>(keys);
    if stacked(day).contains(entry) {
        let p = choose|p: int| 0 <= p < stacked(day).len() && stacked(day)[p] == entry;
        assert(0 <= order[p] < keys.len());
        assert(untimed[order[p]] == entry);
    }
    if untimed.contains(entry) {
        let k = choose|k: int| 0 <= k < untimed.len() && untimed[k] == entry;
        assert(order.contains(k));
        let p = choose|p: int| 0 <= p < order.len() && order[p] == k;
        assert(stacked(day)[p] == entry);
    }
}

/// A block's times, `start–end`; the end is shown as the end of the day at most.
pub open spec fn times_text(start: i32, end: i32) -> Seq<char> {
    clock_text((start as u16) as nat) + "–"@ + clock_text(
        ((if end < 1440 {
            end
        } else {
            1440i32
        }) as u16) as nat,
    )
}

/// A block's start and end, `9:00–10:30`; the end is shown as the end of the day at most.
pub fn cal_time_label(start: i32, end: i32) -> (label: String)
    ensures
        label@ == times_text(start, end),
{
    let shown: i32 = if end < 1440 {
        end
    } else {
        1440
    };
    let mut label = format_hhmm((start as u16) as u64);
    label.append("–");
    label.append(format_hhmm((shown as u16) as u64).as_str());
    label
}

/// Minutes as pixels, rounded towards none.
pub open spec fn pixels(minutes: int) -> int {
    if minutes >= 0 {
        minutes * 48 / 60
    } else {
        -((-minutes) * 48 / 60)
    }
}

/// Whether minutes can be turned into pixels.
pub open spec fn has_pixels(minutes: int) -> bool {
    i32::MIN <= minutes * 48 <= i32::MAX
}

/// Minutes as pixels of the calendar.
pub fn to_pixels(minutes: i32) -> (px: i32)
    requires
        has_pixels(minutes as int),
    ensures
        px == pixels(minutes as int),
{
    minutes * CAL_HOUR / 60
}

/// The height of a block of some minutes: at least 20 pixels.
pub open spec fn block_height(minutes: int) -> int {
    if pixels(minutes) > 20 {
        pixels(minutes)
    } else {
        20
    }
}

/// The height of a block of some minutes, in pixels: at least 20.
pub fn to_block_height(minutes: i32) -> (px: i32)
    requires
        has_pixels(minutes as int),
    ensures
        px == block_height(minutes as int),
{
    let px: i32 = to_pixels(minutes);
    if px > 20 {
        px
    } else {
        20
    }
}

/// The names that the calendar shows.
pub struct CalLabels {
    pub projects: HashMap<u128, String>,
    pub tasks: HashMap<u128, String>,
    /// For each project, its client's name and its currency.
    pub clients: HashMap<u128, (String, String)>,
}

/// A block of the calendar: where it stands and what is written on it.
#[derive(Debug)]
pub struct CalEvent {
    pub top: i32,
    pub height: i32,
    /// Whether the entry has a start time; one without is stacked from the day's top.
    pub timed: bool,
    pub lane: i32,
    pub lanes: i32,
    pub project: String,
    pub task: String,
    pub duration: String,
    /// Start and end; empty for an entry without a start time.
    pub time_label: String,
    pub client: String,
    pub entry: TimeEntry,
}

/// The project's name on a block.
pub open spec fn project_label(labels: CalLabels, entry: TimeEntry) -> Seq<char> {
    if labels.projects@.contains_key(entry.project_id) {
        labels.projects@[entry.project_id]@
    } else {
        "Untitled"@
    }
}

/// The task's name on a block.
pub open spec fn task_label(labels: CalLabels, entry: TimeEntry) -> Seq<char> {
    if labels.tasks@.contains_key(entry.task_id) {
        labels.tasks@[entry.task_id]@
    } else {
        Seq::empty()
    }
}

/// The client's line on a block.
pub open spec fn client_label(labels: CalLabels, entry: TimeEntry) -> Seq<char> {
    if labels.clients@.contains_key(entry.project_id) {
        let client = labels.clients@[entry.project_id];
        client.0@ + " · "@ + client.1@
    } else {
        Seq::empty()
    }
}

/// Where the stacked entries start, each after those before it.
pub open spec fn stack_tops(ordered: Seq<TimeEntry>, n: int) -> Map<u128, int>
    decreases n,
{
    if n <= 0 {
        Map::empty()
    } else {
        stack_tops(ordered, n - 1).insert(ordered[n - 1].id, minutes_of(ordered.take(n - 1)))
    }
}

/// The minute at which an entry's block starts in its day.
pub open spec fn top_minute(day: Seq<TimeEntry>, entry: TimeEntry) -> int {
    let tops = stack_tops(stacked(day), stacked(day).len() as int);
    match entry.start_minute {
        Some(start) => start as int,
        None => if tops.contains_key(entry.id) {
            tops[entry.id]
        } else {
            0
        },
    }
}

/// Whether a day's blocks can be placed: everything about them that is counted in
/// minutes or pixels can be held.
pub open spec fn placeable(day: Seq<TimeEntry>) -> bool {
    &&& drawable(day)
    &&& summable(stacked(day))
    &&& forall|i: int|
        0 <= i < day.len() ==> {
            let entry = #[trigger] day[i];
            &&& i32::MIN <= top_minute(day, entry) + entry.minutes <= i32::MAX
            &&& has_pixels(top_minute(day, entry))
            &&& has_pixels(entry.minutes as int)
        }
}

impl CalEvent {
    /// Whether this is the block of an entry that starts at minute `top`.
    pub open spec fn places(self, entry: TimeEntry, top: int, labels: CalLabels) -> bool {
        &&& self.entry == entry
        &&& self.top == pixels(top)
        &&& self.height == block_height(entry.minutes as int)
        &&& self.timed == (entry.start_minute is Some)
        &&& self.project@ == project_label(labels, entry)
        &&& self.task@ == task_label(labels, entry)
        &&& self.duration@ == hm_text(entry.minutes as int)
        &&& self.time_label@ == (match entry.start_minute {
            Some(start) => times_text(start, (start + entry.minutes) as i32),
            None => Seq::empty(),
        })
        &&& self.client@ == client_label(labels, entry)
    }
}

/// The blocks of a day and the minutes that each takes.
pub struct PlacedDay {
    pub events: Vec<CalEvent>,
    pub occupied: Vec<(i32, i32)>,
}

impl PlacedDay {
    /// Whether this is the layout of a day: one block for each entry, in their order, at
    /// its hour or on the stack, side by side where they overlap.
    pub open spec fn shows(self, day: Seq<TimeEntry>, labels: CalLabels) -> bool {
        &&& self.events.len() == day.len()
        &&& self.occupied.len() == day.len()
        &&& forall|i: int|
            0 <= i < day.len() ==> (#[trigger] self.events@[i]).places(
                day[i],
                top_minute(day, day[i]),
                labels,
            )
        &&& forall|i: int|
            0 <= i < day.len() ==> #[trigger] self.occupied@[i] == (
                top_minute(day, day[i]) as i32,
                (top_minute(day, day[i]) + day[i].minutes) as i32,
            )
        &&& is_layout(
            day,
            self.events@.map_values(|event: CalEvent| event.lane),
            self.events@.map_values(|event: CalEvent| event.lanes),
        )
    }
}

fn find_tops(ordered: &Vec<TimeEntry>) -> (tops: HashMap<u128, i32>)
    requires
        summable(ordered@),
    ensures
        tops@.dom() == stack_tops(ordered@, ordered.len() as int).dom(),
        forall|id: u128| #[trigger]
            tops@.contains_key(id) ==> tops@[id] == stack_tops(ordered@, ordered.len() as int)[id],
{
    let mut tops: HashMap<u128, i32> = HashMap::new();
    let mut top: i32 = 0;
    let mut i: usize = 0;
    while i < ordered.len()
        invariant
            i <= ordered.len(),
            summable(ordered@),
            top == minutes_of(ordered@.take(i as int)),
            tops@.dom() == stack_tops(ordered@, i as int).dom(),
            forall|id: u128| #[trigger]
                tops@.contains_key(id) ==> tops@[id] == stack_tops(ordered@, i as int)[id],
        decreases ordered.len() - i,
    {
        proof {
            assert(ordered@.take(i + 1).drop_last() =~= ordered@.take(i as int));
            assert(i32::MIN <= minutes_of(ordered@.take(i + 1)) <= i32::MAX);
        }
        tops.insert(ordered[i].id, top);
        top = top + ordered[i].minutes;
        i += 1;
    }
    tops
}

fn name_or(names: &HashMap<u128, String>, id: u128, otherwise: &str) -> (name: String)
    ensures
        name@ == (if names@.contains_key(id) {
            names@[id]@
        } else {
            otherwise@
        }),
{
    match names.get(&id) {
        Some(name) => name.clone(),
        None => otherwise.to_owned(),
    }
}

fn place_event(entry: &TimeEntry, top_min: i32, lane: i32, lanes: i32, labels: &CalLabels) -> (event:
    CalEvent)
    requires
        has_pixels(top_min as int),
        has_pixels(entry.minutes as int),
        entry.start_minute is Some ==> i32::MIN <= entry.start_minute->0 + entry.minutes
            <= i32::MAX,
    ensures
        event.places(*entry, top_min as int, *labels),
        event.lane == lane,
        event.lanes == lanes,
{
    let client = match labels.clients.get(&entry.project_id) {
        Some(client) => {
            let mut line = client.0.clone();
            line.append(" · ");
            line.append(client.1.as_str());
            line
        },
        None => String::new(),
    };
    let time_label = match entry.start_minute {
        Some(start) => cal_time_label(start, start + entry.minutes),
        None => String::new(),
    };
    let task = match labels.tasks.get(&entry.task_id) {
        Some(name) => name.clone(),
        None => String::new(),
    };
    CalEvent {
        top: to_pixels(top_min),
        height: to_block_height(entry.minutes),
        timed: entry.start_minute.is_some(),
        lane,
        lanes,
        project: name_or(&labels.projects, entry.project_id, "Untitled"),
        task,
        duration: format_hm(entry.minutes),
        time_label,
        client,
        entry: entry.clone(),
    }
}

/// Places the blocks of a day: timed entries at their hour, side by side where they
/// overlap; the others stacked from the top of the day.
pub fn place_day(day: &Vec<TimeEntry>, labels: &CalLabels) -> (placed: PlacedDay)
    requires
        placeable(day@),
    ensures
        placed.shows(day@, *labels),
{
    let (lane_of, lanes_of) = timed_lanes(day);
    let ordered = untimed_ordered(day);
    let tops = find_tops(&ordered);
    let mut events: Vec<CalEvent> = Vec::new();
    let mut occupied: Vec<(i32, i32)> = Vec::new();
    let mut i: usize = 0;
    while i < day.len()
        invariant
            i <= day.len(),
            placeable(day@),
            ordered@ == stacked(day@),
            lane_of.len() == day.len(),
            lanes_of.len() == day.len(),
            tops@.dom() == stack_tops(ordered@, ordered.len() as int).dom(),
            forall|id: u128| #[trigger]
                tops@.contains_key(id) ==> tops@[id] == stack_tops(
                    ordered@,
                    ordered.len() as int,
                )[id],
            events.len() == i,
            occupied.len() == i,
            forall|k: int|
                0 <= k < i ==> (#[trigger] events@[k]).places(
                    day@[k],
                    top_minute(day@, day@[k]),
                    *labels,
                ) && events@[k].lane == lane_of@[k] && events@[k].lanes == lanes_of@[k],
            forall|k: int|
                0 <= k < i ==> #[trigger] occupied@[k] == (
                    top_minute(day@, day@[k]) as i32,
                    (top_minute(day@, day@[k]) + day@[k].minutes) as i32,
                ),
        decreases day.len() - i,
    {
        let entry = &day[i];
        let top_min: i32 = match entry.start_minute {
            Some(start) => start,
            None => match tops.get(&entry.id) {
                Some(top) => *top,
                None => 0,
            },
        };
        proof {
            assert(day@[i as int] == *entry);
            assert(top_min == top_minute(day@, *entry));
        }
        occupied.push((top_min, top_min + entry.minutes));
        events.push(place_event(entry, top_min, lane_of[i], lanes_of[i], labels));
        i += 1;
    }
    proof {
        assert(events@.map_values(|event: CalEvent| event.lane) =~= lane_of@);
        assert(events@.map_values(|event: CalEvent| event.lanes) =~= lanes_of@);
    }
    PlacedDay { events, occupied }
}

/// Whether a minute is free of blocks.
pub open spec fn free_at(occupied: Seq<(i32, i32)>, minute: int) -> bool {
    forall|i: int|
        0 <= i < occupied.len() ==> !((#[trigger] occupied[i]).0 <= minute < occupied[i].1)
}

/// Whether a minute is free of blocks.
pub fn is_free(occupied: &Vec<(i32, i32)>, minute: i32) -> (free: bool)
    ensures
        free == free_at(occupied@, minute as int),
{
    let mut i: usize = 0;
    while i < occupied.len()
        invariant
            i <= occupied.len(),
            forall|k: int|
                0 <= k < i ==> !((#[trigger] occupied@[k]).0 <= minute < occupied@[k].1),
        decreases occupied.len() - i,
    {
        let block = occupied[i];
        if block.0 <= minute && minute < block.1 {
            proof {
                assert(occupied@[i as int].0 <= minute);
            }
            return false;
        }
        i += 1;
    }
    true
}

/// The free slot under the pointer, where a new entry can be drawn.
pub fn free_slot(occupied: &Vec<(i32, i32)>, column: usize, minute: i32) -> (slot: Option<
    (usize, i32),
>)
    ensures
        slot == (if free_at(occupied@, minute as int) {
            Some((column, minute))
        } else {
            None
        }),
{
    if is_free(occupied, minute) {
        Some((column, minute))
    } else {
        None
    }
}

/// Where a column shows that time can be added: at its free slot, unless something is being
/// dragged.
pub fn hint_top(dragging: bool, slot: Option<(usize, i32)>, column: usize) -> (top: Option<i32>)
    requires
        slot is Some ==> has_pixels((slot->0).1 as int),
    ensures
        top is Some <==> !dragging && slot is Some && (slot->0).0 == column,
        top is Some ==> top->0 == pixels((slot->0).1 as int),
{
    match slot {
        Some(slot) => if !dragging && slot.0 == column {
            Some(to_pixels(slot.1))
        } else {
            None
        },
        None => None,
    }
}

/// A day's heading in the calendar: its weekday and its place in the month.
pub fn day_heading(week_start: Date, day: usize) -> (heading: String)
    requires
        day < 7,
        week_start.valid(),
        valid_day(week_start.days + day),
    ensures
        heading@ == weekday_name(day as int) + " "@ + decimal(
            month_day((week_start.days + day) as i32) as nat,
        ),
{
    let mut heading = day_label(day).to_owned();
    heading.append(" ");
    heading.append(decimal_text(month_day_of(week_start.days + day as i32) as u128).as_str());
    heading
}

/// Where a block stands: its height, and its lane among as many as stand side by side.
pub open spec fn block_style(top: i32, height: i32, lane: i32, lanes: i32) -> Seq<char> {
    "top: "@ + signed_decimal(top as int) + "px; height: "@ + signed_decimal(height as int)
        + "px; left: calc(4px + "@ + signed_decimal(lane as int) + " * (100% - 8px) / "@ + signed_decimal(
        lanes as int,
    ) + "); width: calc((100% - 8px) / "@ + signed_decimal(lanes as int) + " - 2px); right: auto;"@
}

/// The style of a block.
pub fn event_style(top: i32, height: i32, lane: i32, lanes: i32) -> (style: String)
    ensures
        style@ == block_style(top, height, lane, lanes),
{
    let mut style = "top: ".to_owned();
    style.append(signed_text(top as i64).as_str());
    style.append("px; height: ");
    style.append(signed_text(height as i64).as_str());
    style.append("px; left: calc(4px + ");
    style.append(signed_text(lane as i64).as_str());
    style.append(" * (100% - 8px) / ");
    style.append(signed_text(lanes as i64).as_str());
    style.append("); width: calc((100% - 8px) / ");
    style.append(signed_text(lanes as i64).as_str());
    style.append(" - 2px); right: auto;");
    style
}

/// Whether some block of the first `n` visible days starts at `minute`.
pub open spec fn block_starts_at(
    days: Seq<Vec<(i32, i32)>>,
    visible: Seq<usize>,
    n: int,
    minute: i32,
) -> bool {
    exists|k: int, b: int|
        0 <= k < n && visible[k] < days.len() && 0 <= b < days[visible[k] as int].len() && (
        #[trigger] days[visible[k] as int]@[b]).0 == minute
}

/// The earliest start among the blocks of the first `n` visible days, if there are any.
pub open spec fn is_earliest(
    days: Seq<Vec<(i32, i32)>>,
    visible: Seq<usize>,
    n: int,
    earliest: Option<i32>,
) -> bool {
    &&& earliest is Some ==> block_starts_at(days, visible, n, earliest->0)
    &&& forall|minute: i32| #[trigger]
        block_starts_at(days, visible, n, minute) ==> earliest is Some && earliest->0 <= minute
}

fn earliest_start(days: &Vec<Vec<(i32, i32)>>, visible: &Vec<usize>) -> (earliest: Option<i32>)
    ensures
        is_earliest(days@, visible@, visible.len() as int, earliest),
{
    let mut earliest: Option<i32> = None;
    let mut k: usize = 0;
    while k < visible.len()
        invariant
            k <= visible.len(),
            is_earliest(days@, visible@, k as int, earliest),
        decreases visible.len() - k,
    {
        let ghost before = earliest;
        if visible[k] < days.len() {
            let blocks = &days[visible[k]];
            let mut b: usize = 0;
            while b < blocks.len()
                invariant
                    b <= blocks.len(),
                    k < visible.len(),
                    visible@[k as int] < days.len(),
                    *blocks == days@[visible@[k as int] as int],
                    is_earliest(days@, visible@, k as int, before),
                    earliest is None ==> before is None && b == 0,
                    earliest is Some ==> earliest == before || exists|c: int|
                        0 <= c < b && (#[trigger] blocks@[c]).0 == earliest->0,
                    before is Some ==> earliest is Some && earliest->0 <= before->0,
                    forall|c: int|
                        0 <= c < b ==> earliest is Some && earliest->0 <= (#[trigger] blocks@[c]).0,
                decreases blocks.len() - b,
            {
                let start: i32 = blocks[b].0;
                let sooner = match earliest {
                    Some(e) => start < e,
                    None => true,
                };
                if sooner {
                    earliest = Some(start);
                    proof {
                        assert(blocks@[b as int].0 == earliest->0);
                    }
                }
                b += 1;
            }
        }
        proof {
            let n = k as int;
            if earliest is Some {
                let e = earliest->0;
                if earliest == before {
                    assert(block_starts_at(days@, visible@, n, e));
                    let (k2, b2) = choose|k2: int, b2: int|
                        0 <= k2 < n && visible@[k2] < days.len() && 0 <= b2
                            < days@[visible@[k2] as int].len() && (
                        #[trigger] days@[visible@[k2] as int]@[b2]).0 == e;
                    assert(days@[visible@[k2] as int]@[b2].0 == e);
                } else {
                    let c = choose|c: int|
                        0 <= c < days@[visible@[n] as int].len() && (
                        #[trigger] days@[visible@[n] as int]@[c]).0 == e;
                    assert(days@[visible@[n] as int]@[c].0 == e);
                }
                assert(block_starts_at(days@, visible@, n + 1, e));
            }
            assert forall|minute: i32| #[trigger]
                block_starts_at(days@, visible@, n + 1, minute) implies earliest is Some
                && earliest->0 <= minute by {
                let (k2, b2) = choose|k2: int, b2: int|
                    0 <= k2 < n + 1 && visible@[k2] < days.len() && 0 <= b2
                        < days@[visible@[k2] as int].len() && (
                    #[trigger] days@[visible@[k2] as int]@[b2]).0 == minute;
                if k2 < n {
                    assert(days@[visible@[k2] as int]@[b2].0 == minute);
                    assert(block_starts_at(days@, visible@, n, minute));
                }
            }
        }
        k += 1;
    }
    earliest
}

/// The minute that the calendar is to open at: that of the earliest block of the visible
/// days, or seven o'clock where there is none.
pub fn first_minute(days: &Vec<Vec<(i32, i32)>>, visible: &Vec<usize>) -> (minute: i32)
    ensures
        exists|earliest: Option<i32>| #[trigger]
            is_earliest(days@, visible@, visible.len() as int, earliest) && minute == (
            match earliest {
                Some(e) => e,
                None => 420i32,
            }),
{
    match earliest_start(days, visible) {
        Some(e) => e,
        None => 420,
    }
}

/// How far the calendar is scrolled when it opens: to half an hour before its first
/// minute.
pub fn scroll_px(first_min: i32) -> (px: i32)
    requires
        i32::MIN <= first_min - 30,
        has_pixels(first_min - 30),
    ensures
        px == (if first_min > 30 {
            pixels(first_min - 30)
        } else {
            0
        }),
{
    let from: i32 = first_min - 30;
    to_pixels(
        if from > 0 {
            from
        } else {
            0
        },
    )
}

/// The totals of the visible days.
pub open spec fn shown(totals: Seq<i32>, visible: Seq<usize>) -> Seq<i32> {
    visible.map_values(|i: usize| totals[i as int])
}

/// The minutes of the visible days.
pub fn shown_total(totals: &Vec<i32>, visible: &Vec<usize>) -> (total: i32)
    requires
        forall|k: int| 0 <= k < visible.len() ==> #[trigger] visible@[k] < totals.len(),
        forall|n: int|
            0 <= n <= visible.len() ==> i32::MIN <= sum_of(
                #[trigger] shown(totals@, visible@).take(n),
            ) <= i32::MAX,
    ensures
        total == sum_of(shown(totals@, visible@)),
{
    let ghost all = shown(totals@, visible@);
    let mut total: i32 = 0;
    let mut k: usize = 0;
    while k < visible.len()
        invariant
            k <= visible.len(),
            all == shown(totals@, visible@),
            forall|k: int| 0 <= k < visible.len() ==> #[trigger] visible@[k] < totals.len(),
            forall|n: int|
                0 <= n <= visible.len() ==> i32::MIN <= sum_of(#[trigger] all.take(n))
                    <= i32::MAX,
            total == sum_of(all.take(k as int)),
        decreases visible.len() - k,
    {
        proof {
            assert(all.take(k + 1).drop_last() =~= all.take(k as int));
            assert(i32::MIN <= sum_of(all.take(k + 1)) <= i32::MAX);
        }
        total = total + totals[visible[k]];
        k += 1;
    }
    proof {
        assert(all.take(visible.len() as int) =~= all);
    }
    total
}

/// The name of the total of `visible` days.
pub fn total_label(visible: usize) -> (label: &'static str)
    ensures
        label@ == (if visible <= 1 {
            "Day total"@
        } else {
            "Week total"@
        }),
{
    if visible <= 1 {
        "Day total"
    } else {
        "Week total"
    }
}

/// The columns of a calendar of `n` days.
pub open spec fn grid_columns(n: nat) -> Seq<char> {
    "grid-template-columns: 56px repeat("@ + decimal(n) + ", 1fr) 100px; min-width: "@ + decimal(
        156 + n * 106,
    ) + "px;"@
}

/// The style of the calendar's grid for as many visible days, at least one.
pub fn grid_style(visible: usize) -> (style: String)
    requires
        156 + visible * 106 <= usize::MAX,
    ensures
        style@ == grid_columns(
            if visible < 1 {
                1
            } else {
                visible as nat
            },
        ),
{
    let n: usize = if visible < 1 {
        1
    } else {
        visible
    };
    let mut style = "grid-template-columns: 56px repeat(".to_owned();
    style.append(decimal_text(n as u128).as_str());
    style.append(", 1fr) 100px; min-width: ");
    style.append(decimal_text((156 + n * 106) as u128).as_str());
    style.append("px;");
    style
}

/// Why a block cannot be moved; empty where it can.
pub open spec fn lock_reason(state: EntryState) -> Seq<char> {
    match state {
        EntryState::Submitted => "Submitted for approval — can't be moved"@,
        EntryState::Approved => "Approved — can't be moved"@,
        EntryState::Invoiced => "Invoiced — can't be moved"@,
        EntryState::Open => ""@,
    }
}

/// Why a block cannot be moved; empty where it can.
pub fn lock_title(state: EntryState) -> (title: &'static str)
    ensures
        title@ == lock_reason(state),
{
    match state {
        EntryState::Submitted => "Submitted for approval — can't be moved",
        EntryState::Approved => "Approved — can't be moved",
        EntryState::Invoiced => "Invoiced — can't be moved",
        EntryState::Open => "",
    }
}

/// The class of a block: whether it is being reordered, previewed or timed, and whether
/// it is locked.
pub open spec fn event_class(
    reordering: bool,
    live: bool,
    timed: bool,
    state: EntryState,
) -> Seq<char> {
    let base = if reordering {
        "ts-cal-event dragging"@
    } else if live {
        "ts-cal-event timed live"@
    } else if timed {
        "ts-cal-event timed"@
    } else {
        "ts-cal-event"@
    };
    if state != EntryState::Open {
        base + " locked"@
    } else {
        base
    }
}

/// The class of a block.
pub fn ev_class(reordering: bool, live: bool, timed: bool, state: EntryState) -> (class: String)
    ensures
        class@ == event_class(reordering, live, timed, state),
{
    let mut class = if reordering {
        "ts-cal-event dragging".to_owned()
    } else if live {
        "ts-cal-event timed live".to_owned()
    } else if timed {
        "ts-cal-event timed".to_owned()
    } else {
        "ts-cal-event".to_owned()
    };
    if state != EntryState::Open {
        class.append(" locked");
    }
    class
}

} // verus!
