//! Side-by-side lanes for entries that overlap in a day of the calendar.

use crate::order::comes_first;
use crate::order::ranks;
use crate::order::sort_order;
use crate::order::sorted_order;
use crate::order::sorted_order_exists;
use crate::order::Pair;
use crate::order::SortKey;
use crate::timesheet::entry::TimeEntry;
use vstd::prelude::*;
use vstd::relations::injective_on;
use vstd::set_lib::lemma_int_range;
use vstd::set_lib::lemma_len_subset;
use vstd::set_lib::lemma_map_size;
use vstd::set_lib::lemma_set_subset_finite;
use vstd::set_lib::set_int_range;

verus! {

/// The time that an entry of a day takes, with the entry's place in that day.
#[derive(Clone, Copy, PartialEq, Eq, Structural, Debug)]
pub struct Span {
    pub index: usize,
    pub start: i32,
    pub end: i32,
}

/// The end of a timed entry, in minutes since midnight.
pub open spec fn entry_end(entry: TimeEntry) -> int {
    entry.start_minute->0 + entry.minutes
}

/// Whether a day's entries can be laid out: their ends are numbers of minutes that can
/// be held.
pub open spec fn drawable(day: Seq<TimeEntry>) -> bool {
    &&& day.len() <= i32::MAX
    &&& forall|i: int|
        0 <= i < day.len() && (#[trigger] day[i]).start_minute is Some ==> i32::MIN <= entry_end(
            day[i],
        ) <= i32::MAX
}

/// The spans of the timed entries among the first `n` of a day.
pub open spec fn spans_of(day: Seq<TimeEntry>, n: int) -> Seq<Span>
    decreases n,
{
    if n <= 0 {
        Seq::empty()
    } else if day[n - 1].start_minute is Some {
        spans_of(day, n - 1).push(
            Span {
                index: (n - 1) as usize,
                start: day[n - 1].start_minute->0,
                end: entry_end(day[n - 1]) as i32,
            },
        )
    } else {
        spans_of(day, n - 1)
    }
}

/// What spans are sorted by: start, then end.
pub open spec fn span_keys(spans: Seq<Span>) -> Seq<(int, int)> {
    spans.map_values(|span: Span| (span.start as int, span.end as int))
}

/// The spans of a day's timed entries, by start and then by end.
pub open spec fn sorted_spans(day: Seq<TimeEntry>) -> Seq<Span> {
    let spans = spans_of(day, day.len() as int);
    let order = sorted_order::<Pair>(span_keys(spans));
    Seq::new(spans.len(), |p: int| spans[order[p]])
}

/// The first lane, from `lane` on, that is free at `start`.
pub open spec fn first_free(ends: Seq<int>, start: int, lane: int) -> int
    decreases ends.len() - lane,
{
    if 0 <= lane < ends.len() && ends[lane] > start {
        first_free(ends, start, lane + 1)
    } else {
        lane
    }
}

/// When each lane is free again once the first `n` spans have been given a lane: each
/// takes the first one that is free at its start, or a new one.
pub open spec fn lane_ends(spans: Seq<Span>, n: int) -> Seq<int>
    decreases n, 0int,
{
    if n <= 0 {
        Seq::empty()
    } else {
        let ends = lane_ends(spans, n - 1);
        let lane = lane_at(spans, n - 1);
        if lane < ends.len() {
            ends.update(lane, spans[n - 1].end as int)
        } else {
            ends.push(spans[n - 1].end as int)
        }
    }
}

/// The lane of the span at `p`.
pub open spec fn lane_at(spans: Seq<Span>, p: int) -> int
    decreases p, 1int,
{
    first_free(lane_ends(spans, p), spans[p].start as int, 0)
}

/// Whether everything before `p` has ended when `p` starts.
pub open spec fn starts_run(spans: Seq<Span>, p: int) -> bool {
    forall|q: int| 0 <= q < p ==> (#[trigger] spans[q]).end <= spans[p].start
}

/// Whether `p` and `q` stand in one run of overlapping spans.
pub open spec fn same_run(spans: Seq<Span>, p: int, q: int) -> bool {
    &&& 0 <= p < spans.len()
    &&& 0 <= q < spans.len()
    &&& forall|r: int| (p < r <= q || q < r <= p) ==> !#[trigger] starts_run(spans, r)
}

/// Whether `count` is the number of lanes in the run of the span at `p`.
#[verifier::opaque]
pub open spec fn run_lanes(spans: Seq<Span>, p: int, count: int) -> bool {
    &&& exists|q: int| #[trigger] same_run(spans, p, q) && lane_at(spans, q) + 1 == count
    &&& forall|q: int| #[trigger] same_run(spans, p, q) ==> lane_at(spans, q) < count
}

/// Whether `lane_of` and `lanes_of` lay a day out: each timed entry stands in the lane
/// that was free for it, in as many lanes as its run has; the others in the only one.
pub open spec fn is_layout(day: Seq<TimeEntry>, lane_of: Seq<i32>, lanes_of: Seq<i32>) -> bool {
    let spans = sorted_spans(day);
    &&& lane_of.len() == day.len()
    &&& lanes_of.len() == day.len()
    &&& forall|i: int|
        0 <= i < day.len() && (#[trigger] day[i]).start_minute is None ==> lane_of[i] == 0
            && lanes_of[i] == 1
    &&& forall|p: int|
        0 <= p < spans.len() ==> lane_of[(#[trigger] spans[p]).index as int] == lane_at(spans, p)
            && run_lanes(spans, p, lanes_of[spans[p].index as int] as int)
}

fn timed_spans(day: &Vec<TimeEntry>) -> (spans: Vec<Span>)
    requires
        drawable(day@),
    ensures
        spans@ == spans_of(day@, day.len() as int),
{
    let mut spans: Vec<Span> = Vec::new();
    let mut i: usize = 0;
    while i < day.len()
        invariant
            drawable(day@),
            i <= day.len(),
            spans@ == spans_of(day@, i as int),
        decreases day.len() - i,
    {
        if let Some(start) = day[i].start_minute {
            proof {
                assert(i32::MIN <= entry_end(day@[i as int]) <= i32::MAX);
            }
            let end: i32 = start + day[i].minutes;
            spans.push(Span { index: i, start, end });
        }
        i += 1;
    }
    spans
}

fn sort_spans(day: &Vec<TimeEntry>) -> (sorted: Vec<Span>)
    requires
        drawable(day@),
    ensures
        sorted@ == sorted_spans(day@),
{
    let spans = timed_spans(day);
    let mut keys: Vec<Pair> = Vec::new();
    let mut i: usize = 0;
    while i < spans.len()
        invariant
            i <= spans.len(),
            ranks(keys@) == span_keys(spans@).take(i as int),
        decreases spans.len() - i,
    {
        let key = Pair { first: spans[i].start as i128, second: spans[i].end as i128 };
        proof {
            assert(span_keys(spans@).take(i + 1) =~= span_keys(spans@).take(i as int).push(
                key.rank(),
            ));
            assert(ranks(keys@.push(key)) =~= ranks(keys@).push(key.rank()));
        }
        keys.push(key);
        i += 1;
    }
    proof {
        assert(ranks(keys@) =~= span_keys(spans@));
    }
    let order = sort_order(&keys);
    let ghost positions = order@.map_values(|i: usize| i as int);
    let mut sorted: Vec<Span> = Vec::new();
    let mut p: usize = 0;
    while p < order.len()
        invariant
            p <= order.len(),
            order.len() == spans.len(),
            positions == order@.map_values(|i: usize| i as int),
            forall|i: int| 0 <= i < positions.len() ==> 0 <= #[trigger] positions[i] < spans.len(),
            sorted.len() == p,
            forall|i: int| 0 <= i < p ==> sorted@[i] == spans@[#[trigger] positions[i]],
        decreases order.len() - p,
    {
        proof {
            assert(positions[p as int] == order@[p as int]);
        }
        sorted.push(spans[order[p]]);
        p += 1;
    }
    proof {
        assert(sorted@ =~= sorted_spans(day@));
    }
    sorted
}

/// The first lane that is free at `start`, or the number of lanes.
fn free_lane(ends: &Vec<i32>, start: i32) -> (lane: usize)
    ensures
        lane <= ends.len(),
        lane == first_free(ends@.map_values(|e: i32| e as int), start as int, 0),
{
    let ghost all = ends@.map_values(|e: i32| e as int);
    let mut lane: usize = 0;
    while lane < ends.len() && ends[lane] > start
        invariant
            lane <= ends.len(),
            all == ends@.map_values(|e: i32| e as int),
            first_free(all, start as int, lane as int) == first_free(all, start as int, 0),
        decreases ends.len() - lane,
    {
        lane += 1;
    }
    lane
}

/// Gives each span the first lane that is free for it.
fn assign_lanes(day: &Vec<TimeEntry>, spans: &Vec<Span>) -> (lane_of: Vec<i32>)
    requires
        day.len() <= i32::MAX,
        spans.len() <= day.len(),
        well_sorted(day@, spans@),
    ensures
        lane_of.len() == day.len(),
        forall|i: int|
            0 <= i < day.len() && (#[trigger] day@[i]).start_minute is None ==> lane_of@[i] == 0,
        forall|p: int|
            0 <= p < spans.len() ==> lane_of@[(#[trigger] spans@[p]).index as int] == lane_at(
                spans@,
                p,
            ) && 0 <= lane_at(spans@, p) < spans.len(),
{
    let mut lane_of: Vec<i32> = Vec::new();
    let mut i: usize = 0;
    while i < day.len()
        invariant
            i <= day.len(),
            lane_of.len() == i,
            forall|k: int| 0 <= k < i ==> lane_of@[k] == 0,
        decreases day.len() - i,
    {
        lane_of.push(0);
        i += 1;
    }
    let mut ends: Vec<i32> = Vec::new();
    let mut p: usize = 0;
    proof {
        assert(ends@.map_values(|e: i32| e as int) =~= lane_ends(spans@, 0));
    }
    while p < spans.len()
        invariant
            p <= spans.len() <= day.len() <= i32::MAX,
            well_sorted(day@, spans@),
            lane_of.len() == day.len(),
            ends.len() <= p,
            ends@.map_values(|e: i32| e as int) == lane_ends(spans@, p as int),
            forall|i: int|
                0 <= i < day.len() && (#[trigger] day@[i]).start_minute is None ==> lane_of@[i]
                    == 0,
            forall|q: int|
                0 <= q < p ==> lane_of@[(#[trigger] spans@[q]).index as int] == lane_at(spans@, q)
                    && 0 <= lane_at(spans@, q) < spans.len(),
        decreases spans.len() - p,
    {
        let span = spans[p];
        let ghost before = ends@.map_values(|e: i32| e as int);
        let lane: usize = free_lane(&ends, span.start);
        if lane < ends.len() {
            ends.set(lane, span.end);
        } else {
            ends.push(span.end);
        }
        proof {
            let after = ends@.map_values(|e: i32| e as int);
            if lane < before.len() {
                assert(after =~= before.update(lane as int, span.end as int));
            } else {
                assert(after =~= before.push(span.end as int));
            }
            assert(lane_at(spans@, p as int) == lane);
            assert(after == lane_ends(spans@, p + 1));
        }
        lane_of.set(span.index, lane as i32);
        p += 1;
    }
    lane_of
}

/// Where the run that starts at `from` stops.
fn run_stop(day: &Vec<TimeEntry>, spans: &Vec<Span>, from: usize) -> (stop: usize)
    requires
        well_sorted(day@, spans@),
        from < spans.len(),
        starts_run(spans@, from as int),
    ensures
        from < stop <= spans.len(),
        stop < spans.len() ==> starts_run(spans@, stop as int),
        forall|r: int| from < r < stop ==> !#[trigger] starts_run(spans@, r),
{
    let mut reach: i32 = spans[from].end;
    let ghost mut furthest: int = from as int;
    let mut stop: usize = from + 1;
    while stop < spans.len() && spans[stop].start < reach
        invariant
            well_sorted(day@, spans@),
            from < stop <= spans.len(),
            starts_run(spans@, from as int),
            from <= furthest < stop,
            reach == spans@[furthest].end,
            forall|q: int| from <= q < stop ==> (#[trigger] spans@[q]).end <= reach,
            forall|r: int| from < r < stop ==> !#[trigger] starts_run(spans@, r),
        decreases spans.len() - stop,
    {
        proof {
            assert(spans@[furthest].end > spans@[stop as int].start);
            assert(!starts_run(spans@, stop as int));
        }
        if spans[stop].end > reach {
            reach = spans[stop].end;
            proof {
                furthest = stop as int;
            }
        }
        stop += 1;
    }
    proof {
        if stop < spans.len() {
            assert forall|q: int| 0 <= q < stop implies (#[trigger] spans@[q]).end
                <= spans@[stop as int].start by {
                if q < from {
                    assert(spans@[q].end <= spans@[from as int].start);
                    assert(spans@[from as int].start <= spans@[stop as int].start);
                }
            }
        }
    }
    stop
}

/// The number of lanes that the spans of a run take.
fn lanes_of_run(
    day: &Vec<TimeEntry>,
    spans: &Vec<Span>,
    lane_of: &Vec<i32>,
    from: usize,
    stop: usize,
) -> (count: i32)
    requires
        spans.len() <= i32::MAX,
        lane_of.len() == day.len(),
        well_sorted(day@, spans@),
        from < stop <= spans.len(),
        forall|p: int|
            0 <= p < spans.len() ==> lane_of@[(#[trigger] spans@[p]).index as int] == lane_at(
                spans@,
                p,
            ) && 0 <= lane_at(spans@, p) < spans.len(),
    ensures
        exists|q: int| from <= q < stop && #[trigger] lane_at(spans@, q) + 1 == count,
        forall|q: int| from <= q < stop ==> #[trigger] lane_at(spans@, q) < count,
{
    let mut most: i32 = lane_of[spans[from].index];
    let ghost mut widest: int = from as int;
    let mut p: usize = from;
    while p < stop
        invariant
            from <= p <= stop <= spans.len() <= i32::MAX,
            lane_of.len() == day.len(),
            well_sorted(day@, spans@),
            from <= widest < stop,
            most == lane_at(spans@, widest),
            most < spans.len(),
            forall|q: int| from <= q < p ==> #[trigger] lane_at(spans@, q) <= most,
            forall|p: int|
                0 <= p < spans.len() ==> lane_of@[(#[trigger] spans@[p]).index as int] == lane_at(
                    spans@,
                    p,
                ) && 0 <= lane_at(spans@, p) < spans.len(),
        decreases stop - p,
    {
        let lane: i32 = lane_of[spans[p].index];
        if lane > most {
            most = lane;
            proof {
                widest = p as int;
            }
        }
        p += 1;
    }
    proof {
        assert(lane_at(spans@, widest) + 1 == most + 1);
    }
    most + 1
}

/// Gives the entries of the spans at `from..stop` a number of lanes.
fn give_lanes(
    day: &Vec<TimeEntry>,
    spans: &Vec<Span>,
    lanes_of: &mut Vec<i32>,
    from: usize,
    stop: usize,
    count: i32,
)
    requires
        well_sorted(day@, spans@),
        from <= stop <= spans.len(),
        old(lanes_of).len() == day.len(),
    ensures
        final(lanes_of).len() == day.len(),
        forall|i: int|
            0 <= i < day.len() && (#[trigger] day@[i]).start_minute is None
                ==> final(lanes_of)@[i] == old(lanes_of)@[i],
        forall|q: int|
            0 <= q < from ==> final(lanes_of)@[(#[trigger] spans@[q]).index as int]
                == old(lanes_of)@[spans@[q].index as int],
        forall|q: int|
            from <= q < stop ==> final(lanes_of)@[(#[trigger] spans@[q]).index as int] == count,
{
    let ghost before = lanes_of@;
    let mut p: usize = from;
    while p < stop
        invariant
            well_sorted(day@, spans@),
            from <= p <= stop <= spans.len(),
            lanes_of.len() == day.len(),
            before == old(lanes_of)@,
            forall|i: int|
                0 <= i < day.len() && (#[trigger] day@[i]).start_minute is None ==> lanes_of@[i]
                    == before[i],
            forall|q: int|
                0 <= q < from ==> lanes_of@[(#[trigger] spans@[q]).index as int]
                    == before[spans@[q].index as int],
            forall|q: int|
                from <= q < p ==> lanes_of@[(#[trigger] spans@[q]).index as int] == count,
        decreases stop - p,
    {
        lanes_of.set(spans[p].index, count);
        p += 1;
    }
}

/// Assigns overlapping timed entries of a day to side-by-side lanes: for each entry, its
/// lane and the number of lanes in its run of overlapping entries. An entry without a
/// start time stands in lane 0 of 1.
pub fn timed_lanes(day: &Vec<TimeEntry>) -> (lanes: (Vec<i32>, Vec<i32>))
    requires
        drawable(day@),
    ensures
        is_layout(day@, lanes.0@, lanes.1@),
{
    let spans = sort_spans(day);
    proof {
        sorted_spans_are_well_sorted(day@);
    }
    let lane_of = assign_lanes(day, &spans);
    let mut lanes_of: Vec<i32> = Vec::new();
    let mut i: usize = 0;
    while i < day.len()
        invariant
            i <= day.len(),
            lanes_of.len() == i,
            forall|k: int| 0 <= k < i ==> lanes_of@[k] == 1,
        decreases day.len() - i,
    {
        lanes_of.push(1);
        i += 1;
    }
    let mut from: usize = 0;
    while from < spans.len()
        invariant
            drawable(day@),
            well_sorted(day@, spans@),
            from <= spans.len() <= day.len(),
            from < spans.len() ==> starts_run(spans@, from as int),
            lane_of.len() == day.len(),
            lanes_of.len() == day.len(),
            forall|p: int|
                0 <= p < spans.len() ==> lane_of@[(#[trigger] spans@[p]).index as int] == lane_at(
                    spans@,
                    p,
                ) && 0 <= lane_at(spans@, p) < spans.len(),
            forall|i: int|
                0 <= i < day.len() && (#[trigger] day@[i]).start_minute is None ==> lanes_of@[i]
                    == 1,
            forall|p: int|
                0 <= p < from ==> run_lanes(
                    spans@,
                    p,
                    lanes_of@[(#[trigger] spans@[p]).index as int] as int,
                ),
        decreases spans.len() - from,
    {
        let stop: usize = run_stop(day, &spans, from);
        let count: i32 = lanes_of_run(day, &spans, &lane_of, from, stop);
        let ghost before = lanes_of@;
        give_lanes(day, &spans, &mut lanes_of, from, stop, count);
        proof {
            assert forall|p: int| 0 <= p < stop implies run_lanes(
                spans@,
                p,
                lanes_of@[(#[trigger] spans@[p]).index as int] as int,
            ) by {
                if p >= from {
                    run_is_counted(spans@, from as int, stop as int, p, count as int);
                } else {
                    assert(lanes_of@[spans@[p].index as int] == before[spans@[p].index as int]);
                }
            }
        }
        from = stop;
    }
    (lane_of, lanes_of)
}

/// The lanes of the spans between two starts of runs are those of the run of each.
proof fn run_is_counted(spans: Seq<Span>, from: int, stop: int, p: int, count: int)
    requires
        0 <= from <= p < stop <= spans.len(),
        starts_run(spans, from),
        stop < spans.len() ==> starts_run(spans, stop),
        forall|r: int| from < r < stop ==> !#[trigger] starts_run(spans, r),
        exists|q: int| from <= q < stop && #[trigger] lane_at(spans, q) + 1 == count,
        forall|q: int| from <= q < stop ==> #[trigger] lane_at(spans, q) < count,
    ensures
        run_lanes(spans, p, count),
{
    reveal(run_lanes);
    let q = choose|q: int| from <= q < stop && #[trigger] lane_at(spans, q) + 1 == count;
    assert(same_run(spans, p, q));
    assert forall|q: int| #[trigger] same_run(spans, p, q) implies lane_at(spans, q) < count by {
        if q < from {
            assert(!starts_run(spans, from));
        } else if q >= stop {
            assert(!starts_run(spans, stop));
        }
    }
}

/// Each span of a day belongs to the timed entry at its place.
proof fn spans_belong(day: Seq<TimeEntry>, n: int, k: int)
    requires
        0 <= n <= day.len() <= usize::MAX,
        0 <= k < spans_of(day, n).len(),
    ensures
        spans_of(day, n)[k].index < n,
        day[spans_of(day, n)[k].index as int].start_minute is Some,
        spans_of(day, n)[k].start == day[spans_of(day, n)[k].index as int].start_minute->0,
        spans_of(day, n)[k].end == entry_end(
            day[spans_of(day, n)[k].index as int],
        ) as i32,
    decreases n,
{
    if day[n - 1].start_minute is Some {
        if k < spans_of(day, n).len() - 1 {
            spans_belong(day, n - 1, k);
        }
    } else {
        spans_belong(day, n - 1, k);
    }
}

/// The spans of a day stand in the order of its entries.
proof fn spans_ascend(day: Seq<TimeEntry>, n: int, a: int, b: int)
    requires
        0 <= n <= day.len() <= usize::MAX,
        0 <= a < b < spans_of(day, n).len(),
    ensures
        spans_of(day, n)[a].index < spans_of(day, n)[b].index,
    decreases n,
{
    if day[n - 1].start_minute is Some && b == spans_of(day, n).len() - 1 {
        spans_belong(day, n - 1, a);
    } else {
        spans_ascend(day, n - 1, a, b);
    }
}

/// Every timed entry has a span.
proof fn spans_cover(day: Seq<TimeEntry>, n: int, i: int) -> (k: int)
    requires
        0 <= i < n <= day.len() <= usize::MAX,
        day[i].start_minute is Some,
    ensures
        0 <= k < spans_of(day, n).len(),
        spans_of(day, n)[k].index == i,
    decreases n,
{
    if i == n - 1 {
        spans_of(day, n).len() - 1
    } else {
        spans_cover(day, n - 1, i)
    }
}

/// What holds of the sorted spans of a day.
pub open spec fn well_sorted(day: Seq<TimeEntry>, spans: Seq<Span>) -> bool {
    &&& forall|p: int|
        0 <= p < spans.len() ==> {
            let span = #[trigger] spans[p];
            &&& span.index < day.len()
            &&& day[span.index as int].start_minute is Some
            &&& span.start == day[span.index as int].start_minute->0
            &&& span.end == entry_end(day[span.index as int])
        }
    &&& forall|p: int, q: int|
        0 <= p < q < spans.len() ==> (#[trigger] spans[p]).index != (#[trigger] spans[q]).index
            && spans[p].start <= spans[q].start
    &&& forall|i: int|
        0 <= i < day.len() && (#[trigger] day[i]).start_minute is Some ==> exists|p: int|
            0 <= p < spans.len() && (#[trigger] spans[p]).index == i
}

proof fn sorted_spans_are_well_sorted(day: Seq<TimeEntry>)
    requires
        drawable(day),
    ensures
        well_sorted(day, sorted_spans(day)),
        sorted_spans(day).len() <= day.len(),
{
    let n = day.len() as int;
    let spans = spans_of(day, n);
    let keys = span_keys(spans);
    let order = sorted_order::<Pair>(keys);
    let sorted = sorted_spans(day);
    sorted_order_exists::<Pair>(keys);
    assert forall|p: int| 0 <= p < sorted.len() implies {
        let span = #[trigger] sorted[p];
        &&& span.index < day.len()
        &&& day[span.index as int].start_minute is Some
        &&& span.start == day[span.index as int].start_minute->0
        &&& span.end == entry_end(day[span.index as int])
    } by {
        assert(0 <= order[p] < keys.len());
        spans_belong(day, n, order[p]);
    }
    assert forall|p: int, q: int| 0 <= p < q < sorted.len() implies (#[trigger] sorted[p]).index
        != (#[trigger] sorted[q]).index && sorted[p].start <= sorted[q].start by {
        let a = order[p];
        let b = order[q];
        assert(comes_first::<Pair>(keys, order[p], order[q]));
        assert(0 <= a < spans.len() && 0 <= b < spans.len());
        assert(keys[a] == (spans[a].start as int, spans[a].end as int));
        assert(keys[b] == (spans[b].start as int, spans[b].end as int));
        if a < b {
            spans_ascend(day, n, a, b);
        } else if b < a {
            spans_ascend(day, n, b, a);
        }
    }
    assert forall|i: int| 0 <= i < day.len() && (#[trigger] day[i]).start_minute is Some implies exists|
        p: int,
    |
        0 <= p < sorted.len() && (#[trigger] sorted[p]).index == i by {
        let k = spans_cover(day, n, i);
        assert(order.contains(k));
        let p = choose|p: int| 0 <= p < order.len() && order[p] == k;
        assert(sorted[p].index == i);
    }
    spans_are_few(day, n);
}

proof fn spans_are_few(day: Seq<TimeEntry>, n: int)
    requires
        0 <= n,
    ensures
        spans_of(day, n).len() <= n,
    decreases n,
{
    if n > 0 {
        spans_are_few(day, n - 1);
    }
}

proof fn first_free_is_free(ends: Seq<int>, start: int, lane: int)
    requires
        0 <= lane <= ends.len(),
    ensures
        lane <= first_free(ends, start, lane) <= ends.len(),
        first_free(ends, start, lane) < ends.len() ==> ends[first_free(ends, start, lane)] <= start,
    decreases ends.len() - lane,
{
    if lane < ends.len() && ends[lane] > start {
        first_free_is_free(ends, start, lane + 1);
    }
}

/// What was put into a lane has ended before the lane is given out again.
proof fn lane_is_taken(day: Seq<TimeEntry>, spans: Seq<Span>, n: int, p: int)
    requires
        well_sorted(day, spans),
        0 <= p < n <= spans.len(),
    ensures
        0 <= lane_at(spans, p) < lane_ends(spans, n).len(),
        lane_ends(spans, n)[lane_at(spans, p)] >= spans[p].end || spans[p].end
            <= spans[n - 1].start,
    decreases n,
{
    let ends = lane_ends(spans, n - 1);
    let lane = lane_at(spans, n - 1);
    assert(lane == first_free(ends, spans[n - 1].start as int, 0));
    first_free_is_free(ends, spans[n - 1].start as int, 0);
    assert(lane_ends(spans, n) == if lane < ends.len() {
        ends.update(lane, spans[n - 1].end as int)
    } else {
        ends.push(spans[n - 1].end as int)
    });
    if p < n - 1 {
        lane_is_taken(day, spans, n - 1, p);
        assert(spans[n - 2].start <= spans[n - 1].start);
    }
}

proof fn runs_agree(spans: Seq<Span>, p: int, q: int, a: int, b: int)
    requires
        same_run(spans, p, q),
        run_lanes(spans, p, a),
        run_lanes(spans, q, b),
    ensures
        a <= b,
{
    reveal(run_lanes);
    let x = choose|x: int| #[trigger] same_run(spans, p, x) && lane_at(spans, x) + 1 == a;
    assert(same_run(spans, q, x));
}

/// No lane stands outside the lanes of its run.
pub proof fn every_entry_has_its_lane(
    day: Seq<TimeEntry>,
    lane_of: Seq<i32>,
    lanes_of: Seq<i32>,
    i: int,
)
    requires
        drawable(day),
        is_layout(day, lane_of, lanes_of),
        0 <= i < day.len(),
    ensures
        0 <= lane_of[i] < lanes_of[i],
{
    if day[i].start_minute is Some {
        let spans = sorted_spans(day);
        sorted_spans_are_well_sorted(day);
        let p = choose|p: int| 0 <= p < spans.len() && (#[trigger] spans[p]).index == i;
        assert(lane_of[spans[p].index as int] == lane_at(spans, p));
        assert(same_run(spans, p, p));
        reveal(run_lanes);
        first_free_is_free(lane_ends(spans, p), spans[p].start as int, 0);
    }
}

/// Two entries of a day whose times overlap stand in different lanes, among the same
/// number of lanes, so neither hides the other.
pub proof fn overlapping_entries_stand_side_by_side(
    day: Seq<TimeEntry>,
    lane_of: Seq<i32>,
    lanes_of: Seq<i32>,
    i: int,
    j: int,
)
    requires
        drawable(day),
        is_layout(day, lane_of, lanes_of),
        0 <= i < day.len(),
        0 <= j < day.len(),
        i != j,
        day[i].start_minute is Some,
        day[j].start_minute is Some,
        day[i].start_minute->0 < entry_end(day[j]),
        day[j].start_minute->0 < entry_end(day[i]),
    ensures
        lane_of[i] != lane_of[j],
        lanes_of[i] == lanes_of[j],
{
    sorted_spans_are_well_sorted(day);
    side_by_side(day, sorted_spans(day), lane_of, lanes_of, i, j);
}

proof fn side_by_side(
    day: Seq<TimeEntry>,
    spans: Seq<Span>,
    lane_of: Seq<i32>,
    lanes_of: Seq<i32>,
    i: int,
    j: int,
)
    requires
        well_sorted(day, spans),
        forall|p: int|
            0 <= p < spans.len() ==> lane_of[(#[trigger] spans[p]).index as int] == lane_at(
                spans,
                p,
            ) && run_lanes(spans, p, lanes_of[spans[p].index as int] as int),
        0 <= i < day.len(),
        0 <= j < day.len(),
        i != j,
        day[i].start_minute is Some,
        day[j].start_minute is Some,
        day[i].start_minute->0 < entry_end(day[j]),
        day[j].start_minute->0 < entry_end(day[i]),
    ensures
        lane_of[i] != lane_of[j],
        lanes_of[i] == lanes_of[j],
{
    let p = choose|p: int| 0 <= p < spans.len() && (#[trigger] spans[p]).index == i;
    let q = choose|q: int| 0 <= q < spans.len() && (#[trigger] spans[q]).index == j;
    assert(lane_of[spans[p].index as int] == lane_at(spans, p));
    assert(lane_of[spans[q].index as int] == lane_at(spans, q));
    if p < q {
        overlapping_spans_differ(day, spans, p, q);
    } else {
        overlapping_spans_differ(day, spans, q, p);
    }
    runs_agree(spans, p, q, lanes_of[i] as int, lanes_of[j] as int);
    runs_agree(spans, q, p, lanes_of[j] as int, lanes_of[i] as int);
}

proof fn overlapping_spans_differ(day: Seq<TimeEntry>, spans: Seq<Span>, p: int, q: int)
    requires
        well_sorted(day, spans),
        0 <= p < q < spans.len(),
        spans[q].start < spans[p].end,
    ensures
        same_run(spans, p, q),
        same_run(spans, q, p),
        lane_at(spans, p) != lane_at(spans, q),
{
    assert forall|r: int| p < r <= q implies !#[trigger] starts_run(spans, r) by {
        assert(spans[r].start <= spans[q].start);
        assert(spans[p].end > spans[r].start);
    }
    lane_is_taken(day, spans, q, p);
    assert(spans[q - 1].start <= spans[q].start);
    first_free_is_free(lane_ends(spans, q), spans[q].start as int, 0);
}

/// When a lane is free again, its last span ends.
proof fn lane_has_its_last(spans: Seq<Span>, n: int, lane: int) -> (last: int)
    requires
        0 <= n <= spans.len(),
        0 <= lane < lane_ends(spans, n).len(),
    ensures
        0 <= last < n,
        lane_at(spans, last) == lane,
        spans[last].end == lane_ends(spans, n)[lane],
    decreases n,
{
    let ends = lane_ends(spans, n - 1);
    let given = lane_at(spans, n - 1);
    first_free_is_free(ends, spans[n - 1].start as int, 0);
    if given == lane {
        n - 1
    } else {
        lane_has_its_last(spans, n - 1, lane)
    }
}

proof fn lower_lanes_are_taken(ends: Seq<int>, start: int, from: int, lane: int)
    requires
        0 <= from <= lane < first_free(ends, start, from),
    ensures
        lane < ends.len(),
        ends[lane] > start,
    decreases ends.len() - from,
{
    if from < lane {
        lower_lanes_are_taken(ends, start, from + 1, lane);
    }
}

/// Whether an entry runs at a minute.
pub open spec fn runs_at(entry: TimeEntry, minute: int) -> bool {
    entry.start_minute is Some && entry.start_minute->0 <= minute < entry_end(entry)
}

/// Whether the entries at `i` and `k` of a day stand in one run of overlapping entries.
pub open spec fn run_together(day: Seq<TimeEntry>, i: int, k: int) -> bool {
    let spans = sorted_spans(day);
    exists|p: int, q: int| #[trigger]
        same_run(spans, p, q) && spans[p].index == i && spans[q].index == k
}

/// The entries in the run of the one at `i` that run at a minute.
pub open spec fn running(day: Seq<TimeEntry>, i: int, minute: int) -> Set<int> {
    Set::new(
        |k: int| 0 <= k < day.len() && run_together(day, i, k) && runs_at(day[k], minute),
    )
}

proof fn running_in_lanes(
    day: Seq<TimeEntry>,
    lane_of: Seq<i32>,
    lanes_of: Seq<i32>,
    i: int,
    minute: int,
)
    requires
        drawable(day),
        is_layout(day, lane_of, lanes_of),
        0 <= i < day.len(),
        day[i].start_minute is Some,
    ensures
        running(day, i, minute).finite(),
        forall|k: int| #[trigger]
            running(day, i, minute).contains(k) ==> 0 <= lane_of[k] < lanes_of[i],
        forall|k: int, m: int| #[trigger]
            running(day, i, minute).contains(k) && #[trigger] running(day, i, minute).contains(m)
                && k != m ==> lane_of[k] != lane_of[m],
{
    let spans = sorted_spans(day);
    let here = running(day, i, minute);
    sorted_spans_are_well_sorted(day);
    lemma_int_range(0, day.len() as int);
    assert(here.subset_of(set_int_range(0, day.len() as int)));
    lemma_set_subset_finite(set_int_range(0, day.len() as int), here);
    assert forall|k: int| #[trigger] here.contains(k) implies 0 <= lane_of[k] < lanes_of[i] by {
        every_entry_has_its_lane(day, lane_of, lanes_of, k);
        let (p, q) = choose|p: int, q: int| #[trigger]
            same_run(spans, p, q) && spans[p].index == i && spans[q].index == k;
        assert(run_lanes(spans, p, lanes_of[spans[p].index as int] as int));
        assert(run_lanes(spans, q, lanes_of[spans[q].index as int] as int));
        assert(same_run(spans, q, p));
        runs_agree(spans, q, p, lanes_of[k] as int, lanes_of[i] as int);
    }
    assert forall|k: int, m: int| #[trigger]
        here.contains(k) && #[trigger] here.contains(m) && k != m implies lane_of[k]
        != lane_of[m] by {
        overlapping_entries_stand_side_by_side(day, lane_of, lanes_of, k, m);
    }
}

/// A run has lanes enough: at no minute do more of its entries run than it has lanes.
pub proof fn lanes_are_enough(
    day: Seq<TimeEntry>,
    lane_of: Seq<i32>,
    lanes_of: Seq<i32>,
    i: int,
    minute: int,
)
    requires
        drawable(day),
        is_layout(day, lane_of, lanes_of),
        0 <= i < day.len(),
        day[i].start_minute is Some,
    ensures
        running(day, i, minute).finite(),
        running(day, i, minute).len() <= lanes_of[i],
{
    let here = running(day, i, minute);
    running_in_lanes(day, lane_of, lanes_of, i, minute);
    every_entry_has_its_lane(day, lane_of, lanes_of, i);
    let lane = |k: int| lane_of[k] as int;
    let lanes = here.map(lane);
    assert(injective_on(lane, here));
    lemma_map_size(here, lanes, lane);
    lemma_int_range(0, lanes_of[i] as int);
    assert(lanes.subset_of(set_int_range(0, lanes_of[i] as int)));
    lemma_len_subset(lanes, set_int_range(0, lanes_of[i] as int));
}

/// No lane is spare: where every entry of a run lasts, as many of them run at some minute as
/// the run has lanes. So fewer lanes would not do.
pub proof fn no_lane_is_spare(
    day: Seq<TimeEntry>,
    lane_of: Seq<i32>,
    lanes_of: Seq<i32>,
    i: int,
) -> (minute: int)
    requires
        drawable(day),
        is_layout(day, lane_of, lanes_of),
        0 <= i < day.len(),
        day[i].start_minute is Some,
        forall|k: int|
            0 <= k < day.len() && #[trigger] run_together(day, i, k) ==> day[k].minutes > 0,
    ensures
        running(day, i, minute).len() == lanes_of[i],
{
    let spans = sorted_spans(day);
    sorted_spans_are_well_sorted(day);
    let p = choose|p: int| 0 <= p < spans.len() && (#[trigger] spans[p]).index == i;
    let count = lanes_of[i] as int;
    assert(run_lanes(spans, p, lanes_of[spans[p].index as int] as int));
    let q = widest(spans, p, count);
    let minute = spans[q].start as int;
    let here = running(day, i, minute);
    running_in_lanes(day, lane_of, lanes_of, i, minute);
    every_entry_has_its_lane(day, lane_of, lanes_of, i);
    let lane = |k: int| lane_of[k] as int;
    let lanes = here.map(lane);
    assert forall|l: int| 0 <= l < count implies #[trigger] lanes.contains(l) by {
        let w = running_in_lane(day, spans, p, q, l);
        let k = spans[w].index as int;
        assert(run_together(day, i, k));
        assert(runs_at(day[k], minute));
        assert(here.contains(k));
        assert(lane(k) == l) by {
            assert(lane_of[spans[w].index as int] == lane_at(spans, w));
        }
    }
    assert(lanes =~= set_int_range(0, count));
    assert(injective_on(lane, here));
    lemma_map_size(here, lanes, lane);
    lemma_int_range(0, count);
    minute
}

/// A span in the last lane of a run.
proof fn widest(spans: Seq<Span>, p: int, count: int) -> (q: int)
    requires
        run_lanes(spans, p, count),
    ensures
        same_run(spans, p, q),
        lane_at(spans, q) + 1 == count,
{
    reveal(run_lanes);
    choose|q: int| #[trigger] same_run(spans, p, q) && lane_at(spans, q) + 1 == count
}

/// The span in a lane that runs when the one at `q`, in a lane not below it, starts.
proof fn running_in_lane(day: Seq<TimeEntry>, spans: Seq<Span>, p: int, q: int, lane: int) -> (w:
    int)
    requires
        well_sorted(day, spans),
        spans == sorted_spans(day),
        same_run(spans, p, q),
        0 <= lane <= lane_at(spans, q),
        forall|k: int|
            0 <= k < day.len() && #[trigger] run_together(day, spans[p].index as int, k)
                ==> day[k].minutes > 0,
    ensures
        same_run(spans, p, w),
        lane_at(spans, w) == lane,
        spans[w].start <= spans[q].start < spans[w].end,
{
    if lane == lane_at(spans, q) {
        assert(run_together(day, spans[p].index as int, spans[q].index as int));
        q
    } else {
        let ends = lane_ends(spans, q);
        first_free_is_free(ends, spans[q].start as int, 0);
        lower_lanes_are_taken(ends, spans[q].start as int, 0, lane);
        let w = lane_has_its_last(spans, q, lane);
        assert forall|r: int| w < r <= q implies !#[trigger] starts_run(spans, r) by {
            assert(spans[r].start <= spans[q].start);
            assert(spans[w].end > spans[r].start);
        }
        assert(same_run(spans, p, w));
        w
    }
}

/// A gap keeps runs apart: where no entry runs over a minute, the entries on either side of it
/// have as many lanes as the entries of their own side take.
pub proof fn gaps_keep_runs_apart(
    day: Seq<TimeEntry>,
    lane_of: Seq<i32>,
    lanes_of: Seq<i32>,
    minute: int,
    i: int,
) -> (k: int)
    requires
        drawable(day),
        is_layout(day, lane_of, lanes_of),
        forall|j: int|
            0 <= j < day.len() && (#[trigger] day[j]).start_minute is Some ==> day[j].minutes > 0
                && (entry_end(day[j]) <= minute || minute <= day[j].start_minute->0),
        0 <= i < day.len(),
        day[i].start_minute is Some,
    ensures
        0 <= k < day.len(),
        day[k].start_minute is Some,
        lane_of[k] + 1 == lanes_of[i],
        day[k].start_minute->0 < minute <==> day[i].start_minute->0 < minute,
{
    let spans = sorted_spans(day);
    sorted_spans_are_well_sorted(day);
    let p = choose|p: int| 0 <= p < spans.len() && (#[trigger] spans[p]).index == i;
    assert(run_lanes(spans, p, lanes_of[spans[p].index as int] as int));
    let q = widest(spans, p, lanes_of[i] as int);
    assert(lane_of[spans[q].index as int] == lane_at(spans, q));
    let k = spans[q].index as int;
    if spans[p].start < minute && spans[q].start >= minute {
        let r = first_from(spans, minute, p, q);
        assert(starts_run(spans, r)) by {
            assert forall|s: int| 0 <= s < r implies (#[trigger] spans[s]).end
                <= spans[r].start by {
                assert(spans[s].start <= spans[r - 1].start);
                assert(day[spans[s].index as int].start_minute is Some);
            }
        }
    }
    if spans[q].start < minute && spans[p].start >= minute {
        let r = first_from(spans, minute, q, p);
        assert(starts_run(spans, r)) by {
            assert forall|s: int| 0 <= s < r implies (#[trigger] spans[s]).end
                <= spans[r].start by {
                assert(spans[s].start <= spans[r - 1].start);
                assert(day[spans[s].index as int].start_minute is Some);
            }
        }
    }
    k
}

/// The first span after `a`, up to `b`, that starts at a minute or later.
proof fn first_from(spans: Seq<Span>, minute: int, a: int, b: int) -> (r: int)
    requires
        0 <= a < spans.len(),
        0 <= b < spans.len(),
        forall|p: int, q: int|
            0 <= p < q < spans.len() ==> (#[trigger] spans[p]).start <= (#[trigger] spans[q]).start,
        spans[a].start < minute,
        spans[b].start >= minute,
    ensures
        a < r <= b,
        spans[r - 1].start < minute <= spans[r].start,
    decreases b - a,
{
    if b <= a {
        assert(b == a || spans[b].start <= spans[a].start);
        b
    } else if spans[b - 1].start < minute {
        b
    } else {
        first_from(spans, minute, a, b - 1)
    }
}

/// A lane is taken only where those below it are not free: in each of them an entry runs that
/// had started by then.
pub proof fn lower_lanes_are_not_free(
    day: Seq<TimeEntry>,
    lane_of: Seq<i32>,
    lanes_of: Seq<i32>,
    i: int,
    lane: int,
) -> (k: int)
    requires
        drawable(day),
        is_layout(day, lane_of, lanes_of),
        0 <= i < day.len(),
        day[i].start_minute is Some,
        forall|k: int|
            0 <= k < day.len() && (#[trigger] day[k]).start_minute is Some ==> day[k].minutes > 0,
        0 <= lane < lane_of[i],
    ensures
        0 <= k < day.len(),
        day[k].start_minute is Some,
        lane_of[k] == lane,
        day[k].start_minute->0 <= day[i].start_minute->0 < entry_end(day[k]),
{
    let spans = sorted_spans(day);
    sorted_spans_are_well_sorted(day);
    let p = choose|p: int| 0 <= p < spans.len() && (#[trigger] spans[p]).index == i;
    assert(lane_of[spans[p].index as int] == lane_at(spans, p));
    assert(same_run(spans, p, p));
    assert forall|k: int|
        0 <= k < day.len() && #[trigger] run_together(day, spans[p].index as int, k) implies day[k].minutes
        > 0 by {
        let (a, b) = choose|a: int, b: int| #[trigger]
            same_run(spans, a, b) && spans[a].index == spans[p].index && spans[b].index == k;
        assert(day[spans[b].index as int].start_minute is Some);
    }
    let w = running_in_lane(day, spans, p, p, lane);
    assert(lane_of[spans[w].index as int] == lane_at(spans, w));
    spans[w].index as int
}

/// Of two entries that start together, the shorter one takes the lower lane, and of two that are
/// as long, the one that stands first in the day.
pub proof fn shorter_entries_take_lower_lanes(
    day: Seq<TimeEntry>,
    lane_of: Seq<i32>,
    lanes_of: Seq<i32>,
    i: int,
    j: int,
)
    requires
        drawable(day),
        is_layout(day, lane_of, lanes_of),
        0 <= i < day.len(),
        0 <= j < day.len(),
        day[i].start_minute is Some,
        day[j].start_minute == day[i].start_minute,
        day[i].minutes < day[j].minutes || (day[i].minutes == day[j].minutes && i < j),
        forall|k: int|
            0 <= k < day.len() && (#[trigger] day[k]).start_minute is Some ==> day[k].minutes > 0,
    ensures
        lane_of[i] < lane_of[j],
{
    let n = day.len() as int;
    let spans = sorted_spans(day);
    sorted_spans_are_well_sorted(day);
    let p = choose|p: int| 0 <= p < spans.len() && (#[trigger] spans[p]).index == i;
    let q = choose|q: int| 0 <= q < spans.len() && (#[trigger] spans[q]).index == j;
    if q < p {
        let keys = span_keys(spans_of(day, n));
        let order = sorted_order::<Pair>(keys);
        sorted_order_exists::<Pair>(keys);
        let a = order[q];
        let b = order[p];
        assert(0 <= a < keys.len() && 0 <= b < keys.len());
        assert(comes_first::<Pair>(keys, order[q], order[p]));
        assert(keys[a] == (spans[q].start as int, spans[q].end as int));
        assert(keys[b] == (spans[p].start as int, spans[p].end as int));
        assert(a < b);
        spans_ascend(day, n, a, b);
    }
    assert(lane_of[spans[p].index as int] == lane_at(spans, p));
    assert(lane_of[spans[q].index as int] == lane_at(spans, q));
    assert forall|r: int| p <= r < q implies (#[trigger] spans[r]).end > spans[p].start by {
        assert(day[spans[r].index as int].start_minute is Some);
        if p < r {
            assert(spans[p].start <= spans[r].start);
        }
    }
    first_free_is_free(lane_ends(spans, p), spans[p].start as int, 0);
    lanes_stay_taken(spans, p, q);
    first_free_is_free(lane_ends(spans, q), spans[q].start as int, 0);
}

/// The lanes up to that of the span at `p` stay taken at its start.
proof fn lanes_stay_taken(spans: Seq<Span>, p: int, n: int)
    requires
        0 <= p < n <= spans.len(),
        forall|r: int| p <= r < n ==> (#[trigger] spans[r]).end > spans[p].start,
    ensures
        lane_at(spans, p) < lane_ends(spans, n).len(),
        forall|l: int|
            0 <= l <= lane_at(spans, p) ==> #[trigger] lane_ends(spans, n)[l] > spans[p].start,
    decreases n,
{
    let ends = lane_ends(spans, n - 1);
    let lane = lane_at(spans, n - 1);
    first_free_is_free(ends, spans[n - 1].start as int, 0);
    assert(lane == first_free(ends, spans[n - 1].start as int, 0));
    assert(lane_ends(spans, n) == if lane < ends.len() {
        ends.update(lane, spans[n - 1].end as int)
    } else {
        ends.push(spans[n - 1].end as int)
    });
    assert(spans[n - 1].end > spans[p].start);
    if n - 1 == p {
        assert forall|l: int| 0 <= l < lane implies #[trigger] ends[l] > spans[p].start by {
            lower_lanes_are_taken(ends, spans[p].start as int, 0, l);
        }
    } else {
        lanes_stay_taken(spans, p, n - 1);
    }
}

} // verus!
