//! Dragging in the calendar: drawing a slot, moving, resizing and reordering entries.

use crate::date::iso_text;
use crate::date::iso_text_of;
use crate::date::valid_day;
use crate::date::Date;
use crate::ids::id_text;
use crate::ids::id_to_text;
use crate::lists::filter_all;
use crate::lists::filter_step;
use crate::lists::same_ids;
use crate::lists::views;
use crate::timesheet::calendar::block_height;
use crate::timesheet::calendar::cal_time_label;
use crate::timesheet::calendar::has_pixels;
use crate::timesheet::calendar::pixels;
use crate::timesheet::calendar::stacked;
use crate::timesheet::calendar::times_text;
use crate::timesheet::calendar::to_block_height;
use crate::timesheet::calendar::to_pixels;
use crate::timesheet::calendar::untimed_ordered;
use crate::timesheet::calendar::CalEvent;
use crate::timesheet::entry::EntryState;
use crate::timesheet::entry::TimeEntry;
use crate::timesheet::grid::collect_ids;
use crate::timesheet::grid::ids_of;
use crate::timesheet::view::format_hm;
use crate::timesheet::view::hm_text;
use crate::timesheet::week::minutes_of;
use crate::timesheet::week::summable;
use vstd::prelude::*;

verus! {

/// What a drag does.
#[derive(Clone, Copy, PartialEq, Eq, Structural, Debug)]
pub enum DragKind {
    /// Draws a new slot.
    Create,
    /// Moves a timed entry.
    Move,
    /// Changes the end of a timed entry.
    Resize,
    /// Moves an untimed entry within the stack of a day, or to that of another day.
    Reorder,
}

/// A drag in progress. Minutes are snapped; `day` is the column under the pointer.
#[derive(Debug)]
pub struct CalDrag {
    pub kind: DragKind,
    pub day: usize,
    /// The anchor of a drawn slot; the entry's own start where one is moved or resized.
    pub start_min: i32,
    pub cur_min: i32,
    /// The minute at which a moved block was grabbed.
    pub grab_min: i32,
    /// The entry that is dragged; none where a slot is drawn.
    pub entry: Option<TimeEntry>,
    pub orig_dur: i32,
    pub orig_day: usize,
}

/// `n` within the minutes of a day.
pub open spec fn in_day(n: int) -> int {
    if n < 0 {
        0
    } else if n > 1439 {
        1439
    } else {
        n
    }
}

fn to_day_minute(n: i32) -> (m: i32)
    ensures
        m == in_day(n as int),
{
    if n < 0 {
        0
    } else if n > 1439 {
        1439
    } else {
        n
    }
}

impl CalDrag {
    /// Whether the distances between the drag's minutes can be held.
    pub open spec fn fits(self, min_duration: u16) -> bool {
        &&& i32::MIN <= self.grab_min - self.start_min <= i32::MAX
        &&& i32::MIN <= self.cur_min - (self.grab_min - self.start_min) <= i32::MAX
        &&& i32::MIN < self.cur_min - self.start_min <= i32::MAX
        &&& self.start_min + min_duration <= i32::MAX
        &&& self.moved_start() + self.orig_dur <= i32::MAX
    }

    /// Where a moved entry starts: it follows the pointer, held where it was grabbed,
    /// within the day.
    pub open spec fn moved_start(self) -> int {
        in_day(self.cur_min - (self.grab_min - self.start_min))
    }

    /// The new start of a moved entry.
    pub fn move_start(&self) -> (start: i32)
        requires
            i32::MIN <= self.grab_min - self.start_min <= i32::MAX,
            i32::MIN <= self.cur_min - (self.grab_min - self.start_min) <= i32::MAX,
        ensures
            start == self.moved_start(),
    {
        to_day_minute(self.cur_min - (self.grab_min - self.start_min))
    }

    /// Where a resized entry ends: it follows the pointer, no closer to its start than
    /// the shortest duration.
    pub open spec fn resized_end(self, min_duration: u16) -> int {
        if self.cur_min > self.start_min + min_duration {
            self.cur_min as int
        } else {
            self.start_min + min_duration
        }
    }

    /// The new end of a resized entry.
    pub fn resize_end(&self, min_duration: u16) -> (end: i32)
        requires
            self.start_min + min_duration <= i32::MAX,
        ensures
            end == self.resized_end(min_duration),
    {
        let least: i32 = self.start_min + min_duration as i32;
        if self.cur_min > least {
            self.cur_min
        } else {
            least
        }
    }

    /// A drag that draws a slot from minute `m` of column `day` on.
    pub fn create(day: usize, m: i32) -> (d: CalDrag)
        ensures
            d == (CalDrag {
                kind: DragKind::Create,
                day,
                start_min: m,
                cur_min: m,
                grab_min: m,
                entry: None,
                orig_dur: 0,
                orig_day: day,
            }),
    {
        CalDrag {
            kind: DragKind::Create,
            day,
            start_min: m,
            cur_min: m,
            grab_min: m,
            entry: None,
            orig_dur: 0,
            orig_day: day,
        }
    }

    /// The minute at which an entry's block starts for a drag.
    pub open spec fn start_of(entry: TimeEntry) -> int {
        match entry.start_minute {
            Some(start) => start as int,
            None => 0,
        }
    }

    /// The drag that pressing a block starts: a move of a timed entry, grabbed `off`
    /// minutes into it, else a reordering, with the pointer at minute `m`.
    pub fn press(day: usize, entry: &TimeEntry, off: i32, m: i32) -> (d: CalDrag)
        requires
            entry.start_minute is Some ==> i32::MIN <= entry.start_minute->0 + off <= i32::MAX,
        ensures
            d.entry == Some(*entry),
            d.day == day,
            d.orig_day == day,
            d.orig_dur == entry.minutes,
            d.start_min == CalDrag::start_of(*entry),
            entry.start_minute is Some ==> d.kind == DragKind::Move && d.cur_min
                == entry.start_minute->0 + off && d.grab_min == d.cur_min,
            entry.start_minute is None ==> d.kind == DragKind::Reorder && d.cur_min == m
                && d.grab_min == m,
    {
        match entry.start_minute {
            Some(start) => CalDrag {
                kind: DragKind::Move,
                day,
                start_min: start,
                cur_min: start + off,
                grab_min: start + off,
                entry: Some(entry.clone()),
                orig_dur: entry.minutes,
                orig_day: day,
            },
            None => CalDrag {
                kind: DragKind::Reorder,
                day,
                start_min: 0,
                cur_min: m,
                grab_min: m,
                entry: Some(entry.clone()),
                orig_dur: entry.minutes,
                orig_day: day,
            },
        }
    }

    /// The drag that pressing a block's lower edge starts.
    pub fn resize(day: usize, entry: &TimeEntry) -> (d: CalDrag)
        requires
            i32::MIN <= CalDrag::start_of(*entry) + entry.minutes <= i32::MAX,
        ensures
            d == (CalDrag {
                kind: DragKind::Resize,
                day,
                start_min: CalDrag::start_of(*entry) as i32,
                cur_min: (CalDrag::start_of(*entry) + entry.minutes) as i32,
                grab_min: (CalDrag::start_of(*entry) + entry.minutes) as i32,
                entry: Some(*entry),
                orig_dur: entry.minutes,
                orig_day: day,
            }),
    {
        let start: i32 = match entry.start_minute {
            Some(start) => start,
            None => 0,
        };
        CalDrag {
            kind: DragKind::Resize,
            day,
            start_min: start,
            cur_min: start + entry.minutes,
            grab_min: start + entry.minutes,
            entry: Some(entry.clone()),
            orig_dur: entry.minutes,
            orig_day: day,
        }
    }

    /// The pointer moves to minute `m` of column `day`. A moved or reordered entry
    /// follows it to that column.
    pub fn follow(&mut self, day: usize, m: i32)
        ensures
            final(self).cur_min == m,
            final(self).day == (if old(self).kind == DragKind::Move || old(self).kind
                == DragKind::Reorder {
                day
            } else {
                old(self).day
            }),
            final(self).kind == old(self).kind,
            final(self).start_min == old(self).start_min,
            final(self).grab_min == old(self).grab_min,
            final(self).entry == old(self).entry,
            final(self).orig_dur == old(self).orig_dur,
            final(self).orig_day == old(self).orig_day,
    {
        self.cur_min = m;
        if self.kind == DragKind::Move || self.kind == DragKind::Reorder {
            self.day = day;
        }
    }

    /// Whether the drag is of an entry that can no longer be changed.
    pub open spec fn is_locked(self) -> bool {
        self.entry is Some && self.entry->0.state != EntryState::Open
    }

    /// Whether the drag reorders the entry `id`.
    pub fn reorders(&self, id: u128) -> (reorders: bool)
        ensures
            reorders == (self.kind == DragKind::Reorder && self.is_of(id)),
    {
        self.kind == DragKind::Reorder && match &self.entry {
            Some(entry) => entry.id == id,
            None => false,
        }
    }

    /// Whether the drag is of the entry `id`.
    pub open spec fn is_of(self, id: u128) -> bool {
        self.entry is Some && self.entry->0.id == id
    }

    /// Whether a moved entry is where it was.
    pub open spec fn stays(self) -> bool {
        self.moved_start() == self.start_min && self.day == self.orig_day
    }

    /// The start and the duration of a drawn slot; one that is shorter than the shortest
    /// duration, such as a click, stands for an hour.
    pub open spec fn drawn(self, min_duration: u16) -> (int, int) {
        let length = if self.cur_min >= self.start_min {
            self.cur_min - self.start_min
        } else {
            self.start_min - self.cur_min
        };
        (
            in_day(
                if self.start_min < self.cur_min {
                    self.start_min as int
                } else {
                    self.cur_min as int
                },
            ),
            if length >= min_duration {
                length
            } else {
                60
            },
        )
    }

    /// The start and the duration that the drag asks for, where it asks for any.
    pub open spec fn asked(self, min_duration: u16) -> Option<(int, int)> {
        if self.is_locked() {
            None
        } else {
            match self.kind {
                DragKind::Create => Some(self.drawn(min_duration)),
                DragKind::Move => if self.entry is Some && !self.stays() {
                    Some((self.moved_start(), self.orig_dur as int))
                } else {
                    None
                },
                DragKind::Resize => if self.entry is Some {
                    Some(
                        (self.start_min as int, self.resized_end(min_duration) - self.start_min),
                    )
                } else {
                    None
                },
                DragKind::Reorder => None,
            }
        }
    }

    fn locked(&self) -> (r: bool)
        ensures
            r == self.is_locked(),
    {
        match &self.entry {
            Some(entry) => entry.state != EntryState::Open,
            None => false,
        }
    }

    fn drawn_slot(&self, min_duration: u16) -> (slot: (i32, i32))
        requires
            i32::MIN < self.cur_min - self.start_min <= i32::MAX,
        ensures
            slot.0 == self.drawn(min_duration).0,
            slot.1 == self.drawn(min_duration).1,
    {
        let (low, length) = if self.start_min < self.cur_min {
            (self.start_min, self.cur_min - self.start_min)
        } else {
            (self.cur_min, self.start_min - self.cur_min)
        };
        (
            to_day_minute(low),
            if length >= min_duration as i32 {
                length
            } else {
                60
            },
        )
    }

    /// What is to be clamped to the day before the drag is committed: a start within the
    /// day and a duration that is not negative.
    pub fn clamp_request(&self, min_duration: u16) -> (request: Option<(u16, u32)>)
        requires
            self.fits(min_duration),
        ensures
            match self.asked(min_duration) {
                Some(asked) => request is Some && (request->0).0 == in_day(asked.0) && (request->0).1
                    == (if asked.1 > 0 {
                    asked.1
                } else {
                    0
                }),
                None => request is None,
            },
    {
        if self.locked() {
            return None;
        }
        let (start, duration): (i32, i32) = match self.kind {
            DragKind::Create => self.drawn_slot(min_duration),
            DragKind::Move => {
                let start: i32 = self.move_start();
                if self.entry.is_none() || (start == self.start_min && self.day == self.orig_day) {
                    return None;
                }
                (start, self.orig_dur)
            },
            DragKind::Resize => {
                if self.entry.is_none() {
                    return None;
                }
                (self.start_min, self.resize_end(min_duration) - self.start_min)
            },
            DragKind::Reorder => {
                return None;
            },
        };
        let within: i32 = to_day_minute(start);
        Some(
            (
                within as u16,
                if duration > 0 {
                    duration as u32
                } else {
                    0
                },
            ),
        )
    }
}

/// Half of some minutes, rounded towards none.
pub open spec fn half(minutes: int) -> int {
    if minutes >= 0 {
        minutes / 2
    } else {
        -((-minutes) / 2)
    }
}

/// The place, from `i` on, at which an entry dropped at minute `cur` goes into a stack:
/// before the first one whose middle is below.
pub open spec fn drop_place(stack: Seq<TimeEntry>, cur: int, i: int) -> int
    decreases stack.len() - i,
{
    if 0 <= i < stack.len() && cur >= minutes_of(stack.take(i)) + half(stack[i].minutes as int) {
        drop_place(stack, cur, i + 1)
    } else {
        i
    }
}

fn find_drop_place(stack: &Vec<TimeEntry>, cur: i32) -> (place: usize)
    requires
        summable(stack@),
    ensures
        place <= stack.len(),
        place == drop_place(stack@, cur as int, 0),
{
    let mut top: i32 = 0;
    let mut i: usize = 0;
    while i < stack.len()
        invariant
            i <= stack.len(),
            summable(stack@),
            top == minutes_of(stack@.take(i as int)),
            drop_place(stack@, cur as int, i as int) == drop_place(stack@, cur as int, 0),
        decreases stack.len() - i,
    {
        proof {
            assert(stack@.take(i + 1).drop_last() =~= stack@.take(i as int));
            assert(i32::MIN <= minutes_of(stack@.take(i + 1)) <= i32::MAX);
        }
        if cur < top + stack[i].minutes / 2 {
            return i;
        }
        top = top + stack[i].minutes;
        i += 1;
    }
    i
}

/// Whether an entry was made on a date.
pub open spec fn made_on(date: Date) -> spec_fn(TimeEntry) -> bool {
    |entry: TimeEntry| entry.spent_date == date
}

/// Whether an entry is another one than `id`.
pub open spec fn other_than(id: u128) -> spec_fn(TimeEntry) -> bool {
    |entry: TimeEntry| entry.id != id
}

/// The stack of a date without the entry `id`.
pub open spec fn stack_without(entries: Seq<TimeEntry>, date: Date, id: u128) -> Seq<TimeEntry> {
    stacked(entries.filter(made_on(date))).filter(other_than(id))
}

/// The stack of a date once `entry` has been dropped into it at minute `cur`.
pub open spec fn restacked(
    entries: Seq<TimeEntry>,
    date: Date,
    entry: TimeEntry,
    cur: int,
) -> Seq<TimeEntry> {
    let rest = stack_without(entries, date, entry.id);
    rest.insert(drop_place(rest, cur, 0), entry)
}

fn stack_of(entries: &Vec<TimeEntry>, date: Date) -> (stack: Vec<TimeEntry>)
    ensures
        stack@ == stacked(entries@.filter(made_on(date))),
{
    let mut day: Vec<TimeEntry> = Vec::new();
    let mut i: usize = 0;
    proof {
        filter_all(entries@, made_on(date));
    }
    while i < entries.len()
        invariant
            i <= entries.len(),
            day@ == entries@.take(i as int).filter(made_on(date)),
        decreases entries.len() - i,
    {
        proof {
            filter_step(entries@, i as int, made_on(date));
        }
        if entries[i].spent_date == date {
            day.push(entries[i].clone());
        }
        i += 1;
    }
    untimed_ordered(&day)
}

fn without(stack: &Vec<TimeEntry>, id: u128) -> (rest: Vec<TimeEntry>)
    ensures
        rest@ == stack@.filter(other_than(id)),
{
    let mut rest: Vec<TimeEntry> = Vec::new();
    let mut i: usize = 0;
    proof {
        filter_all(stack@, other_than(id));
    }
    while i < stack.len()
        invariant
            i <= stack.len(),
            rest@ == stack@.take(i as int).filter(other_than(id)),
        decreases stack.len() - i,
    {
        proof {
            filter_step(stack@, i as int, other_than(id));
        }
        if stack[i].id != id {
            rest.push(stack[i].clone());
        }
        i += 1;
    }
    rest
}

fn texts_of(ids: &Vec<u128>) -> (texts: Vec<String>)
    ensures
        views(texts@) == ids@.map_values(|id: u128| id_text(id)),
{
    let mut texts: Vec<String> = Vec::new();
    let mut i: usize = 0;
    while i < ids.len()
        invariant
            i <= ids.len(),
            texts.len() == i,
            forall|k: int| 0 <= k < i ==> (#[trigger] texts@[k])@ == id_text(ids@[k]),
        decreases ids.len() - i,
    {
        texts.push(id_to_text(ids[i]));
        i += 1;
    }
    proof {
        assert(views(texts@) =~= ids@.map_values(|id: u128| id_text(id)));
    }
    texts
}

/// What the release of a drag leads to.
#[derive(Debug)]
pub enum DragOutcome {
    Nothing,
    /// The entry is opened, to be viewed or edited.
    OpenEdit(TimeEntry),
    /// A new entry is opened, with a start and a duration.
    OpenAdd { day: Date, start: i32, duration: String },
    /// The entry is given another time.
    Reschedule { id: String, date: String, start: i32, minutes: i32 },
    /// The date's untimed entries are given this order.
    Reorder { date: String, ids: Vec<String> },
}

impl DragOutcome {
    pub open spec fn opens(self, entry: Option<TimeEntry>) -> bool {
        self matches DragOutcome::OpenEdit(opened) && entry == Some(opened)
    }

    pub open spec fn reschedules(self, entry: TimeEntry, date: int, start: int, minutes: int) -> bool {
        &&& self matches DragOutcome::Reschedule { id, date: on, start: at, minutes: long }
        &&& id@ == id_text(entry.id)
        &&& on@ == iso_text(date as i32)
        &&& at == start
        &&& long == minutes
    }
}

/// What the release of a drag leads to, in the week from `week_start` on with these
/// entries; `clamped` is the duration that the request of the drag was clamped to.
///
/// An entry that is locked, or that has not been moved, is opened. A drawn slot opens a
/// new entry. A moved or resized entry is given its new time, a reordered one its new
/// place.
pub fn drag_commit(
    d: &CalDrag,
    week_start: Date,
    entries: &Vec<TimeEntry>,
    min_duration: u16,
    clamped: i32,
) -> (outcome: DragOutcome)
    requires
        d.fits(min_duration),
        week_start.valid(),
        valid_day(week_start.days + d.day),
        valid_day(week_start.days + d.orig_day),
        d.kind == DragKind::Reorder && !d.is_locked() && d.entry is Some ==> summable(
            stack_without(
                entries@,
                Date { days: (week_start.days + d.day) as i32 },
                d.entry->0.id,
            ),
        ),
    ensures
        ({
            let target = Date { days: (week_start.days + d.day) as i32 };
            if d.is_locked() {
                outcome.opens(d.entry)
            } else {
                match d.kind {
                    DragKind::Create => {
                        &&& outcome matches DragOutcome::OpenAdd { day, start, duration }
                        &&& day == target
                        &&& start == d.drawn(min_duration).0
                        &&& duration@ == hm_text(clamped as int)
                    },
                    DragKind::Move => if d.entry is None {
                        outcome is Nothing
                    } else if d.stays() {
                        outcome.opens(d.entry)
                    } else {
                        outcome.reschedules(
                            d.entry->0,
                            target.days as int,
                            d.moved_start(),
                            clamped as int,
                        )
                    },
                    DragKind::Resize => if d.entry is None {
                        outcome is Nothing
                    } else {
                        outcome.reschedules(
                            d.entry->0,
                            week_start.days + d.orig_day,
                            d.start_min as int,
                            clamped as int,
                        )
                    },
                    DragKind::Reorder => if d.entry is None {
                        outcome is Nothing
                    } else {
                        let before = ids_of(stacked(entries@.filter(made_on(target))));
                        let after = ids_of(
                            restacked(entries@, target, d.entry->0, d.cur_min as int),
                        );
                        if d.day == d.orig_day && after == before {
                            outcome.opens(d.entry)
                        } else {
                            &&& outcome matches DragOutcome::Reorder { date, ids }
                            &&& date@ == iso_text(target.days)
                            &&& views(ids@) == after.map_values(|id: u128| id_text(id))
                        }
                    },
                }
            }
        }),
{
    let target = Date { days: week_start.days + d.day as i32 };
    if d.locked() {
        return match &d.entry {
            Some(entry) => DragOutcome::OpenEdit(entry.clone()),
            None => DragOutcome::Nothing,
        };
    }
    match d.kind {
        DragKind::Create => {
            let (start, _) = d.drawn_slot(min_duration);
            DragOutcome::OpenAdd { day: target, start, duration: format_hm(clamped) }
        },
        DragKind::Move => match &d.entry {
            None => DragOutcome::Nothing,
            Some(entry) => {
                let start: i32 = d.move_start();
                if start == d.start_min && d.day == d.orig_day {
                    DragOutcome::OpenEdit(entry.clone())
                } else {
                    DragOutcome::Reschedule {
                        id: id_to_text(entry.id),
                        date: iso_text_of(target.days),
                        start,
                        minutes: clamped,
                    }
                }
            },
        },
        DragKind::Resize => match &d.entry {
            None => DragOutcome::Nothing,
            Some(entry) => DragOutcome::Reschedule {
                id: id_to_text(entry.id),
                date: iso_text_of(week_start.days + d.orig_day as i32),
                start: d.start_min,
                minutes: clamped,
            },
        },
        DragKind::Reorder => match &d.entry {
            None => DragOutcome::Nothing,
            Some(entry) => {
                let stack = stack_of(entries, target);
                let before = collect_ids(&stack);
                let mut ordered = without(&stack, entry.id);
                let place: usize = find_drop_place(&ordered, d.cur_min);
                ordered.insert(place, entry.clone());
                let after = collect_ids(&ordered);
                if d.day == d.orig_day && same_ids(&after, &before) {
                    DragOutcome::OpenEdit(entry.clone())
                } else {
                    DragOutcome::Reorder {
                        date: iso_text_of(target.days),
                        ids: texts_of(&after),
                    }
                }
            },
        },
    }
}

/// The times at which an entry `id` in column `day` is shown while it is dragged; `None`
/// where the drag does not change its block.
pub open spec fn previewed(d: CalDrag, day: usize, id: u128, min_duration: u16) -> Option<
    (int, int),
> {
    if !d.is_of(id) {
        None
    } else {
        match d.kind {
            DragKind::Resize => Some((d.start_min as int, d.resized_end(min_duration))),
            DragKind::Move => if d.day == day {
                Some((d.moved_start(), d.moved_start() + d.orig_dur))
            } else {
                None
            },
            _ => None,
        }
    }
}

/// The times at which an entry of column `day` is shown while it is dragged.
pub fn live_span(d: &CalDrag, day: usize, id: u128, min_duration: u16) -> (live: Option<(i32, i32)>)
    requires
        d.fits(min_duration),
        d.moved_start() + d.orig_dur >= i32::MIN,
    ensures
        match previewed(*d, day, id, min_duration) {
            Some(times) => live is Some && (live->0).0 == times.0 && (live->0).1 == times.1,
            None => live is None,
        },
{
    let is_of = match &d.entry {
        Some(entry) => entry.id == id,
        None => false,
    };
    if !is_of {
        return None;
    }
    match d.kind {
        DragKind::Resize => Some((d.start_min, d.resize_end(min_duration))),
        DragKind::Move => if d.day == day {
            let start: i32 = d.move_start();
            Some((start, start + d.orig_dur))
        } else {
            None
        },
        _ => None,
    }
}

/// The top, the height and the times of a block: those of the drag that it is in, else
/// its own.
pub fn event_box(event: &CalEvent, live: Option<(i32, i32)>) -> (shown: (i32, i32, String))
    requires
        live is Some ==> {
            &&& has_pixels((live->0).0 as int)
            &&& i32::MIN <= (live->0).1 - (live->0).0 <= i32::MAX
            &&& has_pixels((live->0).1 - (live->0).0)
        },
    ensures
        match live {
            Some(times) => {
                &&& shown.0 == pixels(times.0 as int)
                &&& shown.1 == block_height(times.1 - times.0)
                &&& shown.2@ == times_text(times.0, times.1)
            },
            None => {
                &&& shown.0 == event.top
                &&& shown.1 == event.height
                &&& shown.2@ == event.time_label@
            },
        },
{
    match live {
        Some((start, end)) => (
            to_pixels(start),
            to_block_height(end - start),
            cal_time_label(start, end),
        ),
        None => (event.top, event.height, event.time_label.clone()),
    }
}

/// The top and the height of the slot that a drag draws; at least 2 pixels high.
pub fn drawn_box(d: &CalDrag) -> (shown: (i32, i32))
    requires
        has_pixels(d.start_min as int),
        has_pixels(d.cur_min as int),
        has_pixels(d.cur_min - d.start_min),
        has_pixels(d.start_min - d.cur_min),
    ensures
        ({
            let low = if d.start_min < d.cur_min {
                d.start_min
            } else {
                d.cur_min
            };
            let length = if d.start_min < d.cur_min {
                d.cur_min - d.start_min
            } else {
                d.start_min - d.cur_min
            };
            &&& shown.0 == pixels(low as int)
            &&& shown.1 == (if pixels(length) > 2 {
                pixels(length)
            } else {
                2
            })
        }),
{
    let (low, length) = if d.start_min < d.cur_min {
        (d.start_min, d.cur_min - d.start_min)
    } else {
        (d.cur_min, d.start_min - d.cur_min)
    };
    let height: i32 = to_pixels(length);
    (
        to_pixels(low),
        if height > 2 {
            height
        } else {
            2
        },
    )
}

/// The top and the height of the ghost of an entry that is reordered: its middle is at
/// the pointer, but not above the day.
pub fn ghost_box(minutes: i32, cur: i32) -> (shown: (i32, i32))
    requires
        has_pixels(minutes as int),
        has_pixels(cur as int),
        i32::MIN <= pixels(cur as int) - block_height(minutes as int) / 2,
    ensures
        shown.1 == block_height(minutes as int),
        shown.0 == (if pixels(cur as int) > block_height(minutes as int) / 2 {
            pixels(cur as int) - block_height(minutes as int) / 2
        } else {
            0
        }),
{
    let height: i32 = to_block_height(minutes);
    let top: i32 = to_pixels(cur) - height / 2;
    (
        if top > 0 {
            top
        } else {
            0
        },
        height,
    )
}

/// While an open entry is moved or resized, its block in the pointer's column shows the
/// time that the release will ask for.
pub proof fn preview_shows_what_is_asked(d: CalDrag, min_duration: u16)
    requires
        d.entry is Some,
        !d.is_locked(),
        d.asked(min_duration) is Some,
        d.kind != DragKind::Create,
    ensures
        previewed(d, d.day, d.entry->0.id, min_duration) is Some,
        ({
            let asked = d.asked(min_duration)->0;
            previewed(d, d.day, d.entry->0.id, min_duration)->0 == (asked.0, asked.0 + asked.1)
        }),
{
}

/// Dropping an entry into a stack puts it there once and leaves the others as they are.
pub proof fn restacking_keeps_the_rest(
    entries: Seq<TimeEntry>,
    date: Date,
    entry: TimeEntry,
    cur: int,
) -> (place: int)
    ensures
        0 <= place < restacked(entries, date, entry, cur).len(),
        restacked(entries, date, entry, cur)[place] == entry,
        restacked(entries, date, entry, cur).remove(place) == stack_without(
            entries,
            date,
            entry.id,
        ),
        !ids_of(stack_without(entries, date, entry.id)).contains(entry.id),
{
    let rest = stack_without(entries, date, entry.id);
    let place = drop_place(rest, cur, 0);
    drop_place_in_range(rest, cur, 0);
    assert(rest.insert(place, entry).remove(place) =~= rest);
    let stack = stacked(entries.filter(made_on(date)));
    assert forall|k: int| 0 <= k < rest.len() implies #[trigger] ids_of(rest)[k] != entry.id by {
        broadcast use vstd::seq_lib::group_filter_ensures;

        assert(other_than(entry.id)(rest[k]));
    }
    place
}

proof fn drop_place_in_range(stack: Seq<TimeEntry>, cur: int, i: int)
    requires
        0 <= i <= stack.len(),
    ensures
        i <= drop_place(stack, cur, i) <= stack.len(),
    decreases stack.len() - i,
{
    if i < stack.len() && cur >= minutes_of(stack.take(i)) + half(stack[i].minutes as int) {
        drop_place_in_range(stack, cur, i + 1);
    }
}

} // verus!
