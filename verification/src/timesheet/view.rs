//! Which part of the timesheet is shown: the view, the anchor day and its week.

use crate::clock::clock_text;
use crate::clock::format_hhmm;
use crate::date::date_text;
use crate::date::format_day;
use crate::date::parse_day;
use crate::date::parsed_day;
use crate::date::today;
use crate::date::valid_day;
use crate::date::weekday;
use crate::date::weekday_of;
use crate::date::Date;
use crate::text::same;
use vstd::prelude::*;

verus! {

/// Minutes as `H:MM`, a negative number as none.
pub fn format_hm(total_minutes: i32) -> (text: String)
    ensures
        text@ == hm_text(total_minutes as int),
{
    if total_minutes < 0 {
        format_hhmm(0)
    } else {
        format_hhmm(total_minutes as u64)
    }
}

/// Minutes as `H:MM`, a negative number as none.
pub open spec fn hm_text(minutes: int) -> Seq<char> {
    clock_text(if minutes < 0 {
        0
    } else {
        minutes as nat
    })
}

/// The place of `today` in the week that starts at `week_start`, from 0 for its first
/// day to 6; `None` where today is in another week.
pub fn today_offset(today: Date, week_start: Date) -> (offset: Option<usize>)
    ensures
        offset == offset_in_week(today, week_start),
{
    let days: i64 = today.days as i64 - week_start.days as i64;
    if 0 <= days && days < 7 {
        Some(days as usize)
    } else {
        None
    }
}

/// The place of a day in the week that starts at `week_start`, if it is in it.
pub open spec fn offset_in_week(day: Date, week_start: Date) -> Option<usize> {
    if 0 <= day.days - week_start.days < 7 {
        Some((day.days - week_start.days) as usize)
    } else {
        None
    }
}

/// The class of a weekday's column: today's is marked, and so is a weekend's.
pub open spec fn col_class(base: Seq<char>, today_off: Option<usize>, i: usize) -> Seq<char> {
    if today_off == Some(i) {
        base + " today"@
    } else if i >= 5 {
        base + " weekend"@
    } else {
        base
    }
}

/// The class of a weekday's column: `base`, and whether it is today or of the weekend.
pub fn day_col_class(base: &str, today_off: Option<usize>, i: usize) -> (class: String)
    ensures
        class@ == col_class(base@, today_off, i),
{
    let mut class = base.to_owned();
    if is_offset(today_off, i) {
        class.append(" today");
    } else if i >= 5 {
        class.append(" weekend");
    }
    class
}

fn is_offset(offset: Option<usize>, i: usize) -> (r: bool)
    ensures
        r == (offset == Some(i)),
{
    match offset {
        Some(o) => o == i,
        None => false,
    }
}

/// The class of a cell that shows minutes: an empty one is marked, and so is today's.
pub open spec fn cell_class(
    base: Seq<char>,
    minutes: int,
    today_off: Option<usize>,
    i: usize,
) -> Seq<char> {
    if minutes == 0 {
        base + " empty"@
    } else if today_off == Some(i) {
        base + " today"@
    } else {
        base
    }
}

/// The class of a week grid's value cell: `base`, and whether it is empty or today's.
pub fn value_cell_class(base: &str, minutes: i32, today_off: Option<usize>, i: usize) -> (class:
    String)
    ensures
        class@ == cell_class(base@, minutes as int, today_off, i),
{
    let mut class = base.to_owned();
    if minutes == 0 {
        class.append(" empty");
    } else if is_offset(today_off, i) {
        class.append(" today");
    }
    class
}

/// How the timesheet is shown.
#[derive(Clone, Copy, PartialEq, Eq, Structural, Debug)]
pub enum ViewMode {
    Day,
    Week,
    Calendar,
}

impl Default for ViewMode {
    fn default() -> (mode: Self)
        ensures
            mode == ViewMode::Week,
    {
        ViewMode::Week
    }
}

impl ViewMode {
    /// The view's part of a URL path.
    pub open spec fn path(self) -> Seq<char> {
        match self {
            ViewMode::Day => "day"@,
            ViewMode::Week => "week"@,
            ViewMode::Calendar => "calendar"@,
        }
    }

    /// The view's part of a URL path.
    pub fn as_text(&self) -> (text: &'static str)
        ensures
            text@ == self.path(),
    {
        match self {
            ViewMode::Day => "day",
            ViewMode::Week => "week",
            ViewMode::Calendar => "calendar",
        }
    }

    /// The view that a part of a URL path names; the week where it names none.
    pub open spec fn named(text: Seq<char>) -> ViewMode {
        if text == "day"@ {
            ViewMode::Day
        } else if text == "calendar"@ {
            ViewMode::Calendar
        } else {
            ViewMode::Week
        }
    }

    /// Reads a part of a URL path. Whatever is not a view falls back to the week, so a
    /// stray URL still leads somewhere.
    pub fn from_text(text: &str) -> (mode: ViewMode)
        ensures
            mode == ViewMode::named(text@),
    {
        if same(text, "day") {
            ViewMode::Day
        } else if same(text, "calendar") {
            ViewMode::Calendar
        } else {
            ViewMode::Week
        }
    }
}

/// What the view is called in the switch.
pub open spec fn view_title(mode: ViewMode) -> Seq<char> {
    match mode {
        ViewMode::Day => "Day"@,
        ViewMode::Week => "Week"@,
        ViewMode::Calendar => "Calendar"@,
    }
}

/// What the view is called in the switch.
pub fn view_label(mode: ViewMode) -> (label: &'static str)
    ensures
        label@ == view_title(mode),
{
    match mode {
        ViewMode::Day => "Day",
        ViewMode::Week => "Week",
        ViewMode::Calendar => "Calendar",
    }
}

/// The view that is picked in the switch.
pub open spec fn titled_view(label: Seq<char>) -> ViewMode {
    if label == "Day"@ {
        ViewMode::Day
    } else if label == "Calendar"@ {
        ViewMode::Calendar
    } else {
        ViewMode::Week
    }
}

/// The view that is picked in the switch.
pub fn pick_view(label: &str) -> (mode: ViewMode)
    ensures
        mode == titled_view(label@),
{
    if same(label, "Day") {
        ViewMode::Day
    } else if same(label, "Calendar") {
        ViewMode::Calendar
    } else {
        ViewMode::Week
    }
}

/// Picking a view in the switch shows that view.
pub proof fn picked_views_are_shown(mode: ViewMode)
    ensures
        titled_view(view_title(mode)) == mode,
{
    reveal_strlit("Day");
    reveal_strlit("Week");
    reveal_strlit("Calendar");
    assert("Day"@.len() != "Calendar"@.len());
    assert("Day"@.len() != "Week"@.len());
    assert("Week"@.len() != "Calendar"@.len());
}

/// What a button of the pager is called.
pub fn pager_label(mode: ViewMode, forward: bool) -> (label: &'static str)
    ensures
        label@ == (match (mode == ViewMode::Day, forward) {
            (true, true) => "Next day"@,
            (true, false) => "Previous day"@,
            (false, true) => "Next week"@,
            (false, false) => "Previous week"@,
        }),
{
    match (mode == ViewMode::Day, forward) {
        (true, true) => "Next day",
        (true, false) => "Previous day",
        (false, true) => "Next week",
        (false, false) => "Previous week",
    }
}

/// A view's path names that view.
pub proof fn view_path_reads_back(mode: ViewMode)
    ensures
        ViewMode::named(mode.path()) == mode,
{
    reveal_strlit("day");
    reveal_strlit("week");
    reveal_strlit("calendar");
    assert("day"@.len() != "calendar"@.len());
    assert("day"@.len() != "week"@.len());
    assert("week"@.len() != "calendar"@.len());
}

/// The timesheet's anchor day, carried in the URL path. The week shown is the one it is
/// in; a day view shows the day itself.
#[derive(Clone, Copy, PartialEq, Eq, Structural, Debug)]
pub struct Anchor(pub Date);

impl Default for Anchor {
    /// Today, by the machine's clock.
    fn default() -> (anchor: Self)
        ensures
            anchor.0.valid(),
    {
        Anchor(Date { days: today() })
    }
}

impl Anchor {
    /// The anchor's part of a URL path: year, month and day.
    pub fn to_text(&self) -> (text: String)
        requires
            self.0.valid(),
        ensures
            text@ == date_text(self.0.days, "%Y-%m-%d"@),
            forall|otherwise: Date| #[trigger] Anchor::named(text@, otherwise) == *self,
    {
        format_day(self.0.days, "%Y-%m-%d")
    }

    /// The anchor that a part of a URL path names, or `otherwise`.
    pub open spec fn named(text: Seq<char>, otherwise: Date) -> Anchor {
        match parsed_day(text) {
            Some(days) => Anchor(Date { days }),
            None => Anchor(otherwise),
        }
    }

    /// Reads a part of a URL path; a malformed date falls back to `otherwise`.
    pub fn from_text_or(text: &str, otherwise: Date) -> (anchor: Anchor)
        requires
            otherwise.valid(),
        ensures
            anchor == Anchor::named(text@, otherwise),
            anchor.0.valid(),
    {
        match parse_day(text) {
            Some(days) => Anchor(Date { days }),
            None => Anchor(otherwise),
        }
    }

    /// Reads a part of a URL path; a malformed date falls back to today.
    pub fn from_text(text: &str) -> (anchor: Anchor)
        ensures
            exists|today: Date| #[trigger] today.valid() && anchor == Anchor::named(text@, today),
            anchor.0.valid(),
    {
        let today = Date { days: today() };
        Anchor::from_text_or(text, today)
    }
}

/// The Monday of a day's week.
pub open spec fn monday_of(date: Date) -> int {
    date.days - weekday(date.days as int)
}

/// The Monday of the week that `date` is in.
pub fn iso_week_monday(date: Date) -> (monday: Date)
    requires
        date.valid(),
        valid_day(monday_of(date)),
    ensures
        monday.days == monday_of(date),
        monday.valid(),
{
    Date { days: date.days - weekday_of(date.days) as i32 }
}

/// The place of the anchor day in its week, from 0 for Monday on.
pub fn day_offset(date: Date) -> (offset: usize)
    requires
        date.valid(),
    ensures
        offset == weekday(date.days as int),
        offset < 7,
{
    weekday_of(date.days) as usize
}

/// Whether the week that starts at `week_start` is today's.
pub fn is_this_week(week_start: Date, today: Date) -> (this_week: bool)
    requires
        today.valid(),
        valid_day(monday_of(today)),
    ensures
        this_week == (week_start.days == monday_of(today)),
{
    week_start.days == iso_week_monday(today).days
}

/// What the week shown is called.
pub fn week_name(this_week: bool) -> (name: &'static str)
    ensures
        name@ == (if this_week {
            "This week"@
        } else {
            "Week"@
        }),
{
    if this_week {
        "This week"
    } else {
        "Week"
    }
}

/// The day of the week that a place in the day strip leads to.
pub fn day_at(week_start: Date, day: usize) -> (date: Date)
    requires
        day < 7,
        week_start.valid(),
        valid_day(week_start.days + day),
    ensures
        date.days == week_start.days + day,
        date.valid(),
        offset_in_week(date, week_start) == Some(day),
{
    Date { days: week_start.days + day as i32 }
}

/// The class of a place in the day strip.
pub fn day_item_class(selected: bool) -> (class: &'static str)
    ensures
        class@ == (if selected {
            "ts-dayitem active"@
        } else {
            "ts-dayitem"@
        }),
{
    if selected {
        "ts-dayitem active"
    } else {
        "ts-dayitem"
    }
}

/// A day's Monday is a Monday, and the day is in the week that it starts.
pub proof fn monday_starts_the_week(date: Date)
    ensures
        weekday(monday_of(date)) == 0,
        monday_of(date) <= date.days < monday_of(date) + 7,
        date.days - monday_of(date) == weekday(date.days as int),
{
}

/// The short name of a weekday, from 0 for Monday on.
pub open spec fn weekday_name(i: int) -> Seq<char> {
    if i == 0 {
        "Mon"@
    } else if i == 1 {
        "Tue"@
    } else if i == 2 {
        "Wed"@
    } else if i == 3 {
        "Thu"@
    } else if i == 4 {
        "Fri"@
    } else if i == 5 {
        "Sat"@
    } else {
        "Sun"@
    }
}

/// The short name of a weekday, from 0 for Monday to 6.
pub fn day_label(i: usize) -> (label: &'static str)
    requires
        i < 7,
    ensures
        label@ == weekday_name(i as int),
{
    if i == 0 {
        "Mon"
    } else if i == 1 {
        "Tue"
    } else if i == 2 {
        "Wed"
    } else if i == 3 {
        "Thu"
    } else if i == 4 {
        "Fri"
    } else if i == 5 {
        "Sat"
    } else {
        "Sun"
    }
}

/// How many days the calendar shows at once.
#[derive(Clone, Copy, PartialEq, Eq, Structural, Debug)]
pub enum CalSpan {
    /// Monday to Sunday.
    Week,
    /// Monday to Friday.
    WorkWeek,
    /// The anchor day alone.
    Day,
}

impl CalSpan {
    /// The weekdays that a span shows.
    pub open spec fn days(self, anchor: usize) -> Seq<usize> {
        match self {
            CalSpan::Week => Seq::new(7, |i: int| i as usize),
            CalSpan::WorkWeek => Seq::new(5, |i: int| i as usize),
            CalSpan::Day => seq![
                if anchor > 6 {
                    6
                } else {
                    anchor
                },
            ],
        }
    }

    /// The weekdays to show, from 0 for Monday on, given the anchor day's own.
    pub fn visible_days(self, anchor: usize) -> (days: Vec<usize>)
        ensures
            days@ == self.days(anchor),
            forall|k: int| 0 <= k < days.len() ==> #[trigger] days@[k] < 7,
    {
        let mut days: Vec<usize> = Vec::new();
        match self {
            CalSpan::Day => {
                days.push(
                    if anchor > 6 {
                        6
                    } else {
                        anchor
                    },
                );
            },
            _ => {
                let n: usize = if self == CalSpan::Week {
                    7
                } else {
                    5
                };
                let mut i: usize = 0;
                while i < n
                    invariant
                        i <= n <= 7,
                        days@ == Seq::new(i as nat, |k: int| k as usize),
                    decreases n - i,
                {
                    days.push(i);
                    i += 1;
                }
            },
        }
        days
    }

    /// The span's name in the menu.
    pub open spec fn name(self) -> Seq<char> {
        match self {
            CalSpan::Week => "Week view"@,
            CalSpan::WorkWeek => "5-day view"@,
            CalSpan::Day => "Day view"@,
        }
    }

    /// The span's name in the menu.
    pub fn label(self) -> (label: &'static str)
        ensures
            label@ == self.name(),
    {
        match self {
            CalSpan::Week => "Week view",
            CalSpan::WorkWeek => "5-day view",
            CalSpan::Day => "Day view",
        }
    }
}

} // verus!
