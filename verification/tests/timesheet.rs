use chrono::Datelike;
use chrono::NaiveDate;
use horae::date::Date;
use horae::projects::budget::BudgetKind;
use horae::projects::budget::Project;
use horae::projects::budget::ProjectType;
use horae::timesheet::calendar::cal_time_label;
use horae::timesheet::calendar::CalLabels;
use horae::timesheet::calendar::day_heading;
use horae::timesheet::calendar::ev_class;
use horae::timesheet::calendar::event_style;
use horae::timesheet::calendar::first_minute;
use horae::timesheet::calendar::free_slot;
use horae::timesheet::calendar::grid_style;
use horae::timesheet::calendar::hint_top;
use horae::timesheet::calendar::is_free;
use horae::timesheet::calendar::lock_title;
use horae::timesheet::calendar::place_day;
use horae::timesheet::calendar::scroll_px;
use horae::timesheet::calendar::shown_total;
use horae::timesheet::calendar::to_block_height;
use horae::timesheet::calendar::to_pixels;
use horae::timesheet::calendar::total_label;
use horae::timesheet::calendar::untimed_ordered;
use horae::timesheet::dialog::add_default_date;
use horae::timesheet::dialog::CellEdit;
use horae::timesheet::dialog::commit_cell;
use horae::timesheet::dialog::day_name;
use horae::timesheet::dialog::dialog_title;
use horae::timesheet::dialog::DialogRequest;
use horae::timesheet::dialog::DialogSave;
use horae::timesheet::dialog::entry_minutes;
use horae::timesheet::dialog::EntryAction;
use horae::timesheet::dialog::EntryDialog;
use horae::timesheet::dialog::picked_row;
use horae::timesheet::dialog::project_option;
use horae::timesheet::dialog::range_label;
use horae::timesheet::dialog::resume_timer;
use horae::timesheet::dialog::save_dialog;
use horae::timesheet::dialog::step;
use horae::timesheet::drag::CalDrag;
use horae::timesheet::drag::drag_commit;
use horae::timesheet::drag::DragKind;
use horae::timesheet::drag::DragOutcome;
use horae::timesheet::drag::drawn_box;
use horae::timesheet::drag::event_box;
use horae::timesheet::drag::ghost_box;
use horae::timesheet::drag::live_span;
use horae::timesheet::entry::EntryState;
use horae::timesheet::entry::TimeEntry;
use horae::timesheet::grid::add_row;
use horae::timesheet::grid::Cell;
use horae::timesheet::grid::cell_minutes;
use horae::timesheet::grid::column_total;
use horae::timesheet::grid::names_of;
use horae::timesheet::grid::remove_row;
use horae::timesheet::grid::row_cell;
use horae::timesheet::grid::RowKey;
use horae::timesheet::grid::shown_day;
use horae::timesheet::grid::shown_notes;
use horae::timesheet::grid::week_rows;
use horae::timesheet::lanes::timed_lanes;
use horae::timesheet::names::from_list;
use horae::timesheet::names::name_map;
use horae::timesheet::names::Named;
use horae::timesheet::names::project_clients;
use horae::timesheet::view::Anchor;
use horae::timesheet::view::CalSpan;
use horae::timesheet::view::day_at;
use horae::timesheet::view::day_col_class;
use horae::timesheet::view::day_item_class;
use horae::timesheet::view::day_label;
use horae::timesheet::view::day_offset;
use horae::timesheet::view::format_hm;
use horae::timesheet::view::is_this_week;
use horae::timesheet::view::iso_week_monday;
use horae::timesheet::view::pager_label;
use horae::timesheet::view::pick_view;
use horae::timesheet::view::today_offset;
use horae::timesheet::view::value_cell_class;
use horae::timesheet::view::view_label;
use horae::timesheet::view::ViewMode;
use horae::timesheet::view::week_name;
use horae::timesheet::week::by_day;
use horae::timesheet::week::daily_totals;
use horae::timesheet::week::day_entries;
use horae::timesheet::week::entries_request;
use horae::timesheet::week::submit_bar;
use horae::timesheet::week::SubmitBar;
use horae::timesheet::week::week_entries;
use horae::timesheet::week::week_total;
use std::collections::HashMap;
use uuid::Uuid;

fn ymd(y: i32, m: u32, d: u32) -> Date {
    Date { days: NaiveDate::from_ymd_opt(y, m, d).unwrap().num_days_from_ce() }
}

#[test]
fn format_hm_pads_minutes() {
    assert_eq!(format_hm(65), "1:05");
}

#[test]
fn format_hm_clamps_negative_to_zero() {
    assert_eq!(format_hm(-5), "0:00");
}

#[test]
fn today_offset_is_zero_on_the_monday() {
    let monday = ymd(2026, 7, 13);
    assert_eq!(today_offset(monday, monday), Some(0));
}

#[test]
fn today_offset_is_six_on_the_sunday() {
    let monday = ymd(2026, 7, 13);
    assert_eq!(today_offset(ymd(2026, 7, 19), monday), Some(6));
}

#[test]
fn today_offset_is_none_before_the_week() {
    let monday = ymd(2026, 7, 13);
    assert_eq!(today_offset(ymd(2026, 7, 12), monday), None);
}

#[test]
fn today_offset_is_none_after_the_week() {
    let monday = ymd(2026, 7, 13);
    assert_eq!(today_offset(ymd(2026, 7, 20), monday), None);
}

#[test]
fn day_col_class_marks_today() {
    assert_eq!(day_col_class("c", Some(2), 2), "c today");
}

#[test]
fn day_col_class_marks_weekend() {
    assert_eq!(day_col_class("c", None, 5), "c weekend");
}

#[test]
fn day_col_class_today_wins_over_weekend() {
    assert_eq!(day_col_class("c", Some(6), 6), "c today");
}

#[test]
fn day_col_class_plain_weekday() {
    assert_eq!(day_col_class("c", None, 1), "c");
}

#[test]
fn value_cell_class_empty_wins_over_today() {
    assert_eq!(value_cell_class("v", 0, Some(2), 2), "v empty");
}

#[test]
fn value_cell_class_marks_today_when_nonzero() {
    assert_eq!(value_cell_class("v", 30, Some(2), 2), "v today");
}

#[test]
fn views_and_dates_read_back_from_the_path() {
    for mode in [ViewMode::Day, ViewMode::Week, ViewMode::Calendar] {
        assert_eq!(ViewMode::from_text(mode.as_text()), mode);
    }
    assert_eq!(ViewMode::from_text("month"), ViewMode::default());
    let date = ymd(2026, 7, 4);
    assert_eq!(Anchor(date).to_text(), "2026-07-04");
    let today = ymd(2026, 1, 1);
    assert_eq!(Anchor::from_text_or("2026-07-04", today), Anchor(date));
    assert_eq!(Anchor::from_text_or("yesterday", today), Anchor(today));
    assert_eq!(Anchor::from_text("2026-07-04"), Anchor(date));
    assert_eq!(Anchor::from_text(""), Anchor::default());
}

#[test]
fn weeks_start_on_monday() {
    for day in 13..20 {
        assert_eq!(iso_week_monday(ymd(2026, 7, day)), ymd(2026, 7, 13));
    }
    assert_eq!(iso_week_monday(ymd(2026, 7, 20)), ymd(2026, 7, 20));
    assert_eq!((day_label(0), day_label(6)), ("Mon", "Sun"));
}

#[test]
fn calendars_show_a_week_a_work_week_or_a_day() {
    assert_eq!(CalSpan::Week.visible_days(3), [0, 1, 2, 3, 4, 5, 6]);
    assert_eq!(CalSpan::WorkWeek.visible_days(6), [0, 1, 2, 3, 4]);
    assert_eq!(CalSpan::Day.visible_days(6), [6]);
    assert_eq!(CalSpan::Day.visible_days(9), [6]);
}

fn entry(id: u128, date: Date, minutes: i32, start_minute: Option<i32>) -> TimeEntry {
    TimeEntry {
        id,
        project_id: 1,
        task_id: 2,
        spent_date: date,
        minutes,
        notes: Some("notes".into()),
        billable: false,
        is_running: false,
        state: EntryState::Open,
        start_minute,
        sort_order: 0,
        created_at: 0,
    }
}

#[test]
fn overlapping_entries_get_lanes_of_their_own() {
    let day = ymd(2026, 7, 13);
    let entries = vec![
        entry(1, day, 60, Some(540)),
        entry(2, day, 60, Some(570)),
        entry(3, day, 30, None),
        entry(4, day, 30, Some(600)),
        entry(5, day, 30, Some(700)),
    ];
    let (lane_of, lanes_of) = timed_lanes(&entries);
    assert_eq!(lane_of, [0, 1, 0, 0, 0]);
    assert_eq!(lanes_of, [2, 2, 1, 2, 1]);
}

#[test]
fn untimed_entries_are_stacked_from_the_top() {
    let day = ymd(2026, 7, 13);
    let mut first = entry(1, day, 60, None);
    first.sort_order = 2;
    let mut second = entry(2, day, 30, None);
    second.sort_order = 1;
    let timed = entry(3, day, 90, Some(600));
    let entries = vec![first, second, timed];
    let order: Vec<_> = untimed_ordered(&entries).iter().map(|entry| entry.id).collect();
    assert_eq!(order, [2, 1]);
    let labels = CalLabels {
        projects: HashMap::from([(1, "Apollo".to_string())]),
        tasks: HashMap::new(),
        clients: HashMap::from([(1, ("Ada".to_string(), "EUR".to_string()))]),
    };
    let placed = place_day(&entries, &labels);
    assert_eq!(placed.occupied, [(30, 90), (0, 30), (600, 690)]);
    let shown: Vec<_> = placed
        .events
        .iter()
        .map(|event| (event.top, event.height, event.timed))
        .collect();
    assert_eq!(shown, [(24, 48, false), (0, 24, false), (480, 72, true)]);
    assert_eq!(placed.events[2].project, "Apollo");
    assert_eq!(placed.events[2].duration, "1:30");
    assert!(!is_free(&placed.occupied, 650) && is_free(&placed.occupied, 690));
    assert_eq!(first_minute(&vec![placed.occupied], &vec![0, 3]), 0);
    assert_eq!(first_minute(&vec![vec![]], &vec![0]), 420);
}

#[test]
fn calendar_measures_follow_the_hour() {
    assert_eq!((to_pixels(90), to_pixels(-1), to_block_height(5)), (72, 0, 20));
    assert_eq!((scroll_px(20), scroll_px(90)), (0, 48));
    assert_eq!(cal_time_label(540, 2000), "9:00–24:00");
    assert_eq!(shown_total(&vec![1, 2, 4], &vec![0, 2]), 5);
    assert_eq!((total_label(1), total_label(5)), ("Day total", "Week total"));
    assert_eq!(
        grid_style(0),
        "grid-template-columns: 56px repeat(1, 1fr) 100px; min-width: 262px;"
    );
    assert_eq!(lock_title(EntryState::Approved), "Approved — can't be moved");
    assert_eq!(
        ev_class(false, false, true, EntryState::Invoiced),
        "ts-cal-event timed locked"
    );
    assert_eq!(ev_class(true, true, true, EntryState::Open), "ts-cal-event dragging");
}

#[test]
fn a_moved_entry_follows_the_pointer_where_it_was_grabbed() {
    let monday = ymd(2026, 7, 13);
    let moved = entry(1, monday, 60, Some(540));
    let mut drag = CalDrag::press(0, &moved, 15, 0);
    assert_eq!((drag.kind, drag.cur_min), (DragKind::Move, 555));
    assert_eq!(drag.clamp_request(15), None);
    let entries = vec![moved.clone()];
    assert!(matches!(
        drag_commit(&drag, monday, &entries, 15, 0),
        DragOutcome::OpenEdit(opened) if opened.id == 1
    ));
    drag.follow(2, 615);
    assert_eq!(drag.move_start(), 600);
    assert_eq!(live_span(&drag, 2, 1, 15), Some((600, 660)));
    assert_eq!(live_span(&drag, 0, 1, 15), None);
    assert_eq!(drag.clamp_request(15), Some((600, 60)));
    let DragOutcome::Reschedule { id, date, start, minutes } =
        drag_commit(&drag, monday, &entries, 15, 60)
    else {
        panic!("the entry is moved")
    };
    assert_eq!(id, Uuid::from_u128(1).to_string());
    assert_eq!((date.as_str(), start, minutes), ("2026-07-15", 600, 60));
    drag.follow(2, 2000);
    assert_eq!(drag.move_start(), 1439);
}

#[test]
fn resized_and_drawn_slots_keep_the_shortest_duration() {
    let monday = ymd(2026, 7, 13);
    let resized = entry(1, monday, 60, Some(540));
    let mut drag = CalDrag::resize(0, &resized);
    drag.follow(0, 541);
    assert_eq!(drag.resize_end(15), 555);
    assert_eq!(drag.clamp_request(15), Some((540, 15)));
    assert!(matches!(
        drag_commit(&drag, monday, &vec![], 15, 15),
        DragOutcome::Reschedule { start: 540, minutes: 15, .. }
    ));
    let mut drawn = CalDrag::create(1, 600);
    assert_eq!(drawn.clamp_request(15), Some((600, 60)));
    drawn.follow(1, 510);
    assert_eq!(drawn.clamp_request(15), Some((510, 90)));
    let DragOutcome::OpenAdd { day, start, duration } =
        drag_commit(&drawn, monday, &vec![], 15, 90)
    else {
        panic!("a new entry is opened")
    };
    assert_eq!((day, start, duration.as_str()), (ymd(2026, 7, 14), 510, "1:30"));
    assert_eq!(drawn_box(&drawn), (408, 72));
    assert_eq!(ghost_box(60, 600), (456, 48));
}

#[test]
fn locked_entries_only_open() {
    let monday = ymd(2026, 7, 13);
    let mut locked = entry(1, monday, 60, Some(540));
    locked.state = EntryState::Approved;
    let mut drag = CalDrag::press(0, &locked, 0, 0);
    drag.follow(1, 700);
    assert!(matches!(
        drag_commit(&drag, monday, &vec![], 15, 60),
        DragOutcome::OpenEdit(_)
    ));
}

#[test]
fn a_reordered_entry_goes_where_it_is_dropped() {
    let monday = ymd(2026, 7, 13);
    let mut entries = vec![
        entry(1, monday, 60, None),
        entry(2, monday, 60, None),
        entry(3, monday, 60, None),
    ];
    for (order, entry) in entries.iter_mut().enumerate() {
        entry.sort_order = order as i32;
    }
    let mut drag = CalDrag::press(0, &entries[0], 0, 10);
    assert_eq!(drag.kind, DragKind::Reorder);
    assert!(drag.reorders(1) && !drag.reorders(2));
    drag.follow(0, 40);
    let DragOutcome::Reorder { date, ids } = drag_commit(&drag, monday, &entries, 15, 0) else {
        panic!("the stack is reordered")
    };
    assert_eq!(date, "2026-07-13");
    let expected: Vec<_> =
        [2u128, 1, 3].iter().map(|id| Uuid::from_u128(*id).to_string()).collect();
    assert_eq!(ids, expected);
}

#[test]
fn a_previewed_block_shows_its_new_times() {
    let monday = ymd(2026, 7, 13);
    let labels = CalLabels {
        projects: HashMap::new(),
        tasks: HashMap::new(),
        clients: HashMap::new(),
    };
    let placed = place_day(&vec![entry(1, monday, 60, Some(540))], &labels);
    assert_eq!(
        event_box(&placed.events[0], Some((600, 660))),
        (480, 48, "10:00–11:00".to_string())
    );
    let still = event_box(&placed.events[0], None);
    assert_eq!((still.0, still.1), (432, 48));
}

#[test]
fn week_grids_hold_every_entry_of_the_week() {
    let monday = ymd(2026, 7, 13);
    let mut other = entry(3, ymd(2026, 7, 19), 15, None);
    other.task_id = 9;
    let entries = vec![
        entry(1, monday, 60, None),
        entry(2, monday, 30, None),
        other,
        entry(4, ymd(2026, 7, 20), 99, None),
    ];
    assert_eq!(week_entries(&entries, monday).len(), 3);
    assert_eq!(day_entries(&entries, monday, 0).len(), 2);
    let days = by_day(&entries, monday);
    let totals = daily_totals(&days);
    assert_eq!(totals, [90, 0, 0, 0, 0, 0, 15]);
    assert_eq!(week_total(&totals), 105);
    let pending = vec![RowKey { project_id: 7, task_id: 7 }];
    let rows = week_rows(&entries, monday, &pending);
    assert_eq!(rows.len(), 3);
    let summed: i32 = rows.iter().map(|row| row.mins[0]).sum();
    assert_eq!(summed, 90);
    let row = rows.iter().find(|row| row.key.task_id == 2).unwrap();
    assert!(matches!(
        row_cell(row, 0, None),
        Cell::Total { text, .. } if text == "1:30"
    ));
    assert!(matches!(
        row_cell(row, 1, Some(1)),
        Cell::Input { existing: None, value, .. } if value.is_empty()
    ));
    let sunday = rows.iter().find(|row| row.key.task_id == 9).unwrap();
    assert!(matches!(
        row_cell(sunday, 6, None),
        Cell::Input { existing: Some(3), value, .. } if value == "0:15"
    ));
}

#[test]
fn rows_are_added_once_and_removed_with_their_entries() {
    let monday = ymd(2026, 7, 13);
    let key = RowKey { project_id: 1, task_id: 2 };
    let mut pending = vec![];
    add_row(&mut pending, key);
    add_row(&mut pending, key);
    assert_eq!(pending.len(), 1);
    let entries = vec![entry(1, monday, 60, None), entry(2, monday, 60, None)];
    assert_eq!(remove_row(&mut pending, &entries, key), [1, 2]);
    assert!(pending.is_empty());
    let names = names_of(&HashMap::from([(1, "Apollo".to_string())]), &HashMap::new(), key);
    assert_eq!(names.project, "Apollo");
    assert_eq!(shown_notes(&entries[0]).as_deref(), Some("notes"));
    assert_eq!((shown_day(-3), shown_day(4), shown_day(99)), (0, 4, 6));
}

#[test]
fn cells_take_durations_of_a_day_at_most() {
    assert_eq!(cell_minutes("  ", None), Some(0));
    assert_eq!(cell_minutes("1:30", Some(90)), Some(90));
    assert_eq!(cell_minutes("24:00", Some(1440)), Some(1440));
    assert_eq!(cell_minutes("24:01", Some(1441)), None);
    assert_eq!(cell_minutes("soon", None), None);
    assert_eq!(column_total(90), "1:30");
    let monday = ymd(2026, 7, 13);
    let entries = vec![entry(5, monday, 60, None)];
    let edit = |existing, minutes| CellEdit {
        project_id: 1,
        task_id: 2,
        day: monday,
        existing,
        minutes,
    };
    assert!(matches!(commit_cell(&entries, edit(Some(5), 0)), EntryAction::Delete { .. }));
    assert!(matches!(
        commit_cell(&entries, edit(Some(5), 15)),
        EntryAction::Update { minutes: 15, notes: Some(_), billable: false, .. }
    ));
    assert!(matches!(commit_cell(&entries, edit(None, 0)), EntryAction::Nothing));
    assert!(matches!(
        commit_cell(&entries, edit(None, 15)),
        EntryAction::Create { minutes: 15, notes: None, billable: true, day, .. }
            if day == "2026-07-13"
    ));
}

#[test]
fn weeks_are_submitted_while_something_is_open() {
    let monday = ymd(2026, 7, 13);
    assert_eq!(submit_bar(&vec![]), SubmitBar::Nothing);
    let open = entry(1, monday, 60, None);
    assert_eq!(submit_bar(&vec![open.clone()]), SubmitBar::Submit { disabled: false });
    let mut sent = open.clone();
    sent.state = EntryState::Submitted;
    assert_eq!(
        submit_bar(&vec![open, sent.clone()]),
        SubmitBar::Submit { disabled: true }
    );
    assert_eq!(submit_bar(&vec![sent]), SubmitBar::Submitted);
}

fn dialog() -> EntryDialog {
    EntryDialog {
        open: None,
        editing: None,
        project: String::new(),
        task: String::new(),
        notes: String::new(),
        duration: String::new(),
        start: None,
        billable: true,
        error: None,
        saving: false,
    }
}

#[test]
fn dialogs_refuse_what_cannot_be_saved() {
    let today = ymd(2026, 7, 13);
    let other = ymd(2026, 7, 14);
    let mut shown = dialog();
    shown.open_add(other, None, None);
    assert!(matches!(save_dialog(&mut shown, today, Some(60)), DialogSave::Refused));
    assert_eq!(shown.error.as_deref(), Some("Select a project and task."));
    shown.open_add(other, Some(1), Some(2));
    assert_eq!(shown.duration, "0:00");
    for (parsed, message) in [
        (None, "Enter a duration like 1:30."),
        (Some(0), "Duration must be greater than zero."),
        (Some(1441), "Duration can't exceed 24 hours."),
    ] {
        assert!(matches!(save_dialog(&mut shown, today, parsed), DialogSave::Refused));
        assert_eq!(shown.error.as_deref(), Some(message));
        assert_eq!(entry_minutes(parsed), Err(message.to_string()));
    }
    shown.notes = "  hello ".into();
    assert!(matches!(
        save_dialog(&mut shown, today, Some(90)),
        DialogSave::Persist(EntryAction::Create { minutes: 90, notes: Some(notes), .. })
            if notes == "hello"
    ));
    assert_eq!(shown.save_label(today, Some(90)), "Saving…");
    assert!(matches!(save_dialog(&mut shown, today, Some(90)), DialogSave::Refused));
    assert!(!shown.replied(DialogRequest::Save, Err("offline".into())));
    assert_eq!(shown.error.as_deref(), Some("Could not save: offline"));
    assert_eq!(shown.open, Some(other));
    assert_eq!(shown.delete(), None);
    assert_eq!(shown.save_label(today, Some(90)), "Save entry");
    assert!(shown.replied(DialogRequest::Save, Ok(())));
    assert_eq!(shown.open, None);
}

#[test]
fn an_empty_entry_of_today_starts_the_timer() {
    let today = ymd(2026, 7, 13);
    let mut shown = dialog();
    shown.open_add(today, Some(1), Some(2));
    assert!(shown.timer_mode(today, None));
    assert!(!shown.timer_mode(today, Some(1)));
    assert!(matches!(
        save_dialog(&mut shown, today, Some(0)),
        DialogSave::StartTimer { notes: None, project_id, .. }
            if project_id == Uuid::from_u128(1).to_string()
    ));
    shown.replied(DialogRequest::StartTimer, Err("x".into()));
    assert_eq!(shown.error.as_deref(), Some("Could not start timer: x"));
    assert_eq!(shown.save_label(today, None), "Start timer");
    shown.type_start("9:00", Some(540));
    assert_eq!(shown.start, Some(540));
    assert!(!shown.timer_mode(today, None));
    shown.type_start("9:", None);
    assert_eq!(shown.start, Some(540));
    shown.type_start(" ", None);
    assert_eq!(shown.start, None);
    shown.open_slot(today, Some(1), Some(2), 600, "0:30".into());
    assert_eq!((shown.start, shown.duration.as_str()), (Some(600), "0:30"));
    shown.open_edit(&entry(8, today, 75, Some(540)));
    assert_eq!((shown.editing, shown.duration.as_str()), (Some(8), "1:15"));
    assert!(matches!(
        save_dialog(&mut shown, today, Some(60)),
        DialogSave::Persist(EntryAction::Update {
            minutes: 60,
            billable: false,
            start_minute: Some(540),
            ..
        })
    ));
    shown.replied(DialogRequest::Save, Err("x".into()));
    assert_eq!(shown.delete(), Some(Uuid::from_u128(8).to_string()));
    assert_eq!(shown.delete(), None);
    shown.replied(DialogRequest::Delete, Err("x".into()));
    assert_eq!(shown.error.as_deref(), Some("Could not delete: x"));
    shown.close();
    assert_eq!(shown.open, None);
    assert!(matches!(
        resume_timer(&entry(8, today, 75, None)),
        DialogSave::StartTimer { notes: Some(notes), .. } if notes == "notes"
    ));
}

#[test]
fn headings_name_the_days_shown() {
    let monday = ymd(2026, 7, 13);
    assert_eq!(step(ViewMode::Week, monday, true), ymd(2026, 7, 20));
    assert_eq!(step(ViewMode::Day, step(ViewMode::Day, monday, true), false), monday);
    assert_eq!(add_default_date(ymd(2026, 7, 15), monday), ymd(2026, 7, 15));
    assert_eq!(add_default_date(ymd(2026, 7, 25), monday), monday);
    assert!(range_label(monday).contains("Jul"));
    assert!(day_name(monday, monday).starts_with("Today"));
    assert!(day_name(monday, ymd(2026, 7, 14)).starts_with("Monday"));
    assert!(dialog_title(true, monday).starts_with("Edit"));
    assert!(dialog_title(false, monday).starts_with("New"));
    assert_eq!(project_option(&Some("AP".into()), "Apollo"), "[AP] Apollo");
    assert_eq!(project_option(&None, "Apollo"), "Apollo");
    let (project, task) = (Uuid::from_u128(1).to_string(), Uuid::from_u128(2).to_string());
    assert_eq!(picked_row(&project, &task), Some(RowKey { project_id: 1, task_id: 2 }));
    assert_eq!(picked_row(&project, ""), None);
}

#[test]
fn the_week_shown_is_named_and_asked_for() {
    let monday = ymd(2026, 7, 13);
    for mode in [ViewMode::Day, ViewMode::Week, ViewMode::Calendar] {
        assert_eq!(pick_view(view_label(mode)), mode);
    }
    assert_eq!(pager_label(ViewMode::Day, true), "Next day");
    assert_eq!(pager_label(ViewMode::Calendar, false), "Previous week");
    assert_eq!(day_offset(ymd(2026, 7, 19)), 6);
    assert_eq!(day_at(monday, 6), ymd(2026, 7, 19));
    assert!(is_this_week(monday, ymd(2026, 7, 17)) && !is_this_week(monday, ymd(2026, 7, 20)));
    assert_eq!((week_name(true), week_name(false)), ("This week", "Week"));
    assert_eq!(day_item_class(true), "ts-dayitem active");
    let request = entries_request(monday);
    assert_eq!(
        (request.from.as_str(), request.to.as_str(), request.limit),
        ("2026-07-13", "2026-07-19", 200)
    );
}

#[test]
fn free_slots_are_hinted_at_unless_something_is_dragged() {
    let occupied = vec![(60, 120)];
    assert_eq!(free_slot(&occupied, 2, 119), None);
    let slot = free_slot(&occupied, 2, 120);
    assert_eq!(slot, Some((2, 120)));
    assert_eq!(hint_top(false, slot, 2), Some(96));
    assert_eq!(hint_top(true, slot, 2), None);
    assert_eq!(hint_top(false, slot, 1), None);
    assert_eq!(day_heading(ymd(2026, 7, 13), 2), "Wed 15");
    assert_eq!(
        event_style(48, 20, 1, 2),
        "top: 48px; height: 20px; left: calc(4px + 1 * (100% - 8px) / 2); \
         width: calc((100% - 8px) / 2 - 2px); right: auto;"
    );
}

#[test]
fn names_come_from_the_lists_that_were_loaded() {
    assert!(from_list::<u8, ()>(&None).is_none());
    assert!(from_list::<u8, ()>(&Some(Err(()))).is_none());
    assert_eq!(from_list::<u8, ()>(&Some(Ok(vec![3]))), Some(&vec![3]));
    let clients = name_map(&vec![
        Named { id: 1, name: "old".into() },
        Named { id: 1, name: "Ada".into() },
    ]);
    let project = |id, client_id| Project {
        id,
        client_id,
        name: "x".into(),
        code: None,
        project_type: ProjectType::FixedFee,
        currency: "EUR".into(),
        rate_cents: None,
        budget_kind: BudgetKind::Unset,
        budget_amount_cents: None,
        budget_minutes: None,
        active: true,
    };
    let shown = project_clients(&vec![project(5, 1), project(6, 2)], &clients);
    assert_eq!(shown[&5], ("Ada".to_string(), "EUR".to_string()));
    assert_eq!(shown[&6], (String::new(), "EUR".to_string()));
}

#[test]
fn entries_without_duration_get_a_lane() {
    let day = ymd(2026, 7, 13);
    let alone = vec![entry(1, day, 0, Some(540))];
    assert_eq!(timed_lanes(&alone), (vec![0], vec![1]));
    let run_over = vec![entry(1, day, 60, Some(500)), entry(2, day, 0, Some(540))];
    assert_eq!(timed_lanes(&run_over), (vec![0, 1], vec![2, 2]));
    let apart = vec![
        entry(1, day, 0, Some(540)),
        entry(2, day, -30, Some(540)),
        entry(3, day, 30, Some(540)),
    ];
    assert_eq!(timed_lanes(&apart), (vec![0, 0, 0], vec![1, 1, 1]));
}

#[test]
fn a_run_has_as_many_lanes_as_entries_at_one_minute() {
    let day = ymd(2026, 7, 13);
    let entries = vec![
        entry(1, day, 60, Some(540)),
        entry(2, day, 60, Some(560)),
        entry(3, day, 60, Some(580)),
        entry(4, day, 60, Some(600)),
        entry(5, day, 60, Some(620)),
    ];
    assert_eq!(timed_lanes(&entries).1, [3, 3, 3, 3, 3]);
    let busiest = (0..1440)
        .map(|minute| {
            let runs = |e: &&TimeEntry| {
                let start = e.start_minute.unwrap();
                start <= minute && minute < start + e.minutes
            };
            entries.iter().filter(runs).count()
        })
        .max();
    assert_eq!(busiest, Some(3));
}

#[test]
fn the_start_of_an_entry_is_shown() {
    let mut shown = dialog();
    shown.start = Some(545);
    assert_eq!(shown.start_text(), "9:05");
    shown.start = None;
    assert_eq!(shown.start_text(), "");
}

#[test]
fn a_moved_entry_asks_nothing_of_the_stack() {
    let monday = ymd(2026, 7, 13);
    let moved = entry(1, monday, 60, Some(540));
    let mut drag = CalDrag::press(0, &moved, 15, 0);
    drag.follow(2, 615);
    let wednesday = ymd(2026, 7, 15);
    let entries = vec![
        moved.clone(),
        entry(2, wednesday, i32::MAX, None),
        entry(3, wednesday, i32::MAX, None),
    ];
    assert!(matches!(
        drag_commit(&drag, monday, &entries, 15, 60),
        DragOutcome::Reschedule { start: 600, minutes: 60, .. }
    ));
}
