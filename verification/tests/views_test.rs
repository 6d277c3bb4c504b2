use carpem::action::{Action, ActionTarget};
use carpem::calendar_view::{Calendar, CalendarRequest};
use carpem::components::ComponentName;
use carpem::date::{CivilDate, DateTime, TimeDelta, TimeOfDay, Weekday};
use carpem::day_list::{
    deletion_options, edit_duration, edit_recurrence, recurrence_from, recurrence_selections, weekday_choices,
    weekdays_at, CalendarInfo, DayListRequest, RecurrenceSelection,
};
use carpem::event::{Event, RecurrenceDeletion, RecurrenceInterval};
use carpem::tags_view::{
    add_picked_tags, is_new_tag_name, remove_picked_tags, tag_options, tags_to_choose, CurrentTagFilter,
    TagFilterRequest,
};
use carpem::task::{Status, Tag, Task};
use carpem::task_manager::TaskManagerError;
use carpem::task_view::{
    find_task_options, reply_actions, reminder_input_start, row_colors, task_editor_contents, task_row,
    toggle_timer, RowColors, TaskComponent, TaskReply, TaskRequest,
};

fn at(y: i32, mo: u32, d: u32, h: u32, mi: u32, s: u32) -> DateTime {
    DateTime {
        date: CivilDate { year: y, month: mo, day: d },
        time: TimeOfDay { hour: h, minute: mi, second: s, nanosecond: 0 },
    }
}

fn event(id: Option<i64>, title: &str, date: DateTime) -> Event {
    Event::new(id, title, "about it", None, date, None, None, vec![])
}

fn task(id: Option<i64>, title: &str) -> Task {
    Task::new(id, title, "desc", 3, vec![], Status::Pending, at(2025, 1, 1, 0, 0, 0), None, None, None, None)
}

fn is_date_update(a: &Action, d: DateTime) -> bool {
    matches!(a, Action::CurrentDateUpdated(x) if *x == d)
}

#[test]
fn calendar_moves_by_days_and_weeks() {
    let mut cal = Calendar { display_date: at(2025, 2, 27, 9, 15, 0) };
    let step = cal.update(&Action::GoToNextDay);
    assert_eq!(cal.display_date, at(2025, 2, 28, 9, 15, 0));
    assert!(step.request.is_none());
    assert_eq!(step.actions.len(), 2);
    assert!(is_date_update(&step.actions[0].action, at(2025, 2, 28, 9, 15, 0)));
    assert!(matches!(step.actions[0].target, ActionTarget::All));
    assert!(matches!(step.actions[1].action, Action::Render));
    assert!(matches!(step.actions[1].target, ActionTarget::App));

    cal.update(&Action::GoToNextWeek);
    assert_eq!(cal.display_date, at(2025, 3, 7, 9, 15, 0));
    cal.update(&Action::GoToPrevWeek);
    cal.update(&Action::GoToPrevDay);
    assert_eq!(cal.display_date, at(2025, 2, 27, 9, 15, 0));

    let mut edge = Calendar { display_date: at(262142, 12, 31, 0, 0, 0) };
    edge.next_day();
    assert_eq!(edge.display_date, at(262142, 12, 31, 0, 0, 0));
}

#[test]
fn calendar_requests_and_popups() {
    let mut cal = Calendar { display_date: at(2025, 5, 5, 0, 0, 0) };
    let step = cal.update(&Action::FindDate);
    assert_eq!(step.actions.len(), 2);
    assert!(matches!(step.actions[0].action, Action::Popup(ComponentName::DateInput)));
    assert_eq!(cal.update(&Action::FZFFindEvent).request, Some(CalendarRequest::FindEvent));
    assert_eq!(cal.update(&Action::AddEvent).request, Some(CalendarRequest::AddEvent));
    let step = cal.update(&Action::CurrentDateUpdated(at(2024, 1, 1, 1, 1, 1)));
    assert!(step.actions.is_empty());
    assert_eq!(cal.display_date, at(2024, 1, 1, 1, 1, 1));
    assert!(cal.update(&Action::NextTask).actions.is_empty());
    let now = Calendar::new();
    assert!(now.display_date.date.year >= 2025);
}

#[test]
fn calendar_finds_and_adds_events() {
    let events = vec![event(Some(1), "first", at(2025, 1, 1, 8, 0, 0)), event(Some(2), "second", at(2025, 3, 2, 9, 0, 0))];
    assert_eq!(Calendar::find_event_options(&events), vec!["0 first\nabout it", "1 second\nabout it"]);
    let mut cal = Calendar { display_date: at(2025, 5, 5, 0, 0, 0) };
    assert_eq!(cal.find_event(&events, &vec![]), None);
    assert_eq!(cal.display_date, at(2025, 5, 5, 0, 0, 0));
    assert_eq!(cal.find_event(&events, &vec![1, 0]), Some(1));
    assert_eq!(cal.display_date, at(2025, 3, 2, 9, 0, 0));
    let found = cal.event_found(1);
    assert_eq!(found.len(), 4);
    assert!(matches!(found[1].action, Action::SelectEventIndex(1)));
    assert!(matches!(found[2].action, Action::FocusDown));

    let lines: Vec<String> = ["[title]", "  ", "[description]", "x"].iter().map(|s| s.to_string()).collect();
    assert!(cal.add_event(&lines).is_none());
    let lines: Vec<String> = ["[title]", "party", "[description]", "x"].iter().map(|s| s.to_string()).collect();
    let e = cal.add_event(&lines).unwrap();
    assert_eq!(e.title, "party");
    assert_eq!(e.date, cal.display_date);
    let added = Calendar::event_added(3);
    assert!(matches!(&added[0].target, ActionTarget::Specific(v) if *v == vec![ComponentName::CurrentDayList]));
    assert_eq!(cal.init().len(), 1);
}

#[test]
fn day_list_selects_events() {
    let events = vec![
        event(Some(10), "a", at(2025, 1, 1, 8, 0, 0)),
        event(Some(11), "b", at(2025, 1, 1, 9, 0, 0)),
        event(Some(12), "c", at(2025, 1, 1, 10, 0, 0)),
    ];
    let mut info = CalendarInfo::new();
    info.set_day(vec![2, 0, 2]);
    info.select_event_index(2);
    assert_eq!(info.state.selected(), Some(0));
    info.select_event_index(1);
    assert_eq!(info.state.selected(), Some(0));
    info.select_event_index_by_id(&events, Some(10));
    assert_eq!(info.state.selected(), Some(1));
    info.select_event_index_by_id(&events, Some(99));
    assert_eq!(info.state.selected(), Some(1));
    assert_eq!(info.current_event_index(), Some(0));
    info.next();
    assert_eq!(info.state.selected(), Some(2));
    info.prev();
    info.prev();
    assert_eq!(info.state.selected(), Some(0));
}

#[test]
fn day_list_requests() {
    let mut info = CalendarInfo::new();
    let day = at(2025, 6, 1, 0, 0, 0);
    let step = info.update(&Action::CurrentDateUpdated(day));
    assert_eq!(step.request, Some(DayListRequest::ReadDay(day)));
    assert_eq!(info.current_date, Some(day));
    info.set_day(vec![4, 7]);
    assert!(info.update(&Action::EditEvent).request.is_none());
    let step = info.update(&Action::EditDate);
    assert!(step.request.is_none());
    assert_eq!(step.actions.len(), 2);
    info.update(&Action::SelectEventIndex(7));
    assert_eq!(info.update(&Action::EditEvent).request, Some(DayListRequest::EditEvent(7)));
    assert_eq!(info.update(&Action::EditDurationTime).request, Some(DayListRequest::EditDuration(7)));
    assert_eq!(info.update(&Action::EditRecurrence).request, Some(DayListRequest::EditRecurrence(7)));
    assert_eq!(info.update(&Action::DeleteEvent).request, Some(DayListRequest::DeleteEvent(7)));
    assert_eq!(info.update(&Action::UpdateCurrentDay).request, Some(DayListRequest::ReadDay(day)));
    assert!(info.date_actions().len() == 2);
}

#[test]
fn recurrence_picks() {
    assert_eq!(recurrence_selections().len(), 7);
    assert_eq!(recurrence_selections()[0], RecurrenceSelection::NoRecurrence);
    assert_eq!(weekday_choices()[0], Weekday::Sun);
    assert_eq!(weekdays_at(&vec![6, 4]), vec![Weekday::Mon, Weekday::Wed]);
    assert!(matches!(recurrence_from(RecurrenceSelection::NoRecurrence, None, vec![]), Some(None)));
    assert!(matches!(
        recurrence_from(RecurrenceSelection::EveryNDays, Some(3), vec![]),
        Some(Some(RecurrenceInterval::EveryNDays(3)))
    ));
    assert!(recurrence_from(RecurrenceSelection::EveryNDays, Some(0), vec![]).is_none());
    assert!(recurrence_from(RecurrenceSelection::EveryNWeeks, None, vec![]).is_none());
    assert!(recurrence_from(RecurrenceSelection::EveryWeekday, None, vec![]).is_none());
    match recurrence_from(RecurrenceSelection::EveryWeekday, None, vec![Weekday::Fri]) {
        Some(Some(RecurrenceInterval::EveryWeekday(ws))) => assert_eq!(ws, vec![Weekday::Fri]),
        _ => panic!("expected weekdays"),
    }
    assert!(matches!(
        recurrence_from(RecurrenceSelection::EveryYear, None, vec![]),
        Some(Some(RecurrenceInterval::EveryYear))
    ));
}

#[test]
fn editing_events() {
    // 2025-01-01 is a Wednesday.
    let mut e = event(Some(1), "e", at(2025, 1, 1, 7, 30, 0));
    edit_recurrence(&mut e, Some(RecurrenceInterval::EveryWeekday(vec![Weekday::Fri]))).unwrap();
    assert_eq!(e.date, at(2025, 1, 3, 7, 30, 0));
    edit_recurrence(&mut e, Some(RecurrenceInterval::EveryStartOfMonth)).unwrap();
    assert_eq!(e.date, at(2025, 2, 1, 7, 30, 0));
    carpem::day_list::edit_date(&mut e, at(2025, 2, 14, 12, 0, 0)).unwrap();
    assert_eq!(e.date, at(2025, 3, 1, 12, 0, 0));
    edit_duration(&mut e, None);
    assert!(e.duration.is_none());
    edit_duration(&mut e, Some(TimeDelta { secs: 60, nanos: 0 }));
    assert_eq!(e.duration, Some(TimeDelta { secs: 60, nanos: 0 }));
    let options = deletion_options(at(2025, 2, 14, 12, 0, 0));
    assert!(matches!(options[0], RecurrenceDeletion::All));
    assert!(matches!(options[1], RecurrenceDeletion::FromHere(d) if d == at(2025, 2, 14, 0, 0, 0)));
    assert!(matches!(options[2], RecurrenceDeletion::ThisOnly(d) if d == at(2025, 2, 14, 0, 0, 0)));
}

#[test]
fn tag_filter_marks_and_toggles() {
    let tags = vec![Tag::new(Some(5), "a"), Tag::new(None, "b"), Tag::new(Some(7), "c"), Tag::new(Some(9), "d")];
    let mut filter_list = CurrentTagFilter::new();
    filter_list.update_list(&tags, &vec![9, 5, 42]);
    assert_eq!(filter_list.list_state.selected_indices, vec![0, 3]);

    let mut filter = vec![9, 5];
    assert!(!filter_list.toggle_current_tag(&tags, &mut filter));
    filter_list.list_state.current_index = Some(2);
    assert!(filter_list.toggle_current_tag(&tags, &mut filter));
    assert_eq!(filter, vec![9, 5, 7]);
    filter_list.list_state.current_index = Some(0);
    assert!(filter_list.toggle_current_tag(&tags, &mut filter));
    assert_eq!(filter, vec![9, 7]);
    assert_eq!(filter_list.list_state.selected_indices, vec![3, 2]);
    filter_list.list_state.current_index = Some(1);
    assert!(!filter_list.toggle_current_tag(&tags, &mut filter));
    assert_eq!(filter, vec![9, 7]);
    assert_eq!(filter_list.highlighted_tag_id(&tags), None);
}

#[test]
fn tag_filter_requests() {
    let mut filter_list = CurrentTagFilter::new();
    assert_eq!(filter_list.update(&Action::UpdateTagFilter).request, Some(TagFilterRequest::ReadList));
    let step = filter_list.update(&Action::NextTag);
    assert!(step.request.is_none());
    assert_eq!(filter_list.list_state.current_index, Some(0));
    let step = filter_list.update(&Action::ToggleTag);
    assert_eq!(step.request, Some(TagFilterRequest::ToggleTag));
    assert!(matches!(step.actions[0].action, Action::UpdateTaskTable));
    assert_eq!(filter_list.update(&Action::EditTag).actions.len(), 3);
    assert_eq!(filter_list.update(&Action::AddTag).request, Some(TagFilterRequest::AddTag));
    assert_eq!(filter_list.update(&Action::DeleteTag).request, Some(TagFilterRequest::DeleteTag));
}

#[test]
fn tag_names_and_choices() {
    let tags = vec![Tag::new(Some(1), "work"), Tag::new(Some(2), "home")];
    assert!(!is_new_tag_name(&tags, "work"));
    assert!(!is_new_tag_name(&tags, "   "));
    assert!(is_new_tag_name(&tags, "sport"));
    assert_eq!(tag_options(&tags), vec!["0 work", "1 home"]);

    let current = vec![Tag::new(Some(2), "home")];
    let choose = tags_to_choose(&tags, &current);
    assert_eq!(choose.len(), 1);
    assert_eq!(choose[0].text, "work");

    let mut cur = current.clone();
    let mut ids = vec![2];
    let choices = vec![Tag::new(Some(1), "work"), Tag::new(None, "draft"), Tag::new(Some(3), "x")];
    add_picked_tags(&mut cur, &mut ids, &choices, &vec![2, 1, 0]);
    assert_eq!(ids, vec![2, 3, 1]);
    let texts: Vec<String> = cur.iter().map(|t| t.text.clone()).collect();
    assert_eq!(texts, vec!["home", "x", "work"]);

    let (kept, kept_ids) = remove_picked_tags(&cur, &vec![1]).unwrap();
    assert_eq!(kept_ids, vec![2, 1]);
    assert_eq!(kept.len(), 2);
    let with_missing = vec![Tag::new(Some(1), "a"), Tag::new(None, "lost"), Tag::new(None, "other")];
    match remove_picked_tags(&with_missing, &vec![0]) {
        Err(TaskManagerError::MissingTagId(t)) => assert_eq!(t, "lost"),
        _ => panic!("expected a missing id"),
    }
    assert!(remove_picked_tags(&with_missing, &vec![1, 2]).is_ok());
}

#[test]
fn task_table_moves() {
    let mut table = TaskComponent::new();
    table.next(3);
    assert_eq!(table.current_row(), None);
    table.set_rows(5);
    table.next(3);
    assert_eq!(table.current_row(), Some(2));
    table.next(10);
    assert_eq!(table.current_row(), Some(4));
    table.prev(2);
    assert_eq!(table.current_row(), Some(2));
    table.prev(9);
    assert_eq!(table.current_row(), Some(0));
    table.select_last();
    assert_eq!(table.current_row(), Some(4));
    table.set_rows(3);
    assert_eq!(table.current_row(), Some(2));
    table.after_delete();
    assert_eq!(table.rows_len, 2);
    assert_eq!(table.current_row(), Some(1));
    table.after_delete();
    table.after_delete();
    assert_eq!(table.current_row(), None);

    let mut table = TaskComponent::new();
    table.set_rows(4);
    table.prev(1);
    assert_eq!(table.current_row(), Some(3));
    let step = table.update(2, &Action::PrevTask);
    assert_eq!(table.current_row(), Some(1));
    assert_eq!(step.reply, TaskReply::Table);
    table.update(0, &Action::SelectFirst);
    assert_eq!(table.current_row(), Some(0));
}

#[test]
fn task_table_requests_and_replies() {
    let mut table = TaskComponent::new();
    let step = table.update(0, &Action::ToggleDoneTasks);
    assert_eq!(step.request, Some(TaskRequest::ToggleDoneTasks));
    assert_eq!(step.reply, TaskReply::Switches);
    assert_eq!(table.update(0, &Action::FZFTagFilter).reply, TaskReply::TagFilterSet);
    assert_eq!(table.update(0, &Action::Render).reply, TaskReply::Nothing);

    let replies = reply_actions(TaskReply::Switches, None, None, true, false);
    assert_eq!(replies.len(), 4);
    assert!(matches!(replies[0].action, Action::HideAllStatus(true)));
    assert!(matches!(replies[1].action, Action::ShowOnlyTaglessStatus(false)));
    assert!(matches!(&replies[1].target, ActionTarget::Specific(v) if *v == vec![ComponentName::CurrentFilterInfo]));
    assert!(matches!(replies[2].action, Action::CurrentTaskUpdated(None, None)));
    let replies = reply_actions(TaskReply::TagFilterSet, Some(task(Some(1), "t")), Some(0), false, false);
    assert_eq!(replies.len(), 2);
    assert!(matches!(&replies[0].target, ActionTarget::Specific(v) if *v == vec![ComponentName::TagFilter]));
}

#[test]
fn task_table_selects_by_id_and_filters() {
    let tasks = vec![task(Some(4), "a"), task(Some(6), "b"), task(Some(6), "c")];
    let mut table = TaskComponent::new();
    table.set_rows(3);
    table.select_task_by_id(&tasks, Some(6));
    assert_eq!(table.current_row(), Some(1));
    table.select_task_by_id(&tasks, None);
    assert_eq!(table.current_row(), Some(1));
    table.select_task_by_id(&tasks, Some(8));
    assert_eq!(table.current_row(), None);

    assert!(table.set_status_filter(vec![]).is_none());
    let f = table.set_status_filter(vec![Status::Done, Status::Pending]).unwrap();
    assert_eq!(f, "status == '\"Done\"' OR status == '\"Pending\"'");
    let t = table.prepare_new_task(task(None, "new"), &vec![3, 1]);
    assert_eq!(t.tags, vec![3, 1]);
    assert_eq!(t.status, Status::Backlog);
    table.set_status_filter(vec![Status::Testing]);
    assert_eq!(table.prepare_new_task(task(None, "new"), &vec![]).status, Status::Testing);
    table.reset_filter();
    assert!(table.current_status_filter.is_empty());
}

#[test]
fn task_texts() {
    let tasks = vec![task(Some(4), "a"), task(Some(6), "b")];
    assert_eq!(find_task_options(&tasks), vec!["0 a\ndesc", "1 b\ndesc"]);
    let mut t = task(Some(1), "title");
    t.severity = -12;
    assert_eq!(task_editor_contents(&t), "[title]\ntitle\n\n[description]\ndesc\n\n[severity]\n-12");
    assert_eq!(task_row(&t), vec!["title", "\"Pending\"", "-12"]);
    t.severity = i64::MIN;
    assert_eq!(task_row(&t)[2], "-9223372036854775808");
    assert_eq!(reminder_input_start(&t, at(2025, 1, 1, 0, 0, 0)), at(2025, 1, 1, 0, 0, 0));
    t.due_date = Some(at(2026, 1, 1, 0, 0, 0));
    assert_eq!(reminder_input_start(&t, at(2025, 1, 1, 0, 0, 0)), at(2026, 1, 1, 0, 0, 0));
}

#[test]
fn time_tracking() {
    let t = task(Some(1), "t");
    let started = toggle_timer(t, at(2025, 1, 1, 10, 0, 0)).unwrap();
    assert_eq!(started.timer_start, Some(at(2025, 1, 1, 10, 0, 0)));
    let stopped = toggle_timer(started, at(2025, 1, 2, 11, 30, 15)).unwrap();
    assert_eq!(stopped.timer_start, None);
    assert_eq!(stopped.time_taken, Some(TimeDelta { secs: 86400 + 5415, nanos: 0 }));
    let restarted = toggle_timer(stopped, at(2025, 1, 3, 0, 0, 0)).unwrap();
    let mut late = at(2025, 1, 3, 0, 0, 1);
    late.time.nanosecond = 500_000_000;
    let again = toggle_timer(restarted, late).unwrap();
    assert_eq!(again.time_taken, Some(TimeDelta { secs: 86400 + 5416, nanos: 500_000_000 }));

    let mut big = task(Some(2), "big");
    big.time_taken = Some(TimeDelta { secs: 9_223_372_036_854_775, nanos: 0 });
    big.timer_start = Some(at(2025, 1, 1, 0, 0, 0));
    assert!(toggle_timer(big, at(2025, 1, 1, 0, 0, 1)).is_none());

    let early = at(2025, 1, 1, 0, 0, 0);
    let mut before = at(2024, 12, 31, 23, 59, 59);
    before.time.nanosecond = 250_000_000;
    let d = early.signed_duration_since(&before);
    assert_eq!(d, TimeDelta { secs: 0, nanos: 750_000_000 });
    let back = before.signed_duration_since(&early);
    assert_eq!(back, TimeDelta { secs: -1, nanos: 250_000_000 });
    assert_eq!(
        TimeDelta { secs: 1, nanos: 600_000_000 }.checked_add(&TimeDelta { secs: 2, nanos: 500_000_000 }),
        Some(TimeDelta { secs: 4, nanos: 100_000_000 })
    );
}

#[test]
fn laws_on_concrete_values() {
    // Toggling a tag twice restores the filter.
    let tags = vec![Tag::new(Some(3), "x")];
    let mut list = CurrentTagFilter::new();
    list.list_state.current_index = Some(0);
    let mut filter = vec![1, 2];
    list.toggle_current_tag(&tags, &mut filter);
    list.toggle_current_tag(&tags, &mut filter);
    assert_eq!(filter, vec![1, 2]);
    assert!(list.list_state.selected_indices.is_empty());

    // Down then up by the same amount.
    let mut table = TaskComponent::new();
    table.set_rows(10);
    table.state.select(Some(3));
    table.next(4);
    table.prev(4);
    assert_eq!(table.current_row(), Some(3));

    // Start then stop adds the time in between.
    let t = task(Some(9), "t");
    let running = toggle_timer(t, at(2025, 1, 1, 23, 0, 0)).unwrap();
    let stopped = toggle_timer(running, at(2025, 1, 2, 1, 0, 0)).unwrap();
    assert_eq!(stopped.time_taken, Some(TimeDelta { secs: 7200, nanos: 0 }));

    // The row selected for an event shows that event.
    let mut info = CalendarInfo::new();
    info.set_day(vec![5, 6, 5]);
    info.select_event_index(6);
    assert_eq!(info.current_event_index(), Some(6));
}

#[test]
fn recurring_events_repeat() {
    let start = at(2025, 1, 30, 10, 0, 0);
    let e = Event::new(Some(1), "e", "", None, start, Some(RecurrenceInterval::EveryNDays(3)), None, vec![]);
    assert_eq!(e.is_event_occurring_on_date(&at(2025, 1, 30, 0, 0, 0)), Some(start));
    assert_eq!(e.is_event_occurring_on_date(&at(2025, 2, 2, 18, 0, 0)), Some(at(2025, 2, 2, 10, 0, 0)));
    assert_eq!(e.is_event_occurring_on_date(&at(2025, 2, 5, 0, 0, 0)), Some(at(2025, 2, 5, 10, 0, 0)));
    assert_eq!(e.is_event_occurring_on_date(&at(2025, 2, 4, 0, 0, 0)), None);
    let once = Event::new(Some(2), "once", "", None, start, None, None, vec![]);
    assert_eq!(once.is_event_occurring_on_date(&start), Some(start));
}

#[test]
fn task_row_colours_follow_status_and_timer() {
    let mut t = task(Some(1), "write");
    assert_eq!(row_colors(&t), RowColors::Pending);
    t.status = Status::Done;
    assert_eq!(row_colors(&t), RowColors::Done);
    t.status = Status::InProgress;
    assert_eq!(row_colors(&t), RowColors::InProgress);
    t.timer_start = Some(at(2025, 1, 2, 8, 0, 0));
    assert_eq!(row_colors(&t), RowColors::TimeTracked);
}

#[test]
fn reading_the_table_selects_the_first_row() {
    let mut table = TaskComponent::new();
    table.set_rows(10);
    table.select_last();
    assert_eq!(table.current_row(), Some(9));
    table.table_read(4);
    assert_eq!(table.rows_len, 4);
    assert_eq!(table.current_row(), Some(0));
    table.table_read(0);
    assert_eq!(table.rows_len, 0);
    assert_eq!(table.current_row(), Some(0));
}
