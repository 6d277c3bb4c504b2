use carpem::date::{CivilDate, DateTime, TimeDelta, TimeOfDay, Weekday};
use carpem::event::{Event, EventManagerError, RecurrenceDeletion, RecurrenceInterval};
use carpem::event_manager::{EventChange, EventManager};
use carpem::task::{Status, Tag, Task};
use carpem::task_manager::{TaskManager, TaskManagerError};
use carpem::task_order::TaskOrder;
use chrono::{Datelike, NaiveDateTime, Timelike, Utc};

fn from_naive(d: NaiveDateTime) -> DateTime {
    DateTime {
        date: CivilDate { year: d.year(), month: d.month(), day: d.day() },
        time: TimeOfDay {
            hour: d.hour(),
            minute: d.minute(),
            second: d.second(),
            nanosecond: d.nanosecond(),
        },
    }
}

fn local_now() -> DateTime {
    from_naive(Utc::now().naive_local())
}

fn utc_now() -> DateTime {
    from_naive(Utc::now().naive_utc())
}

fn minutes(m: i64) -> TimeDelta {
    TimeDelta { secs: m * 60, nanos: 0 }
}

fn at(y: i32, mo: u32, d: u32, h: u32, mi: u32) -> DateTime {
    DateTime {
        date: CivilDate { year: y, month: mo, day: d },
        time: TimeOfDay { hour: h, minute: mi, second: 0, nanosecond: 0 },
    }
}

/// An event as storage gives it back once stored: with its id.
fn stored(mut e: Event, id: i64) -> Event {
    e.set_id(id);
    e
}

fn single(id: i64, title: &str, date: DateTime) -> Event {
    Event::new(Some(id), title, "", None, date, None, None, vec![])
}

#[test]
fn eventmanager_test() {
    let mut eventmanager = EventManager::new();

    eventmanager.add_event(stored(
        Event::new(
            None,
            "my first event",
            "my one description",
            Some(minutes(45)),
            local_now(),
            Some(RecurrenceInterval::EveryWeekday(vec![Weekday::Sun])),
            None,
            vec![],
        ),
        1,
    ));

    eventmanager.add_event(stored(
        Event::new(
            None,
            "some second event",
            "my seconds descr",
            Some(minutes(90)),
            local_now(),
            Some(RecurrenceInterval::EveryWeekday(vec![Weekday::Wed])),
            None,
            vec![],
        ),
        2,
    ));

    eventmanager.add_event(stored(
        Event::new(
            None,
            "some third event",
            "my three descr",
            Some(minutes(90)),
            local_now(),
            Some(RecurrenceInterval::EveryNDays(2)),
            None,
            vec![],
        ),
        3,
    ));

    eventmanager.add_event(stored(
        Event::new(
            None,
            "some number 4 event",
            "my 4 descr",
            Some(minutes(90)),
            local_now(),
            None,
            None,
            vec![],
        ),
        4,
    ));

    assert_eq!(eventmanager.get_events().len(), 4);

    let mut second_event = eventmanager.get_events()[1].clone();
    let new_title = "my new title".to_string();
    second_event.title = new_title.clone();
    eventmanager.update_event(second_event, &Some(1)).unwrap();
    let second_event = &eventmanager.get_events()[1];
    assert_eq!(second_event.title, new_title);
}

#[test]
fn taskmanager_test() {
    let mut taskmanager = TaskManager::new();

    // what storage holds once the tags and tasks were added
    let tags = vec![
        Tag::new(Some(1), "first Tag"),
        Tag::new(Some(2), "second Tag"),
        Tag::new(Some(3), "third Tag"),
        Tag::new(Some(4), "tag no 4"),
        Tag::new(Some(5), "my tag no 5"),
    ];
    let now = Utc::now().naive_utc();
    let t1 = Task::new(
        Some(1),
        "my title",
        "my description",
        1,
        vec![1, 4],
        Status::Pending,
        from_naive(now),
        None,
        None,
        None,
        None,
    );
    let t2 = Task::new(
        Some(2),
        "my second title",
        "my 2 description",
        2,
        vec![1, 2, 3, 4],
        Status::Pending,
        from_naive(now),
        Some(from_naive(now + chrono::TimeDelta::days(5))),
        Some(from_naive(now + chrono::TimeDelta::days(3))),
        Some(from_naive(now + chrono::TimeDelta::seconds(5))),
        Some(minutes(420)),
    );
    let t3 = Task::new(
        Some(3),
        "my third title",
        "my 3 description",
        3,
        vec![1, 2, 3],
        Status::Pending,
        from_naive(now),
        None,
        None,
        None,
        None,
    );

    taskmanager.update(vec![t1.clone(), t2.clone(), t3.clone()], tags.clone());

    taskmanager.update_tag(Tag::new(Some(4), "hi")).unwrap();

    let t4 = Task::new(
        Some(4),
        "task number 4",
        "four me",
        2,
        vec![3, 1, 4],
        Status::InProgress,
        utc_now(),
        None,
        None,
        None,
        None,
    );
    // no tags filter and no custom filter: storage lets the task pass both
    taskmanager.add_task(t4.clone(), true, true).unwrap();

    assert_eq!(taskmanager.get_tasks().len(), 4);
    assert!(taskmanager.get_tasks().iter().any(|task| task.title == "my title"));
    assert!(taskmanager.get_tasks().iter().any(|task| task.title == "my second title"));
    assert!(taskmanager.get_tasks().iter().any(|task| task.title == "my third title"));
    assert!(taskmanager.get_tasks().iter().any(|task| task.title == "task number 4"));

    taskmanager.set_filter(vec![], Some("status != '\"Done\"'"));
    // none of the tasks is done: storage gives all of them
    taskmanager.update(vec![t1, t2, t3, t4], taskmanager.get_tags().clone());
    let mut task = taskmanager.get_tasks()[3].clone();
    task.status = Status::Done;
    // the custom filter now rejects the task
    taskmanager.update_task(task, &Some(3), true, false).unwrap();
}

// ---------------------------------------------------------------------------
// Events
// ---------------------------------------------------------------------------

#[test]
fn events_stay_in_date_order() {
    let mut m = EventManager::new();
    assert_eq!(m.add_event(single(1, "b", at(2025, 4, 3, 9, 0))), 0);
    assert_eq!(m.add_event(single(2, "a", at(2025, 4, 1, 9, 0))), 0);
    assert_eq!(m.add_event(single(3, "c", at(2025, 4, 5, 9, 0))), 2);
    assert_eq!(m.add_event(single(4, "b2", at(2025, 4, 3, 9, 0))), 1);
    let titles: Vec<&str> = m.get_events().iter().map(|e| e.title.as_str()).collect();
    assert_eq!(titles, vec!["a", "b2", "b", "c"]);
    assert!(EventManager::check_events(m.get_events()));

    // moving an event to another date sorts again
    let mut e = m.get_events()[0].clone();
    e.date = at(2025, 4, 10, 8, 0);
    m.update_event(e, &Some(0)).unwrap();
    let titles: Vec<&str> = m.get_events().iter().map(|e| e.title.as_str()).collect();
    assert_eq!(titles, vec!["b2", "b", "c", "a"]);

    // by id, without a position; the id is kept
    let mut e = Event::new(Some(2), "a again", "", None, at(2025, 4, 10, 8, 0), None, None, vec![]);
    e.description = "x".to_string();
    m.update_event(e, &None).unwrap();
    assert_eq!(m.get_events()[3].title, "a again");

    // an event without id takes the id of the event it replaces
    let e = Event::new(None, "c new", "", None, at(2025, 4, 5, 9, 0), None, None, vec![]);
    m.update_event(e, &Some(2)).unwrap();
    assert_eq!(m.get_events()[2].get_id(), Some(3));
    assert_eq!(m.get_events()[2].title, "c new");

    let unsorted = vec![single(1, "x", at(2025, 1, 2, 0, 0)), single(2, "y", at(2025, 1, 1, 0, 0))];
    assert!(!EventManager::check_events(&unsorted));
    let invalid = vec![single(1, "x", at(2025, 2, 30, 0, 0))];
    assert!(!EventManager::check_events(&invalid));
}

#[test]
fn events_of_a_day() {
    let mut m = EventManager::new();
    // every second day from 1 April at 18:00
    m.add_event(Event::new(
        Some(1),
        "every other day",
        "",
        None,
        at(2025, 4, 1, 18, 0),
        Some(RecurrenceInterval::EveryNDays(2)),
        None,
        vec![],
    ));
    // Wednesdays (2 April 2025 is one) at 07:30
    m.add_event(Event::new(
        Some(2),
        "wednesdays",
        "",
        None,
        at(2025, 3, 5, 7, 30),
        Some(RecurrenceInterval::EveryWeekday(vec![Weekday::Wed])),
        None,
        vec![],
    ));
    m.add_event(single(3, "lunch", at(2025, 4, 3, 12, 0)));
    m.add_event(single(4, "tomorrow", at(2025, 4, 4, 9, 0)));

    let day = at(2025, 4, 3, 15, 0);
    let entries = m.get_events_for_date(&day).unwrap();
    let got: Vec<(String, DateTime)> =
        entries.iter().map(|(_, e, d)| (e.title.clone(), *d)).collect();
    assert_eq!(
        got,
        vec![
            ("lunch".to_string(), at(2025, 4, 3, 12, 0)),
            ("every other day".to_string(), at(2025, 4, 3, 18, 0)),
        ]
    );
    for (i, e, _) in entries.iter() {
        assert_eq!(&m.get_events()[*i], *e);
    }

    let wed = at(2025, 4, 2, 23, 59);
    let got: Vec<(usize, DateTime)> =
        m.get_events_for_date(&wed).unwrap().iter().map(|(i, _, d)| (*i, *d)).collect();
    assert_eq!(got, vec![(0, at(2025, 4, 2, 7, 30))]);

    let empty = at(2025, 3, 1, 0, 0);
    assert!(m.get_events_for_date(&empty).unwrap().is_empty());
}

#[test]
fn deleting_events() {
    let mut m = EventManager::new();
    m.add_event(Event::new(
        Some(7),
        "daily",
        "",
        None,
        at(2025, 4, 1, 8, 0),
        Some(RecurrenceInterval::EveryNDays(1)),
        None,
        vec![],
    ));
    m.add_event(single(8, "once", at(2025, 4, 2, 8, 0)));
    m.add_event(Event::new(None, "no id", "", None, at(2025, 4, 3, 8, 0), None, None, vec![]));

    let change = m.delete_event(0, Some(RecurrenceDeletion::ThisOnly(at(2025, 4, 5, 8, 0)))).unwrap();
    assert_eq!(change, EventChange::Updated(0));
    assert_eq!(m.get_events()[0].skipped_dates, vec![at(2025, 4, 5, 8, 0)]);
    assert!(m.get_events_for_date(&at(2025, 4, 5, 0, 0)).unwrap().is_empty());
    assert_eq!(m.get_events_for_date(&at(2025, 4, 6, 0, 0)).unwrap().len(), 1);

    let change = m.delete_event(0, Some(RecurrenceDeletion::FromHere(at(2025, 4, 9, 17, 0)))).unwrap();
    assert_eq!(change, EventChange::Updated(0));
    assert_eq!(m.get_events()[0].recurrence_end, Some(at(2025, 4, 9, 0, 0)));
    assert!(m.get_events_for_date(&at(2025, 4, 9, 0, 0)).unwrap().is_empty());
    assert_eq!(m.get_events_for_date(&at(2025, 4, 8, 0, 0)).unwrap().len(), 1);

    let once = m.get_events()[1].clone();
    let change = m.delete_event_with_id(&once, Some(RecurrenceDeletion::All)).unwrap();
    assert_eq!(change, EventChange::Removed(8));
    assert_eq!(m.get_events().len(), 2);

    match m.delete_event(1, None) {
        Err(EventManagerError::MissingEventId(t)) => assert_eq!(t, "no id"),
        other => panic!("unexpected {:?}", other),
    }
    match m.delete_event_with_id(&once, None) {
        Err(EventManagerError::EventIdNotFound(id)) => assert_eq!(id, 8),
        other => panic!("unexpected {:?}", other),
    }
    let no_id = m.get_events()[1].clone();
    match m.delete_event_with_id(&no_id, None) {
        Err(EventManagerError::MissingEventId(t)) => assert_eq!(t, "no id"),
        other => panic!("unexpected {:?}", other),
    }
    assert_eq!(m.get_events().len(), 2);
}

// ---------------------------------------------------------------------------
// Tasks
// ---------------------------------------------------------------------------

fn task(id: i64, title: &str, severity: i64, tags: Vec<i64>, status: Status) -> Task {
    Task::new(Some(id), title, "", severity, tags, status, at(2025, 1, 1, 0, 0), None, None, None, None)
}

fn titles(m: &TaskManager) -> Vec<String> {
    m.get_tasks().iter().map(|t| t.title.clone()).collect()
}

#[test]
fn task_filters_and_order() {
    let mut m = TaskManager::new();
    let all = vec![
        task(1, "a", 1, vec![], Status::Done),
        task(2, "b", 3, vec![5], Status::Pending),
        task(3, "c", 3, vec![], Status::Pending),
        task(4, "d", 2, vec![5], Status::Done),
    ];
    m.update(all.clone(), vec![Tag::new(Some(5), "work"), Tag::new(Some(6), "home"), Tag::new(Some(7), "Zoo")]);
    assert_eq!(titles(&m), vec!["b", "c", "d", "a"]);
    let tag_texts: Vec<String> = m.get_tags().iter().map(|t| t.text.clone()).collect();
    assert_eq!(tag_texts, vec!["Zoo", "home", "work"]);

    m.toggle_hide_done();
    assert!(m.get_hide_done_status());
    m.update(all.clone(), vec![]);
    assert_eq!(titles(&m), vec!["b", "c"]);

    assert!(m.toggle_show_task_without_tags());
    assert!(!m.get_hide_done_status());
    m.update(all.clone(), vec![]);
    assert_eq!(titles(&m), vec!["c", "a"]);

    m.toggle_hide_done();
    assert!(!m.get_show_tagless_status());
    m.toggle_hide_done();
    m.update(all.clone(), vec![]);

    m.set_ordering(TaskOrder::SeverityLowToHigh);
    assert_eq!(titles(&m), vec!["a", "d", "b", "c"]);

    m.set_custom_filter(Some("severity > 1"));
    assert_eq!(m.get_custom_filter(), Some("severity > 1".to_string()));
    m.set_tags_filter(vec![5, 6, 5]);
    m.delete_tag(5);
    assert_eq!(m.get_tag_filter(), &vec![6]);
    m.set_filter(vec![1], None);
    assert_eq!(m.get_custom_filter(), None);
}

#[test]
fn adding_and_updating_tasks() {
    let mut m = TaskManager::new();
    m.update(vec![task(1, "a", 1, vec![], Status::Pending)], vec![]);

    match m.add_task(Task::new(None, "new", "", 1, vec![], Status::Pending, at(2025, 1, 1, 0, 0), None, None, None, None), true, true) {
        Err(TaskManagerError::MissingTaskId(t)) => assert_eq!(t, "new"),
        other => panic!("unexpected {:?}", other),
    }
    assert_eq!(m.add_task(task(2, "b", 5, vec![], Status::Pending), true, true).unwrap(), Some(2));
    assert_eq!(titles(&m), vec!["b", "a"]);
    assert_eq!(m.add_task(task(3, "c", 9, vec![], Status::Pending), false, true).unwrap(), Some(3));
    assert_eq!(titles(&m), vec!["b", "a"]);

    m.toggle_show_task_without_tags();
    assert_eq!(m.add_task(task(4, "d", 9, vec![1], Status::Pending), true, true).unwrap(), None);
    assert_eq!(titles(&m), vec!["b", "a"]);
    assert_eq!(m.add_task(task(5, "e", 0, vec![], Status::Pending), false, false).unwrap(), None);
    assert_eq!(titles(&m), vec!["b", "a", "e"]);

    // a task that gains a tag leaves the list of tagless tasks
    m.update_task(task(1, "a", 1, vec![2], Status::Pending), &Some(1), true, true).unwrap();
    assert_eq!(titles(&m), vec!["b", "e"]);
    m.toggle_show_task_without_tags();

    // updating by id; the new severity moves the task
    m.update_task(task(5, "e", 10, vec![], Status::Pending), &None, true, true).unwrap();
    assert_eq!(titles(&m), vec!["e", "b"]);
    // a task without id takes the id of the task it replaces
    m.update_task(Task::new(None, "b2", "", 5, vec![], Status::Pending, at(2025, 1, 1, 0, 0), None, None, None, None), &Some(1), true, true).unwrap();
    assert_eq!(m.get_tasks()[1].get_id(), Some(2));
    match m.update_task(Task::new(None, "x", "", 5, vec![], Status::Pending, at(2025, 1, 1, 0, 0), None, None, None, None), &None, true, true) {
        Err(TaskManagerError::MissingTaskId(t)) => assert_eq!(t, "x"),
        other => panic!("unexpected {:?}", other),
    }

    assert_eq!(m.get_current_task(&Some(0)).map(|t| t.title.clone()), Some("e".to_string()));
    assert!(m.get_current_task(&Some(7)).is_none());
    assert!(m.get_current_task(&None).is_none());

    assert_eq!(m.delete_task(9), None);
    assert_eq!(m.delete_task(0), Some(5));
    assert_eq!(titles(&m), vec!["b2"]);
    match m.delete_task_with_id(task(5, "e", 10, vec![], Status::Pending)) {
        Err(TaskManagerError::TaskIdNotFound(id)) => assert_eq!(id, 5),
        other => panic!("unexpected {:?}", other),
    }
    assert_eq!(m.delete_task_with_id(task(2, "b2", 5, vec![], Status::Pending)).unwrap(), Some(2));
    assert!(m.get_tasks().is_empty());
}

#[test]
fn tags_sorted_by_text() {
    let mut m = TaskManager::new();
    m.add_tag(Tag::new(Some(1), "beta"));
    m.add_tag(Tag::new(Some(2), "alpha"));
    m.add_tag(Tag::new(Some(3), "alphabet"));
    let texts: Vec<String> = m.get_tags().iter().map(|t| t.text.clone()).collect();
    assert_eq!(texts, vec!["alpha", "alphabet", "beta"]);
    assert_eq!(m.tag_index(3), Some(1));
    assert_eq!(m.tag_index(9), None);

    m.update_tag(Tag::new(Some(1), "aaa")).unwrap();
    let texts: Vec<String> = m.get_tags().iter().map(|t| t.text.clone()).collect();
    assert_eq!(texts, vec!["aaa", "alpha", "alphabet"]);
    match m.update_tag(Tag::new(None, "no id")) {
        Err(TaskManagerError::MissingTagId(t)) => assert_eq!(t, "no id"),
        other => panic!("unexpected {:?}", other),
    }
    // an unknown id changes nothing
    m.update_tag(Tag::new(Some(9), "zzz")).unwrap();
    assert_eq!(m.get_tags().len(), 3);
}

#[test]
fn day_lookup_is_defined() {
    let mut manager = EventManager::new();
    let day = DateTime {
        date: CivilDate { year: 2025, month: 5, day: 1 },
        time: TimeOfDay { hour: 12, minute: 0, second: 0, nanosecond: 0 },
    };
    assert!(manager.events_for_date_defined(&day));
    manager.add_event(Event::new(None, "e", "", None, day, Some(RecurrenceInterval::EveryNDays(2)), None, vec![]));
    assert!(manager.events_for_date_defined(&day));
    assert_eq!(manager.get_events_for_date(&day).unwrap().len(), 1);
}
