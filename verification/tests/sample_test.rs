use carpem::date::{CivilDate, DateTime, TimeOfDay, Weekday};
use carpem::event::RecurrenceInterval;
use carpem::date::TimeDelta;
use carpem::sample::{sample_event, sample_event_from, sample_tags, sample_task, sample_task_dates, sample_task_from};
use carpem::task::Status;

fn at(y: i32, mo: u32, d: u32, h: u32, mi: u32) -> DateTime {
    DateTime {
        date: CivilDate { year: y, month: mo, day: d },
        time: TimeOfDay { hour: h, minute: mi, second: 0, nanosecond: 0 },
    }
}

#[test]
fn sample_tags_are_numbered() {
    let tags = sample_tags();
    let texts: Vec<String> = tags.iter().map(|t| t.text.clone()).collect();
    assert_eq!(texts, vec!["tag 0", "tag 1", "tag 2", "tag 3", "tag 4", "tag 5"]);
    assert!(tags.iter().all(|t| t.id.is_none()));
}

#[test]
fn sample_tasks_stay_in_range() {
    for x in [0u32, 7, 42] {
        let task = sample_task(x).unwrap();
        assert_eq!(task.title, format!("task number {x}"));
        assert_eq!(task.description, format!("description number {x}"));
        assert_eq!(task.severity, x as i64);
        assert!(task.tags.len() < 6);
        assert!(task.tags.iter().all(|&t| (1..=6).contains(&t)));
        let mut sorted = task.tags.clone();
        sorted.sort();
        sorted.dedup();
        assert_eq!(sorted.len(), task.tags.len());
        assert!(matches!(task.status, Status::InProgress | Status::Done | Status::Pending));
        let created = task.creation_date;
        let due = task.due_date.unwrap();
        let reminder = task.reminder_date.unwrap();
        assert!(created.is_before(&due) && reminder.is_before(&due) && created.is_before(&reminder));
        let taken = task.time_taken.unwrap();
        assert!(taken.secs >= 0 && taken.secs < 5 * 3600 && taken.nanos == 0);
    }
}

#[test]
fn sample_tasks_from_their_draws() {
    let (c, d, r) = (at(2025, 1, 1, 0, 0), at(2025, 2, 1, 0, 0), at(2025, 3, 1, 0, 0));
    let task = sample_task_from(3, c, d, r, &vec![4, 1], 0, 125);
    assert_eq!(task.title, "task number 3");
    assert_eq!(task.tags, vec![4, 1]);
    assert_eq!(task.status, Status::InProgress);
    assert_eq!(task.creation_date, c);
    assert_eq!(task.due_date, Some(d));
    assert_eq!(task.reminder_date, Some(r));
    assert_eq!(task.time_taken, Some(TimeDelta { secs: 125, nanos: 0 }));
    assert_eq!(sample_task_from(3, c, d, r, &vec![], 1, 0).status, Status::Done);
    assert_eq!(sample_task_from(3, c, d, r, &vec![], 2, 0).status, Status::Pending);
    assert!(sample_task_from(3, c, d, r, &vec![], 2, 0).tags.is_empty());
}

#[test]
fn sample_events_from_their_draws() {
    let e = sample_event_from(2, true, 600, 0, 3);
    assert_eq!(e.duration, Some(TimeDelta { secs: 600, nanos: 0 }));
    assert!(matches!(e.recurrence_interval, Some(RecurrenceInterval::EveryNDays(3))));
    assert_eq!(e.date, at(2025, 3, 22, 14, 30));
    let e = sample_event_from(2, false, 600, 1, 1);
    assert_eq!(e.duration, None);
    assert!(matches!(e.recurrence_interval, Some(RecurrenceInterval::EveryWeekday(ref ws)) if *ws == vec![Weekday::Mon]));
    let e = sample_event_from(2, false, 0, 2, 1);
    assert!(matches!(e.recurrence_interval, Some(RecurrenceInterval::EveryWeekday(ref ws)) if *ws == vec![Weekday::Wed, Weekday::Fri]));
    assert!(sample_event_from(2, false, 0, 3, 1).recurrence_interval.is_none());
}

#[test]
fn sample_events_follow_the_days() {
    let first = sample_event(0);
    assert_eq!(first.title, "event number 0");
    assert_eq!(first.date, at(2025, 3, 20, 8, 45));
    let later = sample_event(12);
    assert_eq!(later.description, "description number 12");
    assert_eq!(later.date, at(2025, 4, 1, 7, 0));
    let last = sample_event(29);
    assert_eq!(last.date, at(2025, 4, 18, 9, 0));
    for x in 0..30 {
        let e = sample_event(x);
        if let Some(d) = e.duration {
            assert!(d.secs >= 0 && d.secs < 180 * 60);
        }
        match e.recurrence_interval {
            None => {}
            Some(RecurrenceInterval::EveryNDays(n)) => assert!((1..5).contains(&n)),
            Some(RecurrenceInterval::EveryWeekday(ws)) => {
                assert!(ws == vec![Weekday::Mon] || ws == vec![Weekday::Wed, Weekday::Fri])
            }
            Some(_) => panic!("unexpected recurrence"),
        }
    }
}

#[test]
fn sample_task_dates_follow_the_clock() {
    let c = at(2025, 1, 1, 22, 30);
    assert_eq!(sample_task_dates(c, c), Some((at(2025, 1, 2, 3, 30), at(2025, 1, 2, 1, 30))));
    let d = at(2024, 2, 28, 20, 0);
    assert_eq!(sample_task_dates(d, at(2024, 12, 31, 23, 59)), Some((at(2024, 2, 29, 1, 0), at(2025, 1, 1, 2, 59))));
    let end = at(262142, 12, 31, 22, 0);
    assert_eq!(sample_task_dates(end, c), None);
    assert_eq!(sample_task_dates(c, end), None);
}
