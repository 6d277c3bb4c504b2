use carpem::date::{CivilDate, DateTime, TimeDelta, TimeOfDay};
use carpem::editor::{event_from_lines, event_from_reader, parse_duration, parse_or_zero, task_from_lines, task_from_reader};
use carpem::task::Status;

fn lines(v: &[&str]) -> Vec<String> {
    v.iter().map(|s| s.to_string()).collect()
}

fn day() -> DateTime {
    DateTime {
        date: CivilDate { year: 2025, month: 6, day: 3 },
        time: TimeOfDay { hour: 9, minute: 30, second: 0, nanosecond: 0 },
    }
}

#[test]
fn task_from_edited_text() {
    let text = lines(&[
        "[title]",
        "My task   ",
        "",
        "  [description]  ",
        "line one",
        "   ",
        "  line two",
        "[severity]",
        "  7 ",
    ]);
    let task = task_from_lines(&text, day());
    assert_eq!(task.title, "My task");
    assert_eq!(task.description, "line one\n  line two");
    assert_eq!(task.severity, 7);
    assert!(task.id.is_none());
    assert!(task.tags.is_empty());
    assert_eq!(task.status, Status::Backlog);
    assert_eq!(task.creation_date, day());
    assert!(task.due_date.is_none() && task.reminder_date.is_none());
    assert!(task.timer_start.is_none() && task.time_taken.is_none());
}

#[test]
fn task_severity_keeps_last_number() {
    let text = lines(&["[severity]", "3", "x", "-4", "[title]", "a", "b"]);
    let task = task_from_lines(&text, day());
    assert_eq!(task.severity, -4);
    assert_eq!(task.title, "a\nb");
    assert_eq!(task.description, "");

    let text = lines(&["text before any section", "[severity]", "many"]);
    let task = task_from_lines(&text, day());
    assert_eq!(task.severity, 0);
    assert_eq!(task.title, "");
}

#[test]
fn task_from_reader_is_created_now() {
    let task = task_from_reader(&lines(&["[title]", "now"]));
    assert_eq!(task.title, "now");
    assert!(task.creation_date.date.year >= 2025);
}

#[test]
fn event_from_edited_text() {
    let text = lines(&["[title]", "Meeting", "[severity]", "[description]", "room 4", "[severity]", "5"]);
    let event = event_from_lines(&text, day());
    assert_eq!(event.title, "Meeting\n[severity]");
    assert_eq!(event.description, "room 4\n[severity]\n5");
    assert_eq!(event.date, day());
    assert!(event.duration.is_none() && event.recurrence_interval.is_none());
    assert!(event.recurrence_end.is_none() && event.skipped_dates.is_empty());

    let event = event_from_reader(&lines(&["[description]", "d"]));
    assert_eq!(event.title, "");
    assert_eq!(event.description, "d");
}

#[test]
fn numbers_or_zero() {
    assert_eq!(parse_or_zero("   "), Some(0));
    assert_eq!(parse_or_zero(""), Some(0));
    assert_eq!(parse_or_zero(" 42 "), Some(42));
    assert_eq!(parse_or_zero("+3"), Some(3));
    assert_eq!(parse_or_zero("4 2"), None);
    assert_eq!(parse_or_zero("-1"), None);
    assert_eq!(parse_or_zero("18446744073709551615"), Some(u64::MAX));
    assert_eq!(parse_or_zero("18446744073709551616"), None);
}

#[test]
fn durations() {
    assert_eq!(parse_duration("45"), Some(TimeDelta { secs: 45 * 60, nanos: 0 }));
    assert_eq!(parse_duration("5:0"), Some(TimeDelta { secs: 5 * 3600, nanos: 0 }));
    assert_eq!(parse_duration("1:30"), Some(TimeDelta { secs: 5400, nanos: 0 }));
    assert_eq!(parse_duration(":15"), Some(TimeDelta { secs: 900, nanos: 0 }));
    assert_eq!(parse_duration(""), Some(TimeDelta { secs: 0, nanos: 0 }));
    assert_eq!(parse_duration("1:2:3"), None);
    assert_eq!(parse_duration("a:3"), None);
    assert_eq!(parse_duration("90x"), None);
}
