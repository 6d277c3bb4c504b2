use carpem::date::{CivilDate, DateTime, TimeDelta, TimeOfDay};
use carpem::event::Event;
use carpem::keys::{KeyCode, KeyEvent, KeyModifiers};
use carpem::prompts::{
    duration_input_line, event_duration_prompt, number_input, number_prompt, prompt_date, task_duration_prompt,
    tracked_tasks_key,
};
use carpem::task::{Status, Task};
use chrono::NaiveDate;

fn at(y: i32, mo: u32, d: u32, h: u32, mi: u32, s: u32) -> DateTime {
    DateTime {
        date: CivilDate { year: y, month: mo, day: d },
        time: TimeOfDay { hour: h, minute: mi, second: s, nanosecond: 0 },
    }
}

#[test]
fn prompt_dates_read_as_chrono_writes_them() {
    let n = NaiveDate::from_ymd_opt(2024, 3, 15).unwrap().and_hms_opt(9, 5, 7).unwrap();
    assert_eq!(prompt_date(at(2024, 3, 15, 9, 5, 7)), n.format("%d-%m-%Y %H:%M:%S %A").to_string());
}

#[test]
fn event_duration_prompt_lines() {
    let mut e = Event::new(None, "dentist", "", None, at(2024, 3, 15, 9, 5, 7), None, None, vec![]);
    let lines = event_duration_prompt(&e);
    assert_eq!(
        lines,
        vec![
            "current duration input: (HH:MM)",
            "",
            "event title: dentist",
            "event date:  15-03-2024 09:05:07 Friday",
            "event duration: none",
            "",
            "o enter => submit",
            "o escape => leave",
        ]
    );
    // The hours are shown twice.
    e.duration = Some(TimeDelta { secs: 2 * 3600 + 45 * 60, nanos: 0 });
    assert_eq!(event_duration_prompt(&e)[4], "event duration: 02:02");
}

#[test]
fn task_duration_prompt_lines() {
    let mut t = Task::new(None, "report", "", 2, vec![], Status::Pending, at(2024, 1, 1, 0, 0, 0), None, None, None, None);
    let lines = task_duration_prompt(&t);
    assert_eq!(lines[2], "task title: report");
    assert_eq!(lines[3], "duedate: none");
    assert_eq!(lines[4], "reminder date: none");
    assert_eq!(lines[5], "time taken: none");
    assert_eq!(lines.len(), 9);
    t.due_date = Some(at(2024, 3, 15, 9, 5, 7));
    t.time_taken = Some(TimeDelta { secs: 3723, nanos: 0 });
    let lines = task_duration_prompt(&t);
    assert_eq!(lines[3], "task duedate:  15-03-2024 09:05:07 Friday");
    assert_eq!(lines[5], "time taken: 01:02:03 (HH:MM:SS)");
}

#[test]
fn number_prompt_and_input() {
    let e = Event::new(None, "gym", "", None, at(2024, 3, 15, 9, 5, 7), None, None, vec![]);
    let lines = number_prompt(&e, 5);
    assert_eq!(lines[0], "current number input: ");
    assert_eq!(lines[1], "-----");
    assert_eq!(lines[6], "o press enter to submit");
    assert_eq!(number_input("12"), Some((12, "current number input: 12".to_string())));
    assert_eq!(number_input("+7"), Some((7, "current number input: 7".to_string())));
    for text in ["", "1a", "4294967296", " 3"] {
        assert_eq!(number_input(text), None, "{text:?}");
        assert_eq!(text.parse::<u32>().ok(), None);
    }
    assert_eq!(number_input("4294967295").map(|x| x.0), Some(u32::MAX));
}

#[test]
fn duration_input_lines() {
    assert_eq!(duration_input_line(TimeDelta { secs: 90 * 60, nanos: 0 }), "current duration input: 01:30 (HH:MM)");
    assert_eq!(duration_input_line(TimeDelta { secs: 0, nanos: 0 }), "current duration input: 00:00 (HH:MM)");
    assert_eq!(duration_input_line(TimeDelta { secs: 30 * 3600, nanos: 0 }), "current duration input: 30:00 (HH:MM)");
}

#[test]
fn tracked_task_list_scrolling() {
    let key = |c| KeyEvent::new(KeyCode::Char(c), KeyModifiers::empty());
    assert_eq!(tracked_tasks_key(0, 2, &key('j')), Some(1));
    assert_eq!(tracked_tasks_key(2, 2, &key('j')), Some(2));
    assert_eq!(tracked_tasks_key(1, 2, &key('k')), Some(0));
    assert_eq!(tracked_tasks_key(0, 2, &key('k')), Some(0));
    assert_eq!(tracked_tasks_key(1, 2, &key('x')), Some(1));
    assert_eq!(tracked_tasks_key(1, 2, &key('q')), None);
    assert_eq!(tracked_tasks_key(1, 2, &KeyEvent::new(KeyCode::Esc, KeyModifiers::empty())), None);
}
