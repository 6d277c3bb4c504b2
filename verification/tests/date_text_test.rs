use carpem::date::{CivilDate, DateTime, TimeDelta, TimeOfDay};
use carpem::date_text::{selected_date_lines, selected_date_text, task_date_text, timer_start_text};
use carpem::info_views::CurrentTaskInfo;
use carpem::task::{Status, Task};
use chrono::NaiveDate;

fn at(y: i32, mo: u32, d: u32, h: u32, mi: u32, s: u32) -> DateTime {
    DateTime {
        date: CivilDate { year: y, month: mo, day: d },
        time: TimeOfDay { hour: h, minute: mi, second: s, nanosecond: 0 },
    }
}

#[test]
fn dates_as_shown() {
    assert_eq!(task_date_text(at(2025, 4, 2, 13, 22, 34)), "02.04.2025 13:22 Wednesday");
    assert_eq!(timer_start_text(at(2025, 4, 2, 3, 2, 4)), "02.04.2025 03:02:04");
    assert_eq!(selected_date_text(at(5, 12, 31, 23, 59, 59)), "31-12-0005 23:59:59");
    assert_eq!(selected_date_text(at(10000, 1, 1, 0, 0, 0)), "01-01-+10000 00:00:00");
    assert_eq!(selected_date_text(at(-1, 1, 1, 0, 0, 0)), "01-01--0001 00:00:00");
    let mut leap = at(2016, 12, 31, 23, 59, 59);
    leap.time.nanosecond = 1_500_000_000;
    assert_eq!(selected_date_text(leap), "31-12-2016 23:59:60");
    assert_eq!(task_date_text(at(2024, 2, 29, 8, 0, 0)), "29.02.2024 08:00 Thursday");
}

#[test]
fn selected_date_underline() {
    let lines = selected_date_lines(Some(at(2025, 1, 2, 3, 4, 5)));
    assert_eq!(lines[0], "02-01-2025 03:04:05");
    assert_eq!(lines[1], "_".repeat(21));
    let lines = selected_date_lines(None);
    assert_eq!(lines, vec!["no date selected".to_string(), "_".repeat(18)]);
}

#[test]
fn task_information_lines() {
    let mut info = CurrentTaskInfo::new();
    assert!(info.lines().is_empty());
    let mut task = Task::new(Some(1), "write", "first\n\nlast", 0, vec![], Status::Pending, at(2025, 1, 1, 0, 0, 0), None, None, None, None);
    task.due_date = Some(at(2025, 4, 2, 13, 22, 0));
    task.time_taken = Some(TimeDelta { secs: 3725, nanos: 0 });
    info.update_current_task(Some(task));
    assert_eq!(
        info.lines(),
        vec![
            "task title: write",
            "due date: 02.04.2025 13:22 Wednesday",
            "reminder date: none",
            "started at: not started",
            "time taken: 01:02:05 (HH:MM:SS)",
            "",
            "description:",
            "first",
            "",
            "last",
        ]
    );
}

#[test]
fn dates_as_chrono_writes_them() {
    let samples = [(2025, 4, 2, 13, 22, 34), (5, 12, 31, 23, 59, 59), (10000, 1, 1, 0, 0, 0), (-1, 1, 1, 0, 0, 0), (-262143, 1, 1, 1, 2, 3), (999, 7, 9, 9, 9, 9)];
    for (y, mo, d, h, mi, s) in samples {
        let naive = NaiveDate::from_ymd_opt(y, mo, d).unwrap().and_hms_opt(h, mi, s).unwrap();
        let ours = at(y, mo, d, h, mi, s);
        assert_eq!(selected_date_text(ours), naive.format("%d-%m-%Y %H:%M:%S").to_string());
        assert_eq!(timer_start_text(ours), naive.format("%d.%m.%Y %H:%M:%S").to_string());
        assert_eq!(task_date_text(ours), naive.format("%d.%m.%Y %H:%M %A").to_string());
    }
}
