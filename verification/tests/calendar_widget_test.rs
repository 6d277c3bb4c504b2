use carpem::calendar_widget::{day_style, month_weeks, week_line_text, DayStyle, Monthly};
use carpem::date::CivilDate;
use chrono::{Datelike, Days, NaiveDate};

fn date(y: i32, m: u32, d: u32) -> CivilDate {
    CivilDate { year: y, month: m, day: d }
}

/// The lines of a month calendar drawn day by day with chrono.
fn drawn_with_chrono(y: i32, m: u32, d: u32) -> Vec<String> {
    let display = NaiveDate::from_ymd_opt(y, m, d).unwrap();
    let mut lines = vec![
        format!("{}({}) {}", display.format("%B"), display.month(), display.year()),
        "   Mo Tu We Th Fr Sa Su".to_string(),
    ];
    let first = display.with_day(1).unwrap();
    let offset = first.weekday().number_from_monday() - 1;
    let mut curr = first.checked_sub_days(Days::new(offset as u64)).unwrap();
    let mut week = first.iso_week().week();
    while curr.month0() != (display.month0() + 1) % 12 {
        let mut line = format!("{:2?}", week);
        for _ in 0..7 {
            line.push(' ');
            if curr.month() == display.month() {
                line.push_str(&format!("{:2?}", curr.day()));
            } else {
                line.push_str("  ");
            }
            curr = curr.checked_add_days(Days::new(1)).unwrap();
        }
        if week >= 52 {
            week = curr.iso_week().week();
        } else {
            week += 1;
        }
        lines.push(line);
    }
    lines
}

fn shown(y: i32, m: u32, d: u32) -> Vec<String> {
    Monthly::new(date(y, m, d)).show_month_header().show_weekdays_header().lines()
}

#[test]
fn march_2024_calendar() {
    let lines = shown(2024, 3, 15);
    assert_eq!(lines[0], "March(3) 2024");
    assert_eq!(lines[1], "   Mo Tu We Th Fr Sa Su");
    assert_eq!(lines[2], " 9              1  2  3");
    assert_eq!(lines[3], "10  4  5  6  7  8  9 10");
    assert_eq!(lines[6], "13 25 26 27 28 29 30 31");
    assert_eq!(lines.len(), 7);
}

#[test]
fn calendars_match_drawing_day_by_day() {
    let dates = [
        (2024, 3, 15),
        (2024, 2, 29),
        (2023, 1, 1),
        (2020, 12, 31),
        (2021, 1, 10),
        (2024, 12, 30),
        (2025, 6, 1),
        (2026, 2, 14),
        (1999, 12, 31),
        (2015, 2, 1),
    ];
    for (y, m, d) in dates {
        assert_eq!(shown(y, m, d), drawn_with_chrono(y, m, d), "{y}-{m}-{d}");
    }
}

#[test]
fn calendars_of_many_months_match_chrono() {
    for y in [1600, 1899, 1900, 1990, 1999, 2000, 2004, 2015, 2020, 2021, 2026, 2027, 2100] {
        for m in 1..=12 {
            assert_eq!(shown(y, m, 1), drawn_with_chrono(y, m, 1), "{y}-{m}");
        }
    }
}

#[test]
fn calendar_without_headers() {
    let lines = Monthly::new(date(2015, 2, 10)).lines();
    // February 2015 starts on a Sunday and ends on a Saturday.
    assert_eq!(lines.len(), 5);
    assert_eq!(lines[0], " 5                    1");
    assert_eq!(lines[4], " 9 23 24 25 26 27 28   ");
}

#[test]
fn month_lines_hold_each_day_once() {
    let weeks = month_weeks(date(2024, 3, 15));
    let days: Vec<CivilDate> = weeks.iter().flat_map(|w| w.days.iter().copied()).collect();
    assert_eq!(days.len(), 35);
    assert_eq!(days[0], date(2024, 2, 26));
    assert_eq!(days[34], date(2024, 3, 31));
    for d in 1..=31 {
        assert_eq!(days.iter().filter(|x| **x == date(2024, 3, d)).count(), 1);
    }
    assert_eq!(weeks.iter().map(|w| w.week).collect::<Vec<_>>(), vec![9, 10, 11, 12, 13]);
    assert_eq!(week_line_text(&weeks[1], 3), "10  4  5  6  7  8  9 10");
}

#[test]
fn week_numbers_around_the_new_year() {
    // 2020 has a week 53; 30 December 2024 is in week 1 of 2025.
    let dec_2020 = month_weeks(date(2020, 12, 1));
    assert_eq!(dec_2020.iter().map(|w| w.week).collect::<Vec<_>>(), vec![49, 50, 51, 52, 53]);
    let dec_2024 = month_weeks(date(2024, 12, 1));
    assert_eq!(dec_2024.iter().map(|w| w.week).collect::<Vec<_>>(), vec![48, 49, 50, 51, 52, 1]);
}

#[test]
fn day_styles() {
    let display = date(2024, 3, 15);
    assert_eq!(day_style(&date(2024, 3, 15), &display), DayStyle::Selected);
    assert_eq!(day_style(&date(2024, 3, 16), &display), DayStyle::Plain);
    assert_eq!(day_style(&date(2024, 2, 29), &display), DayStyle::Blank);
}

use carpem::date::{DateTime, TimeDelta, TimeOfDay};
use carpem::day_list::event_row;
use carpem::event::{Event, RecurrenceInterval};

fn moment(y: i32, m: u32, d: u32, h: u32, mi: u32) -> DateTime {
    DateTime { date: date(y, m, d), time: TimeOfDay { hour: h, minute: mi, second: 0, nanosecond: 0 } }
}

#[test]
fn event_rows_of_the_day_list() {
    let start = moment(2024, 3, 15, 23, 30);
    let two_hours = TimeDelta { secs: 7200, nanos: 0 };
    let event = Event::new(None, "party", "", Some(two_hours), start, Some(RecurrenceInterval::EveryNDays(3)), None, vec![]);
    assert_eq!(event_row(&event, &start), vec!["23:30-01:30".to_string(), "party".to_string(), "every 3 days".to_string()]);

    let plain = Event::new(None, "call", "", None, moment(2024, 3, 15, 9, 5), None, None, vec![]);
    assert_eq!(event_row(&plain, &moment(2024, 3, 16, 9, 5)), vec!["09:05".to_string(), "call".to_string(), String::new()]);

    // The end agrees with chrono's own addition, across a month end and with a negative length.
    let from = NaiveDate::from_ymd_opt(2024, 2, 29).unwrap().and_hms_opt(22, 15, 0).unwrap();
    for secs in [5400i64, 90_061, -3600] {
        let end = from + chrono::TimeDelta::seconds(secs);
        let ev = Event::new(None, "x", "", Some(TimeDelta { secs, nanos: 0 }), moment(2024, 2, 29, 22, 15), None, None, vec![]);
        let row = event_row(&ev, &moment(2024, 2, 29, 22, 15));
        assert_eq!(row[0], format!("22:15-{}", end.format("%H:%M")));
    }
}
