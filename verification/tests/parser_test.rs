use carpem::date::{CivilDate, DateTime, TimeOfDay};
use carpem::parser::{parse_date, parse_date_at, parse_date_is_defined};
use chrono::{NaiveDate, NaiveDateTime};

const DATE_FORMAT: &str = "%d-%m-%Y %H:%M:%S %A";

fn make(y: i32, mo: u32, d: u32, h: u32, mi: u32, s: u32) -> DateTime {
    DateTime {
        date: CivilDate { year: y, month: mo, day: d },
        time: TimeOfDay { hour: h, minute: mi, second: s, nanosecond: 0 },
    }
}

fn to_naive(d: &DateTime) -> NaiveDateTime {
    NaiveDate::from_ymd_opt(d.date.year, d.date.month, d.date.day)
        .unwrap()
        .and_hms_nano_opt(d.time.hour, d.time.minute, d.time.second, d.time.nanosecond)
        .unwrap()
}

fn fmt(d: &DateTime) -> String {
    to_naive(d).format(DATE_FORMAT).to_string()
}

#[test]
fn parser_test() {
    let base = make(2025, 4, 2, 13, 22, 34); // Wed

    assert_eq!(fmt(&base), "02-04-2025 13:22:34 Wednesday");

    let date = parse_date("15:45", base).unwrap();
    assert_eq!(fmt(&date), "02-04-2025 15:45:00 Wednesday");

    let date = parse_date("02:04", date).unwrap();
    assert_eq!(fmt(&date), "02-04-2025 02:04:00 Wednesday");

    let date = parse_date("23:56", date).unwrap();
    assert_eq!(fmt(&date), "02-04-2025 23:56:00 Wednesday");

    let date = parse_date("2:1", date).unwrap();
    assert_eq!(fmt(&date), "02-04-2025 02:01:00 Wednesday");

    let date = parse_date("1645", date).unwrap();
    assert_eq!(fmt(&date), "02-04-2025 16:45:00 Wednesday");

    let date = parse_date("0004", date).unwrap();
    assert_eq!(fmt(&date), "02-04-2025 00:04:00 Wednesday");

    let date = parse_date("1835", date).unwrap();
    assert_eq!(fmt(&date), "02-04-2025 18:35:00 Wednesday");

    let tmp = parse_date("fri", date.clone()).unwrap();
    assert_eq!(fmt(&tmp), "04-04-2025 18:35:00 Friday");

    let tmp = parse_date("fri1", date.clone()).unwrap();
    assert_eq!(fmt(&tmp), "11-04-2025 18:35:00 Friday");

    let tmp = parse_date("fri-", date.clone()).unwrap();
    assert_eq!(fmt(&tmp), "28-03-2025 18:35:00 Friday");

    let tmp = parse_date("fri-1", date.clone()).unwrap();
    assert_eq!(fmt(&tmp), "21-03-2025 18:35:00 Friday");

    let tmp = parse_date("fri-2", date.clone()).unwrap();
    assert_eq!(fmt(&tmp), "14-03-2025 18:35:00 Friday");

    let tmp = parse_date("12dec", date.clone()).unwrap();
    assert_eq!(fmt(&tmp), "12-12-2025 18:35:00 Friday");

    let tmp = parse_date("5jul", date.clone()).unwrap();
    assert_eq!(fmt(&tmp), "05-07-2025 18:35:00 Saturday");

    let tmp = parse_date("20ma", date.clone()).unwrap(); // ma = march
    assert_eq!(fmt(&tmp), "20-03-2026 18:35:00 Friday");

    let tmp = parse_date("1apr", date.clone()).unwrap();
    assert_eq!(fmt(&tmp), "01-04-2026 18:35:00 Wednesday");

    let tmp = parse_date("2ma", date.clone()).unwrap();
    assert_eq!(fmt(&tmp), "02-03-2026 18:35:00 Monday");

    let tmp = parse_date("17ma", date.clone()).unwrap();
    assert_eq!(fmt(&tmp), "17-03-2026 18:35:00 Tuesday");

    let tmp = parse_date("18ma", date.clone()).unwrap();
    assert_eq!(fmt(&tmp), "18-03-2026 18:35:00 Wednesday");

    let tmp = parse_date("19may", date.clone()).unwrap();
    assert_eq!(fmt(&tmp), "19-05-2025 18:35:00 Monday");

    let tmp = parse_date("1.6", date.clone()).unwrap();
    assert_eq!(fmt(&tmp), "01-06-2025 18:35:00 Sunday");

    let tmp = parse_date("24.6.2023", date.clone()).unwrap();
    assert_eq!(fmt(&tmp), "24-06-2023 18:35:00 Saturday");

    let tmp = parse_date("17.3", date.clone()).unwrap();
    assert_eq!(fmt(&tmp), "17-03-2026 18:35:00 Tuesday");

    let tmp = parse_date("18.3", date.clone()).unwrap();
    assert_eq!(fmt(&tmp), "18-03-2026 18:35:00 Wednesday");

    let tmp = parse_date("19.3", date.clone()).unwrap();
    assert_eq!(fmt(&tmp), "19-03-2026 18:35:00 Thursday");

    let tmp = parse_date("17.3.2024", date.clone()).unwrap();
    assert_eq!(fmt(&tmp), "17-03-2024 18:35:00 Sunday");

    let tmp = parse_date("17.3.2025", date.clone()).unwrap();
    assert_eq!(fmt(&tmp), "17-03-2025 18:35:00 Monday");

    let tmp = parse_date("17.3.2026", date.clone()).unwrap();
    assert_eq!(fmt(&tmp), "17-03-2026 18:35:00 Tuesday");

    let tmp = parse_date("2.", date.clone()).unwrap();
    assert_eq!(fmt(&tmp), "02-04-2025 18:35:00 Wednesday");

    let tmp = parse_date("17.", date.clone()).unwrap();
    assert_eq!(fmt(&tmp), "17-04-2025 18:35:00 Thursday");

    let tmp = parse_date("18.", date.clone()).unwrap();
    assert_eq!(fmt(&tmp), "18-04-2025 18:35:00 Friday");

    let tmp = parse_date("19.", date.clone()).unwrap();
    assert_eq!(fmt(&tmp), "19-04-2025 18:35:00 Saturday");

    let tmp = parse_date("1.w", date.clone()).unwrap();
    assert_eq!(fmt(&tmp), "30-12-2024 18:35:00 Monday");

    let tmp = parse_date("2.w", date.clone()).unwrap();
    assert_eq!(fmt(&tmp), "06-01-2025 18:35:00 Monday");
}

#[test]
fn parse_date_ranges() {
    let base = make(2025, 4, 2, 13, 22, 34);
    assert!(parse_date_is_defined("fri", base));
    assert!(parse_date_is_defined("+5w", base));
    assert!(parse_date_is_defined("hello", base));
    assert!(!parse_date_is_defined("3000000000000000000w", base));
    assert!(parse_date_is_defined("300000000000000000w", base));
}

#[test]
fn parse_date_now_words() {
    let base = make(2025, 4, 2, 13, 22, 34);
    let now = make(2030, 1, 1, 0, 0, 0);
    assert_eq!(parse_date_at("now", base, now), Some(now));
    assert_eq!(parse_date_at("heute", base, now), Some(now));
    assert_eq!(parse_date_at("nonsense", base, now), None);
    let date = parse_date_at("1645", base, now).unwrap();
    assert_eq!(date, make(2025, 4, 2, 16, 45, 0));
    assert_eq!(parse_date_at("99:99", base, now), Some(make(2025, 4, 2, 23, 59, 0)));
}
