use carpem::action::Action;
use carpem::date::{CivilDate, DateTime, TimeOfDay};
use carpem::date_input::DateInput;
use carpem::keys::KeyCode;

fn at(y: i32, mo: u32, d: u32, h: u32, mi: u32) -> DateTime {
    DateTime {
        date: CivilDate { year: y, month: mo, day: d },
        time: TimeOfDay { hour: h, minute: mi, second: 0, nanosecond: 0 },
    }
}

fn input_at(start: DateTime) -> DateInput {
    let mut input = DateInput::new();
    input.update(&Action::CurrentDateUpdated(start));
    input
}

#[test]
fn words_are_read_in_turn() {
    let now = at(2030, 1, 1, 0, 0);
    // 2025-04-02 is a Wednesday.
    let mut input = input_at(at(2025, 4, 2, 13, 22));
    assert!(input.input_defined("fri 15:45", now));
    input.input_changed("fri 15:45".to_string(), now);
    assert_eq!(input.result_date, at(2025, 4, 4, 15, 45));
    assert_eq!(input.parsed.len(), 2);
    input.input_changed("  fri   nonsense ".to_string(), now);
    assert_eq!(input.result_date, at(2025, 4, 4, 13, 22));
    input.input_changed("".to_string(), now);
    assert_eq!(input.result_date, at(2025, 4, 2, 13, 22));
    input.input_changed("now".to_string(), now);
    assert_eq!(input.result_date, now);
}

#[test]
fn cached_words_read_as_before() {
    let now = at(2030, 1, 1, 0, 0);
    let start = at(2025, 4, 2, 13, 22);
    let mut input = input_at(start);
    input.input_changed("13:22".to_string(), now);
    assert_eq!(input.result_date, start);
    input.input_changed("fri 13:22".to_string(), now);
    assert_eq!(input.result_date, at(2025, 4, 4, 13, 22));
    let entries = input.parsed.len();
    input.input_changed("fri 13:22".to_string(), now);
    assert_eq!(input.result_date, at(2025, 4, 4, 13, 22));
    assert_eq!(input.parsed.len(), entries);
    input.input_changed("fri 9:00".to_string(), now);
    assert_eq!(input.result_date, at(2025, 4, 4, 9, 0));
    let mut fresh = input_at(start);
    fresh.input_changed("fri 9:00".to_string(), now);
    assert_eq!(fresh.result_date, input.result_date);
}

#[test]
fn keys_close_the_popup() {
    let now = at(2030, 1, 1, 0, 0);
    let start = at(2025, 4, 2, 13, 22);
    let mut input = input_at(start);
    input.input_changed("9:00".to_string(), now);
    let reply = input.key_reply(KeyCode::Char('0'));
    assert_eq!(reply.len(), 2);
    assert!(matches!(reply[0].action, Action::CurrentDateUpdated(d) if d == at(2025, 4, 2, 9, 0)));
    input.update(&Action::CurrentDateUpdated(at(2020, 1, 1, 0, 0)));
    assert_eq!(input.start_date, start);
    let reply = input.key_reply(KeyCode::Esc);
    assert_eq!(reply.len(), 3);
    assert!(matches!(reply[0].action, Action::QuitPopup));
    assert!(matches!(reply[1].action, Action::CurrentDateUpdated(d) if d == start));
    assert!(input.input.is_empty());
    assert!(input.parsed.is_empty());
    input.input_changed("10:00".to_string(), now);
    let reply = input.key_reply(KeyCode::Enter);
    assert!(matches!(reply[1].action, Action::CurrentDateUpdated(d) if d == at(2025, 4, 2, 10, 0)));
    assert!(!input.input_defined("3000000000000000000w", now));
}
