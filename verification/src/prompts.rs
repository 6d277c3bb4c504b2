//! The texts of the prompts that ask for a number or a length of time, what typing into
//! them shows, and the scrolling of the list of tracked tasks.

use vstd::prelude::*;
use crate::date::{DateTime, TimeDelta, weekday};
use crate::date_text::{
    day_text, hms_text, push_weekday, selected_date_text, weekday_long_name, weekday_of_index,
};
use crate::editor::{u64_of, u64_of_exec};
use crate::event::Event;
use crate::info_views::{CurrentTaskInfo, push_time_part, time_part, time_taken_text, whole_seconds};
use crate::keys::{KeyCode, KeyEvent};
use crate::parser::chars_of;
use crate::task::Task;
use crate::text::{decimal, push_char, push_decimal, push_str};

verus! {

/// `dd-mm-yyyy HH:MM:SS Weekday`, as the prompts show a date.
pub open spec fn prompt_date_text(d: DateTime) -> Seq<char> {
    day_text(d.date, '-') + seq![' '] + hms_text(d.time) + seq![' '] + weekday_long_name(
        weekday_of_index(d.date.weekday_index()),
    )
}

/// The hours of a length of time, rounded toward zero, in two places at least.
pub open spec fn hours_text(d: TimeDelta) -> Seq<char> {
    let total = whole_seconds(d);
    let a = if total < 0 {
        -total
    } else {
        total
    };
    time_part((a / 3600) as nat, total < 0)
}

/// The minutes beyond the whole hours of a length of time, in two places at least.
pub open spec fn minutes_text(d: TimeDelta) -> Seq<char> {
    let total = whole_seconds(d);
    let a = if total < 0 {
        -total
    } else {
        total
    };
    time_part(((a % 3600) / 60) as nat, total < 0)
}

/// The lines that ask for the duration of an event.
pub open spec fn event_duration_prompt_lines(e: Event) -> Seq<Seq<char>> {
    seq![
        "current duration input: (HH:MM)"@,
        Seq::empty(),
        "event title: "@ + e.title@,
        "event date:  "@ + prompt_date_text(e.date),
        match e.duration {
            Some(d) => "event duration: "@ + hours_text(d) + seq![':'] + hours_text(d),
            None => "event duration: none"@,
        },
        Seq::empty(),
        "o enter => submit"@,
        "o escape => leave"@,
    ]
}

/// The lines that ask for the time taken by a task.
pub open spec fn task_duration_prompt_lines(t: Task) -> Seq<Seq<char>> {
    seq![
        "current duration input: (HH:MM)"@,
        Seq::empty(),
        "task title: "@ + t.title@,
        match t.due_date {
            Some(d) => "task duedate:  "@ + prompt_date_text(d),
            None => "duedate: none"@,
        },
        match t.reminder_date {
            Some(d) => "task reminder date:  "@ + prompt_date_text(d),
            None => "reminder date: none"@,
        },
        "time taken: "@ + match t.time_taken {
            Some(d) => time_taken_text(d),
            None => "none"@,
        },
        Seq::empty(),
        "o enter => submit"@,
        "o escape => leave"@,
    ]
}

/// The lines that ask for a number for an event, under an input `width` columns wide.
pub open spec fn number_prompt_lines(e: Event, width: nat) -> Seq<Seq<char>> {
    seq![
        "current number input: "@,
        Seq::new(width, |i: int| '-'),
        "event title: "@ + e.title@,
        "event date:  "@ + prompt_date_text(e.date),
        Seq::empty(),
        "o press escape to leave"@,
        "o press enter to submit"@,
    ]
}

/// A date as the prompts show it (see `prompt_date_text`).
pub fn prompt_date(d: DateTime) -> (r: String)
    requires
        d.wf(),
    ensures
        r@ == prompt_date_text(d),
{
    let mut s = selected_date_text(d);
    push_char(&mut s, ' ');
    let w = weekday(d.date);
    assert(w == weekday_of_index(d.date.weekday_index()));
    push_weekday(&mut s, w);
    s
}

fn text_of(t: &str) -> (r: String)
    ensures
        r@ == t@,
{
    let mut s = String::new();
    proof {
        reveal_strlit("");
    }
    push_str(&mut s, t);
    assert(s@ =~= t@);
    s
}

fn joined(a: &str, b: String) -> (r: String)
    ensures
        r@ == a@ + b@,
{
    let mut s = text_of(a);
    push_str(&mut s, b.as_str());
    s
}

fn push_hours(s: &mut String, d: TimeDelta)
    ensures
        final(s)@ == old(s)@ + hours_text(d),
{
    let total: i64 = if d.secs < 0 && d.nanos > 0 {
        d.secs + 1
    } else {
        d.secs
    };
    let neg = total < 0;
    let a: u64 = if neg {
        (-(total as i128)) as u64
    } else {
        total as u64
    };
    push_time_part(s, a / 3600, neg);
}

fn push_minutes(s: &mut String, d: TimeDelta)
    ensures
        final(s)@ == old(s)@ + minutes_text(d),
{
    let total: i64 = if d.secs < 0 && d.nanos > 0 {
        d.secs + 1
    } else {
        d.secs
    };
    let neg = total < 0;
    let a: u64 = if neg {
        (-(total as i128)) as u64
    } else {
        total as u64
    };
    push_time_part(s, (a % 3600) / 60, neg);
}

/// The lines that ask for the duration of an event (see `event_duration_prompt_lines`).
pub fn event_duration_prompt(e: &Event) -> (r: Vec<String>)
    requires
        e.date.wf(),
    ensures
        r@.len() == 8,
        forall|i: int| 0 <= i < 8 ==> #[trigger] r@[i]@ == event_duration_prompt_lines(*e)[i],
{
    let mut v: Vec<String> = Vec::new();
    v.push(text_of("current duration input: (HH:MM)"));
    v.push(text_of(""));
    v.push(joined("event title: ", e.title.clone()));
    v.push(joined("event date:  ", prompt_date(e.date)));
    match e.duration {
        Some(d) => {
            let mut s = text_of("event duration: ");
            push_hours(&mut s, d);
            push_char(&mut s, ':');
            push_hours(&mut s, d);
            v.push(s);
        },
        None => v.push(text_of("event duration: none")),
    }
    v.push(text_of(""));
    v.push(text_of("o enter => submit"));
    v.push(text_of("o escape => leave"));
    proof {
        reveal_strlit("");
    }
    v
}

/// The lines that ask for the time taken by a task (see `task_duration_prompt_lines`).
pub fn task_duration_prompt(t: &Task) -> (r: Vec<String>)
    requires
        t.due_date matches Some(d) ==> d.wf(),
        t.reminder_date matches Some(d) ==> d.wf(),
    ensures
        r@.len() == 9,
        forall|i: int| 0 <= i < 9 ==> #[trigger] r@[i]@ == task_duration_prompt_lines(*t)[i],
{
    let mut v: Vec<String> = Vec::new();
    v.push(text_of("current duration input: (HH:MM)"));
    v.push(text_of(""));
    v.push(joined("task title: ", t.title.clone()));
    match t.due_date {
        Some(d) => v.push(joined("task duedate:  ", prompt_date(d))),
        None => v.push(text_of("duedate: none")),
    }
    match t.reminder_date {
        Some(d) => v.push(joined("task reminder date:  ", prompt_date(d))),
        None => v.push(text_of("reminder date: none")),
    }
    match t.time_taken {
        Some(d) => v.push(joined("time taken: ", CurrentTaskInfo::time_taken(d))),
        None => v.push(text_of("time taken: none")),
    }
    v.push(text_of(""));
    v.push(text_of("o enter => submit"));
    v.push(text_of("o escape => leave"));
    proof {
        reveal_strlit("");
        reveal_strlit("time taken: none");
        reveal_strlit("time taken: ");
        reveal_strlit("none");
    }
    v
}

/// The lines that ask for a number for an event (see `number_prompt_lines`).
pub fn number_prompt(e: &Event, width: u16) -> (r: Vec<String>)
    requires
        e.date.wf(),
    ensures
        r@.len() == 7,
        forall|i: int| 0 <= i < 7 ==> #[trigger] r@[i]@ == number_prompt_lines(*e, width as nat)[i],
{
    let mut v: Vec<String> = Vec::new();
    v.push(text_of("current number input: "));
    let mut dashes = String::new();
    proof {
        reveal_strlit("");
    }
    let mut i: u16 = 0;
    while i < width
        invariant
            i <= width,
            dashes@ == Seq::new(i as nat, |k: int| '-'),
        decreases width - i,
    {
        push_char(&mut dashes, '-');
        i += 1;
        assert(dashes@ =~= Seq::new(i as nat, |k: int| '-'));
    }
    v.push(dashes);
    v.push(joined("event title: ", e.title.clone()));
    v.push(joined("event date:  ", prompt_date(e.date)));
    v.push(text_of(""));
    v.push(text_of("o press escape to leave"));
    v.push(text_of("o press enter to submit"));
    v
}

/// The first line of the duration prompt once the input reads as a length of time.
pub open spec fn duration_input_text(d: TimeDelta) -> Seq<char> {
    "current duration input: "@ + hours_text(d) + seq![':'] + minutes_text(d) + " (HH:MM)"@
}

/// The first line of the duration prompt for the length of time read so far.
pub fn duration_input_line(d: TimeDelta) -> (r: String)
    ensures
        r@ == duration_input_text(d),
{
    let mut s = text_of("current duration input: ");
    push_hours(&mut s, d);
    push_char(&mut s, ':');
    push_minutes(&mut s, d);
    push_str(&mut s, " (HH:MM)");
    s
}

/// The number that an input reads as: decimal digits, maybe after a `+`, up to `u32::MAX`.
pub open spec fn u32_of(s: Seq<char>) -> Option<int> {
    match u64_of(s) {
        Some(n) => if n <= u32::MAX {
            Some(n)
        } else {
            None
        },
        None => None,
    }
}

/// What typing into the number prompt shows: where the whole input reads as a number, that
/// number and the first line saying it; `None` where it does not, and nothing changes.
pub fn number_input(input: &str) -> (r: Option<(u32, String)>)
    ensures
        match u32_of(input@) {
            Some(n) => r matches Some((m, line)) && m == n && line@ == "current number input: "@
                + decimal(n as nat),
            None => r is None,
        },
{
    let v = chars_of(input);
    match u64_of_exec(&v) {
        Some(n) => {
            if n <= 4294967295 {
                let mut line = text_of("current number input: ");
                push_decimal(&mut line, n);
                Some((n as u32, line))
            } else {
                None
            }
        },
        None => None,
    }
}

/// What a key does in the list of tracked tasks scrolled by `offset` lines out of
/// `max_scroll`: Enter, Escape and `q` close it (`None`); `j` scrolls down and `k` up while
/// they can; other keys change nothing.
pub fn tracked_tasks_key(offset: u16, max_scroll: u16, key: &KeyEvent) -> (r: Option<u16>)
    ensures
        r == match key.code {
            KeyCode::Enter | KeyCode::Esc | KeyCode::Char('q') => None,
            KeyCode::Char('j') => Some(if offset < max_scroll { (offset + 1) as u16 } else { offset }),
            KeyCode::Char('k') => Some(if offset > 0 { (offset - 1) as u16 } else { offset }),
            _ => Some(offset),
        },
{
    match key.code {
        KeyCode::Enter | KeyCode::Esc | KeyCode::Char('q') => None,
        KeyCode::Char('j') => Some(
            if offset < max_scroll {
                offset + 1
            } else {
                offset
            },
        ),
        KeyCode::Char('k') => Some(
            if offset > 0 {
                offset - 1
            } else {
                offset
            },
        ),
        _ => Some(offset),
    }
}

} // verus!
