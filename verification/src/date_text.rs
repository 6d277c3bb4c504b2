//! Dates and times as the interface shows them, and the lines of the current task's
//! information.

use vstd::prelude::*;
use crate::date::{CivilDate, DateTime, TimeOfDay, Weekday, weekday};
use crate::info_views::{CurrentTaskInfo, time_taken_text};
use crate::task::Task;
use crate::text::{decimal, digit_char, push_char, push_decimal, push_str};

verus! {

/// A number below one hundred as two digits.
pub open spec fn two_digits(v: int) -> Seq<char> {
    seq![digit_char(v / 10), digit_char(v % 10)]
}

/// The decimal notation of `n` with zeros before it up to four digits.
pub open spec fn four_digits(n: nat) -> Seq<char> {
    if n < 10 {
        "000"@ + decimal(n)
    } else if n < 100 {
        "00"@ + decimal(n)
    } else if n < 1000 {
        "0"@ + decimal(n)
    } else {
        decimal(n)
    }
}

/// A year: four digits from 0 to 9999, otherwise with its sign and at least four digits.
pub open spec fn year_text(y: int) -> Seq<char> {
    if 0 <= y <= 9999 {
        four_digits(y as nat)
    } else if y < 0 {
        seq!['-'] + four_digits((-y) as nat)
    } else {
        seq!['+'] + four_digits(y as nat)
    }
}

/// The English name of a day of the week.
pub open spec fn weekday_long_name(w: Weekday) -> Seq<char> {
    match w {
        Weekday::Mon => "Monday"@,
        Weekday::Tue => "Tuesday"@,
        Weekday::Wed => "Wednesday"@,
        Weekday::Thu => "Thursday"@,
        Weekday::Fri => "Friday"@,
        Weekday::Sat => "Saturday"@,
        Weekday::Sun => "Sunday"@,
    }
}

/// The day of the week with the given index, 0 for Monday.
pub open spec fn weekday_of_index(i: int) -> Weekday {
    if i == 0 {
        Weekday::Mon
    } else if i == 1 {
        Weekday::Tue
    } else if i == 2 {
        Weekday::Wed
    } else if i == 3 {
        Weekday::Thu
    } else if i == 4 {
        Weekday::Fri
    } else if i == 5 {
        Weekday::Sat
    } else {
        Weekday::Sun
    }
}

/// The seconds of a time, a leap second counting as the sixtieth.
pub open spec fn shown_second(t: TimeOfDay) -> int {
    t.second + t.nanosecond / 1_000_000_000
}

/// `dd<sep>mm<sep>yyyy` for a date.
pub open spec fn day_text(d: CivilDate, sep: char) -> Seq<char> {
    two_digits(d.day as int) + seq![sep] + two_digits(d.month as int) + seq![sep] + year_text(d.year as int)
}

/// `HH:MM` for a time.
pub open spec fn hm_text(t: TimeOfDay) -> Seq<char> {
    two_digits(t.hour as int) + seq![':'] + two_digits(t.minute as int)
}

/// `HH:MM:SS` for a time.
pub open spec fn hms_text(t: TimeOfDay) -> Seq<char> {
    hm_text(t) + seq![':'] + two_digits(shown_second(t))
}

fn push_two(s: &mut String, v: u32)
    requires
        v < 100,
    ensures
        final(s)@ == old(s)@ + two_digits(v as int),
{
    let t = v / 10;
    let o = v % 10;
    push_digit(s, t);
    push_digit(s, o);
    assert(old(s)@.push(digit_char(t as int)).push(digit_char(o as int)) =~= old(s)@ + two_digits(v as int));
}

fn push_digit(s: &mut String, d: u32)
    requires
        d < 10,
    ensures
        final(s)@ == old(s)@.push(digit_char(d as int)),
{
    let ghost before = s@;
    push_decimal(s, d as u64);
    assert(decimal(d as nat) == seq![digit_char(d as int)]);
    assert(s@ =~= before.push(digit_char(d as int)));
}

fn push_four(s: &mut String, n: u64)
    ensures
        final(s)@ == old(s)@ + four_digits(n as nat),
{
    proof {
        reveal_strlit("000");
        reveal_strlit("00");
        reveal_strlit("0");
    }
    if n < 10 {
        push_str(s, "000");
    } else if n < 100 {
        push_str(s, "00");
    } else if n < 1000 {
        push_str(s, "0");
    }
    let ghost mid = s@;
    push_decimal(s, n);
    assert(s@ =~= old(s)@ + four_digits(n as nat));
}

fn push_year(s: &mut String, y: i32)
    ensures
        final(s)@ == old(s)@ + year_text(y as int),
{
    if 0 <= y && y <= 9999 {
        push_four(s, y as u64);
    } else if y < 0 {
        push_char(s, '-');
        let ghost mid = s@;
        let a: u64 = (-(y as i64)) as u64;
        push_four(s, a);
        assert(s@ =~= old(s)@ + year_text(y as int));
    } else {
        push_char(s, '+');
        push_four(s, y as u64);
        assert(s@ =~= old(s)@ + year_text(y as int));
    }
}

pub(crate) fn push_weekday(s: &mut String, w: Weekday)
    ensures
        final(s)@ == old(s)@ + weekday_long_name(w),
{
    match w {
        Weekday::Mon => push_str(s, "Monday"),
        Weekday::Tue => push_str(s, "Tuesday"),
        Weekday::Wed => push_str(s, "Wednesday"),
        Weekday::Thu => push_str(s, "Thursday"),
        Weekday::Fri => push_str(s, "Friday"),
        Weekday::Sat => push_str(s, "Saturday"),
        Weekday::Sun => push_str(s, "Sunday"),
    }
}

fn push_day(s: &mut String, d: CivilDate, sep: char)
    requires
        d.wf(),
    ensures
        final(s)@ == old(s)@ + day_text(d, sep),
{
    push_two(s, d.day);
    push_char(s, sep);
    push_two(s, d.month);
    push_char(s, sep);
    push_year(s, d.year);
    assert(s@ =~= old(s)@ + day_text(d, sep));
}

pub(crate) fn push_hm(s: &mut String, t: TimeOfDay)
    requires
        t.wf(),
    ensures
        final(s)@ == old(s)@ + hm_text(t),
{
    push_two(s, t.hour);
    push_char(s, ':');
    push_two(s, t.minute);
    assert(s@ =~= old(s)@ + hm_text(t));
}

fn push_hms(s: &mut String, t: TimeOfDay)
    requires
        t.wf(),
    ensures
        final(s)@ == old(s)@ + hms_text(t),
{
    push_hm(s, t);
    push_char(s, ':');
    let sec: u32 = t.second + t.nanosecond / 1_000_000_000;
    push_two(s, sec);
    assert(s@ =~= old(s)@ + hms_text(t));
}

/// `dd.mm.yyyy HH:MM Weekday`, as the task information shows a date.
pub fn task_date_text(d: DateTime) -> (r: String)
    requires
        d.wf(),
    ensures
        r@ == day_text(d.date, '.') + seq![' '] + hm_text(d.time) + seq![' '] + weekday_long_name(
            weekday_of_index(d.date.weekday_index()),
        ),
{
    let mut s = String::new();
    proof {
        reveal_strlit("");
    }
    push_day(&mut s, d.date, '.');
    push_char(&mut s, ' ');
    push_hm(&mut s, d.time);
    push_char(&mut s, ' ');
    let w = weekday(d.date);
    assert(w == weekday_of_index(d.date.weekday_index()));
    push_weekday(&mut s, w);
    s
}

/// `dd.mm.yyyy HH:MM:SS`, as the task information shows the start of the timer.
pub fn timer_start_text(d: DateTime) -> (r: String)
    requires
        d.wf(),
    ensures
        r@ == day_text(d.date, '.') + seq![' '] + hms_text(d.time),
{
    let mut s = String::new();
    proof {
        reveal_strlit("");
    }
    push_day(&mut s, d.date, '.');
    push_char(&mut s, ' ');
    push_hms(&mut s, d.time);
    s
}

/// `dd-mm-yyyy HH:MM:SS`, as the selected date is shown.
pub fn selected_date_text(d: DateTime) -> (r: String)
    requires
        d.wf(),
    ensures
        r@ == day_text(d.date, '-') + seq![' '] + hms_text(d.time),
{
    let mut s = String::new();
    proof {
        reveal_strlit("");
    }
    push_day(&mut s, d.date, '-');
    push_char(&mut s, ' ');
    push_hms(&mut s, d.time);
    s
}

/// The lines that show the selected date: the date (or that there is none) and a line of
/// underscores two longer than it.
pub fn selected_date_lines(d: Option<DateTime>) -> (r: Vec<String>)
    requires
        d matches Some(x) ==> x.wf(),
    ensures
        r@.len() == 2,
        r@[0]@ == (match d {
            Some(x) => day_text(x.date, '-') + seq![' '] + hms_text(x.time),
            None => "no date selected"@,
        }),
        r@[1]@ == Seq::new((r@[0]@.len() + 2) as nat, |i: int| '_'),
{
    let first = match d {
        Some(x) => selected_date_text(x),
        None => "no date selected".to_owned(),
    };
    let n = first.as_str().unicode_len();
    let mut line = String::new();
    proof {
        reveal_strlit("");
    }
    push_char(&mut line, '_');
    push_char(&mut line, '_');
    assert(line@ =~= Seq::new(2, |k: int| '_'));
    let mut i: usize = 0;
    while i < n
        invariant
            i <= n,
            n == first@.len(),
            line@ == Seq::new((i + 2) as nat, |k: int| '_'),
        decreases n - i,
    {
        push_char(&mut line, '_');
        i += 1;
        assert(line@ =~= Seq::new((i + 2) as nat, |k: int| '_'));
    }
    let mut v: Vec<String> = Vec::new();
    v.push(first);
    v.push(line);
    v
}

/// The parts of `s` between line breaks, after the part `cur` begun before it.
pub open spec fn line_parts(s: Seq<char>, cur: Seq<char>) -> Seq<Seq<char>>
    decreases s.len(),
{
    if s.len() == 0 {
        seq![cur]
    } else if s[0] == '\n' {
        seq![cur] + line_parts(s.skip(1), Seq::empty())
    } else {
        line_parts(s.skip(1), cur.push(s[0]))
    }
}

/// The text of an optional date, `none` where there is none.
pub open spec fn optional_date_text(d: Option<DateTime>) -> Seq<char> {
    match d {
        Some(x) => day_text(x.date, '.') + seq![' '] + hm_text(x.time) + seq![' '] + weekday_long_name(
            weekday_of_index(x.date.weekday_index()),
        ),
        None => "none"@,
    }
}

/// The lines of the task information, before the description's own lines.
pub open spec fn task_info_head(t: Task) -> Seq<Seq<char>> {
    seq![
        "task title: "@ + t.title@,
        "due date: "@ + optional_date_text(t.due_date),
        "reminder date: "@ + optional_date_text(t.reminder_date),
        "started at: "@ + match t.timer_start {
            Some(x) => day_text(x.date, '.') + seq![' '] + hms_text(x.time),
            None => "not started"@,
        },
        "time taken: "@ + match t.time_taken {
            Some(d) => time_taken_text(d),
            None => "none"@,
        },
        Seq::empty(),
        "description:"@,
    ]
}

fn optional_date(d: Option<DateTime>) -> (r: String)
    requires
        d matches Some(x) ==> x.wf(),
    ensures
        r@ == optional_date_text(d),
{
    match d {
        Some(x) => task_date_text(x),
        None => "none".to_owned(),
    }
}

impl CurrentTaskInfo {
    /// The lines shown for the current task: its title, dates, timer and time taken, and its
    /// description line by line; nothing without a task.
    pub fn lines(&self) -> (r: Vec<String>)
        requires
            self.current_task matches Some(t) ==> {
                &&& t.due_date matches Some(x) ==> x.wf()
                &&& t.reminder_date matches Some(x) ==> x.wf()
                &&& t.timer_start matches Some(x) ==> x.wf()
            },
        ensures
            match self.current_task {
                Some(t) => r@.map_values(|l: String| l@) == task_info_head(t) + line_parts(
                    t.description@,
                    Seq::empty(),
                ),
                None => r@.len() == 0,
            },
    {
        let mut v: Vec<String> = Vec::new();
        let t = match &self.current_task {
            Some(t) => t,
            None => {
                return v;
            },
        };
        proof {
            reveal_strlit("");
        }
        let mut title = String::new();
        push_str(&mut title, "task title: ");
        push_str(&mut title, t.title.as_str());
        v.push(title);
        let mut due = String::new();
        push_str(&mut due, "due date: ");
        let due_text = optional_date(t.due_date);
        push_str(&mut due, due_text.as_str());
        v.push(due);
        let mut reminder = String::new();
        push_str(&mut reminder, "reminder date: ");
        let reminder_text = optional_date(t.reminder_date);
        push_str(&mut reminder, reminder_text.as_str());
        v.push(reminder);
        let mut started = String::new();
        push_str(&mut started, "started at: ");
        match t.timer_start {
            Some(x) => {
                let st = timer_start_text(x);
                push_str(&mut started, st.as_str());
            },
            None => push_str(&mut started, "not started"),
        }
        v.push(started);
        let mut taken = String::new();
        push_str(&mut taken, "time taken: ");
        match t.time_taken {
            Some(d) => {
                let tt = CurrentTaskInfo::time_taken(d);
                push_str(&mut taken, tt.as_str());
            },
            None => push_str(&mut taken, "none"),
        }
        v.push(taken);
        v.push(String::new());
        v.push("description:".to_owned());
        let ghost head = v@.map_values(|l: String| l@);
        assert(head =~= task_info_head(*t));
        let desc = crate::parser::chars_of(t.description.as_str());
        let mut cur = String::new();
        let mut i: usize = 0;
        assert(desc@.skip(0) =~= desc@);
        while i < desc.len()
            invariant
                i <= desc@.len(),
                desc@ == t.description@,
                v@.len() >= 7,
                v@.map_values(|l: String| l@).take(7) == task_info_head(*t),
                v@.map_values(|l: String| l@).skip(7) + line_parts(desc@.skip(i as int), cur@) == line_parts(
                    desc@,
                    Seq::empty(),
                ),
            decreases desc@.len() - i,
        {
            let ghost rest = desc@.skip(i as int);
            let ghost before = v@.map_values(|l: String| l@);
            assert(rest[0] == desc@[i as int]);
            assert(rest.skip(1) =~= desc@.skip(i + 1));
            if desc[i] == '\n' {
                let ghost c = cur@;
                let done = cur;
                cur = String::new();
                v.push(done);
                assert(v@.map_values(|l: String| l@) =~= before.push(c));
                assert(v@.map_values(|l: String| l@).take(7) =~= before.take(7));
                assert(v@.map_values(|l: String| l@).skip(7) =~= before.skip(7).push(c));
                assert(before.skip(7) + (seq![c] + line_parts(desc@.skip(i + 1), Seq::empty())) =~= before.skip(7).push(
                    c,
                ) + line_parts(desc@.skip(i + 1), Seq::empty()));
                assert(cur@ =~= Seq::<char>::empty());
            } else {
                push_char(&mut cur, desc[i]);
            }
            i += 1;
        }
        let ghost before = v@.map_values(|l: String| l@);
        let ghost c = cur@;
        assert(desc@.skip(i as int) =~= Seq::<char>::empty());
        v.push(cur);
        assert(v@.map_values(|l: String| l@) =~= before.push(c));
        assert(v@.map_values(|l: String| l@).take(7) =~= before.take(7));
        assert(v@.map_values(|l: String| l@).skip(7) =~= before.skip(7).push(c));
        assert(v@.map_values(|l: String| l@) =~= task_info_head(*t) + line_parts(t.description@, Seq::empty()));
        v
    }
}

} // verus!
