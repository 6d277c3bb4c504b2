//! The text that a user edits to write a task or an event, and durations typed in.
//!
//! The text has sections: a line `[title]`, `[description]` or (for a task) `[severity]`
//! starts one, and the non-empty lines that follow belong to it. Title and description join
//! their lines, each without its trailing white space, with line breaks; the severity is
//! the last line that reads as a whole number.

use vstd::prelude::*;
use crate::date::{DateTime, TimeDelta, utc_now, now};
use crate::event::Event;
use crate::parser::{all_digits, digits_value, chars_of, slice, all_digits_exec, parse_num_exec, wrap_i64};
use crate::task::{Status, Task};
use crate::text::{trim_start, trim_end, trim_exec, trim_end_exec, eq_text, push_char, push_str};

verus! {

/// The section of the text a line belongs to.
#[derive(Debug, Clone, Copy, PartialEq, Eq, Structural)]
pub enum TomlMode {
    Title,
    Description,
    Severity,
}

/// What has been read so far: the current section, the title, the description, the severity.
pub struct EditorFields {
    pub mode: Option<TomlMode>,
    pub title: Seq<char>,
    pub description: Seq<char>,
    pub severity: int,
}

/// A whole number with an optional sign that fits in 64 bits.
pub open spec fn i64_of(s: Seq<char>) -> Option<int> {
    if s.len() == 0 {
        None
    } else {
        let neg = s[0] == '-';
        let d = if s[0] == '-' || s[0] == '+' {
            s.skip(1)
        } else {
            s
        };
        if d.len() > 0 && all_digits(d) {
            let v = if neg {
                -digits_value(d)
            } else {
                digits_value(d)
            };
            if i64::MIN <= v <= i64::MAX {
                Some(v)
            } else {
                None
            }
        } else {
            None
        }
    }
}

/// A whole number with an optional `+` that fits in 64 unsigned bits.
pub open spec fn u64_of(s: Seq<char>) -> Option<int> {
    let d = if s.len() > 0 && s[0] == '+' {
        s.skip(1)
    } else {
        s
    };
    if d.len() > 0 && all_digits(d) && digits_value(d) <= u64::MAX {
        Some(digits_value(d))
    } else {
        None
    }
}

/// `s` joined to `line`: `line` alone where `s` is empty, else with a line break between.
pub open spec fn joined(s: Seq<char>, line: Seq<char>) -> Seq<char> {
    if s.len() == 0 {
        line
    } else {
        s + "\n"@ + line
    }
}

/// Reading one more line; `[severity]` starts a section only where `with_severity`.
pub open spec fn editor_step(f: EditorFields, line: Seq<char>, with_severity: bool) -> EditorFields {
    let trimmed = trim_end(trim_start(line));
    let to_add = trim_end(line);
    if trimmed == "[title]"@ {
        EditorFields { mode: Some(TomlMode::Title), ..f }
    } else if trimmed == "[description]"@ {
        EditorFields { mode: Some(TomlMode::Description), ..f }
    } else if with_severity && trimmed == "[severity]"@ {
        EditorFields { mode: Some(TomlMode::Severity), ..f }
    } else if to_add.len() == 0 {
        f
    } else {
        match f.mode {
            Some(TomlMode::Title) => EditorFields { title: joined(f.title, to_add), ..f },
            Some(TomlMode::Description) => EditorFields { description: joined(f.description, to_add), ..f },
            Some(TomlMode::Severity) => match i64_of(trimmed) {
                Some(n) => EditorFields { severity: n, ..f },
                None => f,
            },
            None => f,
        }
    }
}

/// What the lines give, read from the first.
pub open spec fn editor_fields(lines: Seq<Seq<char>>, with_severity: bool) -> EditorFields
    decreases lines.len(),
{
    if lines.len() == 0 {
        EditorFields { mode: None, title: Seq::empty(), description: Seq::empty(), severity: 0 }
    } else {
        editor_step(editor_fields(lines.drop_last(), with_severity), lines.last(), with_severity)
    }
}

/// The characters of each line.
pub open spec fn line_views(lines: Seq<String>) -> Seq<Seq<char>> {
    lines.map_values(|l: String| l@)
}

fn i64_of_exec(v: &Vec<char>) -> (r: Option<i64>)
    ensures
        match r {
            Some(n) => i64_of(v@) == Some(n as int),
            None => i64_of(v@) is None,
        },
{
    if v.len() == 0 {
        return None;
    }
    let neg = v[0] == '-';
    let d = if v[0] == '-' || v[0] == '+' {
        let d = slice(v, 1, v.len());
        assert(d@ =~= v@.skip(1));
        d
    } else {
        let d = slice(v, 0, v.len());
        assert(d@ =~= v@);
        d
    };
    if d.len() == 0 || !all_digits_exec(&d) {
        return None;
    }
    if neg {
        match parse_num_exec(&d, 0x8000_0000_0000_0000) {
            Some(x) => {
                if x == 0x8000_0000_0000_0000 {
                    Some(i64::MIN)
                } else {
                    Some(-(x as i64))
                }
            },
            None => None,
        }
    } else {
        match parse_num_exec(&d, 0x7fff_ffff_ffff_ffff) {
            Some(x) => Some(x as i64),
            None => None,
        }
    }
}

pub(crate) fn u64_of_exec(v: &Vec<char>) -> (r: Option<u64>)
    ensures
        match r {
            Some(n) => u64_of(v@) == Some(n as int),
            None => u64_of(v@) is None,
        },
{
    let d = if v.len() > 0 && v[0] == '+' {
        let d = slice(v, 1, v.len());
        assert(d@ =~= v@.skip(1));
        d
    } else {
        let d = slice(v, 0, v.len());
        assert(d@ =~= v@);
        d
    };
    if d.len() == 0 || !all_digits_exec(&d) {
        return None;
    }
    parse_num_exec(&d, u64::MAX)
}

fn join_line(s: &mut String, line: &Vec<char>)
    ensures
        final(s)@ == joined(old(s)@, line@),
{
    if s.unicode_len() > 0 {
        push_str(s, "\n");
    }
    let ghost start = s@;
    let mut i: usize = 0;
    while i < line.len()
        invariant
            i <= line.len(),
            s@ == start + line@.take(i as int),
        decreases line.len() - i,
    {
        push_char(s, line[i]);
        i += 1;
        assert(s@ =~= start + line@.take(i as int));
    }
    assert(line@.take(line@.len() as int) =~= line@);
    assert(old(s)@.len() == 0 ==> start + line@ =~= line@);
}

fn read_fields(lines: &Vec<String>, with_severity: bool) -> (r: (String, String, i64))
    ensures
        r.0@ == editor_fields(line_views(lines@), with_severity).title,
        r.1@ == editor_fields(line_views(lines@), with_severity).description,
        r.2 == editor_fields(line_views(lines@), with_severity).severity,
{
    let ghost views = line_views(lines@);
    let mut title = String::new();
    let mut description = String::new();
    let mut severity: i64 = 0;
    let mut mode: Option<TomlMode> = None;
    let mut i: usize = 0;
    assert(views.take(0) =~= Seq::<Seq<char>>::empty());
    proof {
        reveal_strlit("");
    }
    assert(title@ =~= Seq::<char>::empty());
    assert(description@ =~= Seq::<char>::empty());
    while i < lines.len()
        invariant
            i <= lines@.len(),
            views == line_views(lines@),
            ({
                let f = editor_fields(views.take(i as int), with_severity);
                &&& f.mode == mode
                &&& f.title == title@
                &&& f.description == description@
                &&& f.severity == severity
            }),
        decreases lines@.len() - i,
    {
        assert(views.take(i + 1).drop_last() =~= views.take(i as int));
        assert(views.take(i + 1).last() == lines@[i as int]@);
        let line = chars_of(lines[i].as_str());
        let trimmed = trim_exec(&line);
        let to_add = trim_end_exec(&line);
        if eq_text(&trimmed, "[title]") {
            mode = Some(TomlMode::Title);
        } else if eq_text(&trimmed, "[description]") {
            mode = Some(TomlMode::Description);
        } else if with_severity && eq_text(&trimmed, "[severity]") {
            mode = Some(TomlMode::Severity);
        } else if to_add.len() > 0 {
            match mode {
                Some(TomlMode::Title) => join_line(&mut title, &to_add),
                Some(TomlMode::Description) => join_line(&mut description, &to_add),
                Some(TomlMode::Severity) => {
                    match i64_of_exec(&trimmed) {
                        Some(n) => {
                            severity = n;
                        },
                        None => {},
                    }
                },
                None => {},
            }
        }
        i += 1;
    }
    assert(views.take(lines@.len() as int) =~= views);
    (title, description, severity)
}

/// The task that the edited lines describe: title, description and severity from the text,
/// no tags, in the backlog, created at `creation_date`.
pub fn task_from_lines(lines: &Vec<String>, creation_date: DateTime) -> (t: Task)
    ensures
        t.id is None,
        t.title@ == editor_fields(line_views(lines@), true).title,
        t.description@ == editor_fields(line_views(lines@), true).description,
        t.severity == editor_fields(line_views(lines@), true).severity,
        t.tags@ == Seq::<i64>::empty(),
        t.status == Status::Backlog,
        t.creation_date == creation_date,
        t.due_date is None,
        t.reminder_date is None,
        t.timer_start is None,
        t.time_taken is None,
{
    let (title, description, severity) = read_fields(lines, true);
    Task::new(
        None,
        title.as_str(),
        description.as_str(),
        severity,
        Vec::new(),
        Status::Backlog,
        creation_date,
        None,
        None,
        None,
        None,
    )
}

/// The task that the edited lines describe, created now (see `task_from_lines`).
pub fn task_from_reader(lines: &Vec<String>) -> (t: Task)
    ensures
        t.id is None,
        t.title@ == editor_fields(line_views(lines@), true).title,
        t.description@ == editor_fields(line_views(lines@), true).description,
        t.severity == editor_fields(line_views(lines@), true).severity,
        t.tags@ == Seq::<i64>::empty(),
        t.status == Status::Backlog,
        t.creation_date.wf(),
        t.due_date is None,
        t.reminder_date is None,
        t.timer_start is None,
        t.time_taken is None,
{
    task_from_lines(lines, utc_now())
}

/// The event that the edited lines describe: title and description from the text (a
/// `[severity]` line is text like any other), at `date`, without duration or recurrence.
pub fn event_from_lines(lines: &Vec<String>, date: DateTime) -> (e: Event)
    ensures
        e.id is None,
        e.title@ == editor_fields(line_views(lines@), false).title,
        e.description@ == editor_fields(line_views(lines@), false).description,
        e.duration is None,
        e.date == date,
        e.recurrence_interval is None,
        e.recurrence_end is None,
        e.skipped_dates@ == Seq::<DateTime>::empty(),
{
    let (title, description, _) = read_fields(lines, false);
    Event::new(None, title.as_str(), description.as_str(), None, date, None, None, Vec::new())
}

/// The event that the edited lines describe, dated now (see `event_from_lines`).
pub fn event_from_reader(lines: &Vec<String>) -> (e: Event)
    ensures
        e.id is None,
        e.title@ == editor_fields(line_views(lines@), false).title,
        e.description@ == editor_fields(line_views(lines@), false).description,
        e.duration is None,
        e.date.wf(),
        e.recurrence_interval is None,
        e.recurrence_end is None,
        e.skipped_dates@ == Seq::<DateTime>::empty(),
{
    event_from_lines(lines, now())
}

// ------------------------------------------------------------------
// Durations
// ------------------------------------------------------------------

/// The longest length of time in whole seconds, either way.
pub open spec fn max_delta_secs() -> int {
    9_223_372_036_854_775
}

/// The parts of `cur + s` between the colons, from left to right.
pub open spec fn colon_parts(s: Seq<char>, cur: Seq<char>) -> Seq<Seq<char>>
    decreases s.len(),
{
    if s.len() == 0 {
        seq![cur]
    } else if s[0] == ':' {
        seq![cur] + colon_parts(s.skip(1), Seq::empty())
    } else {
        colon_parts(s.skip(1), cur.push(s[0]))
    }
}

/// A number of the input, 0 where it is blank.
pub open spec fn number_or_zero(s: Seq<char>) -> Option<int> {
    let t = trim_end(trim_start(s));
    if t.len() == 0 {
        Some(0)
    } else {
        u64_of(t)
    }
}

/// The seconds that a duration input stands for: minutes, or hours and minutes around a colon.
pub open spec fn duration_secs(input: Seq<char>) -> Option<int> {
    let parts = colon_parts(input, Seq::empty());
    if parts.len() == 1 {
        match number_or_zero(parts[0]) {
            Some(m) => Some(wrap_i64(m) * 60),
            None => None,
        }
    } else if parts.len() == 2 {
        match number_or_zero(parts[0]) {
            Some(h) => match number_or_zero(parts[1]) {
                Some(m) => Some(wrap_i64(h) * 3600 + wrap_i64(m) * 60),
                None => None,
            },
            None => None,
        }
    } else {
        None
    }
}

/// The hours and the minutes, and their sum, are lengths of time that exist.
pub open spec fn duration_defined(input: Seq<char>) -> bool {
    let parts = colon_parts(input, Seq::empty());
    if parts.len() == 1 {
        match number_or_zero(parts[0]) {
            Some(m) => -max_delta_secs() <= wrap_i64(m) * 60 <= max_delta_secs(),
            None => true,
        }
    } else if parts.len() == 2 {
        match (number_or_zero(parts[0]), number_or_zero(parts[1])) {
            (Some(h), Some(m)) => {
                &&& -max_delta_secs() <= wrap_i64(h) * 3600 <= max_delta_secs()
                &&& -max_delta_secs() <= wrap_i64(m) * 60 <= max_delta_secs()
                &&& -max_delta_secs() <= wrap_i64(h) * 3600 + wrap_i64(m) * 60 <= max_delta_secs()
            },
            _ => true,
        }
    } else {
        true
    }
}

fn colon_parts_exec(v: &Vec<char>) -> (r: Vec<Vec<char>>)
    ensures
        r@.map_values(|p: Vec<char>| p@) == colon_parts(v@, Seq::empty()),
{
    let mut parts: Vec<Vec<char>> = Vec::new();
    let mut cur: Vec<char> = Vec::new();
    let mut i: usize = 0;
    assert(v@.skip(0) =~= v@);
    while i < v.len()
        invariant
            i <= v.len(),
            parts@.map_values(|p: Vec<char>| p@) + colon_parts(v@.skip(i as int), cur@)
                == colon_parts(v@, Seq::empty()),
        decreases v.len() - i,
    {
        let ghost rest = v@.skip(i as int);
        let ghost before = parts@.map_values(|p: Vec<char>| p@);
        if v[i] == ':' {
            let ghost c = cur@;
            let done = cur;
            cur = Vec::new();
            parts.push(done);
            assert(rest.skip(1) =~= v@.skip(i + 1));
            assert(parts@.map_values(|p: Vec<char>| p@) =~= before.push(c));
            assert(before + colon_parts(rest, c) =~= before.push(c) + colon_parts(
                v@.skip(i + 1),
                Seq::empty(),
            ));
            assert(cur@ =~= Seq::<char>::empty());
        } else {
            cur.push(v[i]);
            assert(rest.skip(1) =~= v@.skip(i + 1));
        }
        i += 1;
    }
    let ghost before = parts@.map_values(|p: Vec<char>| p@);
    let ghost c = cur@;
    assert(v@.skip(i as int) =~= Seq::<char>::empty());
    parts.push(cur);
    assert(parts@.map_values(|p: Vec<char>| p@) =~= before.push(c));
    assert(before + seq![c] =~= before.push(c));
    parts
}

/// A number read from the input, 0 where it is blank; `None` where it is no number.
pub fn parse_or_zero(s: &str) -> (r: Option<u64>)
    ensures
        match r {
            Some(n) => number_or_zero(s@) == Some(n as int),
            None => number_or_zero(s@) is None,
        },
{
    number_or_zero_exec(&chars_of(s))
}

fn number_or_zero_exec(v: &Vec<char>) -> (r: Option<u64>)
    ensures
        match r {
            Some(n) => number_or_zero(v@) == Some(n as int),
            None => number_or_zero(v@) is None,
        },
{
    let t = trim_exec(v);
    if t.len() == 0 {
        Some(0)
    } else {
        u64_of_exec(&t)
    }
}

/// The length of time that a duration input stands for: `m` minutes, or `h:m` hours and
/// minutes (blank parts count 0); `None` where a part is no number or there are more colons.
pub fn parse_duration(input: &str) -> (r: Option<TimeDelta>)
    requires
        duration_defined(input@),
    ensures
        match duration_secs(input@) {
            Some(s) => r == Some(TimeDelta { secs: s as i64, nanos: 0 }),
            None => r is None,
        },
{
    let v = chars_of(input);
    let parts = colon_parts_exec(&v);
    assert(parts@.len() == colon_parts(v@, Seq::empty()).len());
    if parts.len() == 1 {
        assert(parts@[0]@ == colon_parts(v@, Seq::empty())[0]);
        let m = match number_or_zero_exec(&parts[0]) {
            Some(m) => m,
            None => {
                return None;
            },
        };
        let mi = m as i64;
        assert(mi == wrap_i64(m as int)) by (bit_vector)
            requires
                mi == m as i64,
        ;
        Some(TimeDelta { secs: mi * 60, nanos: 0 })
    } else if parts.len() == 2 {
        assert(parts@[0]@ == colon_parts(v@, Seq::empty())[0]);
        assert(parts@[1]@ == colon_parts(v@, Seq::empty())[1]);
        let h = match number_or_zero_exec(&parts[0]) {
            Some(h) => h,
            None => {
                return None;
            },
        };
        let m = match number_or_zero_exec(&parts[1]) {
            Some(m) => m,
            None => {
                return None;
            },
        };
        let hi = h as i64;
        let mi = m as i64;
        assert(hi == wrap_i64(h as int)) by (bit_vector)
            requires
                hi == h as i64,
        ;
        assert(mi == wrap_i64(m as int)) by (bit_vector)
            requires
                mi == m as i64,
        ;
        Some(TimeDelta { secs: hi * 3600 + mi * 60, nanos: 0 })
    } else {
        None
    }
}

} // verus!
