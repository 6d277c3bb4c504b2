//! The month calendar: which days it shows on which lines, the week number of each line
//! and the texts it shows.

use vstd::prelude::*;
use crate::date::{
    CivilDate, MAX_YEAR, MIN_YEAR, checked_add_days, checked_sub_days, civil_of, day_number,
    days_in_month, in_day_range, iso_week, iso_week_number, lemma_civil_of_num, lemma_day_of_month,
    lemma_day_range_bounds, lemma_next_month_start, lemma_num_of_civil, max_day_number,
    min_day_number, weekday, weekday_index_of, with_day,
};
use crate::text::{decimal, digit_char, push_char, push_decimal, push_signed, push_str, signed_decimal};

verus! {

/// Number of the first day of the month of `d`.
pub open spec fn month_start(d: CivilDate) -> int {
    day_number(d.year as int, d.month as int, 1)
}

/// Number of the last day of the month of `d`.
pub open spec fn month_end(d: CivilDate) -> int {
    day_number(d.year as int, d.month as int, days_in_month(d.year as int, d.month as int))
}

/// Number of the Monday on or before the first day of the month of `d`: the first day shown.
#[verifier::opaque]
pub open spec fn grid_start(d: CivilDate) -> int {
    month_start(d) - weekday_index_of(month_start(d))
}

/// Number of lines of seven days from `grid_start` up to the line holding the last day of
/// the month.
#[verifier::opaque]
pub open spec fn full_lines(d: CivilDate) -> int {
    (month_end(d) - grid_start(d)) / 7 + 1
}

/// Number of days shown: all the days of the full lines that exist in the calendar, none
/// where the first of them does not.
#[verifier::opaque]
pub open spec fn grid_days(d: CivilDate) -> int {
    let g = grid_start(d);
    if !in_day_range(g) {
        0
    } else if g + 7 * full_lines(d) - 1 <= max_day_number() {
        7 * full_lines(d)
    } else {
        max_day_number() - g + 1
    }
}

/// The week number shown on line `i`: the ISO week of the first of the month on the first
/// line, then one more than on the line before, read again from the calendar after week 52.
pub open spec fn shown_week(d: CivilDate, i: nat) -> int
    decreases i,
{
    if i == 0 {
        iso_week_number(d.year as int, d.month as int, 1)
    } else {
        let p = shown_week(d, (i - 1) as nat);
        if p >= 52 {
            let c = civil_of(grid_start(d) + 7 * i);
            iso_week_number(c.year as int, c.month as int, c.day as int)
        } else {
            p + 1
        }
    }
}

/// The month after month `m`.
pub open spec fn next_month_of(m: int) -> int {
    m % 12 + 1
}

/// A day numbered within a month of the calendar is a day of that month.
proof fn lemma_day_in_month(y: int, m: int, n: int)
    requires
        MIN_YEAR <= y <= MAX_YEAR,
        1 <= m <= 12,
        day_number(y, m, 1) <= n < day_number(y, m, 1) + days_in_month(y, m),
    ensures
        civil_of(n).month == m,
{
    let k = n - day_number(y, m, 1) + 1;
    lemma_day_of_month(y, m, k);
    lemma_civil_of_num(CivilDate { year: y as i32, month: m as u32, day: k as u32 });
}

/// A line starts in the month after the shown one exactly after the full lines.
proof fn lemma_line_start_month(d: CivilDate, i: int)
    requires
        d.wf(),
        0 <= i <= full_lines(d),
        in_day_range(grid_start(d) + 7 * i),
    ensures
        (civil_of(grid_start(d) + 7 * i).month == next_month_of(d.month as int)) == (i == full_lines(
            d,
        )),
{
    let y = d.year as int;
    let m = d.month as int;
    let fs = month_start(d);
    let dim = days_in_month(y, m);
    let me = month_end(d);
    lemma_day_of_month(y, m, dim);
    assert(me == fs + dim - 1);
    let g = grid_start(d);
    let lines = full_lines(d);
    assert(fs - 6 <= g <= fs && lines == (me - g) / 7 + 1) by {
        reveal(grid_start);
        reveal(full_lines);
    }
    let n = g + 7 * i;
    lemma_day_range_bounds();
    if i < lines {
        assert(n <= me);
        if n >= fs {
            lemma_day_in_month(y, m, n);
        } else {
            let py = if m == 1 {
                y - 1
            } else {
                y
            };
            let pm = if m == 1 {
                12
            } else {
                m - 1
            };
            if py < MIN_YEAR {
                assert(fs == min_day_number());
                assert(false);
            }
            lemma_next_month_start(py, pm);
            lemma_day_of_month(py, pm, days_in_month(py, pm));
            lemma_day_in_month(py, pm, n);
        }
    } else {
        assert(me < n <= me + 7);
        let ny = if m == 12 {
            y + 1
        } else {
            y
        };
        let nm = if m == 12 {
            1
        } else {
            m + 1
        };
        if ny > MAX_YEAR {
            assert(me == max_day_number());
            assert(false);
        }
        lemma_next_month_start(y, m);
        lemma_day_in_month(ny, nm, n);
    }
}

/// Number of days on line `i` of a calendar showing `total` days: seven, fewer on the last.
pub open spec fn line_len(total: int, i: int) -> int {
    if total - 7 * i >= 7 {
        7
    } else {
        total - 7 * i
    }
}

/// One line of the month calendar: the week number shown in front of it and its days.
pub struct CalendarWeek {
    pub week: u32,
    pub days: Vec<CivilDate>,
}

/// `weeks` are the lines of the calendar of the month of `display`: from the Monday on or
/// before the first of the month, lines of seven consecutive days up to the line holding the
/// last day of the month (the last line stops at the last day the calendar has, and there is
/// no line where the first Monday is not in the calendar), each with the week number given
/// by `shown_week`.
pub open spec fn calendar_lines(weeks: Seq<CalendarWeek>, display: CivilDate) -> bool {
    &&& weeks.len() == (grid_days(display) + 6) / 7
    &&& forall|i: int|
        #![trigger weeks[i]]
        0 <= i < weeks.len() ==> {
            &&& weeks[i].week == shown_week(display, i as nat)
            &&& weeks[i].days@.len() == line_len(grid_days(display), i)
            &&& forall|j: int|
                0 <= j < weeks[i].days@.len() ==> weeks[i].days@[j] == civil_of(
                    grid_start(display) + 7 * i + j,
                )
        }
}

/// Up to seven days from `start` on, and the day after them, `None` where the calendar ends
/// within them.
fn seven_days_from(start: CivilDate) -> (r: (Vec<CivilDate>, Option<CivilDate>))
    requires
        start.wf(),
    ensures
        1 <= r.0@.len() <= 7,
        forall|j: int| 0 <= j < r.0@.len() ==> r.0@[j] == civil_of(start.num() + j),
        match r.1 {
            Some(c) => r.0@.len() == 7 && in_day_range(start.num() + 7) && c == civil_of(
                start.num() + 7,
            ) && c.wf(),
            None => start.num() + r.0@.len() - 1 == max_day_number(),
        },
{
    let ghost n = start.num();
    let mut days: Vec<CivilDate> = Vec::new();
    let mut curr = start;
    let mut j: usize = 0;
    proof {
        lemma_civil_of_num(start);
        crate::date::lemma_valid_date_in_range(start);
    }
    while j < 7
        invariant_except_break
            days@.len() == j,
            in_day_range(n + j),
            curr == civil_of(n + j),
        invariant
            j <= 7,
            curr.wf(),
            n == start.num(),
            days@.len() <= 7,
            forall|jj: int| 0 <= jj < days@.len() ==> days@[jj] == civil_of(n + jj),
        ensures
            1 <= days@.len() <= 7,
            forall|jj: int| 0 <= jj < days@.len() ==> days@[jj] == civil_of(n + jj),
            curr.wf(),
            j < 7 ==> n + days@.len() - 1 == max_day_number(),
            j == 7 ==> days@.len() == 7 && in_day_range(n + 7) && curr == civil_of(n + 7),
        decreases 7 - j,
    {
        proof {
            lemma_num_of_civil(n + j);
        }
        days.push(curr);
        match checked_add_days(curr, 1) {
            Some(c) => {
                curr = c;
            },
            None => {
                proof {
                    lemma_day_range_bounds();
                }
                break;
            },
        }
        j += 1;
    }
    if j < 7 {
        (days, None)
    } else {
        (days, Some(curr))
    }
}

/// Line `i` of a calendar starting on day number `g` has the week number of `shown_week` and
/// the `len` days from its start on.
#[verifier::opaque]
spec fn line_matches(w: CalendarWeek, display: CivilDate, g: int, i: int, len: int) -> bool {
    &&& w.week == shown_week(display, i as nat)
    &&& w.days@.len() == len
    &&& forall|j: int| 0 <= j < len ==> w.days@[j] == civil_of(g + 7 * i + j)
}

/// Lines that match one by one, all full but maybe the last, make the calendar of the month.
proof fn lemma_lines_complete(weeks: Seq<CalendarWeek>, display: CivilDate, g: int, total: int)
    requires
        g == grid_start(display),
        total == grid_days(display),
        total >= 0,
        weeks.len() == (total + 6) / 7,
        forall|i: int|
            0 <= i < weeks.len() ==> #[trigger] line_matches(
                weeks[i],
                display,
                g,
                i,
                line_len(total, i),
            ),
    ensures
        calendar_lines(weeks, display),
{
    reveal(line_matches);
    assert forall|i: int| #![trigger weeks[i]] 0 <= i < weeks.len() implies {
        &&& weeks[i].week == shown_week(display, i as nat)
        &&& weeks[i].days@.len() == line_len(grid_days(display), i)
        &&& forall|j: int|
            0 <= j < weeks[i].days@.len() ==> weeks[i].days@[j] == civil_of(
                grid_start(display) + 7 * i + j,
            )
    } by {
        assert(line_matches(
            weeks[i],
            display,
            g,
            i,
            line_len(total, i),
        ));
    }
}

/// The lines of the calendar of the month of `display` (see `calendar_lines`).
pub fn month_weeks(display: CivilDate) -> (r: Vec<CalendarWeek>)
    requires
        display.wf(),
    ensures
        calendar_lines(r@, display),
{
    let ghost g = grid_start(display);
    let ghost total = grid_days(display);
    let ghost lines = full_lines(display);
    let first = match with_day(display, 1) {
        Some(f) => f,
        None => display,
    };
    assert(first == CivilDate { year: display.year, month: display.month, day: 1 });
    let wd = weekday(first);
    let offset = wd.number_from_monday() - 1;
    proof {
        lemma_day_range_bounds();
        assert(lines >= 1 && g == first.num() - offset) by {
            reveal(grid_start);
            reveal(full_lines);
            lemma_day_of_month(
                display.year as int,
                display.month as int,
                days_in_month(display.year as int, display.month as int),
            );
            assert(0 <= weekday_index_of(month_start(display)) < 7);
        }
        assert(total == if !in_day_range(g) {
            0
        } else if g + 7 * lines - 1 <= max_day_number() {
            7 * lines
        } else {
            max_day_number() - g + 1
        }) by {
            reveal(grid_days);
        }
    }
    let mut curr = match checked_sub_days(first, offset as u64) {
        Some(c) => c,
        None => {
            proof {
                lemma_lines_complete(Seq::empty(), display, g, total);
            }
            return Vec::new();
        },
    };
    let mut week = iso_week(first);
    let next_m = display.month % 12 + 1;
    let mut weeks: Vec<CalendarWeek> = Vec::new();
    proof {
        lemma_line_start_month(display, 0);
    }
    loop
        invariant_except_break
            weeks@.len() <= lines,
            (curr.month == next_m) == (weeks@.len() == lines),
            in_day_range(g + 7 * weeks@.len()),
            curr == civil_of(g + 7 * weeks@.len()),
            curr.wf(),
            1 <= week <= 53,
            week == shown_week(display, weeks@.len() as nat),
            g + 7 * weeks@.len() - 1 <= max_day_number(),
            forall|i: int|
                0 <= i < weeks@.len() ==> #[trigger] line_matches(weeks@[i], display, g, i, 7),
        invariant
            display.wf(),
            g == grid_start(display),
            total == grid_days(display),
            lines == full_lines(display),
            lines >= 1,
            in_day_range(g),
            total == if g + 7 * lines - 1 <= max_day_number() {
                7 * lines
            } else {
                max_day_number() - g + 1
            },
            next_m == next_month_of(display.month as int),
        ensures
            calendar_lines(weeks@, display),
        decreases lines - weeks@.len(),
    {
        let ghost k = weeks@.len() as int;
        if curr.month == next_m {
            proof {
                assert(total == 7 * k);
                assert forall|i: int| 0 <= i < weeks@.len() implies #[trigger] line_matches(
                    weeks@[i],
                    display,
                    g,
                    i,
                    line_len(total, i),
                ) by {
                    assert(line_matches(weeks@[i], display, g, i, 7));
                }
                lemma_lines_complete(weeks@, display, g, total);
            }
            break;
        }
        proof {
            lemma_num_of_civil(g + 7 * k);
        }
        let (days, next) = seven_days_from(curr);
        let done = next.is_none();
        let shown = week;
        match next {
            Some(c) => {
                curr = c;
            },
            None => {},
        }
        if week >= 52 {
            week = iso_week(curr);
        } else {
            week = week + 1;
        }
        let ghost len = days@.len() as int;
        let line = CalendarWeek { week: shown, days };
        proof {
            reveal(line_matches);
            assert(line_matches(line, display, g, k, len));
        }
        let ghost before = weeks@;
        weeks.push(line);
        proof {
            assert(weeks@[k] == line);
            assert forall|i: int| 0 <= i < k implies #[trigger] line_matches(
                weeks@[i],
                display,
                g,
                i,
                7,
            ) by {
                assert(weeks@[i] == before[i]);
            }
            if done {
                assert(total == 7 * k + len);
                assert forall|i: int| 0 <= i < weeks@.len() implies #[trigger] line_matches(
                    weeks@[i],
                    display,
                    g,
                    i,
                    line_len(total, i),
                ) by {
                    if i < k {
                        assert(line_matches(weeks@[i], display, g, i, 7));
                    }
                }
                lemma_lines_complete(weeks@, display, g, total);
            } else {
                lemma_line_start_month(display, k + 1);
            }
        }
        if done {
            break;
        }
    }
    weeks
}

/// A number in at least two places, a space before a single digit.
pub open spec fn two_places(n: nat) -> Seq<char> {
    if n < 10 {
        seq![' ', digit_char(n as int)]
    } else {
        decimal(n)
    }
}

/// What the calendar shows for a day: its number in two places where it is in the shown
/// month, two spaces otherwise.
pub open spec fn day_cell_text(day: CivilDate, month: u32) -> Seq<char> {
    if day.month == month {
        two_places(day.day as nat)
    } else {
        seq![' ', ' ']
    }
}

/// The days `days[k..]` of a line, each after a space.
pub open spec fn cells_text(days: Seq<CivilDate>, month: u32, k: int) -> Seq<char>
    decreases days.len() - k,
{
    if k >= days.len() || k < 0 {
        Seq::empty()
    } else {
        seq![' '] + day_cell_text(days[k], month) + cells_text(days, month, k + 1)
    }
}

/// The text of a line of the calendar of a month: its week number in two places, then each
/// day after a space.
pub open spec fn line_text_of(week: u32, days: Seq<CivilDate>, month: u32) -> Seq<char> {
    two_places(week as nat) + cells_text(days, month, 0)
}

/// The text of a line of the calendar of a month.
pub open spec fn line_text(w: CalendarWeek, month: u32) -> Seq<char> {
    line_text_of(w.week, w.days@, month)
}

/// The text of line `i` of the calendar of the month of `d`.
pub open spec fn calendar_line_text(d: CivilDate, i: int) -> Seq<char> {
    line_text_of(
        shown_week(d, i as nat) as u32,
        Seq::new(line_len(grid_days(d), i) as nat, |j: int| civil_of(grid_start(d) + 7 * i + j)),
        d.month,
    )
}

/// The English name of a month.
pub open spec fn month_name(m: int) -> Seq<char> {
    if m == 1 {
        "January"@
    } else if m == 2 {
        "February"@
    } else if m == 3 {
        "March"@
    } else if m == 4 {
        "April"@
    } else if m == 5 {
        "May"@
    } else if m == 6 {
        "June"@
    } else if m == 7 {
        "July"@
    } else if m == 8 {
        "August"@
    } else if m == 9 {
        "September"@
    } else if m == 10 {
        "October"@
    } else if m == 11 {
        "November"@
    } else {
        "December"@
    }
}

/// The header of the calendar of the month of `d`: `Month(m) year`.
pub open spec fn month_header_text(d: CivilDate) -> Seq<char> {
    month_name(d.month as int) + seq!['('] + decimal(d.month as nat) + seq![')', ' ']
        + signed_decimal(d.year as int)
}

/// The header of the days of the week, aligned after the week numbers.
pub open spec fn weekday_header_text() -> Seq<char> {
    "   Mo Tu We Th Fr Sa Su"@
}

fn push_two_places(s: &mut String, n: u32)
    ensures
        final(s)@ == old(s)@ + two_places(n as nat),
{
    if n < 10 {
        push_char(s, ' ');
        push_decimal(s, n as u64);
        assert(decimal(n as nat) == seq![digit_char(n as int)]);
        assert(s@ =~= old(s)@ + two_places(n as nat));
    } else {
        push_decimal(s, n as u64);
    }
}

/// The text of a line of the calendar of `month`, as `line_text` gives it.
pub fn week_line_text(w: &CalendarWeek, month: u32) -> (r: String)
    ensures
        r@ == line_text(*w, month),
{
    let mut s = String::new();
    push_two_places(&mut s, w.week);
    let ghost head = s@;
    let mut k: usize = 0;
    while k < w.days.len()
        invariant
            k <= w.days@.len(),
            s@ + cells_text(w.days@, month, k as int) == head + cells_text(w.days@, month, 0),
        decreases w.days@.len() - k,
    {
        let ghost before = s@;
        push_char(&mut s, ' ');
        let d = w.days[k];
        if d.month == month {
            push_two_places(&mut s, d.day);
        } else {
            push_char(&mut s, ' ');
            push_char(&mut s, ' ');
        }
        assert(s@ =~= before + seq![' '] + day_cell_text(w.days@[k as int], month));
        assert(s@ + cells_text(w.days@, month, k + 1) =~= before + cells_text(w.days@, month, k as int));
        k += 1;
    }
    assert(cells_text(w.days@, month, k as int) == Seq::<char>::empty());
    assert(s@ =~= head + cells_text(w.days@, month, 0));
    s
}

/// The header line of the calendar of the month of `d`.
pub fn month_header(d: CivilDate) -> (r: String)
    requires
        1 <= d.month <= 12,
    ensures
        r@ == month_header_text(d),
{
    let mut s = String::new();
    proof {
        reveal_strlit("January");
        reveal_strlit("February");
        reveal_strlit("March");
        reveal_strlit("April");
        reveal_strlit("May");
        reveal_strlit("June");
        reveal_strlit("July");
        reveal_strlit("August");
        reveal_strlit("September");
        reveal_strlit("October");
        reveal_strlit("November");
        reveal_strlit("December");
    }
    let name = if d.month == 1 {
        "January"
    } else if d.month == 2 {
        "February"
    } else if d.month == 3 {
        "March"
    } else if d.month == 4 {
        "April"
    } else if d.month == 5 {
        "May"
    } else if d.month == 6 {
        "June"
    } else if d.month == 7 {
        "July"
    } else if d.month == 8 {
        "August"
    } else if d.month == 9 {
        "September"
    } else if d.month == 10 {
        "October"
    } else if d.month == 11 {
        "November"
    } else {
        "December"
    };
    push_str(&mut s, name);
    push_char(&mut s, '(');
    push_decimal(&mut s, d.month as u64);
    push_char(&mut s, ')');
    push_char(&mut s, ' ');
    push_signed(&mut s, d.year as i64);
    assert(s@ =~= month_header_text(d));
    s
}

/// The header of the days of the week.
pub fn weekday_header() -> (r: String)
    ensures
        r@ == weekday_header_text(),
{
    let mut s = String::new();
    push_str(&mut s, "   Mo Tu We Th Fr Sa Su");
    assert(s@ =~= weekday_header_text());
    s
}

/// How a day of the calendar is shown.
#[derive(PartialEq, Eq, Structural, Clone, Copy, Debug)]
pub enum DayStyle {
    /// Outside the shown month: left blank.
    Blank,
    /// A day of the shown month.
    Plain,
    /// The date the calendar is opened at.
    Selected,
}

/// How `day` is shown in the calendar opened at `display`.
pub fn day_style(day: &CivilDate, display: &CivilDate) -> (r: DayStyle)
    ensures
        r == (if day.month != display.month {
            DayStyle::Blank
        } else if *day == *display {
            DayStyle::Selected
        } else {
            DayStyle::Plain
        }),
{
    if day.month != display.month {
        DayStyle::Blank
    } else if day.same_day(display) {
        DayStyle::Selected
    } else {
        DayStyle::Plain
    }
}

/// A month calendar: the date it is opened at and whether it shows the month header and the
/// header of the days of the week.
pub struct Monthly {
    pub display_date: CivilDate,
    pub show_month: bool,
    pub show_weekday: bool,
}

/// The texts of the header lines shown.
pub open spec fn header_lines(m: Monthly) -> Seq<Seq<char>> {
    let month = if m.show_month {
        seq![month_header_text(m.display_date)]
    } else {
        Seq::empty()
    };
    let days = if m.show_weekday {
        seq![weekday_header_text()]
    } else {
        Seq::empty()
    };
    month + days
}

impl Monthly {
    /// The calendar of the month of `display_date`, without headers.
    pub fn new(display_date: CivilDate) -> (r: Self)
        ensures
            r.display_date == display_date,
            !r.show_month,
            !r.show_weekday,
    {
        Monthly { display_date, show_month: false, show_weekday: false }
    }

    /// The calendar with the header of the days of the week.
    pub fn show_weekdays_header(self) -> (r: Self)
        ensures
            r == (Monthly { show_weekday: true, ..self }),
    {
        Monthly { show_weekday: true, ..self }
    }

    /// The calendar with the month header.
    pub fn show_month_header(self) -> (r: Self)
        ensures
            r == (Monthly { show_month: true, ..self }),
    {
        Monthly { show_month: true, ..self }
    }

    /// The lines of text the calendar shows: the headers asked for, then one line per week.
    pub fn lines(&self) -> (r: Vec<String>)
        requires
            self.display_date.wf(),
        ensures
            r@.len() == header_lines(*self).len() + (grid_days(self.display_date) + 6) / 7,
            forall|i: int| 0 <= i < header_lines(*self).len() ==> #[trigger] r@[i]@ == header_lines(*self)[i],
            forall|i: int|
                0 <= i < (grid_days(self.display_date) + 6) / 7 ==> #[trigger] r@[header_lines(
                    *self,
                ).len() + i]@ == calendar_line_text(self.display_date, i),
    {
        let d = self.display_date;
        let ghost heads = header_lines(*self);
        let mut lines: Vec<String> = Vec::new();
        if self.show_month {
            lines.push(month_header(d));
        }
        if self.show_weekday {
            lines.push(weekday_header());
        }
        assert(lines@.len() == heads.len());
        assert(forall|i: int| 0 <= i < heads.len() ==> #[trigger] lines@[i]@ == heads[i]);
        let weeks = month_weeks(d);
        let ghost n = heads.len();
        let mut k: usize = 0;
        while k < weeks.len()
            invariant
                k <= weeks@.len(),
                calendar_lines(weeks@, d),
                d == self.display_date,
                lines@.len() == n + k,
                n == heads.len(),
                forall|i: int| 0 <= i < n ==> #[trigger] lines@[i]@ == heads[i],
                forall|i: int| 0 <= i < k ==> #[trigger] lines@[n + i]@ == calendar_line_text(d, i),
            decreases weeks@.len() - k,
        {
            let text = week_line_text(&weeks[k], d.month);
            proof {
                let w = weeks@[k as int];
                assert(w.days@ =~= Seq::new(
                    line_len(grid_days(d), k as int) as nat,
                    |j: int| civil_of(grid_start(d) + 7 * k + j),
                ));
            }
            lines.push(text);
            k += 1;
        }
        lines
    }
}

/// Going back to the Monday of its week and then whole weeks on lands on a Monday.
proof fn lemma_back_to_monday(x: int, i: int)
    requires
        0 <= i,
    ensures
        weekday_index_of(x - weekday_index_of(x) + 7 * i) == 0,
{
}

/// Every line of the month calendar starts on a Monday.
pub proof fn lemma_lines_start_on_monday(d: CivilDate, i: int)
    requires
        0 <= i,
    ensures
        weekday_index_of(grid_start(d) + 7 * i) == 0,
{
    reveal(grid_start);
    lemma_back_to_monday(month_start(d), i);
}

/// Every day of the shown month is in the calendar, at the line and place its distance from
/// the first day shown gives.
pub proof fn lemma_month_day_shown(weeks: Seq<CalendarWeek>, d: CivilDate, k: int)
    requires
        d.wf(),
        calendar_lines(weeks, d),
        in_day_range(grid_start(d)),
        1 <= k <= days_in_month(d.year as int, d.month as int),
    ensures
        ({
            let off = day_number(d.year as int, d.month as int, k) - grid_start(d);
            &&& 0 <= off
            &&& off / 7 < weeks.len()
            &&& off % 7 < weeks[off / 7].days@.len()
            &&& weeks[off / 7].days@[off % 7] == CivilDate {
                year: d.year,
                month: d.month,
                day: k as u32,
            }
        }),
{
    reveal(grid_start);
    reveal(full_lines);
    reveal(grid_days);
    let y = d.year as int;
    let m = d.month as int;
    let c = CivilDate { year: d.year, month: d.month, day: k as u32 };
    lemma_civil_of_num(c);
    crate::date::lemma_valid_date_in_range(c);
    lemma_day_of_month(y, m, k);
    lemma_day_of_month(y, m, days_in_month(y, m));
    let g = grid_start(d);
    let n = day_number(y, m, k);
    let off = n - g;
    assert(0 <= weekday_index_of(month_start(d)) < 7);
    let i = off / 7;
    let j = off % 7;
    assert(g + 7 * i + j == n);
    assert(weeks[i].days@[j] == civil_of(g + 7 * i + j));
}

} // verus!
