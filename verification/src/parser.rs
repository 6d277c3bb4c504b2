//! Reading dates and times written in a short human notation, relative to a
//! given date: times of day (`15:45`, `1645`), weekdays (`fri`, `fri1`, `thu-2`),
//! days and months (`12dec`, `sep10`, `24.6.2023`, `17.`), calendar weeks (`24.w`),
//! day offsets (`-1`, `3days`), week/month/year offsets (`2w`, `-3m`, `1y`),
//! starts and ends of the current week, month and year (`som`, `eoy`) and
//! the current moment (`now`).

use vstd::prelude::*;
use vstd::string::StrSliceExecFns;
use crate::date::{
    add_signed_days, checked_add_days, checked_add_months, checked_sub_days, checked_sub_months,
    days_since, now, weekday, with_day, with_month, with_year,
    CivilDate, DateTime, TimeOfDay, Weekday, civil_of, in_day_range, shift_days, shift_months, ymd_opt,
};

verus! {

// ------------------------------------------------------------------
// Characters, digits and numbers
// ------------------------------------------------------------------

pub open spec fn is_digit(c: char) -> bool {
    '0' <= c && c <= '9'
}

pub open spec fn all_digits(s: Seq<char>) -> bool {
    forall|i: int| 0 <= i < s.len() ==> is_digit(#[trigger] s[i])
}

pub open spec fn digit_value(c: char) -> int {
    c as int - '0' as int
}

/// The value of a string of decimal digits.
pub open spec fn digits_value(s: Seq<char>) -> int
    decreases s.len(),
{
    if s.len() == 0 {
        0
    } else {
        digits_value(s.drop_last()) * 10 + digit_value(s.last())
    }
}

/// Reading a string of decimal digits into an integer type whose largest value is `max`:
/// `None` when the value does not fit.
pub open spec fn parse_num(s: Seq<char>, max: int) -> Option<int> {
    if digits_value(s) <= max {
        Some(digits_value(s))
    } else {
        None
    }
}

/// Characters of a leading run: digits, or (for names) anything but digits and `-`.
pub open spec fn run_char(c: char, digits: bool) -> bool {
    if digits {
        is_digit(c)
    } else {
        c != '-' && !is_digit(c)
    }
}

pub open spec fn is_run(s: Seq<char>, k: int, digits: bool) -> bool {
    &&& 0 <= k <= s.len()
    &&& forall|j: int| 0 <= j < k ==> run_char(#[trigger] s[j], digits)
    &&& k < s.len() ==> !run_char(s[k], digits)
}

/// Length of the leading run of digits (or of name characters) of `s`.
pub open spec fn run_len(s: Seq<char>, digits: bool) -> int {
    choose|k: int| is_run(s, k, digits)
}

pub proof fn lemma_run_len(s: Seq<char>, k: int, digits: bool)
    requires
        is_run(s, k, digits),
    ensures
        run_len(s, digits) == k,
{
    let k2 = run_len(s, digits);
    assert(is_run(s, k2, digits));
    if k2 < k {
        assert(run_char(s[k2], digits));
    }
    if k < k2 {
        assert(run_char(s[k], digits));
    }
}

/// Index of the weekday (0 for Monday) that a name stands for, or -1.
pub open spec fn weekday_of_name(s: Seq<char>) -> int {
    if s == seq!['m', 'o'] || s == seq!['m', 'o', 'n'] {
        0
    }
    else if s == seq!['d', 'i'] || s == seq!['t', 'u'] || s == seq!['t', 'u', 'e'] {
        1
    }
    else if s == seq!['m', 'i'] || s == seq!['w', 'e'] || s == seq!['w', 'e', 'd'] {
        2
    }
    else if s == seq!['d', 'o'] || s == seq!['t', 'h', 'u'] || s == seq!['t', 'h'] {
        3
    }
    else if s == seq!['f', 'r'] || s == seq!['f', 'r', 'i'] {
        4
    }
    else if s == seq!['s', 'a'] || s == seq!['s', 'a', 't'] {
        5
    }
    else if s == seq!['s', 'u'] || s == seq!['s', 'o'] || s == seq!['s', 'u', 'n'] {
        6
    }
    else {
        -1
    }
}

/// Number of the month (1 for January) that a name stands for, or 0.
pub open spec fn month_of_name(s: Seq<char>) -> int {
    if s == seq!['j', 'a', 'n'] || s == seq!['j', 'a'] {
        1
    }
    else if s == seq!['f', 'e', 'b'] || s == seq!['f', 'e'] {
        2
    }
    else if s == seq!['m', 'a'] || s == seq!['m', '\u{e4}'] {
        3
    }
    else if s == seq!['a', 'p', 'r'] || s == seq!['a', 'p'] {
        4
    }
    else if s == seq!['m', 'a', 'y'] || s == seq!['m', 'a', 'i'] {
        5
    }
    else if s == seq!['j', 'u', 'n'] || s == seq!['j', 'u', 'n', 'e'] || s == seq!['j', 'u', 'n', 'i'] {
        6
    }
    else if s == seq!['j', 'u', 'l'] || s == seq!['j', 'u', 'l', 'y'] || s == seq!['j', 'u', 'l', 'i'] {
        7
    }
    else if s == seq!['a', 'u', 'g'] || s == seq!['a', 'u'] {
        8
    }
    else if s == seq!['s', 'e', 'p'] || s == seq!['s', 'e'] {
        9
    }
    else if s == seq!['o', 'k', 't'] || s == seq!['o', 'c', 't'] || s == seq!['o', 'c'] || s == seq!['o', 'k'] {
        10
    }
    else if s == seq!['n', 'o', 'v'] || s == seq!['n', 'o'] {
        11
    }
    else if s == seq!['d', 'e', 'c'] || s == seq!['d', 'e', 'z'] || s == seq!['d', 'e'] {
        12
    }
    else {
        0
    }
}


/// A suffix made of the words `d`, `day` and `days`, repeated any number of times.
pub open spec fn day_suffix(s: Seq<char>) -> bool
    decreases s.len(),
{
    if s.len() == 0 {
        true
    } else if s[0] != 'd' {
        false
    } else {
        ||| day_suffix(s.skip(1))
        ||| s.len() >= 3 && s[1] == 'a' && s[2] == 'y' && day_suffix(s.skip(3))
        ||| s.len() >= 4 && s[1] == 'a' && s[2] == 'y' && s[3] == 's' && day_suffix(s.skip(4))
    }
}

/// An optional leading `-`, and what follows it.
pub open spec fn split_sign(s: Seq<char>) -> (bool, Seq<char>) {
    if s.len() > 0 && s[0] == '-' {
        (true, s.skip(1))
    } else {
        (false, s)
    }
}

// ------------------------------------------------------------------
// The notations
// ------------------------------------------------------------------

/// `H:M`: hours and minutes, each one or more digits.
pub open spec fn colon_time(s: Seq<char>) -> Option<(Seq<char>, Seq<char>)> {
    let k = run_len(s, true);
    if 1 <= k && k + 1 < s.len() && s[k] == ':' && all_digits(s.skip(k + 1)) {
        Some((s.take(k), s.skip(k + 1)))
    } else {
        None
    }
}

/// `HHMM`: exactly four digits.
pub open spec fn compact_time(s: Seq<char>) -> Option<(Seq<char>, Seq<char>)> {
    if s.len() == 4 && all_digits(s) {
        Some((s.take(2), s.skip(2)))
    } else {
        None
    }
}

/// A weekday name, an optional `-` and optional digits: the weekday, the sign and the digits.
pub open spec fn weekday_pattern(s: Seq<char>) -> Option<(int, bool, Seq<char>)> {
    let k = run_len(s, false);
    let w = weekday_of_name(s.take(k));
    let (neg, ds) = split_sign(s.skip(k));
    if w >= 0 && all_digits(ds) {
        Some((w, neg, ds))
    } else {
        None
    }
}

/// Optional digits (the day) followed by a month name.
pub open spec fn day_month(s: Seq<char>) -> Option<(Seq<char>, int)> {
    let k = run_len(s, true);
    let m = month_of_name(s.skip(k));
    if m >= 1 {
        Some((s.take(k), m))
    } else {
        None
    }
}

/// `D.M` or `D.M.Y`, each part one or more digits.
pub open spec fn dotted_date(s: Seq<char>) -> Option<(Seq<char>, Seq<char>, Option<Seq<char>>)> {
    let k1 = run_len(s, true);
    let t = s.skip(k1 + 1);
    let k2 = run_len(t, true);
    let u = t.skip(k2);
    if 1 <= k1 && k1 < s.len() && s[k1] == '.' && k2 >= 1 {
        if u.len() == 0 {
            Some((s.take(k1), t.take(k2), None))
        } else if u.len() >= 2 && u[0] == '.' && all_digits(u.skip(1)) {
            Some((s.take(k1), t.take(k2), Some(u.skip(1))))
        } else {
            None
        }
    } else {
        None
    }
}

/// `N.w`: calendar week `N`.
pub open spec fn week_number(s: Seq<char>) -> Option<Seq<char>> {
    let k = run_len(s, true);
    if k >= 1 && s.skip(k) == seq!['.', 'w'] {
        Some(s.take(k))
    } else {
        None
    }
}

/// `D.`: day `D` of the month.
pub open spec fn day_of_month(s: Seq<char>) -> Option<Seq<char>> {
    let k = run_len(s, true);
    if k >= 1 && s.skip(k) == seq!['.'] {
        Some(s.take(k))
    } else {
        None
    }
}

/// A month name followed by optional digits (the day).
pub open spec fn month_day(s: Seq<char>) -> Option<(Seq<char>, int)> {
    let k = run_len(s, false);
    let m = month_of_name(s.take(k));
    if m >= 1 && all_digits(s.skip(k)) {
        Some((s.skip(k), m))
    } else {
        None
    }
}

/// An optional `-`, digits and an optional day suffix: a number of days.
pub open spec fn relative_days(s: Seq<char>) -> Option<(bool, Seq<char>)> {
    let (neg, t) = split_sign(s);
    let k = run_len(t, true);
    if k >= 1 && day_suffix(t.skip(k)) {
        Some((neg, t.take(k)))
    } else {
        None
    }
}

/// `sow`, `som`, `soy`: the unit letter.
pub open spec fn start_of(s: Seq<char>) -> Option<char> {
    if s.len() == 3 && s[0] == 's' && s[1] == 'o' && (s[2] == 'w' || s[2] == 'm' || s[2] == 'y') {
        Some(s[2])
    } else {
        None
    }
}

/// `eow`, `eom`, `eoy`: the unit letter.
pub open spec fn end_of(s: Seq<char>) -> Option<char> {
    if s.len() == 3 && s[0] == 'e' && s[1] == 'o' && (s[2] == 'w' || s[2] == 'm' || s[2] == 'y') {
        Some(s[2])
    } else {
        None
    }
}

/// An optional `-`, digits and one of the units `w`, `m`, `y`.
pub open spec fn relative_unit(s: Seq<char>) -> Option<(bool, Seq<char>, char)> {
    let (neg, t) = split_sign(s);
    let k = run_len(t, true);
    if k >= 1 && k < t.len() && k + 1 == t.len() && (t[k] == 'w' || t[k] == 'm' || t[k] == 'y') {
        Some((neg, t.take(k), t[k]))
    } else {
        None
    }
}

/// The words that stand for the current moment.
pub open spec fn now_word(s: Seq<char>) -> bool {
    ||| s == seq!['n', 'o', 'w']
    ||| s == seq!['t', 'o', 'd', 'a', 'y']
    ||| s == seq!['h', 'e', 'u', 't', 'e']
    ||| s == seq!['j', 'e', 't', 'z', 't']
    ||| s == seq!['c', 'u', 'r', 'r', 'e', 'n', 't']
    ||| s == seq!['c', 'u', 'r']
}

/// Which notation a string is read as: the first that it matches, in this order.
pub open spec fn notation_of(s: Seq<char>) -> int {
    if colon_time(s) is Some {
        1
    } else if compact_time(s) is Some {
        2
    } else if weekday_pattern(s) is Some {
        3
    } else if day_month(s) is Some {
        4
    } else if dotted_date(s) is Some {
        5
    } else if week_number(s) is Some {
        6
    } else if day_of_month(s) is Some {
        7
    } else if month_day(s) is Some {
        8
    } else if relative_days(s) is Some {
        9
    } else if start_of(s) is Some {
        10
    } else if end_of(s) is Some {
        11
    } else if relative_unit(s) is Some {
        12
    } else if now_word(s) {
        13
    } else {
        0
    }
}

// ------------------------------------------------------------------
// What each notation gives
// ------------------------------------------------------------------

pub open spec fn at_time_of(d: DateTime, o: Option<CivilDate>) -> Option<DateTime> {
    match o {
        Some(c) => Some(DateTime { date: c, time: d.time }),
        None => None,
    }
}

/// The date of `d` at hour `h` and minute `m`, each capped (hours at 23, minutes at 59).
pub open spec fn time_result(d: DateTime, hs: Seq<char>, ms: Seq<char>) -> Option<DateTime> {
    match (parse_num(hs, u32::MAX as int), parse_num(ms, u32::MAX as int)) {
        (Some(h), Some(m)) => Some(
            DateTime {
                date: d.date,
                time: TimeOfDay {
                    hour: (if h >= 23 { 23 } else { h }) as u32,
                    minute: (if m >= 59 { 59 } else { m }) as u32,
                    second: 0,
                    nanosecond: 0,
                },
            },
        ),
        _ => None,
    }
}

/// Days to the next (or, when `neg`, the previous) day with weekday `target`; 0 when
/// the date already has that weekday.
pub open spec fn first_shift(wd: int, target: int, neg: bool) -> int {
    let diff = target - wd;
    if diff == 0 {
        0
    } else if !neg {
        if diff >= 0 {
            diff
        } else {
            diff + 7
        }
    } else {
        if diff >= 0 {
            diff - 7
        } else {
            diff
        }
    }
}

/// An unsigned 64-bit number read as a signed one.
pub open spec fn wrap_i64(n: int) -> int {
    if n <= i64::MAX {
        n
    } else {
        n - 0x1_0000_0000_0000_0000
    }
}

/// Days of `n` further weeks, backwards when `neg`.
pub open spec fn week_shift(n: int, neg: bool) -> int {
    (if neg { -7int } else { 7int }) * wrap_i64(n)
}

pub open spec fn weekday_count(ds: Seq<char>) -> Option<int> {
    if ds.len() == 0 {
        Some(0)
    } else {
        parse_num(ds, u64::MAX as int)
    }
}

/// The date reached by first moving to the weekday and then moving by whole weeks.
pub open spec fn weekday_target(d: DateTime, w: int, neg: bool) -> CivilDate {
    let s1 = first_shift(d.date.weekday_index(), w, neg);
    if s1 == 0 {
        d.date
    } else {
        civil_of(d.date.num() + s1)
    }
}

pub open spec fn weekday_result(d: DateTime, w: int, neg: bool, ds: Seq<char>) -> Option<DateTime> {
    match weekday_count(ds) {
        Some(n) => Some(
            DateTime {
                date: civil_of(weekday_target(d, w, neg).num() + week_shift(n, neg)),
                time: d.time,
            },
        ),
        None => None,
    }
}

/// The weekday notation stays within the supported dates (the moves are not checked).
pub open spec fn weekday_defined(d: DateTime, w: int, neg: bool, ds: Seq<char>) -> bool {
    match weekday_count(ds) {
        Some(n) => {
            let s1 = first_shift(d.date.weekday_index(), w, neg);
            &&& s1 == 0 || in_day_range(d.date.num() + s1)
            &&& i64::MIN <= week_shift(n, neg) <= i64::MAX
            &&& in_day_range(weekday_target(d, w, neg).num() + week_shift(n, neg))
        },
        None => true,
    }
}

/// Day and month in the year of `d`, or in the next year when that is already past.
pub open spec fn day_month_result(d: DateTime, ds: Seq<char>, month: int) -> Option<DateTime> {
    let day = if ds.len() == 0 { Some(1int) } else { parse_num(ds, u32::MAX as int) };
    match day {
        None => None,
        Some(day) => match ymd_opt(d.date.year as int, month, day) {
            None => None,
            Some(r) => if r.num() < d.date.num() {
                at_time_of(d, ymd_opt(r.year + 1, r.month as int, r.day as int))
            } else {
                at_time_of(d, Some(r))
            },
        },
    }
}

/// `D.M` in the year of `d` (or the next year when already past), or `D.M.Y`.
pub open spec fn dotted_result(d: DateTime, ds: Seq<char>, ms: Seq<char>, ys: Option<Seq<char>>) -> Option<DateTime> {
    match (parse_num(ds, u32::MAX as int), parse_num(ms, u32::MAX as int)) {
        (Some(day), Some(month)) => {
            let year = match ys {
                None => Some(d.date.year as int),
                Some(y) => parse_num(y, i32::MAX as int),
            };
            match year {
                None => None,
                Some(y) => match ymd_opt(y, month, day) {
                    None => None,
                    Some(r) => if r.num() < d.date.num() && ys is None {
                        at_time_of(d, ymd_opt(r.year + 1, r.month as int, r.day as int))
                    } else {
                        at_time_of(d, Some(r))
                    },
                },
            }
        },
        _ => None,
    }
}

/// The Monday of calendar week `N` (capped at 53) of the year of `d`; week 1 holds the
/// first Thursday of the year.
pub open spec fn week_number_result(d: DateTime, ns: Seq<char>) -> Option<DateTime> {
    match parse_num(ns, u64::MAX as int) {
        None => None,
        Some(n) => if n == 0 {
            None
        } else {
            let n2 = if n >= 53 { 53 } else { n };
            let jan1 = CivilDate { year: d.date.year, month: 1, day: 1 };
            let wd = jan1.weekday_index();
            let base = if wd <= 3 { Some(jan1) } else { shift_days(jan1, 7) };
            match base {
                None => None,
                Some(b) => match shift_days(b, -wd) {
                    None => None,
                    Some(c) => at_time_of(d, shift_days(c, 7 * (n2 - 1))),
                },
            }
        },
    }
}

/// Day `D` of the month of `d`, or of the next month when already past.
pub open spec fn day_of_month_result(d: DateTime, ds: Seq<char>) -> Option<DateTime> {
    match parse_num(ds, u32::MAX as int) {
        None => None,
        Some(day) => match ymd_opt(d.date.year as int, d.date.month as int, day) {
            None => None,
            Some(r) => if r.num() < d.date.num() {
                at_time_of(d, shift_months(r, 1))
            } else {
                at_time_of(d, Some(r))
            },
        },
    }
}

pub open spec fn relative_days_result(d: DateTime, neg: bool, ds: Seq<char>) -> Option<DateTime> {
    match parse_num(ds, u64::MAX as int) {
        None => None,
        Some(n) => at_time_of(d, shift_days(d.date, if neg { -n } else { n })),
    }
}

/// Start of the current week (its Monday), month or year.
pub open spec fn start_of_result(d: DateTime, unit: char) -> Option<DateTime> {
    if unit == 'w' {
        at_time_of(d, shift_days(d.date, -d.date.weekday_index()))
    } else if unit == 'm' {
        at_time_of(d, ymd_opt(d.date.year as int, d.date.month as int, 1))
    } else {
        at_time_of(d, ymd_opt(d.date.year as int, 1, 1))
    }
}

/// End of the current week (its Sunday), month or year.
pub open spec fn end_of_result(d: DateTime, unit: char) -> Option<DateTime> {
    if unit == 'w' {
        at_time_of(d, shift_days(d.date, 6 - d.date.weekday_index()))
    } else {
        let first = if unit == 'm' {
            CivilDate { year: d.date.year, month: d.date.month, day: 1 }
        } else {
            CivilDate { year: d.date.year, month: 1, day: 1 }
        };
        match shift_months(first, if unit == 'm' { 1 } else { 12 }) {
            None => None,
            Some(x) => at_time_of(d, shift_days(x, -1)),
        }
    }
}

/// Whole weeks, months (the count taken modulo 2^32) or years (twelve months each).
pub open spec fn relative_unit_result(d: DateTime, neg: bool, ns: Seq<char>, unit: char) -> Option<DateTime> {
    match parse_num(ns, u64::MAX as int) {
        None => None,
        Some(n) => {
            let m32 = n % 0x1_0000_0000;
            let amount = if unit == 'w' { 7 * n } else if unit == 'm' { m32 } else { 12 * m32 };
            if unit == 'w' {
                at_time_of(d, shift_days(d.date, if neg { -amount } else { amount }))
            } else {
                at_time_of(d, shift_months(d.date, if neg { -amount } else { amount }))
            }
        },
    }
}

/// The offsets of the unit notation fit the machine integers they are computed in.
pub open spec fn relative_unit_defined(ns: Seq<char>, unit: char) -> bool {
    match parse_num(ns, u64::MAX as int) {
        None => true,
        Some(n) => {
            &&& unit == 'w' ==> 7 * n <= u64::MAX
            &&& unit == 'y' ==> 12 * (n % 0x1_0000_0000) <= u32::MAX
        },
    }
}

/// The date (and time) that `s` denotes relative to `d`; `now` is the current moment.
pub open spec fn spec_parse_date(s: Seq<char>, d: DateTime, now: DateTime) -> Option<DateTime> {
    let k = notation_of(s);
    if k == 1 {
        time_result(d, colon_time(s).unwrap().0, colon_time(s).unwrap().1)
    } else if k == 2 {
        time_result(d, compact_time(s).unwrap().0, compact_time(s).unwrap().1)
    } else if k == 3 {
        let (w, neg, ds) = weekday_pattern(s).unwrap();
        weekday_result(d, w, neg, ds)
    } else if k == 4 {
        day_month_result(d, day_month(s).unwrap().0, day_month(s).unwrap().1)
    } else if k == 5 {
        let (ds, ms, ys) = dotted_date(s).unwrap();
        dotted_result(d, ds, ms, ys)
    } else if k == 6 {
        week_number_result(d, week_number(s).unwrap())
    } else if k == 7 {
        day_of_month_result(d, day_of_month(s).unwrap())
    } else if k == 8 {
        day_month_result(d, month_day(s).unwrap().0, month_day(s).unwrap().1)
    } else if k == 9 {
        relative_days_result(d, relative_days(s).unwrap().0, relative_days(s).unwrap().1)
    } else if k == 10 {
        start_of_result(d, start_of(s).unwrap())
    } else if k == 11 {
        end_of_result(d, end_of(s).unwrap())
    } else if k == 12 {
        let (neg, ns, unit) = relative_unit(s).unwrap();
        relative_unit_result(d, neg, ns, unit)
    } else if k == 13 {
        Some(now)
    } else {
        None
    }
}

/// Reading `s` relative to `d` computes nothing out of range: the weekday moves stay
/// within the supported dates and the unit offsets fit their integer types.
pub open spec fn parse_date_defined(s: Seq<char>, d: DateTime) -> bool {
    let k = notation_of(s);
    &&& k == 3 ==> {
        let (w, neg, ds) = weekday_pattern(s).unwrap();
        weekday_defined(d, w, neg, ds)
    }
    &&& k == 12 ==> {
        let (neg, ns, unit) = relative_unit(s).unwrap();
        relative_unit_defined(ns, unit)
    }
}


// ------------------------------------------------------------------
// Reading, step by step
// ------------------------------------------------------------------

/// The characters of a string.
pub(crate) fn chars_of(s: &str) -> (v: Vec<char>)
    ensures
        v@ == s@,
{
    let n = s.unicode_len();
    let mut v: Vec<char> = Vec::new();
    let mut i: usize = 0;
    while i < n
        invariant
            i <= n,
            n == s@.len(),
            v@ == s@.take(i as int),
        decreases n - i,
    {
        v.push(s.get_char(i));
        i += 1;
        assert(v@ =~= s@.take(i as int));
    }
    assert(s@.take(n as int) =~= s@);
    v
}

/// The characters are exactly those of `lit`.
pub(crate) fn eq_chars(v: &Vec<char>, lit: &[char]) -> (r: bool)
    ensures
        r == (v@ == lit@),
{
    if v.len() != lit.len() {
        return false;
    }
    let mut i: usize = 0;
    while i < v.len()
        invariant
            i <= v.len(),
            v.len() == lit@.len(),
            forall|j: int| 0 <= j < i ==> v@[j] == lit@[j],
        decreases v.len() - i,
    {
        if v[i] != lit[i] {
            return false;
        }
        i += 1;
    }
    assert(v@ =~= lit@);
    true
}

/// The characters from `lo` up to (not including) `hi`.
pub(crate) fn slice(v: &Vec<char>, lo: usize, hi: usize) -> (r: Vec<char>)
    requires
        lo <= hi <= v.len(),
    ensures
        r@ == v@.subrange(lo as int, hi as int),
{
    let mut r: Vec<char> = Vec::new();
    let mut i: usize = lo;
    while i < hi
        invariant
            lo <= i <= hi,
            hi <= v.len(),
            r@ == v@.subrange(lo as int, i as int),
        decreases hi - i,
    {
        r.push(v[i]);
        i += 1;
        assert(r@ =~= v@.subrange(lo as int, i as int));
    }
    r
}

pub(crate) fn is_digit_exec(c: char) -> (r: bool)
    ensures
        r == is_digit(c),
{
    '0' <= c && c <= '9'
}

fn run_char_exec(c: char, digits: bool) -> (r: bool)
    ensures
        r == run_char(c, digits),
{
    if digits {
        is_digit_exec(c)
    } else {
        c != '-' && !is_digit_exec(c)
    }
}

fn run_len_exec(v: &Vec<char>, digits: bool) -> (k: usize)
    ensures
        k == run_len(v@, digits),
        is_run(v@, k as int, digits),
        k <= v.len(),
{
    let mut k: usize = 0;
    while k < v.len() && run_char_exec(v[k], digits)
        invariant
            k <= v.len(),
            forall|j: int| 0 <= j < k ==> run_char(#[trigger] v@[j], digits),
        decreases v.len() - k,
    {
        k += 1;
    }
    proof {
        lemma_run_len(v@, k as int, digits);
    }
    k
}

pub(crate) fn all_digits_exec(v: &Vec<char>) -> (r: bool)
    ensures
        r == all_digits(v@),
{
    let mut i: usize = 0;
    while i < v.len()
        invariant
            i <= v.len(),
            forall|j: int| 0 <= j < i ==> is_digit(#[trigger] v@[j]),
        decreases v.len() - i,
    {
        if !is_digit_exec(v[i]) {
            return false;
        }
        i += 1;
    }
    true
}

/// Reads a string of digits into a number no larger than `max`.
pub(crate) fn parse_num_exec(v: &Vec<char>, max: u64) -> (r: Option<u64>)
    requires
        all_digits(v@),
    ensures
        match r {
            Some(x) => parse_num(v@, max as int) == Some(x as int),
            None => parse_num(v@, max as int) is None,
        },
{
    let mut value: u64 = 0;
    let mut overflow = false;
    let mut i: usize = 0;
    assert(v@.take(0) =~= Seq::<char>::empty());
    while i < v.len()
        invariant
            i <= v.len(),
            all_digits(v@),
            !overflow ==> value == digits_value(v@.take(i as int)) && value <= max,
            overflow ==> digits_value(v@.take(i as int)) > max,
        decreases v.len() - i,
    {
        let c = v[i];
        assert(is_digit(v@[i as int]));
        let dv: u64 = (c as u32 - '0' as u32) as u64;
        assert(v@.take(i + 1).drop_last() =~= v@.take(i as int));
        assert(v@.take(i + 1).last() == c);
        if !overflow {
            let nv: u128 = value as u128 * 10 + dv as u128;
            if nv > max as u128 {
                overflow = true;
            } else {
                value = nv as u64;
            }
        }
        i += 1;
    }
    assert(v@.take(v.len() as int) =~= v@);
    if overflow {
        None
    } else {
        Some(value)
    }
}

fn day_suffix_exec(v: &Vec<char>, i: usize) -> (r: bool)
    requires
        i <= v.len(),
    ensures
        r == day_suffix(v@.skip(i as int)),
    decreases v.len() - i,
{
    let ghost s = v@.skip(i as int);
    if i == v.len() {
        return true;
    }
    if v[i] != 'd' {
        return false;
    }
    assert(s.skip(1) =~= v@.skip(i + 1));
    if day_suffix_exec(v, i + 1) {
        return true;
    }
    let n = v.len();
    if n - i >= 3 && v[i + 1] == 'a' && v[i + 2] == 'y' {
        assert(s.skip(3) =~= v@.skip(i + 3));
        if day_suffix_exec(v, i + 3) {
            return true;
        }
        if n - i >= 4 && v[i + 3] == 's' {
            assert(s.skip(4) =~= v@.skip(i + 4));
            return day_suffix_exec(v, i + 4);
        }
    }
    false
}

fn weekday_of_name_exec(v: &Vec<char>) -> (r: i8)
    ensures
        r as int == weekday_of_name(v@),
{
    if eq_chars(v, &['m', 'o']) || eq_chars(v, &['m', 'o', 'n']) {
        return 0;
    }
    if eq_chars(v, &['d', 'i']) || eq_chars(v, &['t', 'u']) || eq_chars(v, &['t', 'u', 'e']) {
        return 1;
    }
    if eq_chars(v, &['m', 'i']) || eq_chars(v, &['w', 'e']) || eq_chars(v, &['w', 'e', 'd']) {
        return 2;
    }
    if eq_chars(v, &['d', 'o']) || eq_chars(v, &['t', 'h', 'u']) || eq_chars(v, &['t', 'h']) {
        return 3;
    }
    if eq_chars(v, &['f', 'r']) || eq_chars(v, &['f', 'r', 'i']) {
        return 4;
    }
    if eq_chars(v, &['s', 'a']) || eq_chars(v, &['s', 'a', 't']) {
        return 5;
    }
    if eq_chars(v, &['s', 'u']) || eq_chars(v, &['s', 'o']) || eq_chars(v, &['s', 'u', 'n']) {
        return 6;
    }
    -1
}

fn month_of_name_exec(v: &Vec<char>) -> (r: u32)
    ensures
        r as int == month_of_name(v@),
{
    if eq_chars(v, &['j', 'a', 'n']) || eq_chars(v, &['j', 'a']) {
        return 1;
    }
    if eq_chars(v, &['f', 'e', 'b']) || eq_chars(v, &['f', 'e']) {
        return 2;
    }
    if eq_chars(v, &['m', 'a']) || eq_chars(v, &['m', '\u{e4}']) {
        return 3;
    }
    if eq_chars(v, &['a', 'p', 'r']) || eq_chars(v, &['a', 'p']) {
        return 4;
    }
    if eq_chars(v, &['m', 'a', 'y']) || eq_chars(v, &['m', 'a', 'i']) {
        return 5;
    }
    if eq_chars(v, &['j', 'u', 'n']) || eq_chars(v, &['j', 'u', 'n', 'e']) || eq_chars(v, &['j', 'u', 'n', 'i']) {
        return 6;
    }
    if eq_chars(v, &['j', 'u', 'l']) || eq_chars(v, &['j', 'u', 'l', 'y']) || eq_chars(v, &['j', 'u', 'l', 'i']) {
        return 7;
    }
    if eq_chars(v, &['a', 'u', 'g']) || eq_chars(v, &['a', 'u']) {
        return 8;
    }
    if eq_chars(v, &['s', 'e', 'p']) || eq_chars(v, &['s', 'e']) {
        return 9;
    }
    if eq_chars(v, &['o', 'k', 't']) || eq_chars(v, &['o', 'c', 't']) || eq_chars(v, &['o', 'c']) || eq_chars(v, &['o', 'k']) {
        return 10;
    }
    if eq_chars(v, &['n', 'o', 'v']) || eq_chars(v, &['n', 'o']) {
        return 11;
    }
    if eq_chars(v, &['d', 'e', 'c']) || eq_chars(v, &['d', 'e', 'z']) || eq_chars(v, &['d', 'e']) {
        return 12;
    }
    0
}

fn colon_time_exec(v: &Vec<char>) -> (r: Option<(Vec<char>, Vec<char>)>)
    ensures
        match r {
            Some((a, b)) => colon_time(v@) == Some((a@, b@)) && all_digits(a@) && all_digits(b@),
            None => colon_time(v@) is None,
        },
{
    let n = v.len();
    let k = run_len_exec(v, true);
    proof {
        assert(is_run(v@, k as int, true));
    }
    if 1 <= k && k < n && k + 1 < n && v[k] == ':' {
        let b = slice(v, k + 1, n);
        assert(b@ =~= v@.skip(k + 1));
        if all_digits_exec(&b) {
            let a = slice(v, 0, k);
            assert(a@ =~= v@.take(k as int));
            assert forall|j: int| 0 <= j < a@.len() implies is_digit(#[trigger] a@[j]) by {
                assert(run_char(v@[j], true));
            }
            return Some((a, b));
        }
    }
    None
}

fn compact_time_exec(v: &Vec<char>) -> (r: Option<(Vec<char>, Vec<char>)>)
    ensures
        match r {
            Some((a, b)) => compact_time(v@) == Some((a@, b@)) && all_digits(a@) && all_digits(b@),
            None => compact_time(v@) is None,
        },
{
    if v.len() == 4 && all_digits_exec(v) {
        let a = slice(v, 0, 2);
        let b = slice(v, 2, 4);
        assert(a@ =~= v@.take(2));
        assert(b@ =~= v@.skip(2));
        assert(all_digits(a@));
        assert(all_digits(b@));
        Some((a, b))
    } else {
        None
    }
}

/// An optional leading `-`: the sign and the rest.
fn split_sign_exec(v: &Vec<char>) -> (r: (bool, Vec<char>))
    ensures
        split_sign(v@) == (r.0, r.1@),
{
    if v.len() > 0 && v[0] == '-' {
        let t = slice(v, 1, v.len());
        assert(t@ =~= v@.skip(1));
        (true, t)
    } else {
        (false, slice(v, 0, v.len()))
    }
}

fn weekday_pattern_exec(v: &Vec<char>) -> (r: Option<(i8, bool, Vec<char>)>)
    ensures
        match r {
            Some((w, neg, ds)) => weekday_pattern(v@) == Some((w as int, neg, ds@)) && 0 <= w <= 6
                && all_digits(ds@),
            None => weekday_pattern(v@) is None,
        },
{
    let n = v.len();
    let k = run_len_exec(v, false);
    let name = slice(v, 0, k);
    assert(name@ =~= v@.take(k as int));
    let w = weekday_of_name_exec(&name);
    let rest = slice(v, k, n);
    assert(rest@ =~= v@.skip(k as int));
    let (neg, ds) = split_sign_exec(&rest);
    if w >= 0 && all_digits_exec(&ds) {
        Some((w, neg, ds))
    } else {
        None
    }
}

fn day_month_exec(v: &Vec<char>) -> (r: Option<(Vec<char>, u32)>)
    ensures
        match r {
            Some((ds, m)) => day_month(v@) == Some((ds@, m as int)) && 1 <= m <= 12 && all_digits(ds@),
            None => day_month(v@) is None,
        },
{
    let n = v.len();
    let k = run_len_exec(v, true);
    proof {
        assert(is_run(v@, k as int, true));
    }
    let rest = slice(v, k, n);
    assert(rest@ =~= v@.skip(k as int));
    let m = month_of_name_exec(&rest);
    if m >= 1 {
        let ds = slice(v, 0, k);
        assert(ds@ =~= v@.take(k as int));
        assert forall|j: int| 0 <= j < ds@.len() implies is_digit(#[trigger] ds@[j]) by {
            assert(run_char(v@[j], true));
        }
        Some((ds, m))
    } else {
        None
    }
}

fn dotted_date_exec(v: &Vec<char>) -> (r: Option<(Vec<char>, Vec<char>, Option<Vec<char>>)>)
    ensures
        match r {
            Some((a, b, c)) => {
                &&& dotted_date(v@) == Some(
                    (
                        a@,
                        b@,
                        match c {
                            Some(c) => Some(c@),
                            None => None,
                        },
                    ),
                )
                &&& all_digits(a@)
                &&& all_digits(b@)
                &&& c matches Some(c) ==> all_digits(c@)
            },
            None => dotted_date(v@) is None,
        },
{
    let n = v.len();
    let k1 = run_len_exec(v, true);
    proof {
        assert(is_run(v@, k1 as int, true));
    }
    if !(1 <= k1 && k1 < n && v[k1] == '.') {
        return None;
    }
    let t = slice(v, k1 + 1, n);
    assert(t@ =~= v@.skip(k1 + 1));
    let k2 = run_len_exec(&t, true);
    proof {
        assert(is_run(t@, k2 as int, true));
    }
    if k2 < 1 {
        return None;
    }
    let a = slice(v, 0, k1);
    assert(a@ =~= v@.take(k1 as int));
    assert forall|j: int| 0 <= j < a@.len() implies is_digit(#[trigger] a@[j]) by {
        assert(run_char(v@[j], true));
    }
    let b = slice(&t, 0, k2);
    assert(b@ =~= t@.take(k2 as int));
    assert forall|j: int| 0 <= j < b@.len() implies is_digit(#[trigger] b@[j]) by {
        assert(run_char(t@[j], true));
    }
    let u = slice(&t, k2, t.len());
    assert(u@ =~= t@.skip(k2 as int));
    if u.len() == 0 {
        return Some((a, b, None));
    }
    if u.len() >= 2 && u[0] == '.' {
        let c = slice(&u, 1, u.len());
        assert(c@ =~= u@.skip(1));
        if all_digits_exec(&c) {
            return Some((a, b, Some(c)));
        }
    }
    None
}

/// Digits followed by exactly the characters of `tail`.
fn digits_then(v: &Vec<char>, tail: &[char]) -> (r: Option<Vec<char>>)
    ensures
        match r {
            Some(ds) => {
                let k = run_len(v@, true);
                &&& k >= 1
                &&& v@.skip(k) == tail@
                &&& ds@ == v@.take(k)
                &&& all_digits(ds@)
            },
            None => {
                let k = run_len(v@, true);
                !(k >= 1 && v@.skip(k) == tail@)
            },
        },
{
    let n = v.len();
    let k = run_len_exec(v, true);
    proof {
        assert(is_run(v@, k as int, true));
    }
    let rest = slice(v, k, n);
    assert(rest@ =~= v@.skip(k as int));
    if k >= 1 && eq_chars(&rest, tail) {
        let ds = slice(v, 0, k);
        assert(ds@ =~= v@.take(k as int));
        assert forall|j: int| 0 <= j < ds@.len() implies is_digit(#[trigger] ds@[j]) by {
            assert(run_char(v@[j], true));
        }
        Some(ds)
    } else {
        None
    }
}

fn week_number_exec(v: &Vec<char>) -> (r: Option<Vec<char>>)
    ensures
        match r {
            Some(ds) => week_number(v@) == Some(ds@) && all_digits(ds@),
            None => week_number(v@) is None,
        },
{
    let r = digits_then(v, &['.', 'w']);
    r
}

fn day_of_month_exec(v: &Vec<char>) -> (r: Option<Vec<char>>)
    ensures
        match r {
            Some(ds) => day_of_month(v@) == Some(ds@) && all_digits(ds@),
            None => day_of_month(v@) is None,
        },
{
    let tail: [char; 1] = ['.'];
    assert(tail@ =~= seq!['.']);
    let r = digits_then(v, &tail);
    r
}

fn month_day_exec(v: &Vec<char>) -> (r: Option<(Vec<char>, u32)>)
    ensures
        match r {
            Some((ds, m)) => month_day(v@) == Some((ds@, m as int)) && 1 <= m <= 12 && all_digits(ds@),
            None => month_day(v@) is None,
        },
{
    let n = v.len();
    let k = run_len_exec(v, false);
    let name = slice(v, 0, k);
    assert(name@ =~= v@.take(k as int));
    let m = month_of_name_exec(&name);
    let ds = slice(v, k, n);
    assert(ds@ =~= v@.skip(k as int));
    if m >= 1 && all_digits_exec(&ds) {
        Some((ds, m))
    } else {
        None
    }
}

fn relative_days_exec(v: &Vec<char>) -> (r: Option<(bool, Vec<char>)>)
    ensures
        match r {
            Some((neg, ds)) => relative_days(v@) == Some((neg, ds@)) && all_digits(ds@),
            None => relative_days(v@) is None,
        },
{
    let (neg, t) = split_sign_exec(v);
    let k = run_len_exec(&t, true);
    proof {
        assert(is_run(t@, k as int, true));
    }
    if k >= 1 && day_suffix_exec(&t, k) {
        let ds = slice(&t, 0, k);
        assert(ds@ =~= t@.take(k as int));
        assert forall|j: int| 0 <= j < ds@.len() implies is_digit(#[trigger] ds@[j]) by {
            assert(run_char(t@[j], true));
        }
        Some((neg, ds))
    } else {
        None
    }
}

fn start_of_exec(v: &Vec<char>) -> (r: Option<char>)
    ensures
        r == start_of(v@),
{
    if v.len() == 3 && v[0] == 's' && v[1] == 'o' && (v[2] == 'w' || v[2] == 'm' || v[2] == 'y') {
        Some(v[2])
    } else {
        None
    }
}

fn end_of_exec(v: &Vec<char>) -> (r: Option<char>)
    ensures
        r == end_of(v@),
{
    if v.len() == 3 && v[0] == 'e' && v[1] == 'o' && (v[2] == 'w' || v[2] == 'm' || v[2] == 'y') {
        Some(v[2])
    } else {
        None
    }
}

fn relative_unit_exec(v: &Vec<char>) -> (r: Option<(bool, Vec<char>, char)>)
    ensures
        match r {
            Some((neg, ds, u)) => relative_unit(v@) == Some((neg, ds@, u)) && all_digits(ds@),
            None => relative_unit(v@) is None,
        },
{
    let (neg, t) = split_sign_exec(v);
    let k = run_len_exec(&t, true);
    proof {
        assert(is_run(t@, k as int, true));
    }
    if k >= 1 && k < t.len() && k + 1 == t.len() && (t[k] == 'w' || t[k] == 'm' || t[k] == 'y') {
        let ds = slice(&t, 0, k);
        assert(ds@ =~= t@.take(k as int));
        assert forall|j: int| 0 <= j < ds@.len() implies is_digit(#[trigger] ds@[j]) by {
            assert(run_char(t@[j], true));
        }
        Some((neg, ds, t[k]))
    } else {
        None
    }
}

fn now_word_exec(v: &Vec<char>) -> (r: bool)
    ensures
        r == now_word(v@),
{
    eq_chars(v, &['n', 'o', 'w']) || eq_chars(v, &['t', 'o', 'd', 'a', 'y']) || eq_chars(
        v,
        &['h', 'e', 'u', 't', 'e'],
    ) || eq_chars(v, &['j', 'e', 't', 'z', 't']) || eq_chars(
        v,
        &['c', 'u', 'r', 'r', 'e', 'n', 't'],
    ) || eq_chars(v, &['c', 'u', 'r'])
}


// ------------------------------------------------------------------
// Computing the date of each notation
// ------------------------------------------------------------------

fn at_time_of_exec(d: DateTime, o: Option<CivilDate>) -> (r: Option<DateTime>)
    ensures
        r == at_time_of(d, o),
{
    match o {
        Some(c) => Some(DateTime { date: c, time: d.time }),
        None => None,
    }
}

fn time_result_exec(d: DateTime, hs: &Vec<char>, ms: &Vec<char>) -> (r: Option<DateTime>)
    requires
        all_digits(hs@),
        all_digits(ms@),
    ensures
        r == time_result(d, hs@, ms@),
{
    let h = match parse_num_exec(hs, 0xffff_ffff) {
        Some(h) => h,
        None => return None,
    };
    let m = match parse_num_exec(ms, 0xffff_ffff) {
        Some(m) => m,
        None => return None,
    };
    let hour: u32 = if h >= 23 { 23 } else { h as u32 };
    let minute: u32 = if m >= 59 { 59 } else { m as u32 };
    let time = match TimeOfDay::from_hms_opt(hour, minute, 0) {
        Some(t) => t,
        None => return None,
    };
    Some(DateTime { date: d.date, time })
}

fn weekday_result_exec(d: DateTime, w: i8, neg: bool, ds: &Vec<char>) -> (r: Option<DateTime>)
    requires
        d.wf(),
        0 <= w <= 6,
        all_digits(ds@),
        weekday_defined(d, w as int, neg, ds@),
    ensures
        r == weekday_result(d, w as int, neg, ds@),
{
    let n: u64 = if ds.len() == 0 {
        0
    } else {
        match parse_num_exec(ds, 0xffff_ffff_ffff_ffff) {
            Some(n) => n,
            None => return None,
        }
    };
    let current = weekday(d.date);
    let wd: i64 = current.number_from_monday() as i64 - 1;
    let target: i64 = w as i64;
    let mut date = d.date;
    if wd != target {
        let diff = target - wd;
        let s1: i64 = if !neg {
            if diff >= 0 {
                diff
            } else {
                diff + 7
            }
        } else {
            if diff >= 0 {
                diff - 7
            } else {
                diff
            }
        };
        date = add_signed_days(date, s1);
    }
    assert(date == weekday_target(d, w as int, neg));
    let m: i64 = if n <= 0x7fff_ffff_ffff_ffff {
        n as i64
    } else {
        ((n - 0x8000_0000_0000_0000) as i64) + i64::MIN
    };
    assert(m == wrap_i64(n as int));
    let shift: i64 = if neg {
        -7 * m
    } else {
        7 * m
    };
    date = add_signed_days(date, shift);
    Some(DateTime { date, time: d.time })
}

fn day_month_result_exec(d: DateTime, ds: &Vec<char>, month: u32) -> (r: Option<DateTime>)
    requires
        d.wf(),
        1 <= month <= 12,
        all_digits(ds@),
    ensures
        r == day_month_result(d, ds@, month as int),
{
    let day: u64 = if ds.len() == 0 {
        1
    } else {
        match parse_num_exec(ds, 0xffff_ffff) {
            Some(x) => x,
            None => return None,
        }
    };
    let first = match with_day(d.date, 1) {
        Some(x) => x,
        None => return None,
    };
    let in_month = match with_month(first, month) {
        Some(x) => x,
        None => return None,
    };
    let r = match with_day(in_month, day as u32) {
        Some(x) => x,
        None => return None,
    };
    if days_since(r, d.date) < 0 {
        at_time_of_exec(d, with_year(r, r.year + 1))
    } else {
        Some(DateTime { date: r, time: d.time })
    }
}

fn dotted_result_exec(d: DateTime, ds: &Vec<char>, ms: &Vec<char>, ys: &Option<Vec<char>>) -> (r: Option<DateTime>)
    requires
        d.wf(),
        all_digits(ds@),
        all_digits(ms@),
        ys matches Some(y) ==> all_digits(y@),
    ensures
        r == dotted_result(
            d,
            ds@,
            ms@,
            match ys {
                Some(y) => Some(y@),
                None => None,
            },
        ),
{
    let day = match parse_num_exec(ds, 0xffff_ffff) {
        Some(x) => x,
        None => return None,
    };
    let month = match parse_num_exec(ms, 0xffff_ffff) {
        Some(x) => x,
        None => return None,
    };
    let year: i32 = match ys {
        None => d.date.year,
        Some(y) => match parse_num_exec(y, 0x7fff_ffff) {
            Some(x) => x as i32,
            None => return None,
        },
    };
    let first = match with_day(d.date, 1) {
        Some(x) => x,
        None => return None,
    };
    let in_month = match with_month(first, month as u32) {
        Some(x) => x,
        None => return None,
    };
    let in_year = match with_year(in_month, year) {
        Some(x) => x,
        None => return None,
    };
    let r = match with_day(in_year, day as u32) {
        Some(x) => x,
        None => return None,
    };
    if days_since(r, d.date) < 0 && ys.is_none() {
        at_time_of_exec(d, with_year(r, r.year + 1))
    } else {
        Some(DateTime { date: r, time: d.time })
    }
}

fn week_number_result_exec(d: DateTime, ns: &Vec<char>) -> (r: Option<DateTime>)
    requires
        d.wf(),
        all_digits(ns@),
    ensures
        r == week_number_result(d, ns@),
{
    let mut n = match parse_num_exec(ns, 0xffff_ffff_ffff_ffff) {
        Some(x) => x,
        None => return None,
    };
    if n == 0 {
        return None;
    }
    if n >= 53 {
        n = 53;
    }
    let first = match with_day(d.date, 1) {
        Some(x) => x,
        None => return None,
    };
    let jan1 = match with_month(first, 1) {
        Some(x) => x,
        None => return None,
    };
    assert(jan1 == (CivilDate { year: d.date.year, month: 1, day: 1 }));
    let wd = weekday(jan1);
    let difference = wd.number_from_monday() - 1;
    let base = match wd {
        Weekday::Mon | Weekday::Tue | Weekday::Wed | Weekday::Thu => jan1,
        _ => match checked_add_days(jan1, 7) {
            Some(x) => x,
            None => return None,
        },
    };
    let monday = match checked_sub_days(base, difference as u64) {
        Some(x) => x,
        None => return None,
    };
    at_time_of_exec(d, checked_add_days(monday, 7 * (n - 1)))
}

fn day_of_month_result_exec(d: DateTime, ds: &Vec<char>) -> (r: Option<DateTime>)
    requires
        d.wf(),
        all_digits(ds@),
    ensures
        r == day_of_month_result(d, ds@),
{
    let day = match parse_num_exec(ds, 0xffff_ffff) {
        Some(x) => x,
        None => return None,
    };
    let r = match with_day(d.date, day as u32) {
        Some(x) => x,
        None => return None,
    };
    if days_since(r, d.date) < 0 {
        at_time_of_exec(d, checked_add_months(r, 1))
    } else {
        Some(DateTime { date: r, time: d.time })
    }
}

fn relative_days_result_exec(d: DateTime, neg: bool, ds: &Vec<char>) -> (r: Option<DateTime>)
    requires
        d.wf(),
        all_digits(ds@),
    ensures
        r == relative_days_result(d, neg, ds@),
{
    let n = match parse_num_exec(ds, 0xffff_ffff_ffff_ffff) {
        Some(x) => x,
        None => return None,
    };
    if neg {
        at_time_of_exec(d, checked_sub_days(d.date, n))
    } else {
        at_time_of_exec(d, checked_add_days(d.date, n))
    }
}

fn start_of_result_exec(d: DateTime, unit: char) -> (r: Option<DateTime>)
    requires
        d.wf(),
        unit == 'w' || unit == 'm' || unit == 'y',
    ensures
        r == start_of_result(d, unit),
{
    if unit == 'w' {
        let weekday_diff = weekday(d.date).number_from_monday() - 1;
        at_time_of_exec(d, checked_sub_days(d.date, weekday_diff as u64))
    } else if unit == 'm' {
        at_time_of_exec(d, with_day(d.date, 1))
    } else {
        let first = match with_day(d.date, 1) {
            Some(x) => x,
            None => return None,
        };
        at_time_of_exec(d, with_month(first, 1))
    }
}

fn end_of_result_exec(d: DateTime, unit: char) -> (r: Option<DateTime>)
    requires
        d.wf(),
        unit == 'w' || unit == 'm' || unit == 'y',
    ensures
        r == end_of_result(d, unit),
{
    if unit == 'w' {
        let from_sunday = weekday(d.date).number_from_sunday();
        let weekday_diff: u32 = if from_sunday != 1 {
            7 - (from_sunday - 1)
        } else {
            0
        };
        at_time_of_exec(d, checked_add_days(d.date, weekday_diff as u64))
    } else {
        let first = match with_day(d.date, 1) {
            Some(x) => x,
            None => return None,
        };
        let start = if unit == 'm' {
            first
        } else {
            match with_month(first, 1) {
                Some(x) => x,
                None => return None,
            }
        };
        let next = match checked_add_months(start, if unit == 'm' { 1 } else { 12 }) {
            Some(x) => x,
            None => return None,
        };
        at_time_of_exec(d, checked_sub_days(next, 1))
    }
}

fn relative_unit_result_exec(d: DateTime, neg: bool, ns: &Vec<char>, unit: char) -> (r: Option<DateTime>)
    requires
        d.wf(),
        all_digits(ns@),
        unit == 'w' || unit == 'm' || unit == 'y',
        relative_unit_defined(ns@, unit),
    ensures
        r == relative_unit_result(d, neg, ns@, unit),
{
    let n = match parse_num_exec(ns, 0xffff_ffff_ffff_ffff) {
        Some(x) => x,
        None => return None,
    };
    let m32: u32 = (n % 0x1_0000_0000) as u32;
    if unit == 'w' {
        if neg {
            at_time_of_exec(d, checked_sub_days(d.date, 7 * n))
        } else {
            at_time_of_exec(d, checked_add_days(d.date, 7 * n))
        }
    } else if unit == 'm' {
        if neg {
            at_time_of_exec(d, checked_sub_months(d.date, m32))
        } else {
            at_time_of_exec(d, checked_add_months(d.date, m32))
        }
    } else {
        if neg {
            at_time_of_exec(d, checked_sub_months(d.date, 12 * m32))
        } else {
            at_time_of_exec(d, checked_add_months(d.date, 12 * m32))
        }
    }
}

fn first_move(d: DateTime, w: i8, neg: bool) -> (s1: i64)
    requires
        d.wf(),
        0 <= w <= 6,
    ensures
        s1 == first_shift(d.date.weekday_index(), w as int, neg),
        -6 <= s1 <= 6,
{
    let current = weekday(d.date);
    let wd: i64 = current.number_from_monday() as i64 - 1;
    let target: i64 = w as i64;
    if wd == target {
        return 0;
    }
    let diff = target - wd;
    if !neg {
        if diff >= 0 {
            diff
        } else {
            diff + 7
        }
    } else {
        if diff >= 0 {
            diff - 7
        } else {
            diff
        }
    }
}

/// The day `k` days after (before, when negative) `date` is within the supported range.
fn day_in_range(date: CivilDate, k: i128) -> (r: bool)
    requires
        date.wf(),
        -0x8000_0000_0000_0000 <= k <= 0x7fff_ffff_ffff_ffff,
    ensures
        r == in_day_range(date.num() + k),
{
    let moved = if k >= 0 {
        checked_add_days(date, k as u64)
    } else {
        checked_sub_days(date, (-k) as u64)
    };
    moved.is_some()
}

fn weekday_defined_exec(d: DateTime, w: i8, neg: bool, ds: &Vec<char>) -> (r: bool)
    requires
        d.wf(),
        0 <= w <= 6,
        all_digits(ds@),
    ensures
        r == weekday_defined(d, w as int, neg, ds@),
{
    let n: u64 = if ds.len() == 0 {
        0
    } else {
        match parse_num_exec(ds, 0xffff_ffff_ffff_ffff) {
            Some(n) => n,
            None => return true,
        }
    };
    assert(weekday_count(ds@) == Some(n as int));
    let s1 = first_move(d, w, neg);
    let date = if s1 != 0 {
        if !day_in_range(d.date, s1 as i128) {
            return false;
        }
        proof {
            crate::date::lemma_valid_date_in_range(d.date);
        }
        add_signed_days(d.date, s1)
    } else {
        d.date
    };
    assert(date == weekday_target(d, w as int, neg));
    let m: i128 = if n <= 0x7fff_ffff_ffff_ffff {
        n as i128
    } else {
        n as i128 - 0x1_0000_0000_0000_0000
    };
    assert(m == wrap_i64(n as int));
    let shift: i128 = if neg {
        -7 * m
    } else {
        7 * m
    };
    assert(shift == week_shift(n as int, neg));
    if shift < -0x8000_0000_0000_0000 || shift > 0x7fff_ffff_ffff_ffff {
        return false;
    }
    day_in_range(date, shift)
}

/// Reading `date_string` relative to `date` stays within range, as `parse_date` needs
/// (see `parse_date_defined`).
pub fn parse_date_is_defined(date_string: &str, date: DateTime) -> (r: bool)
    requires
        date.wf(),
    ensures
        r == parse_date_defined(date_string@, date),
{
    let v = chars_of(date_string);
    if colon_time_exec(&v).is_some() || compact_time_exec(&v).is_some() {
        return true;
    }
    if let Some((w, neg, ds)) = weekday_pattern_exec(&v) {
        return weekday_defined_exec(date, w, neg, &ds);
    }
    if day_month_exec(&v).is_some() || dotted_date_exec(&v).is_some() || week_number_exec(&v).is_some()
        || day_of_month_exec(&v).is_some() || month_day_exec(&v).is_some() || relative_days_exec(
        &v,
    ).is_some() || start_of_exec(&v).is_some() || end_of_exec(&v).is_some() {
        return true;
    }
    if let Some((_, ns, unit)) = relative_unit_exec(&v) {
        let n = match parse_num_exec(&ns, 0xffff_ffff_ffff_ffff) {
            Some(x) => x,
            None => return true,
        };
        if unit == 'w' {
            return n <= 0xffff_ffff_ffff_ffff / 7;
        }
        if unit == 'y' {
            let m32: u64 = n % 0x1_0000_0000;
            return 12 * m32 <= 0xffff_ffff;
        }
        return true;
    }
    true
}

/// The date (and time) that `date_string` denotes relative to `date`, with `now` standing
/// for the current moment; `None` when the string is no known notation or denotes no
/// existing date.
pub fn parse_date_at(date_string: &str, date: DateTime, now: DateTime) -> (r: Option<DateTime>)
    requires
        date.wf(),
        parse_date_defined(date_string@, date),
    ensures
        r == spec_parse_date(date_string@, date, now),
{
    let v = chars_of(date_string);
    if let Some((hs, ms)) = colon_time_exec(&v) {
        return time_result_exec(date, &hs, &ms);
    }
    if let Some((hs, ms)) = compact_time_exec(&v) {
        return time_result_exec(date, &hs, &ms);
    }
    if let Some((w, neg, ds)) = weekday_pattern_exec(&v) {
        return weekday_result_exec(date, w, neg, &ds);
    }
    if let Some((ds, month)) = day_month_exec(&v) {
        return day_month_result_exec(date, &ds, month);
    }
    if let Some((ds, ms, ys)) = dotted_date_exec(&v) {
        return dotted_result_exec(date, &ds, &ms, &ys);
    }
    if let Some(ns) = week_number_exec(&v) {
        return week_number_result_exec(date, &ns);
    }
    if let Some(ds) = day_of_month_exec(&v) {
        return day_of_month_result_exec(date, &ds);
    }
    if let Some((ds, month)) = month_day_exec(&v) {
        return day_month_result_exec(date, &ds, month);
    }
    if let Some((neg, ds)) = relative_days_exec(&v) {
        return relative_days_result_exec(date, neg, &ds);
    }
    if let Some(unit) = start_of_exec(&v) {
        return start_of_result_exec(date, unit);
    }
    if let Some(unit) = end_of_exec(&v) {
        return end_of_result_exec(date, unit);
    }
    if let Some((neg, ns, unit)) = relative_unit_exec(&v) {
        return relative_unit_result_exec(date, neg, &ns, unit);
    }
    if now_word_exec(&v) {
        return Some(now);
    }
    None
}

/// The date (and time) that `date_string` denotes relative to `date`; the words for
/// the current moment give the local time at the call.
pub fn parse_date(date_string: &str, date: DateTime) -> (r: Option<DateTime>)
    requires
        date.wf(),
        parse_date_defined(date_string@, date),
    ensures
        exists|n: DateTime| n.wf() && r == spec_parse_date(date_string@, date, n),
{
    let n = now();
    parse_date_at(date_string, date, n)
}

// ------------------------------------------------------------------
// Laws
// ------------------------------------------------------------------

/// A time of day (the result of both `H:M` and `HHMM`) keeps the day and gives a time that
/// exists, on the full minute: hours from 23 on count as 23 and minutes from 59 on as 59.
pub proof fn lemma_time_keeps_day(d: DateTime, hs: Seq<char>, ms: Seq<char>)
    requires
        all_digits(hs),
        all_digits(ms),
    ensures
        time_result(d, hs, ms) matches Some(r) ==> {
            &&& r.date == d.date
            &&& r.time.wf()
            &&& r.time.second == 0
            &&& r.time.nanosecond == 0
            &&& r.time.hour == if digits_value(hs) >= 23 { 23 } else { digits_value(hs) }
            &&& r.time.minute == if digits_value(ms) >= 59 { 59 } else { digits_value(ms) }
        },
{
    lemma_digits_value_nonneg(hs);
    lemma_digits_value_nonneg(ms);
}

/// Digits have a value of at least zero.
pub proof fn lemma_digits_value_nonneg(s: Seq<char>)
    requires
        all_digits(s),
    ensures
        digits_value(s) >= 0,
    decreases s.len(),
{
    if s.len() > 0 {
        assert(all_digits(s.drop_last()));
        lemma_digits_value_nonneg(s.drop_last());
        assert(is_digit(s[s.len() - 1]));
    }
}

/// Only `now` depends on the current moment: every other notation gives the same date
/// whenever it is read.
pub proof fn lemma_only_now_reads_clock(s: Seq<char>, d: DateTime, now1: DateTime, now2: DateTime)
    requires
        !now_word(s) || notation_of(s) != 13,
    ensures
        spec_parse_date(s, d, now1) == spec_parse_date(s, d, now2),
{
}

/// `now` gives the current moment, whatever the date it is read against.
pub proof fn lemma_now_is_now(s: Seq<char>, d: DateTime, now: DateTime)
    requires
        notation_of(s) == 13,
    ensures
        spec_parse_date(s, d, now) == Some(now),
{
}

/// One of the endings of the notation of a number of days: nothing, `d`, `day` or `days`.
pub open spec fn plain_day_suffix(s: Seq<char>) -> bool {
    ||| s == Seq::<char>::empty()
    ||| s == seq!['d']
    ||| s == seq!['d', 'a', 'y']
    ||| s == seq!['d', 'a', 'y', 's']
}

/// Digits followed by a day ending: the digits are the leading run, and the ending is a
/// day suffix.
proof fn lemma_digits_then_day_suffix(ds: Seq<char>, suf: Seq<char>)
    requires
        ds.len() >= 1,
        all_digits(ds),
        plain_day_suffix(suf),
    ensures
        run_len(ds + suf, true) == ds.len(),
        (ds + suf).take(ds.len() as int) == ds,
        (ds + suf).skip(ds.len() as int) == suf,
        day_suffix(suf),
        month_of_name(suf) == 0,
        suf.len() > 0 ==> suf[0] == 'd',
{
    let t = ds + suf;
    let k = ds.len() as int;
    assert(is_run(t, k, true)) by {
        assert forall|j: int| 0 <= j < k implies run_char(#[trigger] t[j], true) by {
            assert(t[j] == ds[j]);
        }
        if k < t.len() {
            assert(t[k] == suf[0]);
        }
    }
    lemma_run_len(t, k, true);
    assert(t.take(k) =~= ds);
    assert(t.skip(k) =~= suf);
    assert(day_suffix(Seq::<char>::empty()));
    if suf.len() > 0 {
        assert(suf[0] == 'd');
        if suf.len() == 1 {
            assert(suf.skip(1) =~= Seq::<char>::empty());
            assert(day_suffix(suf.skip(1)));
        } else if suf.len() == 3 {
            assert(suf[1] == 'a' && suf[2] == 'y');
            assert(suf.skip(3) =~= Seq::<char>::empty());
            assert(day_suffix(suf.skip(3)));
        } else {
            assert(suf[1] == 'a' && suf[2] == 'y' && suf[3] == 's');
            assert(suf.skip(4) =~= Seq::<char>::empty());
            assert(day_suffix(suf.skip(4)));
        }
    }
}

/// The notations tried before the number of days do not match a number of days.
proof fn lemma_days_notation(s: Seq<char>, neg: bool, ds: Seq<char>, suf: Seq<char>)
    requires
        ds.len() >= 1,
        all_digits(ds),
        plain_day_suffix(suf),
        !neg ==> !(ds.len() == 4 && suf.len() == 0),
        s == (if neg {
            seq!['-'] + ds + suf
        } else {
            ds + suf
        }),
    ensures
        notation_of(s) == 9,
        relative_days(s) == Some((neg, ds)),
{
    let t = ds + suf;
    let k = ds.len() as int;
    lemma_digits_then_day_suffix(ds, suf);
    if neg {
        assert(s.skip(1) =~= t);
        assert(is_run(s, 0, true));
        lemma_run_len(s, 0, true);
    } else {
        assert(s =~= t);
    }
    assert(is_digit(t[0]));
    assert(is_run(s, 0, false));
    lemma_run_len(s, 0, false);
    assert(split_sign(s) == (neg, t));
    assert(s.take(0) =~= Seq::<char>::empty());
    assert(s.skip(0) =~= s);
    assert(weekday_of_name(Seq::<char>::empty()) == -1);
    assert(month_of_name(Seq::<char>::empty()) == 0);
    assert(compact_time(s) is None) by {
        if !neg && s.len() == 4 && suf.len() > 0 {
            assert(s[k] == 'd');
        }
    }
    if !neg {
        assert(s.skip(k) == suf);
        assert(suf != seq!['.', 'w']);
        assert(suf != seq!['.']);
    }
}

/// Reading a number of days moves the date by that many days, keeping the time of day.
proof fn lemma_days_result(d: DateTime, neg: bool, ds: Seq<char>)
    ensures
        ({
            let n = digits_value(ds);
            let target = if neg {
                d.date.num() - n
            } else {
                d.date.num() + n
            };
            &&& (relative_days_result(d, neg, ds) is Some <==> (n <= u64::MAX && in_day_range(target)))
            &&& (relative_days_result(d, neg, ds) matches Some(r) ==> r.time == d.time && r.date.num()
                == target)
        }),
{
    let n = digits_value(ds);
    let target = if neg {
        d.date.num() - n
    } else {
        d.date.num() + n
    };
    if n <= u64::MAX && in_day_range(target) {
        crate::date::lemma_num_of_civil(target);
    }
}

/// A number of days (`N` or `-N`, maybe followed by `d`, `day` or `days`) moves the date by
/// that many days, forward or (with `-`) back, keeping the time of day: `1` is tomorrow and
/// `-1` yesterday. (Four digits alone are read as a time of day instead.) The result exists
/// exactly where the number fits 64 bits and the day it lands on is within range.
pub proof fn lemma_relative_days_move(ds: Seq<char>, suf: Seq<char>, neg: bool, d: DateTime, now: DateTime)
    requires
        ds.len() >= 1,
        all_digits(ds),
        plain_day_suffix(suf),
        !neg ==> !(ds.len() == 4 && suf.len() == 0),
    ensures
        ({
            let s = if neg {
                seq!['-'] + ds + suf
            } else {
                ds + suf
            };
            let n = digits_value(ds);
            let target = if neg {
                d.date.num() - n
            } else {
                d.date.num() + n
            };
            &&& parse_date_defined(s, d)
            &&& (spec_parse_date(s, d, now) is Some <==> (n <= u64::MAX && in_day_range(target)))
            &&& (spec_parse_date(s, d, now) matches Some(r) ==> r.time == d.time && r.date.num() == target)
        }),
{
    let s = if neg {
        seq!['-'] + ds + suf
    } else {
        ds + suf
    };
    lemma_days_notation(s, neg, ds, suf);
    lemma_days_result(d, neg, ds);
    assert(spec_parse_date(s, d, now) == relative_days_result(d, neg, ds));
}

} // verus!
