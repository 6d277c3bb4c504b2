//! Proleptic Gregorian calendar dates, times of day and the date arithmetic
//! that the rest of the library builds on.

use vstd::prelude::*;
use chrono::{Datelike, Timelike};

verus! {

/// Smallest year a date can have.
pub const MIN_YEAR: i32 = -262143;

/// Largest year a date can have.
pub const MAX_YEAR: i32 = 262142;

pub open spec fn is_leap_year(y: int) -> bool {
    y % 4 == 0 && (y % 100 != 0 || y % 400 == 0)
}

pub open spec fn days_in_month(y: int, m: int) -> int {
    if m == 2 {
        if is_leap_year(y) {
            29
        } else {
            28
        }
    } else if m == 4 || m == 6 || m == 9 || m == 11 {
        30
    } else {
        31
    }
}

/// A year, month and day form a date of the calendar within the supported years.
pub open spec fn valid_ymd(y: int, m: int, d: int) -> bool {
    &&& MIN_YEAR <= y <= MAX_YEAR
    &&& 1 <= m <= 12
    &&& 1 <= d <= days_in_month(y, m)
}

/// The number of the day in the proleptic Gregorian calendar, where
/// January 1 of year 1 is day 1.
pub open spec fn day_number(y: int, m: int, d: int) -> int {
    let yy = if m <= 2 { y - 1 } else { y };
    let era = yy / 400;
    let yoe = yy - era * 400;
    let mp = if m > 2 { m - 3 } else { m + 9 };
    let doy = (153 * mp + 2) / 5 + d - 1;
    let doe = yoe * 365 + yoe / 4 - yoe / 100 + doy;
    era * 146097 + doe - 305
}

/// The year, month and day of the day with the given number (inverse of `day_number`).
pub open spec fn ymd_of_day_number(n: int) -> (int, int, int) {
    let z = n + 305;
    let era = z / 146097;
    let doe = z - era * 146097;
    let yoe = (doe - doe / 1460 + doe / 36524 - doe / 146096) / 365;
    let doy = doe - (365 * yoe + yoe / 4 - yoe / 100);
    let mp = (5 * doy + 2) / 153;
    let d = doy - (153 * mp + 2) / 5 + 1;
    let m = if mp < 10 { mp + 3 } else { mp - 9 };
    let y = yoe + era * 400 + (if m <= 2 { 1int } else { 0int });
    (y, m, d)
}

/// Number of the first supported day.
pub open spec fn min_day_number() -> int {
    day_number(MIN_YEAR as int, 1, 1)
}

/// Number of the last supported day.
pub open spec fn max_day_number() -> int {
    day_number(MAX_YEAR as int, 12, 31)
}

pub open spec fn in_day_range(n: int) -> bool {
    min_day_number() <= n <= max_day_number()
}

/// The first and last supported day numbers.
pub proof fn lemma_day_range_bounds()
    ensures
        min_day_number() == -95746129,
        max_day_number() == 95745399,
{
}

/// Every date of the calendar has a day number within the supported range.
pub proof fn lemma_valid_date_in_range(d: CivilDate)
    requires
        d.wf(),
    ensures
        in_day_range(d.num()),
{
    lemma_day_range_bounds();
}

/// Day of the week of the day with the given number: 0 for Monday up to 6 for Sunday.
pub open spec fn weekday_index_of(n: int) -> int {
    (n - 1) % 7
}

/// A calendar date: year, month (1 to 12) and day of the month (from 1).
#[derive(PartialEq, Eq, Structural, Clone, Copy, Debug)]
pub struct CivilDate {
    pub year: i32,
    pub month: u32,
    pub day: u32,
}

/// The date with the given day number.
pub open spec fn civil_of(n: int) -> CivilDate {
    let (y, m, d) = ymd_of_day_number(n);
    CivilDate { year: y as i32, month: m as u32, day: d as u32 }
}

/// Result of moving a date by `n` days, or `None` when it leaves the supported range.
pub open spec fn shift_days(d: CivilDate, n: int) -> Option<CivilDate> {
    let t = d.num() + n;
    if in_day_range(t) {
        Some(civil_of(t))
    } else {
        None
    }
}

/// Result of moving a date by `n` months, keeping the day of the month where it
/// exists and using the last day of the new month otherwise.
pub open spec fn shift_months(d: CivilDate, n: int) -> Option<CivilDate> {
    let total = d.year * 12 + d.month - 1 + n;
    let y = total / 12;
    let m = total % 12 + 1;
    let day = if d.day <= days_in_month(y, m) { d.day as int } else { days_in_month(y, m) };
    if MIN_YEAR <= y <= MAX_YEAR {
        Some(CivilDate { year: y as i32, month: m as u32, day: day as u32 })
    } else {
        None
    }
}

/// Result of replacing a component of a date, or `None` when no such date exists.
pub open spec fn ymd_opt(y: int, m: int, d: int) -> Option<CivilDate> {
    if valid_ymd(y, m, d) {
        Some(CivilDate { year: y as i32, month: m as u32, day: d as u32 })
    } else {
        None
    }
}

impl CivilDate {
    pub open spec fn wf(self) -> bool {
        valid_ymd(self.year as int, self.month as int, self.day as int)
    }

    /// The day number of this date.
    pub open spec fn num(self) -> int {
        day_number(self.year as int, self.month as int, self.day as int)
    }

    /// Day of the week, 0 for Monday up to 6 for Sunday.
    pub open spec fn weekday_index(self) -> int {
        weekday_index_of(self.num())
    }

    /// The date exists.
    pub fn is_valid(&self) -> (r: bool)
        ensures
            r == self.wf(),
    {
        from_ymd_opt(self.year, self.month, self.day).is_some()
    }

    /// Strictly earlier date.
    pub open spec fn before(self, other: CivilDate) -> bool {
        ||| self.year < other.year
        ||| self.year == other.year && self.month < other.month
        ||| self.year == other.year && self.month == other.month && self.day < other.day
    }

    /// `self` comes strictly before `other`.
    pub fn is_before(&self, other: &CivilDate) -> (r: bool)
        ensures
            r == self.before(*other),
    {
        self.year < other.year || (self.year == other.year && self.month < other.month) || (
        self.year == other.year && self.month == other.month && self.day < other.day)
    }

    /// The same year, month and day.
    pub fn same_day(&self, other: &CivilDate) -> (r: bool)
        ensures
            r == (*self == *other),
    {
        self.year == other.year && self.month == other.month && self.day == other.day
    }
}

/// A day of the week.
#[derive(PartialEq, Eq, Structural, Clone, Copy, Debug)]
pub enum Weekday {
    Mon,
    Tue,
    Wed,
    Thu,
    Fri,
    Sat,
    Sun,
}

impl Weekday {
    /// 0 for Monday up to 6 for Sunday.
    pub open spec fn index(self) -> int {
        match self {
            Weekday::Mon => 0,
            Weekday::Tue => 1,
            Weekday::Wed => 2,
            Weekday::Thu => 3,
            Weekday::Fri => 4,
            Weekday::Sat => 5,
            Weekday::Sun => 6,
        }
    }

    /// Day number within the week, Monday being 1 and Sunday 7.
    pub fn number_from_monday(&self) -> (r: u32)
        ensures
            r == self.index() + 1,
    {
        match self {
            Weekday::Mon => 1,
            Weekday::Tue => 2,
            Weekday::Wed => 3,
            Weekday::Thu => 4,
            Weekday::Fri => 5,
            Weekday::Sat => 6,
            Weekday::Sun => 7,
        }
    }

    /// Day number within the week, Sunday being 1 and Saturday 7.
    pub fn number_from_sunday(&self) -> (r: u32)
        ensures
            r == (self.index() + 1) % 7 + 1,
    {
        match self {
            Weekday::Mon => 2,
            Weekday::Tue => 3,
            Weekday::Wed => 4,
            Weekday::Thu => 5,
            Weekday::Fri => 6,
            Weekday::Sat => 7,
            Weekday::Sun => 1,
        }
    }

    /// Whether two weekdays are the same day.
    pub fn same(&self, other: &Weekday) -> (r: bool)
        ensures
            r == (*self == *other),
    {
        self.number_from_monday() == other.number_from_monday()
    }
}

/// Time of day with nanosecond precision.
#[derive(PartialEq, Eq, Structural, Clone, Copy, Debug)]
pub struct TimeOfDay {
    pub hour: u32,
    pub minute: u32,
    pub second: u32,
    pub nanosecond: u32,
}

impl TimeOfDay {
    pub open spec fn wf(self) -> bool {
        &&& self.hour < 24
        &&& self.minute < 60
        &&& self.second < 60
        &&& self.nanosecond < 2_000_000_000
        &&& self.nanosecond >= 1_000_000_000 ==> self.second == 59
    }

    /// Strictly earlier time.
    pub open spec fn before(self, other: TimeOfDay) -> bool {
        ||| self.hour < other.hour
        ||| self.hour == other.hour && self.minute < other.minute
        ||| self.hour == other.hour && self.minute == other.minute && self.second < other.second
        ||| self.hour == other.hour && self.minute == other.minute && self.second == other.second
            && self.nanosecond < other.nanosecond
    }

    /// The time exists (a leap second only at the end of a minute).
    pub fn is_valid(&self) -> (r: bool)
        ensures
            r == self.wf(),
    {
        self.hour < 24 && self.minute < 60 && self.second < 60 && self.nanosecond < 2_000_000_000
            && (self.nanosecond < 1_000_000_000 || self.second == 59)
    }

    /// Midnight.
    pub fn midnight() -> (r: TimeOfDay)
        ensures
            r == (TimeOfDay { hour: 0, minute: 0, second: 0, nanosecond: 0 }),
            r.wf(),
    {
        TimeOfDay { hour: 0, minute: 0, second: 0, nanosecond: 0 }
    }

    /// Makes a time from hour, minute and second, if each is in range.
    pub fn from_hms_opt(hour: u32, minute: u32, second: u32) -> (r: Option<TimeOfDay>)
        ensures
            r == (if hour < 24 && minute < 60 && second < 60 {
                Some(TimeOfDay { hour, minute, second, nanosecond: 0 })
            } else {
                None
            }),
    {
        if hour < 24 && minute < 60 && second < 60 {
            Some(TimeOfDay { hour, minute, second, nanosecond: 0 })
        } else {
            None
        }
    }

    /// `self` comes strictly before `other`.
    pub fn is_before(&self, other: &TimeOfDay) -> (r: bool)
        ensures
            r == self.before(*other),
    {
        self.hour < other.hour || (self.hour == other.hour && self.minute < other.minute) || (
        self.hour == other.hour && self.minute == other.minute && self.second < other.second) || (
        self.hour == other.hour && self.minute == other.minute && self.second == other.second
            && self.nanosecond < other.nanosecond)
    }
}

/// A date together with a time of day.
#[derive(PartialEq, Eq, Structural, Clone, Copy, Debug)]
pub struct DateTime {
    pub date: CivilDate,
    pub time: TimeOfDay,
}

impl DateTime {
    pub open spec fn wf(self) -> bool {
        self.date.wf() && self.time.wf()
    }

    /// Strictly earlier point in time.
    pub open spec fn before(self, other: DateTime) -> bool {
        ||| self.date.before(other.date)
        ||| self.date == other.date && self.time.before(other.time)
    }

    /// Makes a date-time from its date and its time.
    pub fn new(date: CivilDate, time: TimeOfDay) -> (r: DateTime)
        ensures
            r == (DateTime { date, time }),
    {
        DateTime { date, time }
    }

    /// The date and the time exist.
    pub fn is_valid(&self) -> (r: bool)
        ensures
            r == self.wf(),
    {
        self.date.is_valid() && self.time.is_valid()
    }

    /// `self` comes strictly before `other`.
    pub fn is_before(&self, other: &DateTime) -> (r: bool)
        ensures
            r == self.before(*other),
    {
        self.date.is_before(&other.date) || (self.date.same_day(&other.date)
            && self.time.is_before(&other.time))
    }

    /// The same date and time.
    pub fn same(&self, other: &DateTime) -> (r: bool)
        ensures
            r == (*self == *other),
    {
        self.date.same_day(&other.date) && self.time.hour == other.time.hour && self.time.minute
            == other.time.minute && self.time.second == other.time.second
            && self.time.nanosecond == other.time.nanosecond
    }
}

/// A signed length of time: whole seconds and a nanosecond part below one second.
#[derive(PartialEq, Eq, Structural, Clone, Copy, Debug)]
pub struct TimeDelta {
    pub secs: i64,
    pub nanos: u32,
}

impl TimeDelta {
    pub open spec fn wf(self) -> bool {
        self.nanos < 1_000_000_000
    }

    /// Strictly shorter.
    pub open spec fn before(self, other: TimeDelta) -> bool {
        self.secs < other.secs || (self.secs == other.secs && self.nanos < other.nanos)
    }

    /// `self` is strictly shorter than `other`.
    pub fn is_before(&self, other: &TimeDelta) -> (r: bool)
        ensures
            r == self.before(*other),
    {
        self.secs < other.secs || (self.secs == other.secs && self.nanos < other.nanos)
    }
}

/// A length of time within the range of durations: at most `i64::MAX` milliseconds either
/// way, the nanosecond part below one second.
pub open spec fn delta_in_range(secs: int, nanos: int) -> bool {
    &&& 0 <= nanos < 1_000_000_000
    &&& -9_223_372_036_854_776 <= secs <= 9_223_372_036_854_775
    &&& secs == 9_223_372_036_854_775 ==> nanos <= 807_000_000
    &&& secs == -9_223_372_036_854_776 ==> nanos >= 193_000_000
}

/// The sum of two lengths of time, `None` where it leaves the range of durations.
pub open spec fn delta_sum(a: TimeDelta, b: TimeDelta) -> Option<TimeDelta> {
    let s = a.secs + b.secs;
    let n = a.nanos + b.nanos;
    let secs = if n >= 1_000_000_000 { s + 1 } else { s };
    let nanos = if n >= 1_000_000_000 { n - 1_000_000_000 } else { n };
    if delta_in_range(secs, nanos) {
        Some(TimeDelta { secs: secs as i64, nanos: nanos as u32 })
    } else {
        None
    }
}

/// The seconds since midnight, a leap second counting as the 59th second of its minute.
pub open spec fn secs_of_day(t: TimeOfDay) -> int {
    t.hour * 3600 + t.minute * 60 + t.second
}

/// How long after `b` the moment `a` comes (negative where it comes before). A leap second
/// (`nanosecond` from one billion on) lasts one second more than the second it extends.
pub open spec fn time_since(a: DateTime, b: DateTime) -> TimeDelta {
    let sa = secs_of_day(a.time);
    let sb = secs_of_day(b.time);
    let fa = a.time.nanosecond as int;
    let fb = b.time.nanosecond as int;
    let leap = if sa > sb && fb >= 1_000_000_000 {
        1int
    } else if sa < sb && fa >= 1_000_000_000 {
        -1int
    } else {
        0int
    };
    let frac = fa - fb;
    let secs = (a.date.num() - b.date.num()) * 86400 + sa - sb + leap + frac / 1_000_000_000;
    TimeDelta { secs: secs as i64, nanos: (frac % 1_000_000_000) as u32 }
}

impl TimeDelta {
    /// Within the range of durations.
    pub open spec fn in_range(self) -> bool {
        delta_in_range(self.secs as int, self.nanos as int)
    }

    /// `self + rhs`, `None` where the sum leaves the range of durations.
    pub fn checked_add(&self, rhs: &TimeDelta) -> (r: Option<TimeDelta>)
        requires
            self.in_range(),
            rhs.in_range(),
        ensures
            r == delta_sum(*self, *rhs),
    {
        let s: i64 = self.secs + rhs.secs;
        let n: u32 = self.nanos + rhs.nanos;
        let (secs, nanos): (i64, u32) = if n >= 1_000_000_000 {
            (s + 1, n - 1_000_000_000)
        } else {
            (s, n)
        };
        let in_range = secs >= -9_223_372_036_854_776 && secs <= 9_223_372_036_854_775
            && (secs != 9_223_372_036_854_775 || nanos <= 807_000_000)
            && (secs != -9_223_372_036_854_776 || nanos >= 193_000_000);
        if in_range {
            Some(TimeDelta { secs, nanos })
        } else {
            None
        }
    }
}

impl DateTime {
    /// How long after `rhs` this moment comes (see `time_since`).
    #[verifier::rlimit(40)]
    pub fn signed_duration_since(&self, rhs: &DateTime) -> (r: TimeDelta)
        requires
            self.wf(),
            rhs.wf(),
        ensures
            r == time_since(*self, *rhs),
            r.in_range(),
    {
        proof {
            lemma_num_bounds(self.date);
            lemma_num_bounds(rhs.date);
        }
        let days: i64 = days_since(self.date, rhs.date);
        let sa: i64 = (self.time.hour as i64) * 3600 + (self.time.minute as i64) * 60 + self.time.second as i64;
        let sb: i64 = (rhs.time.hour as i64) * 3600 + (rhs.time.minute as i64) * 60 + rhs.time.second as i64;
        let fa: i64 = self.time.nanosecond as i64;
        let fb: i64 = rhs.time.nanosecond as i64;
        let leap: i64 = if sa > sb && fb >= 1_000_000_000 {
            1
        } else if sa < sb && fa >= 1_000_000_000 {
            -1
        } else {
            0
        };
        let frac: i64 = fa - fb;
        let (carry, rest): (i64, i64) = if frac < -1_000_000_000 {
            (-2, frac + 2_000_000_000)
        } else if frac < 0 {
            (-1, frac + 1_000_000_000)
        } else if frac >= 1_000_000_000 {
            (1, frac - 1_000_000_000)
        } else {
            (0, frac)
        };
        proof {
            lemma_frac_split(frac as int, carry as int, rest as int);
        }
        let secs: i64 = days * 86400 + sa - sb + leap + carry;
        TimeDelta { secs, nanos: rest as u32 }
    }
}

/// The day number of a date lies between the first and the last supported day.
proof fn lemma_num_bounds(d: CivilDate)
    requires
        d.wf(),
    ensures
        -95746129 <= d.num() <= 95745399,
{
    lemma_valid_date_in_range(d);
    lemma_day_range_bounds();
}

/// A difference of nanosecond parts splits into whole seconds and the rest.
proof fn lemma_frac_split(frac: int, carry: int, rest: int)
    requires
        -2_000_000_000 < frac < 2_000_000_000,
        carry == if frac < -1_000_000_000 {
            -2int
        } else if frac < 0 {
            -1int
        } else if frac >= 1_000_000_000 {
            1int
        } else {
            0int
        },
        rest == frac - carry * 1_000_000_000,
    ensures
        frac / 1_000_000_000 == carry,
        frac % 1_000_000_000 == rest,
{
    if frac < -1_000_000_000 {
        vstd::arithmetic::div_mod::lemma_fundamental_div_mod_converse(frac, 1_000_000_000, -2, frac + 2_000_000_000);
    } else if frac < 0 {
        vstd::arithmetic::div_mod::lemma_fundamental_div_mod_converse(frac, 1_000_000_000, -1, frac + 1_000_000_000);
    } else if frac >= 1_000_000_000 {
        vstd::arithmetic::div_mod::lemma_fundamental_div_mod_converse(frac, 1_000_000_000, 1, frac - 1_000_000_000);
    } else {
        vstd::arithmetic::div_mod::lemma_fundamental_div_mod_converse(frac, 1_000_000_000, 0, frac);
    }
}

/// The order of two lengths of time does not change their sum.
pub proof fn lemma_delta_sum_commutes(a: TimeDelta, b: TimeDelta)
    ensures
        delta_sum(a, b) == delta_sum(b, a),
{
}

/// Adding nothing changes a length of time within range.
pub proof fn lemma_delta_sum_zero(a: TimeDelta)
    requires
        a.in_range(),
    ensures
        delta_sum(a, TimeDelta { secs: 0, nanos: 0 }) == Some(a),
{
}

/// Within an era of 400 years the year and the day of the year are found again from the
/// day of the era.
proof fn lemma_era_day_bounds(doe: int)
    requires
        0 <= doe < 146097,
    ensures
        ({
            let yoe = (doe - doe / 1460 + doe / 36524 - doe / 146096) / 365;
            let doy = doe - (365 * yoe + yoe / 4 - yoe / 100);
            &&& 0 <= yoe <= 399
            &&& 0 <= doy <= 365
        }),
{
    let q1 = doe / 1460;
    let q2 = doe / 36524;
    let q3 = doe / 146096;
    assert(0 <= q1 <= 100);
    assert(0 <= q2 <= 4);
    assert(0 <= q3 <= 1);
    let g = doe - q1 + q2 - q3;
    let yoe = g / 365;
    assert(0 <= yoe <= 399);
    let r4 = yoe / 4;
    let r100 = yoe / 100;
    assert(0 <= doe - (365 * yoe + r4 - r100) <= 365);
}

/// The date with a day number has that day number again.
pub proof fn lemma_num_of_civil(n: int)
    requires
        in_day_range(n),
    ensures
        civil_of(n).num() == n,
{
    lemma_day_range_bounds();
    let z = n + 305;
    let era = z / 146097;
    let doe = z - era * 146097;
    assert(0 <= doe < 146097);
    assert(-656 <= era <= 655);
    lemma_era_day_bounds(doe);
    let yoe = (doe - doe / 1460 + doe / 36524 - doe / 146096) / 365;
    let doy = doe - (365 * yoe + yoe / 4 - yoe / 100);
    let mp = (5 * doy + 2) / 153;
    assert(0 <= mp <= 11);
    let d = doy - (153 * mp + 2) / 5 + 1;
    assert(1 <= d <= 31);
    let m = if mp < 10 { mp + 3 } else { mp - 9 };
    let y = yoe + era * 400 + (if m <= 2 { 1int } else { 0int });
    assert(ymd_of_day_number(n) == (y, m, d));
    assert(-300000 <= y <= 300000);
    let c = civil_of(n);
    assert(c.year as int == y && c.month as int == m && c.day as int == d);
    let yy = if m <= 2 { y - 1 } else { y };
    assert(yy == yoe + era * 400);
    assert(yy / 400 == era);
}

/// The year of the era is found again from a day of that year.
proof fn lemma_year_of_era(yoe: int, doy: int, leap: bool)
    requires
        0 <= yoe <= 399,
        0 <= doy,
        doy <= if leap { 365int } else { 364int },
        leap == ((yoe + 1) % 4 == 0 && ((yoe + 1) % 100 != 0 || (yoe + 1) % 400 == 0)),
    ensures
        ({
            let doe = 365 * yoe + yoe / 4 - yoe / 100 + doy;
            &&& 0 <= doe < 146097
            &&& (doe - doe / 1460 + doe / 36524 - doe / 146096) / 365 == yoe
        }),
{
    let doe = 365 * yoe + yoe / 4 - yoe / 100 + doy;
    let q1 = doe / 1460;
    let q2 = doe / 36524;
    let q3 = doe / 146096;
    assert(0 <= doe < 146097);
    assert((doe - q1 + q2 - q3) / 365 == yoe);
}

/// The month and day are found again from the day of the year (counted from March).
proof fn lemma_month_of_year(mp: int, d: int, len: int)
    requires
        0 <= mp <= 11,
        1 <= d <= len,
        len == if mp == 11 {
            len
        } else if mp == 1 || mp == 3 || mp == 6 || mp == 8 {
            30int
        } else {
            31int
        },
        mp == 11 ==> 28 <= len <= 29,
    ensures
        ({
            let doy = (153 * mp + 2) / 5 + d - 1;
            &&& 0 <= doy <= 365
            &&& (5 * doy + 2) / 153 == mp
            &&& doy - (153 * mp + 2) / 5 + 1 == d
            &&& mp == 11 && len == 28 ==> doy <= 364
            &&& mp < 11 ==> doy <= 336
        }),
{
}

/// Whole eras of 400 years do not change whether a year is a leap year.
proof fn lemma_leap_by_era(a: int, era: int)
    ensures
        ((a + era * 400) % 4 == 0) == (a % 4 == 0),
        ((a + era * 400) % 100 == 0) == (a % 100 == 0),
        ((a + era * 400) % 400 == 0) == (a % 400 == 0),
{
}

/// The day with the number made of an era and a day of the era has the year, month and day
/// that the day of the era stands for.
proof fn lemma_ymd_recovered(era: int, yoe: int, mp: int, d: int, doy: int, doe: int)
    requires
        0 <= yoe <= 399,
        0 <= mp <= 11,
        0 <= doe < 146097,
        doe == 365 * yoe + yoe / 4 - yoe / 100 + doy,
        (doe - doe / 1460 + doe / 36524 - doe / 146096) / 365 == yoe,
        (5 * doy + 2) / 153 == mp,
        doy - (153 * mp + 2) / 5 + 1 == d,
    ensures
        ymd_of_day_number(era * 146097 + doe - 305) == (
            yoe + era * 400 + (if mp >= 10 { 1int } else { 0int }),
            if mp < 10 { mp + 3 } else { mp - 9 },
            d,
        ),
{
    let z = era * 146097 + doe;
    assert(z / 146097 == era);
    assert(z - (z / 146097) * 146097 == doe);
}

/// A date of the calendar is the date with its own day number.
pub proof fn lemma_civil_of_num(dt: CivilDate)
    requires
        dt.wf(),
    ensures
        civil_of(dt.num()) == dt,
{
    let y = dt.year as int;
    let m = dt.month as int;
    let d = dt.day as int;
    let yy = if m <= 2 { y - 1 } else { y };
    let era = yy / 400;
    let yoe = yy - era * 400;
    assert(0 <= yoe <= 399);
    let mp = if m > 2 { m - 3 } else { m + 9 };
    let len = days_in_month(y, m);
    lemma_leap_by_era(yoe + 1, era);
    assert(mp == 11 ==> y == yoe + 1 + era * 400);
    let leap = (yoe + 1) % 4 == 0 && ((yoe + 1) % 100 != 0 || (yoe + 1) % 400 == 0);
    assert(mp == 11 ==> len == if leap { 29int } else { 28int });
    lemma_month_of_year(mp, d, len);
    let doy = (153 * mp + 2) / 5 + d - 1;
    assert(doy <= if leap { 365int } else { 364int });
    lemma_year_of_era(yoe, doy, leap);
    let doe = 365 * yoe + yoe / 4 - yoe / 100 + doy;
    assert(dt.num() == era * 146097 + doe - 305);
    lemma_ymd_recovered(era, yoe, mp, d, doy, doe);
}

/// The days of a month follow each other: day `k` comes `k - 1` days after the first.
pub proof fn lemma_day_of_month(y: int, m: int, k: int)
    ensures
        day_number(y, m, k) == day_number(y, m, 1) + k - 1,
{
}

/// The day after the last day of a month is the first day of the month after it.
pub proof fn lemma_next_month_start(y: int, m: int)
    requires
        1 <= m <= 12,
    ensures
        day_number(
            if m == 12 {
                y + 1
            } else {
                y
            },
            if m == 12 {
                1
            } else {
                m + 1
            },
            1,
        ) == day_number(y, m, days_in_month(y, m)) + 1,
{
    if m == 2 {
        let era2 = y / 400;
        let yoe2 = y - era2 * 400;
        let era1 = (y - 1) / 400;
        let yoe1 = (y - 1) - era1 * 400;
        lemma_leap_by_era(yoe2, era2);
        if yoe2 == 0 {
            assert(era1 == era2 - 1 && yoe1 == 399);
        } else {
            assert(era1 == era2 && yoe1 == yoe2 - 1);
            assert(yoe2 / 4 - yoe1 / 4 == if yoe2 % 4 == 0 { 1int } else { 0int });
            assert(yoe2 / 100 - yoe1 / 100 == if yoe2 % 100 == 0 { 1int } else { 0int });
        }
    }
}

/// Makes a date from a year, a month and a day, if that date exists.
#[verifier::external_body]
pub(crate) fn from_ymd_opt(year: i32, month: u32, day: u32) -> (r: Option<CivilDate>)
    ensures
        r == ymd_opt(year as int, month as int, day as int),
{
    match chrono::NaiveDate::from_ymd_opt(year, month, day) {
        Some(d) => Some(CivilDate { year: d.year(), month: d.month(), day: d.day() }),
        None => None,
    }
}

/// `NaiveDate::checked_add_days`: the date `n` days later, `None` when out of range.
#[verifier::external_body]
pub(crate) fn checked_add_days(d: CivilDate, n: u64) -> (r: Option<CivilDate>)
    requires
        d.wf(),
    ensures
        r == shift_days(d, n as int),
        r matches Some(x) ==> x.wf(),
{
    let nd = chrono::NaiveDate::from_ymd_opt(d.year, d.month, d.day).unwrap();
    match nd.checked_add_days(chrono::Days::new(n)) {
        Some(x) => Some(CivilDate { year: x.year(), month: x.month(), day: x.day() }),
        None => None,
    }
}

/// `NaiveDate::checked_sub_days`: the date `n` days earlier, `None` when out of range.
#[verifier::external_body]
pub(crate) fn checked_sub_days(d: CivilDate, n: u64) -> (r: Option<CivilDate>)
    requires
        d.wf(),
    ensures
        r == shift_days(d, -(n as int)),
        r matches Some(x) ==> x.wf(),
{
    let nd = chrono::NaiveDate::from_ymd_opt(d.year, d.month, d.day).unwrap();
    match nd.checked_sub_days(chrono::Days::new(n)) {
        Some(x) => Some(CivilDate { year: x.year(), month: x.month(), day: x.day() }),
        None => None,
    }
}

/// `NaiveDate::checked_add_months`: the date `n` months later, the day clamped to
/// the length of the new month, `None` when out of range.
#[verifier::external_body]
pub(crate) fn checked_add_months(d: CivilDate, n: u32) -> (r: Option<CivilDate>)
    requires
        d.wf(),
    ensures
        r == shift_months(d, n as int),
        r matches Some(x) ==> x.wf(),
{
    let nd = chrono::NaiveDate::from_ymd_opt(d.year, d.month, d.day).unwrap();
    match nd.checked_add_months(chrono::Months::new(n)) {
        Some(x) => Some(CivilDate { year: x.year(), month: x.month(), day: x.day() }),
        None => None,
    }
}

/// `NaiveDate::checked_sub_months`: the date `n` months earlier, the day clamped to
/// the length of the new month, `None` when out of range.
#[verifier::external_body]
pub(crate) fn checked_sub_months(d: CivilDate, n: u32) -> (r: Option<CivilDate>)
    requires
        d.wf(),
    ensures
        r == shift_months(d, -(n as int)),
        r matches Some(x) ==> x.wf(),
{
    let nd = chrono::NaiveDate::from_ymd_opt(d.year, d.month, d.day).unwrap();
    match nd.checked_sub_months(chrono::Months::new(n)) {
        Some(x) => Some(CivilDate { year: x.year(), month: x.month(), day: x.day() }),
        None => None,
    }
}

/// `Datelike::with_day` on a date: the same year and month with another day.
#[verifier::external_body]
pub(crate) fn with_day(d: CivilDate, day: u32) -> (r: Option<CivilDate>)
    requires
        d.wf(),
    ensures
        r == ymd_opt(d.year as int, d.month as int, day as int),
{
    let nd = chrono::NaiveDate::from_ymd_opt(d.year, d.month, d.day).unwrap();
    match nd.with_day(day) {
        Some(x) => Some(CivilDate { year: x.year(), month: x.month(), day: x.day() }),
        None => None,
    }
}

/// `Datelike::with_month` on a date: the same year and day in another month.
#[verifier::external_body]
pub(crate) fn with_month(d: CivilDate, month: u32) -> (r: Option<CivilDate>)
    requires
        d.wf(),
    ensures
        r == ymd_opt(d.year as int, month as int, d.day as int),
{
    let nd = chrono::NaiveDate::from_ymd_opt(d.year, d.month, d.day).unwrap();
    match nd.with_month(month) {
        Some(x) => Some(CivilDate { year: x.year(), month: x.month(), day: x.day() }),
        None => None,
    }
}

/// `Datelike::with_year` on a date: the same month and day in another year.
#[verifier::external_body]
pub(crate) fn with_year(d: CivilDate, year: i32) -> (r: Option<CivilDate>)
    requires
        d.wf(),
    ensures
        r == ymd_opt(year as int, d.month as int, d.day as int),
{
    let nd = chrono::NaiveDate::from_ymd_opt(d.year, d.month, d.day).unwrap();
    match nd.with_year(year) {
        Some(x) => Some(CivilDate { year: x.year(), month: x.month(), day: x.day() }),
        None => None,
    }
}

/// `Datelike::weekday` on a date.
#[verifier::external_body]
pub(crate) fn weekday(d: CivilDate) -> (r: Weekday)
    requires
        d.wf(),
    ensures
        r.index() == d.weekday_index(),
{
    let nd = chrono::NaiveDate::from_ymd_opt(d.year, d.month, d.day).unwrap();
    match nd.weekday() {
        chrono::Weekday::Mon => Weekday::Mon,
        chrono::Weekday::Tue => Weekday::Tue,
        chrono::Weekday::Wed => Weekday::Wed,
        chrono::Weekday::Thu => Weekday::Thu,
        chrono::Weekday::Fri => Weekday::Fri,
        chrono::Weekday::Sat => Weekday::Sat,
        chrono::Weekday::Sun => Weekday::Sun,
    }
}

/// Nanoseconds since midnight of a time of day that is no leap second.
pub open spec fn nanos_of_day(t: TimeOfDay) -> int {
    secs_of_day(t) * 1_000_000_000 + t.nanosecond
}

/// Nanoseconds in a length of time.
pub open spec fn delta_nanos(d: TimeDelta) -> int {
    d.secs * 1_000_000_000 + d.nanos
}

/// The day number of the moment `d` after `start` (which is no leap second).
pub open spec fn day_after(start: DateTime, d: TimeDelta) -> int {
    start.date.num() + (nanos_of_day(start.time) + delta_nanos(d)) / 86_400_000_000_000
}

/// The time of day of the moment `d` after `start` (which is no leap second).
pub open spec fn time_after(start: DateTime, d: TimeDelta) -> TimeOfDay {
    let n = (nanos_of_day(start.time) + delta_nanos(d)) % 86_400_000_000_000;
    TimeOfDay {
        hour: (n / 3_600_000_000_000) as u32,
        minute: ((n / 60_000_000_000) % 60) as u32,
        second: ((n / 1_000_000_000) % 60) as u32,
        nanosecond: (n % 1_000_000_000) as u32,
    }
}

/// `NaiveDateTime::checked_add_signed`: the moment `d` after `dt`, `None` where its date
/// leaves the range of dates. From a moment that is no leap second the crate adds the
/// nanoseconds and carries whole days into the date; what it gives from within a leap
/// second is left unstated here, beyond being a valid moment.
#[verifier::external_body]
pub(crate) fn checked_add_signed(dt: DateTime, d: TimeDelta) -> (r: Option<DateTime>)
    requires
        dt.wf(),
        d.in_range(),
    ensures
        dt.time.nanosecond < 1_000_000_000 ==> r == (if in_day_range(day_after(dt, d)) {
            Some(DateTime { date: civil_of(day_after(dt, d)), time: time_after(dt, d) })
        } else {
            None
        }),
        r matches Some(x) ==> x.wf(),
{
    let t = &dt.time;
    let n = chrono::NaiveDate::from_ymd_opt(dt.date.year, dt.date.month, dt.date.day).unwrap()
        .and_hms_nano_opt(t.hour, t.minute, t.second, t.nanosecond).unwrap();
    let x = n.checked_add_signed(chrono::TimeDelta::new(d.secs, d.nanos).unwrap())?;
    Some(DateTime {
        date: CivilDate { year: x.year(), month: x.month(), day: x.day() },
        time: TimeOfDay { hour: x.hour(), minute: x.minute(), second: x.second(), nanosecond: x.nanosecond() },
    })
}

/// The ISO 8601 week number of the date with this year, month and day: a week belongs to
/// the year of its Thursday and is counted from the week holding that year's first Thursday.
pub open spec fn iso_week_number(year: int, month: int, day: int) -> int {
    let n = day_number(year, month, day);
    let thursday = n - weekday_index_of(n) + 3;
    let y = civil_of(thursday).year as int;
    (thursday - day_number(y, 1, 1)) / 7 + 1
}

/// `IsoWeek::week` of `Datelike::iso_week`: the ISO 8601 week number of a date (see
/// `iso_week_number`), which the crate documents to lie between 1 and 53.
#[verifier::external_body]
pub(crate) fn iso_week(d: CivilDate) -> (r: u32)
    requires
        d.wf(),
    ensures
        r as int == iso_week_number(d.year as int, d.month as int, d.day as int),
        1 <= r <= 53,
{
    let nd = chrono::NaiveDate::from_ymd_opt(d.year, d.month, d.day).unwrap();
    nd.iso_week().week()
}

/// `NaiveDate::signed_duration_since`, in whole days: how many days `a` lies after `b`.
#[verifier::external_body]
pub(crate) fn days_since(a: CivilDate, b: CivilDate) -> (r: i64)
    requires
        a.wf(),
        b.wf(),
    ensures
        r == a.num() - b.num(),
{
    let na = chrono::NaiveDate::from_ymd_opt(a.year, a.month, a.day).unwrap();
    let nb = chrono::NaiveDate::from_ymd_opt(b.year, b.month, b.day).unwrap();
    na.signed_duration_since(nb).num_days()
}

/// Adding `TimeDelta::days(k)` to a date, which the caller keeps within range.
#[verifier::external_body]
pub(crate) fn add_signed_days(d: CivilDate, k: i64) -> (r: CivilDate)
    requires
        d.wf(),
        in_day_range(d.num() + k),
    ensures
        r == civil_of(d.num() + k),
        r.wf(),
{
    let nd = chrono::NaiveDate::from_ymd_opt(d.year, d.month, d.day).unwrap();
    let x = nd + chrono::TimeDelta::days(k);
    CivilDate { year: x.year(), month: x.month(), day: x.day() }
}

/// `Local::now().naive_local()`: the current local date and time.
#[verifier::external_body]
pub(crate) fn now() -> (r: DateTime)
    ensures
        r.wf(),
{
    let n = chrono::Local::now().naive_local();
    DateTime {
        date: CivilDate { year: n.year(), month: n.month(), day: n.day() },
        time: TimeOfDay {
            hour: n.hour(),
            minute: n.minute(),
            second: n.second(),
            nanosecond: n.nanosecond(),
        },
    }
}

/// `Utc::now().naive_local()`: the current date and time in UTC. The crate builds it from
/// the seconds and the sub-second nanoseconds of the system time, which stay below one
/// billion, so it is never within a leap second.
#[verifier::external_body]
pub(crate) fn utc_now() -> (r: DateTime)
    ensures
        r.wf(),
        r.time.nanosecond < 1_000_000_000,
{
    let n = chrono::Utc::now().naive_local();
    DateTime {
        date: CivilDate { year: n.year(), month: n.month(), day: n.day() },
        time: TimeOfDay {
            hour: n.hour(),
            minute: n.minute(),
            second: n.second(),
            nanosecond: n.nanosecond(),
        },
    }
}

} // verus!
