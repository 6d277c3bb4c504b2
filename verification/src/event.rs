//! Calendar events, which may recur.

use vstd::prelude::*;
use crate::date::{
    CivilDate, DateTime, TimeDelta, Weekday, checked_add_days, checked_add_months,
    checked_sub_days, civil_of, in_day_range, lemma_civil_of_num, lemma_num_of_civil,
    lemma_valid_date_in_range, shift_days, shift_months, weekday,
    with_day, ymd_opt,
};
use crate::text::{decimal, push_decimal, push_str};

verus! {

/// How an event recurs.
#[derive(Debug, Clone, PartialEq, Eq)]
pub enum RecurrenceInterval {
    EveryNDays(u32),
    EveryWeekday(Vec<Weekday>),
    EveryStartOfMonth,
    EveryEndOfMonth,
    EveryYear,
    EveryNWeeks(u32),
}

/// Which occurrences of a recurring event a deletion removes.
#[derive(Debug, Clone, Copy, PartialEq, Eq, Structural)]
pub enum RecurrenceDeletion {
    All,
    FromHere(DateTime),
    ThisOnly(DateTime),
}

/// Errors of the event operations.
#[derive(Debug, Clone)]
pub enum EventManagerError {
    MissingEventId(String),
    InvalidTime(u32, u32, u32),
    DateOverflow(u64, DateTime),
    InvalidDate(i32, u32, u32),
    EventIdNotFound(i64),
}

/// The short name of a weekday.
pub open spec fn weekday_name(w: Weekday) -> Seq<char> {
    match w {
        Weekday::Mon => "Mon"@,
        Weekday::Tue => "Tue"@,
        Weekday::Wed => "Wed"@,
        Weekday::Thu => "Thu"@,
        Weekday::Fri => "Fri"@,
        Weekday::Sat => "Sat"@,
        Weekday::Sun => "Sun"@,
    }
}

/// The weekday names, separated by `, `.
pub open spec fn weekday_list(ws: Seq<Weekday>) -> Seq<char>
    decreases ws.len(),
{
    if ws.len() == 0 {
        Seq::empty()
    } else if ws.len() == 1 {
        weekday_name(ws[0])
    } else {
        weekday_list(ws.drop_last()) + ", "@ + weekday_name(ws.last())
    }
}

impl RecurrenceInterval {
    /// How the recurrence reads in words.
    pub open spec fn description(self) -> Seq<char> {
        match self {
            RecurrenceInterval::EveryNDays(n) => if n > 1 {
                "every "@ + decimal(n as nat) + " days"@
            } else {
                "every "@ + decimal(n as nat) + " day"@
            },
            RecurrenceInterval::EveryWeekday(ws) => "every "@ + weekday_list(ws@),
            RecurrenceInterval::EveryStartOfMonth => "every start of month"@,
            RecurrenceInterval::EveryEndOfMonth => "every end of month"@,
            RecurrenceInterval::EveryYear => "every year"@,
            RecurrenceInterval::EveryNWeeks(n) => if n > 1 {
                "every "@ + decimal(n as nat) + " weeks"@
            } else {
                "every week"@
            },
        }
    }

    /// The recurrence in words, e.g. `every 3 days` or `every Mon, Fri`.
    pub fn to_display_string(&self) -> (r: String)
        ensures
            r@ == self.description(),
    {
        let mut s = String::new();
        match self {
            RecurrenceInterval::EveryNDays(n) => {
                push_str(&mut s, "every ");
                push_decimal(&mut s, *n as u64);
                if *n > 1 {
                    push_str(&mut s, " days");
                } else {
                    push_str(&mut s, " day");
                }
            },
            RecurrenceInterval::EveryWeekday(ws) => {
                push_str(&mut s, "every ");
                let ghost start = s@;
                let mut i: usize = 0;
                assert(ws@.take(0) =~= Seq::<Weekday>::empty());
                while i < ws.len()
                    invariant
                        i <= ws.len(),
                        s@ == start + weekday_list(ws@.take(i as int)),
                    decreases ws.len() - i,
                {
                    if i > 0 {
                        push_str(&mut s, ", ");
                    }
                    push_str(&mut s, weekday_name_exec(&ws[i]));
                    assert(ws@.take(i + 1).drop_last() =~= ws@.take(i as int));
                    assert(ws@.take(i + 1).last() == ws@[i as int]);
                    if i == 0 {
                        assert(ws@.take(1).len() == 1);
                        assert(s@ =~= start + weekday_list(ws@.take(i + 1)));
                    } else {
                        assert(s@ =~= start + weekday_list(ws@.take(i + 1)));
                    }
                    i += 1;
                }
                assert(ws@.take(ws.len() as int) =~= ws@);
            },
            RecurrenceInterval::EveryStartOfMonth => {
                push_str(&mut s, "every start of month");
            },
            RecurrenceInterval::EveryEndOfMonth => {
                push_str(&mut s, "every end of month");
            },
            RecurrenceInterval::EveryYear => {
                push_str(&mut s, "every year");
            },
            RecurrenceInterval::EveryNWeeks(n) => {
                if *n > 1 {
                    push_str(&mut s, "every ");
                    push_decimal(&mut s, *n as u64);
                    push_str(&mut s, " weeks");
                } else {
                    push_str(&mut s, "every week");
                }
            },
        }
        s
    }
}

fn weekday_name_exec(w: &Weekday) -> (r: &'static str)
    ensures
        r@ == weekday_name(*w),
{
    match w {
        Weekday::Mon => "Mon",
        Weekday::Tue => "Tue",
        Weekday::Wed => "Wed",
        Weekday::Thu => "Thu",
        Weekday::Fri => "Fri",
        Weekday::Sat => "Sat",
        Weekday::Sun => "Sun",
    }
}

/// A calendar event: a date, an optional duration and, for a recurring event, how
/// it recurs, when the recurrence ends and which occurrences are skipped.
#[derive(Debug, Clone, PartialEq, Eq)]
pub struct Event {
    /// Given by storage when the event is stored.
    pub id: Option<i64>,
    pub title: String,
    pub description: String,
    pub duration: Option<TimeDelta>,
    pub date: DateTime,
    pub recurrence_interval: Option<RecurrenceInterval>,
    pub recurrence_end: Option<DateTime>,
    pub skipped_dates: Vec<DateTime>,
}

/// `d` falls on one of the skipped dates (compared by day).
pub open spec fn is_skipped(skipped: Seq<DateTime>, d: DateTime) -> bool {
    exists|i: int| 0 <= i < skipped.len() && #[trigger] skipped[i].date == d.date
}

/// `d` is the last day of its month.
pub open spec fn is_last_day_of_month(d: CivilDate) -> bool {
    match shift_days(d, 1) {
        Some(next) => next.day == 1,
        None => false,
    }
}

/// The weekday with the given index (0 for Monday).
pub open spec fn has_weekday(ws: Seq<Weekday>, idx: int) -> bool {
    exists|i: int| 0 <= i < ws.len() && #[trigger] ws[i].index() == idx
}

/// How many days `a` lies before or after `b`, taken as whole days: `(x - r)` mod 7.
pub open spec fn days_ahead(from: int, to: int) -> int {
    (to - from) % 7
}

impl Event {
    pub open spec fn wf(self) -> bool {
        &&& self.date.wf()
        &&& self.recurrence_end matches Some(e) ==> e.wf()
        &&& forall|i: int| 0 <= i < self.skipped_dates@.len() ==> #[trigger] self.skipped_dates@[i].wf()
    }

    pub fn new(
        id: Option<i64>,
        title: &str,
        description: &str,
        duration: Option<TimeDelta>,
        date: DateTime,
        recurrence_interval: Option<RecurrenceInterval>,
        recurrence_end: Option<DateTime>,
        skipped_dates: Vec<DateTime>,
    ) -> (r: Self)
        ensures
            r.id == id,
            r.title@ == title@,
            r.description@ == description@,
            r.duration == duration,
            r.date == date,
            r.recurrence_interval == recurrence_interval,
            r.recurrence_end == recurrence_end,
            r.skipped_dates@ == skipped_dates@,
    {
        Self {
            id,
            title: title.to_owned(),
            description: description.to_owned(),
            duration,
            date,
            recurrence_interval,
            recurrence_end,
            skipped_dates,
        }
    }

    /// Its dates exist: the date, the end of the recurrence and each skipped date.
    pub fn is_valid(&self) -> (r: bool)
        ensures
            r == self.wf(),
    {
        if !self.date.is_valid() {
            return false;
        }
        if let Some(e) = &self.recurrence_end {
            if !e.is_valid() {
                return false;
            }
        }
        let mut i: usize = 0;
        while i < self.skipped_dates.len()
            invariant
                i <= self.skipped_dates@.len(),
                forall|j: int| 0 <= j < i ==> #[trigger] self.skipped_dates@[j].wf(),
            decreases self.skipped_dates@.len() - i,
        {
            if !self.skipped_dates[i].is_valid() {
                return false;
            }
            i += 1;
        }
        true
    }

    pub fn get_id(&self) -> (r: Option<i64>)
        ensures
            r == self.id,
    {
        self.id
    }

    /// Gives the event its id; an event's id is given once.
    pub fn set_id(&mut self, id: i64)
        requires
            old(self).id is None,
        ensures
            *final(self) == (Event { id: Some(id), ..*old(self) }),
    {
        self.id = Some(id);
    }

    /// The occurrence of the event on the day of `dt`: its date and time, or `None`
    /// when it does not occur that day.
    pub open spec fn occurrence(self, dt: DateTime) -> Option<DateTime> {
        match self.recurrence_interval {
            None => if self.date.date == dt.date {
                Some(self.date)
            } else {
                None
            },
            Some(ri) => {
                let diff = dt.date.num() - self.date.date.num();
                let same_day = Some(DateTime { date: civil_of(dt.date.num()), time: self.date.time });
                let on_day = Some(DateTime { date: dt.date, time: self.date.time });
                if self.recurrence_end matches Some(end) && !dt.before(end) {
                    None
                } else if is_skipped(self.skipped_dates@, dt) {
                    None
                } else {
                    match ri {
                        RecurrenceInterval::EveryNDays(n) => if diff >= 0 && diff % (n as int) == 0 {
                            same_day
                        } else {
                            None
                        },
                        RecurrenceInterval::EveryWeekday(ws) => if has_weekday(
                            ws@,
                            dt.date.weekday_index(),
                        ) && diff >= 0 {
                            same_day
                        } else {
                            None
                        },
                        RecurrenceInterval::EveryStartOfMonth => if dt.date.day == 1 && diff >= 0 {
                            on_day
                        } else {
                            None
                        },
                        RecurrenceInterval::EveryEndOfMonth => if is_last_day_of_month(dt.date) && diff
                            >= 0 {
                            on_day
                        } else {
                            None
                        },
                        RecurrenceInterval::EveryYear => if dt.date.year >= self.date.date.year {
                            if self.date.date.month == 2 && self.date.date.day == 29 {
                                if dt.date.month == 2 && (dt.date.day == 28 || dt.date.day == 29) {
                                    on_day
                                } else {
                                    None
                                }
                            } else if dt.date.month == self.date.date.month && dt.date.day
                                == self.date.date.day {
                                on_day
                            } else {
                                None
                            }
                        } else {
                            None
                        },
                        RecurrenceInterval::EveryNWeeks(n) => if diff >= 0 && diff % (7 * n)
                            == 0 {
                            same_day
                        } else {
                            None
                        },
                    }
                }
            },
        }
    }

    /// Looking for an occurrence on the day of `dt` divides by no zero period.
    pub open spec fn occurrence_defined(self, dt: DateTime) -> bool {
        match self.recurrence_interval {
            Some(RecurrenceInterval::EveryNDays(0)) | Some(RecurrenceInterval::EveryNWeeks(0)) => {
                ||| self.recurrence_end matches Some(end) && !dt.before(end)
                ||| is_skipped(self.skipped_dates@, dt)
                ||| dt.date.num() < self.date.date.num()
            },
            _ => true,
        }
    }

    /// Looking for an occurrence on the day of `datetime` divides by no zero period (see
    /// `occurrence_defined`).
    pub fn is_occurrence_defined(&self, datetime: &DateTime) -> (r: bool)
        requires
            self.wf(),
            datetime.wf(),
        ensures
            r == self.occurrence_defined(*datetime),
    {
        let zero_period = match &self.recurrence_interval {
            Some(RecurrenceInterval::EveryNDays(n)) => *n == 0,
            Some(RecurrenceInterval::EveryNWeeks(n)) => *n == 0,
            _ => false,
        };
        if !zero_period {
            return true;
        }
        if let Some(end) = self.recurrence_end {
            if !datetime.is_before(&end) {
                return true;
            }
        }
        let mut k: usize = 0;
        while k < self.skipped_dates.len()
            invariant
                k <= self.skipped_dates@.len(),
                forall|j: int| 0 <= j < k ==> self.skipped_dates@[j].date != datetime.date,
            decreases self.skipped_dates@.len() - k,
        {
            if self.skipped_dates[k].date.same_day(&datetime.date) {
                assert(self.skipped_dates@[k as int].date == datetime.date);
                return true;
            }
            k += 1;
        }
        crate::date::days_since(datetime.date, self.date.date) < 0
    }

    /// The occurrence of the event on the day of `datetime`, if there is one.
    pub fn is_event_occurring_on_date(&self, datetime: &DateTime) -> (r: Option<DateTime>)
        requires
            self.wf(),
            datetime.wf(),
            self.occurrence_defined(*datetime),
        ensures
            r == self.occurrence(*datetime),
    {
        let ri = match &self.recurrence_interval {
            None => {
                if self.date.date.same_day(&datetime.date) {
                    return Some(self.date);
                } else {
                    return None;
                }
            },
            Some(ri) => ri,
        };
        if let Some(recurrence_end) = self.recurrence_end {
            if !datetime.is_before(&recurrence_end) {
                return None;
            }
        }
        let mut k: usize = 0;
        while k < self.skipped_dates.len()
            invariant
                k <= self.skipped_dates@.len(),
                self.recurrence_interval is Some,
                !(self.recurrence_end matches Some(end) && !datetime.before(end)),
                forall|j: int| 0 <= j < k ==> self.skipped_dates@[j].date != datetime.date,
            decreases self.skipped_dates@.len() - k,
        {
            if self.skipped_dates[k].date.same_day(&datetime.date) {
                assert(self.skipped_dates@[k as int].date == datetime.date);
                assert(is_skipped(self.skipped_dates@, *datetime));
                return None;
            }
            k += 1;
        }
        assert(!is_skipped(self.skipped_dates@, *datetime));
        proof {
            lemma_valid_date_in_range(datetime.date);
        }
        let days_diff = crate::date::days_since(datetime.date, self.date.date);
        match ri {
            RecurrenceInterval::EveryNDays(n) => {
                if days_diff >= 0 && days_diff % (*n as i64) == 0 {
                    let d = checked_add_days(self.date.date, days_diff as u64);
                    return Some(DateTime { date: d.unwrap(), time: self.date.time });
                }
            },
            RecurrenceInterval::EveryWeekday(weekdays) => {
                let wd = weekday(datetime.date);
                let mut found = false;
                let mut j: usize = 0;
                while j < weekdays.len()
                    invariant
                        j <= weekdays@.len(),
                        found <==> exists|i: int| 0 <= i < j && #[trigger] weekdays@[i].index()
                            == wd.index(),
                    decreases weekdays@.len() - j,
                {
                    if weekdays[j].number_from_monday() == wd.number_from_monday() {
                        assert(weekdays@[j as int].index() == wd.index());
                        found = true;
                    }
                    j += 1;
                }
                if found && days_diff >= 0 {
                    let d = checked_add_days(self.date.date, days_diff as u64);
                    return Some(DateTime { date: d.unwrap(), time: self.date.time });
                }
            },
            RecurrenceInterval::EveryStartOfMonth => {
                if datetime.date.day == 1 && days_diff >= 0 {
                    return Some(DateTime { date: datetime.date, time: self.date.time });
                }
            },
            RecurrenceInterval::EveryEndOfMonth => {
                let is_last_day_of_month = match checked_add_days(datetime.date, 1) {
                    Some(d) => d.day == 1,
                    None => false,
                };
                if is_last_day_of_month && days_diff >= 0 {
                    return Some(DateTime { date: datetime.date, time: self.date.time });
                }
            },
            RecurrenceInterval::EveryYear => {
                if datetime.date.year >= self.date.date.year {
                    if self.date.date.month == 2 && self.date.date.day == 29 {
                        if datetime.date.month == 2 && (datetime.date.day == 28 || datetime.date.day
                            == 29) {
                            return Some(DateTime { date: datetime.date, time: self.date.time });
                        }
                    } else if datetime.date.month == self.date.date.month && datetime.date.day
                        == self.date.date.day {
                        return Some(DateTime { date: datetime.date, time: self.date.time });
                    }
                }
            },
            RecurrenceInterval::EveryNWeeks(n) => {
                if days_diff >= 0 && days_diff % (*n as i64 * 7) == 0 {
                    let d = checked_add_days(self.date.date, days_diff as u64);
                    return Some(DateTime { date: d.unwrap(), time: self.date.time });
                }
            },
        }
        None
    }
}

fn soonest_weekday_exec(weekdays: &Vec<Weekday>, cur_idx: u32) -> (r: (Option<Weekday>, u32))
    requires
        cur_idx < 7,
    ensures
        r.0 == soonest_weekday(weekdays@, cur_idx as int),
        r.0 matches Some(b) ==> r.1 == days_ahead(cur_idx as int, b.index()),
{
    let mut best: Option<Weekday> = None;
    let mut best_key: u32 = 0;
    let mut j: usize = 0;
    assert(weekdays@.take(0) =~= Seq::<Weekday>::empty());
    while j < weekdays.len()
        invariant
            j <= weekdays@.len(),
            0 <= cur_idx < 7,
            best == soonest_weekday(weekdays@.take(j as int), cur_idx as int),
            best matches Some(b) ==> best_key == days_ahead(cur_idx as int, b.index()),
        decreases weekdays@.len() - j,
    {
        let w = weekdays[j];
        let widx: u32 = w.number_from_monday() - 1;
        let key: u32 = if widx >= cur_idx {
            widx - cur_idx
        } else {
            widx + 7 - cur_idx
        };
        assert(key == days_ahead(cur_idx as int, w.index()));
        assert(weekdays@.take(j + 1).drop_last() =~= weekdays@.take(j as int));
        assert(weekdays@.take(j + 1).last() == w);
        match best {
            None => {
                best = Some(w);
                best_key = key;
            },
            Some(_) => {
                if key < best_key {
                    best = Some(w);
                    best_key = key;
                }
            },
        }
        j += 1;
    }
    assert(weekdays@.take(weekdays.len() as int) =~= weekdays@);
    (best, best_key)
}

/// Among `ws`, the first of the weekdays that comes soonest on or after the weekday
/// with index `cur`.
pub open spec fn soonest_weekday(ws: Seq<Weekday>, cur: int) -> Option<Weekday>
    decreases ws.len(),
{
    if ws.len() == 0 {
        None
    } else {
        match soonest_weekday(ws.drop_last(), cur) {
            None => Some(ws.last()),
            Some(b) => if days_ahead(cur, ws.last().index()) < days_ahead(cur, b.index()) {
                Some(ws.last())
            } else {
                Some(b)
            },
        }
    }
}

impl Event {
    /// The date the event moves to so that it falls on its recurrence: the soonest of
    /// its weekdays, the start of the next month, or the end of its month.
    pub open spec fn updated_date(self) -> Result<DateTime, EventManagerError> {
        let d = self.date.date;
        let t = self.date.time;
        match self.recurrence_interval {
            Some(RecurrenceInterval::EveryWeekday(ws)) => match soonest_weekday(
                ws@,
                d.weekday_index(),
            ) {
                None => Ok(self.date),
                Some(w) => match shift_days(d, days_ahead(d.weekday_index(), w.index())) {
                    Some(nd) => Ok(DateTime { date: nd, time: t }),
                    None => Err(EventManagerError::DateOverflow(1, self.date)),
                },
            },
            Some(RecurrenceInterval::EveryStartOfMonth) => if d.day == 1 {
                Ok(self.date)
            } else {
                match shift_months(d, 1) {
                    None => Err(EventManagerError::DateOverflow(1, self.date)),
                    Some(x) => match ymd_opt(x.year as int, x.month as int, 1) {
                        Some(first) => Ok(DateTime { date: first, time: t }),
                        None => Err(EventManagerError::InvalidDate(d.year, d.month, 1)),
                    },
                }
            },
            Some(RecurrenceInterval::EveryEndOfMonth) => match shift_days(d, 1) {
                None => Err(EventManagerError::DateOverflow(1, self.date)),
                Some(next) => if next.day == 1 {
                    Ok(self.date)
                } else {
                    match shift_months(d, 1) {
                        None => Err(EventManagerError::DateOverflow(1, self.date)),
                        Some(x) => match ymd_opt(x.year as int, x.month as int, 1) {
                            None => Err(EventManagerError::InvalidDate(d.year, d.month, 1)),
                            Some(start) => match shift_days(start, -1) {
                                None => Err(
                                    EventManagerError::DateOverflow(
                                        1,
                                        DateTime { date: start, time: t },
                                    ),
                                ),
                                Some(end) => Ok(DateTime { date: end, time: t }),
                            },
                        },
                    }
                },
            },
            _ => Ok(self.date),
        }
    }

    /// Moves the date of a recurring event onto its recurrence (see `updated_date`);
    /// the event is left as it was when that date cannot be formed.
    pub fn update_date(&mut self) -> (r: Result<(), EventManagerError>)
        requires
            old(self).wf(),
        ensures
            match old(self).updated_date() {
                Ok(d) => r is Ok && *final(self) == (Event { date: d, ..*old(self) }),
                Err(e) => r == Err::<(), EventManagerError>(e) && *final(self) == *old(self),
            },
    {
        let cur = weekday(self.date.date);
        let cur_idx: u32 = cur.number_from_monday() - 1;
        let new_date: DateTime = match &self.recurrence_interval {
            Some(RecurrenceInterval::EveryWeekday(weekdays)) => {
                let (best, best_key) = soonest_weekday_exec(weekdays, cur_idx);
                match best {
                    None => {
                        return Ok(());
                    },
                    Some(_) => {
                        match checked_add_days(self.date.date, best_key as u64) {
                            Some(nd) => DateTime { date: nd, time: self.date.time },
                            None => {
                                return Err(EventManagerError::DateOverflow(1, self.date));
                            },
                        }
                    },
                }
            },
            Some(RecurrenceInterval::EveryStartOfMonth) => {
                if self.date.date.day == 1 {
                    return Ok(());
                }
                let x = match checked_add_months(self.date.date, 1) {
                    Some(x) => x,
                    None => {
                        return Err(EventManagerError::DateOverflow(1, self.date));
                    },
                };
                match with_day(x, 1) {
                    Some(first) => DateTime { date: first, time: self.date.time },
                    None => {
                        return Err(
                            EventManagerError::InvalidDate(
                                self.date.date.year,
                                self.date.date.month,
                                1,
                            ),
                        );
                    },
                }
            },
            Some(RecurrenceInterval::EveryEndOfMonth) => {
                let next_day = match checked_add_days(self.date.date, 1) {
                    Some(x) => x,
                    None => {
                        return Err(EventManagerError::DateOverflow(1, self.date));
                    },
                };
                if next_day.day == 1 {
                    return Ok(());
                }
                let x = match checked_add_months(self.date.date, 1) {
                    Some(x) => x,
                    None => {
                        return Err(EventManagerError::DateOverflow(1, self.date));
                    },
                };
                let start = match with_day(x, 1) {
                    Some(first) => first,
                    None => {
                        return Err(
                            EventManagerError::InvalidDate(
                                self.date.date.year,
                                self.date.date.month,
                                1,
                            ),
                        );
                    },
                };
                match checked_sub_days(start, 1) {
                    Some(end) => DateTime { date: end, time: self.date.time },
                    None => {
                        return Err(
                            EventManagerError::DateOverflow(
                                1,
                                DateTime { date: start, time: self.date.time },
                            ),
                        );
                    },
                }
            },
            _ => {
                return Ok(());
            },
        };
        self.date = new_date;
        Ok(())
    }
}

/// An event that recurs every `n` days occurs again `n` days after each of its occurrences,
/// where that day exists, is not skipped and comes before the end of the recurrence.
pub proof fn lemma_every_n_days_repeats(e: Event, dt: DateTime, n: u32)
    requires
        e.recurrence_interval == Some(RecurrenceInterval::EveryNDays(n)),
        n > 0,
        dt.wf(),
        e.occurrence(dt) is Some,
        in_day_range(dt.date.num() + n),
        ({
            let next = DateTime { date: civil_of(dt.date.num() + n), time: dt.time };
            &&& !is_skipped(e.skipped_dates@, next)
            &&& e.recurrence_end matches Some(end) ==> next.before(end)
        }),
    ensures
        ({
            let next = DateTime { date: civil_of(dt.date.num() + n), time: dt.time };
            e.occurrence(next) == Some(DateTime { date: next.date, time: e.date.time })
        }),
{
    let next = DateTime { date: civil_of(dt.date.num() + n), time: dt.time };
    lemma_num_of_civil(dt.date.num() + n);
    let diff = dt.date.num() - e.date.date.num();
    vstd::arithmetic::div_mod::lemma_mod_add_multiples_vanish(diff, n as int);
    assert(next.date.num() - e.date.date.num() == n + diff);
    if let Some(end) = e.recurrence_end {
        assert(!next.before(end) == false);
    }
}

/// An event occurs on its own date, at its own time, unless that day is skipped or the
/// recurrence has ended by then; this holds without recurrence and for a recurrence every
/// few days or weeks.
pub proof fn lemma_occurs_on_own_date(e: Event)
    requires
        e.wf(),
        !is_skipped(e.skipped_dates@, e.date),
        e.recurrence_end matches Some(end) ==> e.date.before(end),
        match e.recurrence_interval {
            None => true,
            Some(RecurrenceInterval::EveryNDays(n)) => n > 0,
            Some(RecurrenceInterval::EveryNWeeks(n)) => n > 0,
            _ => false,
        },
    ensures
        e.occurrence(e.date) == Some(e.date),
{
    lemma_civil_of_num(e.date.date);
    if let Some(end) = e.recurrence_end {
        assert(!e.date.before(end) == false);
    }
    match e.recurrence_interval {
        Some(RecurrenceInterval::EveryNDays(n)) => {
            assert(0int % (n as int) == 0);
        },
        Some(RecurrenceInterval::EveryNWeeks(n)) => {
            assert(0int % (7 * n as int) == 0);
        },
        _ => {},
    }
}

/// A yearly event occurs on its own date, and in every later year on the same month and day
/// at its own time, on each such day that is not skipped and comes before the end of the
/// recurrence (an event on 29 February occurs on 28 and 29 February).
pub proof fn lemma_yearly_on_anniversaries(e: Event, dt: DateTime)
    requires
        e.recurrence_interval == Some(RecurrenceInterval::EveryYear),
        e.date.date.wf(),
        dt.date.wf(),
        !is_skipped(e.skipped_dates@, dt),
        e.recurrence_end matches Some(end) ==> dt.before(end),
        dt.date.year >= e.date.date.year,
        dt.date.month == e.date.date.month,
        dt.date.day == e.date.date.day,
    ensures
        e.occurrence(dt) == Some(DateTime { date: dt.date, time: e.date.time }),
        dt == e.date ==> e.occurrence(dt) == Some(e.date),
{
    if let Some(end) = e.recurrence_end {
        assert(!dt.before(end) == false);
    }
}

/// The last day of the month of a date: the date with that day, and what the day after a
/// day of that month is.
proof fn lemma_month_end(d: CivilDate)
    requires
        d.wf(),
    ensures
        ({
            let y = d.year as int;
            let m = d.month as int;
            let dim = crate::date::days_in_month(y, m);
            let last = CivilDate { year: d.year, month: d.month, day: dim as u32 };
            &&& last.wf()
            &&& last.num() == d.num() + dim - d.day
            &&& civil_of(last.num()) == last
            &&& (d.day < dim ==> shift_days(d, 1) == Some(
                CivilDate { year: d.year, month: d.month, day: (d.day + 1) as u32 },
            ))
        }),
{
    let y = d.year as int;
    let m = d.month as int;
    let dim = crate::date::days_in_month(y, m);
    let last = CivilDate { year: d.year, month: d.month, day: dim as u32 };
    crate::date::lemma_day_of_month(y, m, dim);
    crate::date::lemma_day_of_month(y, m, d.day as int);
    lemma_civil_of_num(last);
    lemma_valid_date_in_range(last);
    if d.day < dim {
        let nx = CivilDate { year: d.year, month: d.month, day: (d.day + 1) as u32 };
        crate::date::lemma_day_of_month(y, m, d.day + 1);
        lemma_civil_of_num(nx);
        lemma_valid_date_in_range(nx);
    }
}

/// The first day of the month after the month of `d`.
spec fn first_of_next_month(d: CivilDate) -> CivilDate {
    if d.month == 12 {
        CivilDate { year: (d.year + 1) as i32, month: 1, day: 1 }
    } else {
        CivilDate { year: d.year, month: (d.month + 1) as u32, day: 1 }
    }
}

/// The last day of the month of `d`.
spec fn last_of_month(d: CivilDate) -> CivilDate {
    CivilDate {
        year: d.year,
        month: d.month,
        day: crate::date::days_in_month(d.year as int, d.month as int) as u32,
    }
}

/// On the last day of a month, the next day is the first of a month (where it exists).
proof fn lemma_after_last_day(d: CivilDate)
    requires
        d.wf(),
        d == last_of_month(d),
    ensures
        shift_days(d, 1) matches Some(next) ==> next.day == 1,
        !(d.year == crate::date::MAX_YEAR && d.month == 12) ==> shift_days(d, 1) is Some,
{
    let y = d.year as int;
    let m = d.month as int;
    let first = first_of_next_month(d);
    crate::date::lemma_next_month_start(y, m);
    crate::date::lemma_day_range_bounds();
    lemma_valid_date_in_range(d);
    assert(first.num() == d.num() + 1);
    if first.year <= crate::date::MAX_YEAR {
        lemma_civil_of_num(first);
        lemma_valid_date_in_range(first);
    }
}

/// From a day before the last of its month, the first of the next month, one day back, is
/// the last day of the month.
proof fn lemma_back_from_next_month(d: CivilDate)
    requires
        d.wf(),
    ensures
        shift_months(d, 1) matches Some(x) ==> ymd_opt(x.year as int, x.month as int, 1) == Some(
            first_of_next_month(d),
        ) && shift_days(first_of_next_month(d), -1) == Some(last_of_month(d)),
        !(d.year == crate::date::MAX_YEAR && d.month == 12) ==> shift_months(d, 1) is Some,
{
    let y = d.year as int;
    let m = d.month as int;
    let last = last_of_month(d);
    let first = first_of_next_month(d);
    lemma_month_end(d);
    crate::date::lemma_next_month_start(y, m);
    crate::date::lemma_day_range_bounds();
    assert(first.num() == last.num() + 1);
    lemma_valid_date_in_range(last);
    match shift_months(d, 1) {
        Some(x) => {
            assert(x.year == first.year && x.month == first.month);
        },
        None => {},
    }
}

/// Moving an event that recurs at the end of each month puts it on the last day of its own
/// month, at its own time; this succeeds except in the last month of the last year.
#[verifier::rlimit(30)]
pub proof fn lemma_end_of_month_date(e: Event)
    requires
        e.wf(),
        e.recurrence_interval == Some(RecurrenceInterval::EveryEndOfMonth),
    ensures
        e.updated_date() matches Ok(nd) ==> nd == (DateTime {
            date: CivilDate {
                year: e.date.date.year,
                month: e.date.date.month,
                day: crate::date::days_in_month(e.date.date.year as int, e.date.date.month as int) as u32,
            },
            time: e.date.time,
        }),
        !(e.date.date.year == crate::date::MAX_YEAR && e.date.date.month == 12) ==> e.updated_date() is Ok,
{
    let d = e.date.date;
    let dim = crate::date::days_in_month(d.year as int, d.month as int);
    lemma_month_end(d);
    if d.day == dim {
        assert(d == last_of_month(d));
        lemma_after_last_day(d);
    } else {
        assert(shift_days(d, 1) == Some(CivilDate { year: d.year, month: d.month, day: (d.day + 1) as u32 }));
        lemma_back_from_next_month(d);
    }
}

} // verus!
