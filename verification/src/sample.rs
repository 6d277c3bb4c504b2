//! Sample data for trying the program out: six tags, tasks with random tags, status and
//! time taken, and events on consecutive days, some of them recurring.

use vstd::prelude::*;
use rand::Rng;
use rand::seq::IteratorRandom;
use crate::date::{
    CivilDate, DateTime, TimeDelta, TimeOfDay, Weekday, checked_add_days, checked_add_signed, civil_of, day_after, in_day_range, shift_days,
    time_after, utc_now,
};
use crate::event::{Event, RecurrenceInterval};
use crate::task::{Status, Tag, Task};
use crate::text::{decimal, push_decimal, push_str};

verus! {

/// How many sample tags there are.
pub const SAMPLE_TAGS: usize = 6;

/// `Rng::random_range` on `lo..hi` with the thread's generator: a number from `lo` up to,
/// not including, `hi`.
#[verifier::external_body]
fn random_range(lo: i64, hi: i64) -> (r: i64)
    requires
        lo < hi,
    ensures
        lo <= r < hi,
{
    rand::rng().random_range(lo..hi)
}

/// `IteratorRandom::choose` on `0..n` with the thread's generator: one of the numbers
/// below `n`, and `None` only where there is none.
#[verifier::external_body]
fn choose_below(n: usize) -> (r: Option<usize>)
    ensures
        n == 0 <==> r is None,
        r matches Some(x) ==> x < n,
{
    (0..n).choose(&mut rand::rng())
}

/// `IteratorRandom::choose_multiple` on `1..=n` with the thread's generator: `amount`
/// distinct numbers from 1 to `n` (all `n` of them where `amount` is larger), in no
/// particular order.
#[verifier::external_body]
fn choose_distinct(n: usize, amount: usize) -> (r: Vec<usize>)
    ensures
        r@.len() == if amount < n { amount } else { n },
        forall|i: int| 0 <= i < r@.len() ==> 1 <= #[trigger] r@[i] <= n,
        forall|i: int, j: int| 0 <= i < j < r@.len() ==> #[trigger] r@[i] != #[trigger] r@[j],
{
    (1..=n).choose_multiple(&mut rand::rng(), amount)
}

/// The name of the sample tag `x`.
pub open spec fn sample_tag_text(x: nat) -> Seq<char> {
    "tag "@ + decimal(x)
}

/// The sample tags `tag 0` to `tag 5`, not yet stored.
pub fn sample_tags() -> (r: Vec<Tag>)
    ensures
        r@.len() == SAMPLE_TAGS,
        forall|i: int| 0 <= i < r@.len() ==> (#[trigger] r@[i]).id is None && r@[i].text@ == sample_tag_text(i as nat),
{
    let mut tags: Vec<Tag> = Vec::new();
    let mut x: usize = 0;
    while x < SAMPLE_TAGS
        invariant
            x <= SAMPLE_TAGS,
            tags@.len() == x,
            forall|i: int| 0 <= i < x ==> (#[trigger] tags@[i]).id is None && tags@[i].text@ == sample_tag_text(i as nat),
        decreases SAMPLE_TAGS - x,
    {
        let mut text = String::new();
        push_str(&mut text, "tag ");
        push_decimal(&mut text, x as u64);
        tags.push(Tag::new(None, text.as_str()));
        x += 1;
    }
    tags
}

/// The status of a sample task from a draw below 3.
pub open spec fn sample_status(k: int) -> Status {
    if k == 0 {
        Status::InProgress
    } else if k == 1 {
        Status::Done
    } else {
        Status::Pending
    }
}

/// The sample task `x` from the values drawn for it: named after `x`, with severity `x`, the
/// tags `picked`, the status `sample_status(status_draw)`, the given dates, and `seconds`
/// taken.
pub fn sample_task_from(
    x: u32,
    creation: DateTime,
    due: DateTime,
    reminder: DateTime,
    picked: &Vec<usize>,
    status_draw: i64,
    seconds: i64,
) -> (t: Task)
    requires
        0 <= status_draw < 3,
        0 <= seconds < 5 * 60 * 60,
        picked@.len() < SAMPLE_TAGS,
        forall|i: int| 0 <= i < picked@.len() ==> 1 <= #[trigger] picked@[i] <= SAMPLE_TAGS,
        forall|i: int, j: int| 0 <= i < j < picked@.len() ==> #[trigger] picked@[i] != #[trigger] picked@[j],
    ensures
        t.id is None,
        t.title@ == "task number "@ + decimal(x as nat),
        t.description@ == "description number "@ + decimal(x as nat),
        t.severity == x,
        t.tags@ == picked@.map_values(|p: usize| p as i64),
        t.status == sample_status(status_draw as int),
        t.creation_date == creation,
        t.due_date == Some(due),
        t.reminder_date == Some(reminder),
        t.timer_start is None,
        t.time_taken == Some(TimeDelta { secs: seconds, nanos: 0 }),
{
    let mut title = String::new();
    push_str(&mut title, "task number ");
    let mut description = String::new();
    push_str(&mut description, "description number ");
    push_decimal(&mut title, x as u64);
    push_decimal(&mut description, x as u64);
    let mut tags: Vec<i64> = Vec::new();
    let mut i: usize = 0;
    while i < picked.len()
        invariant
            i <= picked@.len(),
            picked@.len() < SAMPLE_TAGS,
            forall|k: int| 0 <= k < picked@.len() ==> 1 <= #[trigger] picked@[k] <= SAMPLE_TAGS,
            tags@.len() == i,
            forall|k: int| 0 <= k < i ==> #[trigger] tags@[k] == picked@[k] as i64,
        decreases picked@.len() - i,
    {
        tags.push(picked[i] as i64);
        i += 1;
    }
    assert(tags@ =~= picked@.map_values(|p: usize| p as i64));
    let status = if status_draw == 0 {
        Status::InProgress
    } else if status_draw == 1 {
        Status::Done
    } else {
        Status::Pending
    };
    Task::new(
        None,
        title.as_str(),
        description.as_str(),
        x as i64,
        tags,
        status,
        creation,
        Some(due),
        Some(reminder),
        None,
        Some(TimeDelta { secs: seconds, nanos: 0 }),
    )
}

/// The moment `secs` seconds after `c` (which is no leap second).
pub open spec fn seconds_later(c: DateTime, secs: int) -> DateTime {
    let d = TimeDelta { secs: secs as i64, nanos: 0 };
    DateTime { date: civil_of(day_after(c, d)), time: time_after(c, d) }
}

/// The moment `secs` seconds after `c` lies within the range of dates.
pub open spec fn later_in_range(c: DateTime, secs: int) -> bool {
    in_day_range(day_after(c, TimeDelta { secs: secs as i64, nanos: 0 }))
}

/// A reading of the clock: a valid moment that is no leap second.
pub open spec fn clock_reading(c: DateTime) -> bool {
    c.wf() && c.time.nanosecond < 1_000_000_000
}

/// The due and reminder dates of a sample task from two readings of the clock: five hours
/// after the first and three hours after the second; `None` where one of them leaves the
/// range of dates.
pub fn sample_task_dates(c1: DateTime, c2: DateTime) -> (r: Option<(DateTime, DateTime)>)
    requires
        clock_reading(c1),
        clock_reading(c2),
    ensures
        r == (if later_in_range(c1, 18000int) && later_in_range(c2, 10800int) {
            Some((seconds_later(c1, 18000int), seconds_later(c2, 10800int)))
        } else {
            None
        }),
{
    let due = checked_add_signed(c1, TimeDelta { secs: 5 * 60 * 60, nanos: 0 });
    let reminder = checked_add_signed(c2, TimeDelta { secs: 3 * 60 * 60, nanos: 0 });
    match (due, reminder) {
        (Some(due), Some(reminder)) => Some((due, reminder)),
        _ => None,
    }
}

/// The sample task `x` with random draws: up to five distinct tags out of the six sample
/// tags, a status drawn below 3 and up to five hours taken (see `sample_task_from`), created
/// at a reading of the clock, due five hours after a second reading and to be reminded of
/// three hours after a third (see `sample_task_dates`); `None` where one of those two
/// moments leaves the range of dates.
pub fn sample_task(x: u32) -> (r: Option<Task>)
    ensures
        r matches Some(t) ==> {
            &&& t.id is None
            &&& t.title@ == "task number "@ + decimal(x as nat)
            &&& t.description@ == "description number "@ + decimal(x as nat)
            &&& t.severity == x
            &&& t.tags@.len() < SAMPLE_TAGS
            &&& forall|i: int| 0 <= i < t.tags@.len() ==> 1 <= #[trigger] t.tags@[i] <= SAMPLE_TAGS
            &&& forall|i: int, j: int| 0 <= i < j < t.tags@.len() ==> #[trigger] t.tags@[i] != #[trigger] t.tags@[j]
            &&& exists|k: int| 0 <= k < 3 && t.status == sample_status(k)
            &&& clock_reading(t.creation_date)
            &&& exists|c1: DateTime, c2: DateTime| {
                &&& clock_reading(c1)
                &&& clock_reading(c2)
                &&& later_in_range(c1, 18000int)
                &&& later_in_range(c2, 10800int)
                &&& t.due_date == Some(seconds_later(c1, 18000int))
                &&& t.reminder_date == Some(seconds_later(c2, 10800int))
            }
            &&& t.timer_start is None
            &&& t.time_taken matches Some(d) && 0 <= d.secs < 5 * 60 * 60 && d.nanos == 0
        },
        r is None ==> exists|c1: DateTime, c2: DateTime| {
            &&& clock_reading(c1)
            &&& clock_reading(c2)
            &&& !(later_in_range(c1, 18000int) && later_in_range(c2, 10800int))
        },
{
    let amount = match choose_below(SAMPLE_TAGS) {
        Some(a) => a,
        None => 0,
    };
    let picked = choose_distinct(SAMPLE_TAGS, amount);
    let status_draw = random_range(0, 3);
    let seconds = random_range(0, 5 * 60 * 60);
    let creation = utc_now();
    let c1 = utc_now();
    let c2 = utc_now();
    match sample_task_dates(c1, c2) {
        Some((due, reminder)) => {
            let t = sample_task_from(x, creation, due, reminder, &picked, status_draw, seconds);
            proof {
                assert forall|i: int, j: int| 0 <= i < j < t.tags@.len() implies #[trigger] t.tags@[i]
                    != #[trigger] t.tags@[j] by {
                    assert(t.tags@[i] == picked@[i] as i64 && t.tags@[j] == picked@[j] as i64);
                }
                assert(0 <= status_draw < 3 && t.status == sample_status(status_draw as int));
                assert(clock_reading(c1) && clock_reading(c2));
            }
            Some(t)
        },
        None => {
            proof {
                assert(clock_reading(c1) && clock_reading(c2));
            }
            None
        },
    }
}

/// The time of day of the sample event `x`: one of seven, in turn.
pub open spec fn sample_time(x: int) -> TimeOfDay {
    let k = x % 7;
    let (h, m) = if k == 0 {
        (8u32, 45u32)
    } else if k == 1 {
        (9u32, 0u32)
    } else if k == 2 {
        (14u32, 30u32)
    } else if k == 3 {
        (16u32, 45u32)
    } else if k == 4 {
        (15u32, 15u32)
    } else if k == 5 {
        (7u32, 0u32)
    } else {
        (23u32, 15u32)
    };
    TimeOfDay { hour: h, minute: m, second: 0, nanosecond: 0 }
}

fn sample_time_exec(x: u64) -> (t: TimeOfDay)
    ensures
        t == sample_time(x as int),
        t.wf(),
{
    let k = x % 7;
    let (h, m): (u32, u32) = if k == 0 {
        (8, 45)
    } else if k == 1 {
        (9, 0)
    } else if k == 2 {
        (14, 30)
    } else if k == 3 {
        (16, 45)
    } else if k == 4 {
        (15, 15)
    } else if k == 5 {
        (7, 0)
    } else {
        (23, 15)
    };
    TimeOfDay { hour: h, minute: m, second: 0, nanosecond: 0 }
}

/// `r` is the recurrence of a sample event for the draw `rec_draw` (below 4) and, where it
/// is 0, the number of days `n`: every `n` days (0), on Mondays (1), on Wednesdays and
/// Fridays (2), none (3).
pub open spec fn is_sample_recurrence(r: Option<RecurrenceInterval>, rec_draw: int, n: int) -> bool {
    if rec_draw == 0 {
        r == Some(RecurrenceInterval::EveryNDays(n as u32))
    } else if rec_draw == 1 {
        r matches Some(RecurrenceInterval::EveryWeekday(ws)) && ws@ == seq![Weekday::Mon]
    } else if rec_draw == 2 {
        r matches Some(RecurrenceInterval::EveryWeekday(ws)) && ws@ == seq![Weekday::Wed, Weekday::Fri]
    } else {
        r is None
    }
}

/// The sample event `x` (below 30) from the values drawn for it: on the `x`-th day after
/// 20 March 2025, at one of seven times in turn, lasting `seconds` where `has_duration`, and
/// recurring as `rec_draw` and `n` say: every `n` days (0), on Mondays (1), on Wednesdays
/// and Fridays (2), or not at all (3).
pub fn sample_event_from(x: u64, has_duration: bool, seconds: i64, rec_draw: i64, n: i64) -> (e: Event)
    requires
        x < 30,
        0 <= seconds < 180 * 60,
        0 <= rec_draw < 4,
        rec_draw == 0 ==> 1 <= n < 5,
    ensures
        e.id is None,
        e.title@ == "event number "@ + decimal(x as nat),
        e.description@ == "description number "@ + decimal(x as nat),
        e.duration == (if has_duration {
            Some(TimeDelta { secs: seconds, nanos: 0 })
        } else {
            None
        }),
        Some(e.date.date) == shift_days(CivilDate { year: 2025, month: 3, day: 20 }, x as int),
        e.date.time == sample_time(x as int),
        e.wf(),
        is_sample_recurrence(e.recurrence_interval, rec_draw as int, n as int),
        e.recurrence_end is None,
        e.skipped_dates@ == Seq::<DateTime>::empty(),
{
    let mut title = String::new();
    push_str(&mut title, "event number ");
    push_decimal(&mut title, x);
    let mut description = String::new();
    push_str(&mut description, "description number ");
    push_decimal(&mut description, x);
    let duration = if has_duration {
        Some(TimeDelta { secs: seconds, nanos: 0 })
    } else {
        None
    };
    let recurrence_interval = if rec_draw == 0 {
        Some(RecurrenceInterval::EveryNDays(n as u32))
    } else if rec_draw == 1 {
        let ws = vec![Weekday::Mon];
        assert(ws@ == seq![Weekday::Mon]);
        Some(RecurrenceInterval::EveryWeekday(ws))
    } else if rec_draw == 2 {
        let ws = vec![Weekday::Wed, Weekday::Fri];
        assert(ws@ == seq![Weekday::Wed, Weekday::Fri]);
        Some(RecurrenceInterval::EveryWeekday(ws))
    } else {
        None
    };
    assert(is_sample_recurrence(recurrence_interval, rec_draw as int, n as int));
    let start = CivilDate { year: 2025, month: 3, day: 20 };
    assert(start.wf());
    assert(start.num() + 29 <= 95745399);
    proof {
        crate::date::lemma_day_range_bounds();
    }
    let day = match checked_add_days(start, x) {
        Some(d) => d,
        None => {
            proof {
                assert(false);
            }
            start
        },
    };
    let date = DateTime { date: day, time: sample_time_exec(x) };
    Event::new(
        None,
        title.as_str(),
        description.as_str(),
        duration,
        date,
        recurrence_interval,
        None,
        Vec::new(),
    )
}

/// The sample event `x` (below 30) with random draws: a duration under three hours or none,
/// and a recurrence of every one to four days, on Mondays, on Wednesdays and Fridays, or none
/// (see `sample_event_from`).
pub fn sample_event(x: u64) -> (e: Event)
    requires
        x < 30,
    ensures
        e.id is None,
        e.title@ == "event number "@ + decimal(x as nat),
        e.description@ == "description number "@ + decimal(x as nat),
        e.duration matches Some(d) ==> 0 <= d.secs < 180 * 60 && d.nanos == 0,
        Some(e.date.date) == shift_days(CivilDate { year: 2025, month: 3, day: 20 }, x as int),
        e.date.time == sample_time(x as int),
        e.wf(),
        match e.recurrence_interval {
            None => true,
            Some(RecurrenceInterval::EveryNDays(n)) => 1 <= n < 5,
            Some(RecurrenceInterval::EveryWeekday(ws)) => ws@ == seq![Weekday::Mon] || ws@ == seq![
                Weekday::Wed,
                Weekday::Fri,
            ],
            _ => false,
        },
        e.recurrence_end is None,
        e.skipped_dates@ == Seq::<DateTime>::empty(),
{
    let has_duration = random_range(0, 2) == 1;
    let seconds = random_range(0, 180 * 60);
    let rec_draw = random_range(0, 4);
    let n = if rec_draw == 0 {
        random_range(1, 5)
    } else {
        1
    };
    sample_event_from(x, has_duration, seconds, rec_draw, n)
}

} // verus!
