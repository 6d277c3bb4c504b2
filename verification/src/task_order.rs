//! The orders in which tasks can be listed.

use vstd::prelude::*;
use core::cmp::Ordering;
use crate::date::{DateTime, TimeDelta};
use crate::task::Task;

verus! {

/// How two numbers compare.
pub open spec fn order_i64(a: i64, b: i64) -> Ordering {
    if a < b {
        Ordering::Less
    } else if a == b {
        Ordering::Equal
    } else {
        Ordering::Greater
    }
}

/// How two optional dates compare; no date comes before every date.
pub open spec fn order_opt_date(a: Option<DateTime>, b: Option<DateTime>) -> Ordering {
    match (a, b) {
        (None, None) => Ordering::Equal,
        (None, Some(_)) => Ordering::Less,
        (Some(_), None) => Ordering::Greater,
        (Some(x), Some(y)) => if x.before(y) {
            Ordering::Less
        } else if x == y {
            Ordering::Equal
        } else {
            Ordering::Greater
        },
    }
}

/// How two optional durations compare; no duration comes before every duration.
pub open spec fn order_opt_delta(a: Option<TimeDelta>, b: Option<TimeDelta>) -> Ordering {
    match (a, b) {
        (None, None) => Ordering::Equal,
        (None, Some(_)) => Ordering::Less,
        (Some(_), None) => Ordering::Greater,
        (Some(x), Some(y)) => if x.before(y) {
            Ordering::Less
        } else if x == y {
            Ordering::Equal
        } else {
            Ordering::Greater
        },
    }
}

fn order_i64_exec(a: i64, b: i64) -> (r: Ordering)
    ensures
        r == order_i64(a, b),
{
    if a < b {
        Ordering::Less
    } else if a == b {
        Ordering::Equal
    } else {
        Ordering::Greater
    }
}

fn order_opt_date_exec(a: &Option<DateTime>, b: &Option<DateTime>) -> (r: Ordering)
    ensures
        r == order_opt_date(*a, *b),
{
    match (a, b) {
        (None, None) => Ordering::Equal,
        (None, Some(_)) => Ordering::Less,
        (Some(_), None) => Ordering::Greater,
        (Some(x), Some(y)) => if x.is_before(y) {
            Ordering::Less
        } else if x.same(y) {
            Ordering::Equal
        } else {
            Ordering::Greater
        },
    }
}

fn order_opt_delta_exec(a: &Option<TimeDelta>, b: &Option<TimeDelta>) -> (r: Ordering)
    ensures
        r == order_opt_delta(*a, *b),
{
    match (a, b) {
        (None, None) => Ordering::Equal,
        (None, Some(_)) => Ordering::Less,
        (Some(_), None) => Ordering::Greater,
        (Some(x), Some(y)) => if x.is_before(y) {
            Ordering::Less
        } else if x.secs == y.secs && x.nanos == y.nanos {
            Ordering::Equal
        } else {
            Ordering::Greater
        },
    }
}

/// The orders in which tasks can be listed: by severity, reminder date, due date or
/// time taken, each ascending or descending.
#[derive(Debug, Clone, Copy, PartialEq, Eq, Structural)]
pub enum TaskOrder {
    SeverityHighToLow,
    SeverityLowToHigh,
    ReminderDateHighToLow,
    ReminderDateLowToHigh,
    DueDateHighToLow,
    DueDateLowToHigh,
    TimeTakenHighToLow,
    TimeTakenLowToHigh,
}

impl TaskOrder {
    /// How `a` compares to `b` in this order.
    pub open spec fn compare(self, a: Task, b: Task) -> Ordering {
        match self {
            TaskOrder::SeverityHighToLow => order_i64(b.severity, a.severity),
            TaskOrder::SeverityLowToHigh => order_i64(a.severity, b.severity),
            TaskOrder::ReminderDateHighToLow => order_opt_date(b.reminder_date, a.reminder_date),
            TaskOrder::ReminderDateLowToHigh => order_opt_date(a.reminder_date, b.reminder_date),
            TaskOrder::DueDateHighToLow => order_opt_date(b.due_date, a.due_date),
            TaskOrder::DueDateLowToHigh => order_opt_date(a.due_date, b.due_date),
            TaskOrder::TimeTakenHighToLow => order_opt_delta(b.time_taken, a.time_taken),
            TaskOrder::TimeTakenLowToHigh => order_opt_delta(a.time_taken, b.time_taken),
        }
    }

    /// `a` may stand before `b` in this order.
    pub open spec fn le(self, a: Task, b: Task) -> bool {
        self.compare(a, b) != Ordering::Greater
    }

    pub fn compare_tasks(&self, a: &Task, b: &Task) -> (r: Ordering)
        ensures
            r == self.compare(*a, *b),
    {
        match self {
            TaskOrder::SeverityHighToLow => order_i64_exec(b.severity, a.severity),
            TaskOrder::SeverityLowToHigh => order_i64_exec(a.severity, b.severity),
            TaskOrder::ReminderDateHighToLow => order_opt_date_exec(&b.reminder_date, &a.reminder_date),
            TaskOrder::ReminderDateLowToHigh => order_opt_date_exec(&a.reminder_date, &b.reminder_date),
            TaskOrder::DueDateHighToLow => order_opt_date_exec(&b.due_date, &a.due_date),
            TaskOrder::DueDateLowToHigh => order_opt_date_exec(&a.due_date, &b.due_date),
            TaskOrder::TimeTakenHighToLow => order_opt_delta_exec(&b.time_taken, &a.time_taken),
            TaskOrder::TimeTakenLowToHigh => order_opt_delta_exec(&a.time_taken, &b.time_taken),
        }
    }
}

/// Comparing two tasks the other way round gives the opposite answer, and equal
/// answers agree.
pub proof fn lemma_compare_antisymmetric(o: TaskOrder, a: Task, b: Task)
    ensures
        (o.compare(a, b) == Ordering::Less) == (o.compare(b, a) == Ordering::Greater),
        (o.compare(a, b) == Ordering::Equal) == (o.compare(b, a) == Ordering::Equal),
{
}

/// The order of tasks is transitive: if `a` may stand before `b` and `b` before `c`, then
/// `a` may stand before `c`; and if `a` comes strictly before `b` and `b` strictly before
/// `c`, then `a` comes strictly before `c`.
pub proof fn lemma_compare_transitive(o: TaskOrder, a: Task, b: Task, c: Task)
    ensures
        o.le(a, b) && o.le(b, c) ==> o.le(a, c),
        o.compare(a, b) == Ordering::Less && o.compare(b, c) == Ordering::Less ==> o.compare(a, c)
            == Ordering::Less,
{
}

/// Every two tasks are comparable: one may stand before the other.
pub proof fn lemma_compare_total(o: TaskOrder, a: Task, b: Task)
    ensures
        o.le(a, b) || o.le(b, a),
        o.compare(a, a) == Ordering::Equal,
{
}

/// Each ascending order puts the task with the smaller key first and each descending order
/// the one with the larger key: higher severity first for `SeverityHighToLow`, the earlier
/// date (a missing date counting as earliest) first for `...DateLowToHigh`, the shorter
/// time taken first for `TimeTakenLowToHigh`; and each ascending order is the reverse of the
/// matching descending one.
pub proof fn lemma_order_directions(a: Task, b: Task)
    ensures
        a.severity > b.severity ==> TaskOrder::SeverityHighToLow.compare(a, b) == Ordering::Less
            && TaskOrder::SeverityLowToHigh.compare(a, b) == Ordering::Greater,
        a.due_date matches Some(x) && b.due_date matches Some(y) && x.before(y) ==> TaskOrder::DueDateLowToHigh.compare(a, b)
            == Ordering::Less && TaskOrder::DueDateHighToLow.compare(a, b) == Ordering::Greater,
        a.due_date is None && b.due_date is Some ==> TaskOrder::DueDateLowToHigh.compare(a, b)
            == Ordering::Less,
        a.reminder_date matches Some(x) && b.reminder_date matches Some(y) && x.before(y) ==> TaskOrder::ReminderDateLowToHigh.compare(
            a,
            b,
        ) == Ordering::Less && TaskOrder::ReminderDateHighToLow.compare(a, b) == Ordering::Greater,
        a.reminder_date is None && b.reminder_date is Some ==> TaskOrder::ReminderDateLowToHigh.compare(a, b)
            == Ordering::Less,
        a.time_taken matches Some(x) && b.time_taken matches Some(y) && x.before(y) ==> TaskOrder::TimeTakenLowToHigh.compare(
            a,
            b,
        ) == Ordering::Less && TaskOrder::TimeTakenHighToLow.compare(a, b) == Ordering::Greater,
        a.time_taken is None && b.time_taken is Some ==> TaskOrder::TimeTakenLowToHigh.compare(a, b)
            == Ordering::Less,
        TaskOrder::SeverityLowToHigh.compare(a, b) == TaskOrder::SeverityHighToLow.compare(b, a),
        TaskOrder::DueDateLowToHigh.compare(a, b) == TaskOrder::DueDateHighToLow.compare(b, a),
        TaskOrder::ReminderDateLowToHigh.compare(a, b) == TaskOrder::ReminderDateHighToLow.compare(b, a),
        TaskOrder::TimeTakenLowToHigh.compare(a, b) == TaskOrder::TimeTakenHighToLow.compare(b, a),
{
}

} // verus!
