//! The events of the calendar, kept in date order.
//!
//! Storage gives each event its id and keeps the events; this type keeps the events of the
//! calendar in memory and decides what each operation does to them. Each operation that
//! storage takes part in is stated here for the case where storage succeeded.

use vstd::prelude::*;
use crate::date::{DateTime, TimeOfDay, checked_add_days, shift_days};
use crate::event::{Event, EventManagerError, RecurrenceDeletion};
use crate::sorting::{
    sort_stable, stable_sort, sorted_by, strict_order, lemma_stable_sort_sorted,
    lemma_stable_sort_items,
};

verus! {

/// The events of a calendar, in date order.
#[derive(Debug, Clone)]
pub struct EventManager {
    events: Vec<Event>,
}

/// What storage has to do after an event was deleted in memory.
#[derive(Debug, Clone, Copy, PartialEq, Eq, Structural)]
pub enum EventChange {
    /// Store the event now at this position again: only its recurrence changed.
    Updated(usize),
    /// Delete the event with this id from storage.
    Removed(i64),
}

impl View for EventManager {
    type V = Seq<Event>;

    closed spec fn view(&self) -> Seq<Event> {
        self.events@
    }
}

/// Midnight.
pub open spec fn midnight() -> TimeOfDay {
    TimeOfDay { hour: 0, minute: 0, second: 0, nanosecond: 0 }
}

/// No event comes after a later one.
pub open spec fn in_date_order(events: Seq<Event>) -> bool {
    forall|i: int, j: int| 0 <= i < j < events.len() ==> !(#[trigger] events[j]).date.before(#[trigger] events[i].date)
}

/// Every event's dates exist.
pub open spec fn all_valid(events: Seq<Event>) -> bool {
    forall|i: int| 0 <= i < events.len() ==> (#[trigger] events[i]).wf()
}

/// The first position, from `i` on, whose event is not before `t`; `events.len()` if none.
pub open spec fn first_not_before(events: Seq<Event>, t: DateTime, i: int) -> int
    decreases events.len() - i,
{
    if i < 0 || i >= events.len() {
        events.len() as int
    } else if !events[i].date.before(t) {
        i
    } else {
        first_not_before(events, t, i + 1)
    }
}

/// The start of the day of `dt`.
pub open spec fn day_start(dt: DateTime) -> DateTime {
    DateTime { date: dt.date, time: midnight() }
}

/// The start of the following day, if that day exists.
pub open spec fn next_day_start(dt: DateTime) -> Option<DateTime> {
    match shift_days(dt.date, 1) {
        Some(d) => Some(DateTime { date: d, time: midnight() }),
        None => None,
    }
}

/// Where the scan for a day stops: at the first event on or after the next day.
pub open spec fn day_cutoff(events: Seq<Event>, dt: DateTime) -> int {
    match next_day_start(dt) {
        Some(n) => first_not_before(events, n, 0),
        None => events.len() as int,
    }
}

/// The event at `i` is taken for the day as it is: a single event not before the day.
pub open spec fn direct_entry(events: Seq<Event>, dt: DateTime, i: int) -> bool {
    i >= first_not_before(events, day_start(dt), 0) && events[i].recurrence_interval is None
}

/// The date at which the event at `i` is listed for the day, if it is.
pub open spec fn entry_date(events: Seq<Event>, dt: DateTime, i: int) -> Option<DateTime> {
    if direct_entry(events, dt, i) {
        Some(events[i].date)
    } else {
        events[i].occurrence(day_start(dt))
    }
}

/// The entries of the first `k` events, in the order of the events.
pub open spec fn raw_entries(events: Seq<Event>, dt: DateTime, k: int) -> Seq<(usize, DateTime)>
    decreases k,
{
    if k <= 0 {
        Seq::empty()
    } else {
        let prev = raw_entries(events, dt, k - 1);
        match entry_date(events, dt, k - 1) {
            Some(d) => prev.push(((k - 1) as usize, d)),
            None => prev,
        }
    }
}

/// One of the first `k` events is listed through its recurrence.
pub open spec fn needs_sort(events: Seq<Event>, dt: DateTime, k: int) -> bool {
    exists|i: int| 0 <= i < k && !direct_entry(events, dt, i) && #[trigger] entry_date(events, dt, i) is Some
}

/// Entries in the order of their dates.
pub open spec fn entry_lt() -> spec_fn((usize, DateTime), (usize, DateTime)) -> bool {
    |a: (usize, DateTime), b: (usize, DateTime)| a.1.before(b.1)
}

/// The events of the day of `dt`: the position of each event and the date at which it
/// occurs that day; sorted by that date (stably) where a recurring event was listed.
pub open spec fn day_entries(events: Seq<Event>, dt: DateTime) -> Seq<(usize, DateTime)> {
    let k = day_cutoff(events, dt);
    if needs_sort(events, dt, k) {
        stable_sort(raw_entries(events, dt, k), entry_lt())
    } else {
        raw_entries(events, dt, k)
    }
}

/// Each event that is looked at through its recurrence can be looked at on that day.
pub open spec fn day_entries_defined(events: Seq<Event>, dt: DateTime) -> bool {
    forall|i: int|
        0 <= i < day_cutoff(events, dt) && !direct_entry(events, dt, i)
            ==> #[trigger] events[i].occurrence_defined(day_start(dt))
}

/// The first position from `i` on whose event carries the id `id`.
pub open spec fn position_of_id(events: Seq<Event>, id: i64, i: int) -> Option<int>
    decreases events.len() - i,
{
    if i < 0 || i >= events.len() {
        None
    } else if events[i].id == Some(id) {
        Some(i)
    } else {
        position_of_id(events, id, i + 1)
    }
}

/// Events in the order of their dates.
pub open spec fn event_lt() -> spec_fn(Event, Event) -> bool {
    |a: Event, b: Event| a.date.before(b.date)
}

/// The event with the recurrence ended at the start of the day of `d`.
pub open spec fn ended_from(e: Event, d: DateTime) -> Event {
    Event { recurrence_end: Some(day_start(d)), ..e }
}

impl EventManager {
    /// The events are in date order and their dates exist.
    pub open spec fn wf(&self) -> bool {
        in_date_order(self@) && all_valid(self@)
    }

    /// A calendar without events.
    pub fn new() -> (r: Self)
        ensures
            r@ == Seq::<Event>::empty(),
            r.wf(),
    {
        EventManager { events: Vec::new() }
    }

    pub fn get_events(&self) -> (r: &Vec<Event>)
        ensures
            r@ == self@,
    {
        &self.events
    }

    /// The events are in date order and their dates exist, as `update` needs them.
    pub fn check_events(events: &Vec<Event>) -> (r: bool)
        ensures
            r == (in_date_order(events@) && all_valid(events@)),
    {
        let mut i: usize = 0;
        while i < events.len()
            invariant
                i <= events@.len(),
                forall|a: int, b: int| 0 <= a < b < i ==> !(#[trigger] events@[b]).date.before(#[trigger] events@[a].date),
                forall|a: int| 0 <= a < i ==> (#[trigger] events@[a]).wf(),
            decreases events@.len() - i,
        {
            if !events[i].is_valid() {
                return false;
            }
            if i > 0 && events[i].date.is_before(&events[i - 1].date) {
                return false;
            }
            proof {
                assert forall|a: int, b: int| 0 <= a < b < i + 1 implies !(#[trigger] events@[b]).date.before(#[trigger] events@[a].date) by {
                    if b == i && a < i - 1 {
                        assert(!events@[i - 1].date.before(events@[a].date));
                    }
                }
            }
            i += 1;
        }
        true
    }

    /// Takes the events that storage holds, in date order.
    pub fn update(&mut self, events: Vec<Event>)
        requires
            in_date_order(events@),
            all_valid(events@),
        ensures
            final(self)@ == events@,
            final(self).wf(),
    {
        self.events = events;
    }

    fn collect_entries(&self, date: &DateTime, index: usize, cutoff: usize, Ghost(dt): Ghost<DateTime>) -> (r: (Vec<(usize, DateTime)>, bool))
        requires
            self.wf(),
            dt.wf(),
            *date == day_start(dt),
            index == first_not_before(self@, day_start(dt), 0),
            cutoff == day_cutoff(self@, dt),
            cutoff <= self@.len(),
            day_entries_defined(self@, dt),
        ensures
            r.0@ == raw_entries(self@, dt, cutoff as int),
            r.1 == needs_sort(self@, dt, cutoff as int),
    {
        let ghost events = self@;
        let mut entries: Vec<(usize, DateTime)> = Vec::new();
        let mut sort_needed = false;
        let mut i: usize = 0;
        while i < cutoff
            invariant
                events == self@,
                self.wf(),
                dt.wf(),
                *date == day_start(dt),
                index == first_not_before(events, day_start(dt), 0),
                cutoff == day_cutoff(events, dt),
                cutoff <= events.len(),
                day_entries_defined(events, dt),
                i <= cutoff,
                entries@ == raw_entries(events, dt, i as int),
                sort_needed == needs_sort(events, dt, i as int),
            decreases cutoff - i,
        {
            if i >= index && self.events[i].recurrence_interval.is_none() {
                entries.push((i, self.events[i].date));
                assert(needs_sort(events, dt, i + 1) == needs_sort(events, dt, i as int)) by {
                    if needs_sort(events, dt, i + 1) {
                        let w = choose|w: int| 0 <= w < i + 1 && !direct_entry(events, dt, w) && #[trigger] entry_date(events, dt, w) is Some;
                        assert(w < i);
                    }
                }
            } else {
                assert(self@[i as int].wf());
                match self.events[i].is_event_occurring_on_date(date) {
                    Some(d) => {
                        sort_needed = true;
                        entries.push((i, d));
                        assert(entry_date(events, dt, i as int) is Some);
                    },
                    None => {
                        assert(needs_sort(events, dt, i + 1) == needs_sort(events, dt, i as int)) by {
                            if needs_sort(events, dt, i + 1) {
                                let w = choose|w: int| 0 <= w < i + 1 && !direct_entry(events, dt, w) && #[trigger] entry_date(events, dt, w) is Some;
                                assert(w < i);
                            }
                        }
                    },
                }
            }
            i += 1;
        }
        (entries, sort_needed)
    }

    /// Looking up the day of `date_time` divides by no zero period (see `day_entries_defined`).
    pub fn events_for_date_defined(&self, date_time: &DateTime) -> (r: bool)
        requires
            self.wf(),
            date_time.wf(),
        ensures
            r == day_entries_defined(self@, *date_time),
    {
        let date = DateTime::new(date_time.date, TimeOfDay::midnight());
        let next_day = match checked_add_days(date.date, 1) {
            Some(d) => Some(DateTime::new(d, TimeOfDay::midnight())),
            None => None,
        };
        let index = self.first_not_before_exec(&date);
        let cutoff = match &next_day {
            Some(n) => self.first_not_before_exec(n),
            None => self.events.len(),
        };
        let ghost events = self@;
        let ghost dt = *date_time;
        let mut i: usize = 0;
        while i < cutoff
            invariant
                events == self@,
                dt == *date_time,
                self.wf(),
                date == day_start(dt),
                date.wf(),
                index == first_not_before(events, day_start(dt), 0),
                cutoff == day_cutoff(events, dt),
                cutoff <= events.len(),
                i <= cutoff,
                forall|j: int|
                    0 <= j < i && !direct_entry(events, dt, j) ==> #[trigger] events[j].occurrence_defined(day_start(dt)),
            decreases cutoff - i,
        {
            if !(i >= index && self.events[i].recurrence_interval.is_none()) {
                assert(self@[i as int].wf());
                if !self.events[i].is_occurrence_defined(&date) {
                    assert(!direct_entry(events, dt, i as int));
                    assert(!events[i as int].occurrence_defined(day_start(dt)));
                    return false;
                }
            }
            i += 1;
        }
        true
    }

    fn first_not_before_exec(&self, t: &DateTime) -> (r: usize)
        ensures
            r == first_not_before(self@, *t, 0),
            r <= self@.len(),
    {
        let mut i: usize = 0;
        while i < self.events.len() && self.events[i].date.is_before(t)
            invariant
                i <= self.events@.len(),
                first_not_before(self.events@, *t, 0) == first_not_before(self.events@, *t, i as int),
            decreases self.events@.len() - i,
        {
            i += 1;
        }
        i
    }

    /// The events of the day of `date_time`, each with its position and the date and time
    /// at which it occurs that day.
    pub fn get_events_for_date(&self, date_time: &DateTime) -> (r: Result<
        Vec<(usize, &Event, DateTime)>,
        EventManagerError,
    >)
        requires
            self.wf(),
            date_time.wf(),
            day_entries_defined(self@, *date_time),
        ensures
            r matches Ok(v) && v@.len() == day_entries(self@, *date_time).len() && (forall|k: int|
                0 <= k < v@.len() ==> {
                    &&& (#[trigger] v@[k]).0 == day_entries(self@, *date_time)[k].0
                    &&& v@[k].0 < self@.len()
                    &&& *v@[k].1 == self@[v@[k].0 as int]
                    &&& v@[k].2 == day_entries(self@, *date_time)[k].1
                }),
    {
        let time = match TimeOfDay::from_hms_opt(0, 0, 0) {
            Some(t) => t,
            None => {
                return Err(EventManagerError::InvalidTime(0, 0, 0));
            },
        };
        let date = DateTime::new(date_time.date, time);
        let next_day = match checked_add_days(date.date, 1) {
            Some(d) => Some(DateTime::new(d, time)),
            None => None,
        };
        let index = self.first_not_before_exec(&date);
        let cutoff = match &next_day {
            Some(n) => self.first_not_before_exec(n),
            None => self.events.len(),
        };
        let ghost events = self@;
        let ghost dt = *date_time;
        assert(date == day_start(dt));
        let (mut entries, sort_needed) = self.collect_entries(&date, index, cutoff, Ghost(dt));
        if sort_needed {
            sort_stable(&mut entries, &(), entry_before, Ghost(entry_lt()));
        }
        proof {
            lemma_raw_entries_positions(events, dt, cutoff as int);
            if sort_needed {
                let s = raw_entries(events, dt, cutoff as int);
                lemma_stable_sort_items(s, entry_lt());
                assert forall|k: int| 0 <= k < entries@.len() implies (#[trigger] entries@[k]).0 < events.len() by {
                    assert(s.contains(entries@[k]));
                }
            }
        }
        let mut result: Vec<(usize, &Event, DateTime)> = Vec::new();
        let mut k: usize = 0;
        while k < entries.len()
            invariant
                events == self@,
                k <= entries@.len(),
                forall|m: int| 0 <= m < entries@.len() ==> (#[trigger] entries@[m]).0 < events.len(),
                result@.len() == k,
                forall|m: int|
                    0 <= m < k ==> {
                        &&& (#[trigger] result@[m]).0 == entries@[m].0
                        &&& *result@[m].1 == events[entries@[m].0 as int]
                        &&& result@[m].2 == entries@[m].1
                    },
            decreases entries@.len() - k,
        {
            let (idx, d) = entries[k];
            assert(entries@[k as int].0 < events.len());
            result.push((idx, &self.events[idx], d));
            k += 1;
        }
        Ok(result)
    }

    /// Puts a stored event (one that storage gave its id) in date order: before the first
    /// event that is not earlier. Gives its position.
    pub fn add_event(&mut self, event: Event) -> (idx: usize)
        requires
            old(self).wf(),
            event.wf(),
        ensures
            idx == first_not_before(old(self)@, event.date, 0),
            final(self)@ == old(self)@.insert(idx as int, event),
            final(self).wf(),
    {
        let idx = self.first_not_before_exec(&event.date);
        proof {
            lemma_first_not_before(self@, event.date, 0);
        }
        let ghost old_events = self@;
        self.events.insert(idx, event);
        proof {
            let n = self@;
            assert forall|i: int, j: int| 0 <= i < j < n.len() implies !(#[trigger] n[j]).date.before(#[trigger] n[i].date) by {
                lemma_before_total(n[i].date, n[j].date);
                if i < idx && j < idx {
                    assert(n[i] == old_events[i] && n[j] == old_events[j]);
                } else if i < idx && j == idx {
                    assert(n[i] == old_events[i]);
                } else if i < idx {
                    assert(n[i] == old_events[i] && n[j] == old_events[j - 1]);
                    if j - 1 > i {
                        assert(!old_events[j - 1].date.before(old_events[i].date));
                    }
                } else if i == idx {
                    assert(n[j] == old_events[j - 1]);
                } else {
                    assert(n[i] == old_events[i - 1] && n[j] == old_events[j - 1]);
                }
            }
            assert forall|i: int| 0 <= i < n.len() implies (#[trigger] n[i]).wf() by {
                if i < idx {
                    assert(n[i] == old_events[i]);
                } else if i > idx {
                    assert(n[i] == old_events[i - 1]);
                }
            }
        }
        idx
    }

    fn position_of_id_exec(&self, id: i64) -> (r: Option<usize>)
        ensures
            match r {
                Some(i) => position_of_id(self@, id, 0) == Some(i as int) && i < self@.len(),
                None => position_of_id(self@, id, 0) is None,
            },
    {
        let mut i: usize = 0;
        while i < self.events.len()
            invariant
                i <= self.events@.len(),
                position_of_id(self.events@, id, 0) == position_of_id(self.events@, id, i as int),
            decreases self.events@.len() - i,
        {
            match self.events[i].get_id() {
                Some(x) => {
                    if x == id {
                        return Some(i);
                    }
                },
                None => {},
            }
            i += 1;
        }
        None
    }

    /// The event as it would be stored by `update_event`: it keeps its id, or takes the id of
    /// the event it replaces. Errs where neither has an id, or where no position is given and
    /// the event has none.
    pub fn prepare_update(&self, event: Event, event_index: &Option<usize>) -> (r: Result<
        Event,
        EventManagerError,
    >)
        requires
            event_index matches Some(i) ==> i < self@.len(),
        ensures
            match event_index {
                Some(i) => match r {
                    Ok(e) => e == (if event.id is None {
                        Event { id: self@[*i as int].id, ..event }
                    } else {
                        event
                    }) && e.id is Some,
                    Err(EventManagerError::MissingEventId(t)) => event.id is None && self@[*i as int].id is None
                        && t@ == self@[*i as int].title@,
                    Err(_) => false,
                },
                None => match r {
                    Ok(e) => e == event && event.id is Some,
                    Err(EventManagerError::MissingEventId(t)) => event.id is None && t@ == event.title@,
                    Err(_) => false,
                },
            },
    {
        match event_index {
            Some(index) => {
                let mut event = event;
                if event.get_id().is_none() {
                    match self.events[*index].get_id() {
                        Some(id) => event.set_id(id),
                        None => {
                            return Err(EventManagerError::MissingEventId(self.events[*index].title.clone()));
                        },
                    }
                }
                Ok(event)
            },
            None => {
                if event.get_id().is_none() {
                    return Err(EventManagerError::MissingEventId(event.title.clone()));
                }
                Ok(event)
            },
        }
    }

    /// Replaces an event by its stored form (see `prepare_update`): the event at the given
    /// position, or else the event with the same id. Where the date changed, the events are
    /// sorted by date again, stably.
    pub fn update_event(&mut self, event: Event, event_index: &Option<usize>) -> (r: Result<
        (),
        EventManagerError,
    >)
        requires
            old(self).wf(),
            event.wf(),
            event_index matches Some(i) ==> i < old(self)@.len(),
            event_index is None && event.id is Some ==> position_of_id(old(self)@, event.id->0, 0) is Some,
        ensures
            final(self).wf(),
            match event_index {
                Some(i) => match r {
                    Ok(_) => {
                        let e = if event.id is None {
                            Event { id: old(self)@[*i as int].id, ..event }
                        } else {
                            event
                        };
                        &&& old(self)@[*i as int].id is Some || event.id is Some
                        &&& final(self)@ == (if old(self)@[*i as int].date != event.date {
                            stable_sort(old(self)@.update(*i as int, e), event_lt())
                        } else {
                            old(self)@.update(*i as int, e)
                        })
                    },
                    Err(EventManagerError::MissingEventId(t)) => event.id is None && old(self)@[*i as int].id is None
                        && t@ == old(self)@[*i as int].title@ && final(self)@ == old(self)@,
                    Err(_) => false,
                },
                None => match r {
                    Ok(_) => {
                        let i = position_of_id(old(self)@, event.id->0, 0)->0;
                        &&& event.id is Some
                        &&& final(self)@ == (if old(self)@[i].date != event.date {
                            stable_sort(old(self)@.update(i, event), event_lt())
                        } else {
                            old(self)@.update(i, event)
                        })
                    },
                    Err(EventManagerError::MissingEventId(t)) => event.id is None && t@ == event.title@
                        && final(self)@ == old(self)@,
                    Err(_) => false,
                },
            },
    {
        match event_index {
            Some(index) => {
                let index = *index;
                let event = match self.prepare_update(event, &Some(index)) {
                    Ok(e) => e,
                    Err(e) => {
                        return Err(e);
                    },
                };
                self.replace_event(index, event);
                Ok(())
            },
            None => self.update_event_with_id(event),
        }
    }

    fn replace_event(&mut self, index: usize, event: Event)
        requires
            old(self).wf(),
            event.wf(),
            index < old(self)@.len(),
        ensures
            final(self).wf(),
            final(self)@ == (if old(self)@[index as int].date != event.date {
                stable_sort(old(self)@.update(index as int, event), event_lt())
            } else {
                old(self)@.update(index as int, event)
            }),
    {
        let sort_needed = !self.events[index].date.same(&event.date);
        let ghost old_events = self@;
        let ghost e = event;
        let mut event = event;
        std::mem::swap(&mut self.events[index], &mut event);
        assert(self@ =~= old_events.update(index as int, e));
        proof {
            assert forall|i: int| 0 <= i < self@.len() implies (#[trigger] self@[i]).wf() by {
                if i != index {
                    assert(self@[i] == old_events[i]);
                }
            }
        }
        if sort_needed {
            sort_stable(&mut self.events, &(), event_before, Ghost(event_lt()));
            proof {
                let s = old_events.update(index as int, e);
                lemma_stable_sort_items(s, event_lt());
                lemma_date_order_strict();
                lemma_stable_sort_sorted(s, event_lt());
                assert forall|i: int| 0 <= i < self@.len() implies (#[trigger] self@[i]).wf() by {
                    assert(s.contains(self@[i]));
                    let k = choose|k: int| 0 <= k < s.len() && s[k] == self@[i];
                    if k != index {
                        assert(s[k] == old_events[k]);
                    }
                }
                assert forall|i: int, j: int| 0 <= i < j < self@.len() implies !(#[trigger] self@[j]).date.before(#[trigger] self@[i].date) by {
                    assert(!event_lt()(self@[j], self@[i]));
                }
            }
        } else {
            proof {
                assert forall|i: int, j: int| 0 <= i < j < self@.len() implies !(#[trigger] self@[j]).date.before(#[trigger] self@[i].date) by {
                    assert(!old_events[j].date.before(old_events[i].date));
                }
            }
        }
    }

    /// Replaces the event with the same id by `event`, as `update_event` does.
    pub fn update_event_with_id(&mut self, event: Event) -> (r: Result<(), EventManagerError>)
        requires
            old(self).wf(),
            event.wf(),
            event.id matches Some(id) ==> position_of_id(old(self)@, id, 0) is Some,
        ensures
            final(self).wf(),
            match r {
                Ok(_) => {
                    let i = position_of_id(old(self)@, event.id->0, 0)->0;
                    &&& event.id is Some
                    &&& final(self)@ == (if old(self)@[i].date != event.date {
                        stable_sort(old(self)@.update(i, event), event_lt())
                    } else {
                        old(self)@.update(i, event)
                    })
                },
                Err(EventManagerError::MissingEventId(t)) => event.id is None && t@ == event.title@
                    && final(self)@ == old(self)@,
                Err(_) => false,
            },
    {
        let event_id = match event.get_id() {
            Some(id) => id,
            None => {
                return Err(EventManagerError::MissingEventId(event.title.clone()));
            },
        };
        match self.position_of_id_exec(event_id) {
            Some(index) => {
                self.replace_event(index, event);
                Ok(())
            },
            None => {
                proof {
                    assert(false);
                }
                Ok(())
            },
        }
    }

    /// Deletes the event at `event_index`: from the given day on (its recurrence then ends at
    /// the start of that day), on that day only (the day is then skipped), or altogether.
    /// Says what storage has to do.
    pub fn delete_event(
        &mut self,
        event_index: usize,
        deletion_option: Option<RecurrenceDeletion>,
    ) -> (r: Result<EventChange, EventManagerError>)
        requires
            old(self).wf(),
            event_index < old(self)@.len(),
            deletion_option matches Some(RecurrenceDeletion::FromHere(d)) ==> d.wf(),
            deletion_option matches Some(RecurrenceDeletion::ThisOnly(d)) ==> d.wf(),
        ensures
            final(self).wf(),
            ({
                let e = old(self)@[event_index as int];
                match r {
                    Err(EventManagerError::MissingEventId(t)) => e.id is None && t@ == e.title@
                        && final(self)@ == old(self)@,
                    Err(_) => false,
                    Ok(EventChange::Updated(i)) => {
                        &&& e.id is Some
                        &&& i == event_index
                        &&& final(self)@.len() == old(self)@.len()
                        &&& forall|j: int| 0 <= j < old(self)@.len() && j != i ==> final(self)@[j] == old(self)@[j]
                        &&& match deletion_option {
                            Some(RecurrenceDeletion::FromHere(d)) => final(self)@[i as int] == ended_from(e, d),
                            Some(RecurrenceDeletion::ThisOnly(d)) => {
                                &&& final(self)@[i as int] == Event { skipped_dates: final(self)@[i as int].skipped_dates, ..e }
                                &&& final(self)@[i as int].skipped_dates@ == e.skipped_dates@.push(d)
                            },
                            _ => false,
                        }
                    },
                    Ok(EventChange::Removed(id)) => {
                        &&& e.id == Some(id)
                        &&& !(deletion_option matches Some(RecurrenceDeletion::FromHere(_)))
                        &&& !(deletion_option matches Some(RecurrenceDeletion::ThisOnly(_)))
                        &&& final(self)@ == old(self)@.remove(event_index as int)
                    },
                }
            }),
    {
        let id = match self.events[event_index].get_id() {
            Some(id) => id,
            None => {
                return Err(EventManagerError::MissingEventId(self.events[event_index].title.clone()));
            },
        };
        let ghost old_events = self@;
        match deletion_option {
            Some(RecurrenceDeletion::FromHere(date)) => {
                let time = match TimeOfDay::from_hms_opt(0, 0, 0) {
                    Some(t) => t,
                    None => {
                        return Err(EventManagerError::InvalidTime(0, 0, 0));
                    },
                };
                let end = DateTime::new(date.date, time);
                let mut e = self.events.remove(event_index);
                e.recurrence_end = Some(end);
                self.events.insert(event_index, e);
                proof {
                    self.lemma_same_dates_keep_order(old_events, event_index as int);
                }
                Ok(EventChange::Updated(event_index))
            },
            Some(RecurrenceDeletion::ThisOnly(date)) => {
                let mut e = self.events.remove(event_index);
                e.skipped_dates.push(date);
                self.events.insert(event_index, e);
                proof {
                    self.lemma_same_dates_keep_order(old_events, event_index as int);
                }
                Ok(EventChange::Updated(event_index))
            },
            _ => {
                self.events.remove(event_index);
                proof {
                    let n = self@;
                    assert forall|i: int, j: int| 0 <= i < j < n.len() implies !(#[trigger] n[j]).date.before(#[trigger] n[i].date) by {
                        let oi = if i < event_index { i } else { i + 1 };
                        let oj = if j < event_index { j } else { j + 1 };
                        assert(n[i] == old_events[oi] && n[j] == old_events[oj]);
                    }
                    assert forall|i: int| 0 <= i < n.len() implies (#[trigger] n[i]).wf() by {
                        let oi = if i < event_index { i } else { i + 1 };
                        assert(n[i] == old_events[oi]);
                    }
                }
                Ok(EventChange::Removed(id))
            },
        }
    }

    /// Replacing one event by a valid one with the same date keeps the date order.
    proof fn lemma_same_dates_keep_order(&self, old_events: Seq<Event>, k: int)
        requires
            in_date_order(old_events),
            all_valid(old_events),
            0 <= k < old_events.len(),
            self@.len() == old_events.len(),
            self@[k].date == old_events[k].date,
            self@[k].wf(),
            forall|j: int| 0 <= j < old_events.len() && j != k ==> self@[j] == old_events[j],
        ensures
            self.wf(),
    {
        let n = self@;
        assert forall|i: int, j: int| 0 <= i < j < n.len() implies !(#[trigger] n[j]).date.before(#[trigger] n[i].date) by {
            assert(n[i].date == old_events[i].date && n[j].date == old_events[j].date);
        }
        assert forall|i: int| 0 <= i < n.len() implies (#[trigger] n[i]).wf() by {
            if i != k {
                assert(n[i] == old_events[i]);
            }
        }
    }

    /// Deletes the event with the id of `event`, as `delete_event` does.
    pub fn delete_event_with_id(
        &mut self,
        event: &Event,
        deletion_option: Option<RecurrenceDeletion>,
    ) -> (r: Result<EventChange, EventManagerError>)
        requires
            old(self).wf(),
            deletion_option matches Some(RecurrenceDeletion::FromHere(d)) ==> d.wf(),
            deletion_option matches Some(RecurrenceDeletion::ThisOnly(d)) ==> d.wf(),
        ensures
            final(self).wf(),
            match event.id {
                None => (r matches Err(EventManagerError::MissingEventId(t)) && t@ == event.title@)
                    && final(self)@ == old(self)@,
                Some(id) => match position_of_id(old(self)@, id, 0) {
                    None => (r matches Err(EventManagerError::EventIdNotFound(x)) && x == id)
                        && final(self)@ == old(self)@,
                    Some(i) => match r {
                        Ok(EventChange::Updated(j)) => j == i && final(self)@.len() == old(self)@.len()
                            && (forall|m: int| 0 <= m < old(self)@.len() && m != i ==> final(self)@[m] == old(self)@[m])
                            && match deletion_option {
                                Some(RecurrenceDeletion::FromHere(d)) => final(self)@[i] == ended_from(old(self)@[i], d),
                                Some(RecurrenceDeletion::ThisOnly(d)) => final(self)@[i] == Event {
                                    skipped_dates: final(self)@[i].skipped_dates,
                                    ..old(self)@[i]
                                } && final(self)@[i].skipped_dates@ == old(self)@[i].skipped_dates@.push(d),
                                _ => false,
                            },
                        Ok(EventChange::Removed(x)) => x == id && final(self)@ == old(self)@.remove(i),
                        Err(_) => false,
                    },
                },
            },
    {
        let event_id = match event.get_id() {
            Some(id) => id,
            None => {
                return Err(EventManagerError::MissingEventId(event.title.clone()));
            },
        };
        let index = match self.position_of_id_exec(event_id) {
            Some(i) => i,
            None => {
                return Err(EventManagerError::EventIdNotFound(event_id));
            },
        };
        proof {
            lemma_position_of_id(self@, event_id, 0);
        }
        self.delete_event(index, deletion_option)
    }
}

fn entry_before(_none: &(), a: &(usize, DateTime), b: &(usize, DateTime)) -> (r: bool)
    ensures
        r == entry_lt()(*a, *b),
{
    a.1.is_before(&b.1)
}

fn event_before(_none: &(), a: &Event, b: &Event) -> (r: bool)
    ensures
        r == event_lt()(*a, *b),
{
    a.date.is_before(&b.date)
}

/// What `first_not_before` finds: every earlier event is before `t`, and it is not.
proof fn lemma_first_not_before(events: Seq<Event>, t: DateTime, i: int)
    requires
        0 <= i <= events.len(),
        in_date_order(events),
        all_valid(events),
    ensures
        i <= first_not_before(events, t, i) <= events.len(),
        forall|j: int| i <= j < first_not_before(events, t, i) ==> (#[trigger] events[j]).date.before(t),
        forall|j: int| first_not_before(events, t, i) <= j < events.len() ==> !(#[trigger] events[j]).date.before(t),
    decreases events.len() - i,
{
    if i < events.len() {
        if events[i].date.before(t) {
            lemma_first_not_before(events, t, i + 1);
        } else {
            assert forall|j: int| i <= j < events.len() implies !(#[trigger] events[j]).date.before(t) by {
                if j > i && events[j].date.before(t) {
                    assert(!events[j].date.before(events[i].date));
                    lemma_before_total(events[i].date, events[j].date);
                    if events[i].date.before(events[j].date) {
                        lemma_before_trans(events[i].date, events[j].date, t);
                    }
                }
            }
        }
    }
}

/// The id found by `position_of_id` is that of the event at that position.
proof fn lemma_position_of_id(events: Seq<Event>, id: i64, i: int)
    requires
        0 <= i,
    ensures
        position_of_id(events, id, i) matches Some(k) ==> i <= k < events.len() && events[k].id == Some(id),
    decreases events.len() - i,
{
    if i < events.len() && events[i].id != Some(id) {
        lemma_position_of_id(events, id, i + 1);
    }
}

/// Of two date-times, one is before the other or they are equal.
pub proof fn lemma_before_total(a: DateTime, b: DateTime)
    ensures
        a.before(b) || b.before(a) || a == b,
        !(a.before(b) && b.before(a)),
{
}

/// Being before is transitive.
pub proof fn lemma_before_trans(a: DateTime, b: DateTime, c: DateTime)
    requires
        a.before(b),
        b.before(c),
    ensures
        a.before(c),
{
}

/// Date order between events is a strict order.
pub proof fn lemma_date_order_strict()
    ensures
        strict_order(event_lt()),
        strict_order(entry_lt()),
{
}

/// The entries of the first `k` events lie at positions below `k`.
proof fn lemma_raw_entries_positions(events: Seq<Event>, dt: DateTime, k: int)
    requires
        0 <= k <= events.len(),
    ensures
        forall|m: int| 0 <= m < raw_entries(events, dt, k).len() ==> (#[trigger] raw_entries(events, dt, k)[m]).0 < k,
    decreases k,
{
    if k > 0 {
        lemma_raw_entries_positions(events, dt, k - 1);
        let prev = raw_entries(events, dt, k - 1);
        match entry_date(events, dt, k - 1) {
            Some(d) => {
                assert(raw_entries(events, dt, k) == prev.push(((k - 1) as usize, d)));
            },
            None => {
                assert(raw_entries(events, dt, k) == prev);
            },
        }
    }
}

/// The events of a day come in the order of the dates at which they occur that day.
pub proof fn lemma_day_entries_in_order(events: Seq<Event>, dt: DateTime)
    requires
        in_date_order(events),
        all_valid(events),
        events.len() <= usize::MAX,
    ensures
        sorted_by(day_entries(events, dt), entry_lt()),
{
    let k = day_cutoff(events, dt);
    lemma_first_not_before(events, day_start(dt), 0);
    match next_day_start(dt) {
        Some(n) => lemma_first_not_before(events, n, 0),
        None => {},
    }
    if needs_sort(events, dt, k) {
        lemma_date_order_strict();
        lemma_stable_sort_sorted(raw_entries(events, dt, k), entry_lt());
    } else {
        lemma_direct_entries(events, dt, k);
        let r = raw_entries(events, dt, k);
        assert forall|a: int, b: int| 0 <= a < b < r.len() implies !entry_lt()(#[trigger] r[b], #[trigger] r[a]) by {
            assert(!events[r[b].0 as int].date.before(events[r[a].0 as int].date));
        }
    }
}

/// Where no event of the first `k` is listed through its recurrence, each entry is an event
/// at its own date, and the positions increase.
proof fn lemma_direct_entries(events: Seq<Event>, dt: DateTime, k: int)
    requires
        0 <= k <= events.len(),
        events.len() <= usize::MAX,
        !needs_sort(events, dt, k),
    ensures
        forall|m: int|
            0 <= m < raw_entries(events, dt, k).len() ==> {
                &&& (#[trigger] raw_entries(events, dt, k)[m]).0 < k
                &&& raw_entries(events, dt, k)[m].1 == events[raw_entries(events, dt, k)[m].0 as int].date
            },
        forall|a: int, b: int|
            0 <= a < b < raw_entries(events, dt, k).len() ==> (#[trigger] raw_entries(events, dt, k)[a]).0
                < (#[trigger] raw_entries(events, dt, k)[b]).0,
    decreases k,
{
    if k > 0 {
        assert(!needs_sort(events, dt, k - 1)) by {
            if needs_sort(events, dt, k - 1) {
                let w = choose|w: int| 0 <= w < k - 1 && !direct_entry(events, dt, w) && #[trigger] entry_date(events, dt, w) is Some;
                assert(0 <= w < k && !direct_entry(events, dt, w) && entry_date(events, dt, w) is Some);
            }
        }
        lemma_direct_entries(events, dt, k - 1);
        let prev = raw_entries(events, dt, k - 1);
        match entry_date(events, dt, k - 1) {
            Some(d) => {
                assert(raw_entries(events, dt, k) == prev.push(((k - 1) as usize, d)));
                assert(direct_entry(events, dt, k - 1));
            },
            None => {
                assert(raw_entries(events, dt, k) == prev);
            },
        }
    }
}

} // verus!
