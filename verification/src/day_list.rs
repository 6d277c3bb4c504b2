//! The list of the events of the shown day: which row is selected, which event each row
//! stands for, and how an event's date, recurrence and duration are edited.

use vstd::prelude::*;
use crate::action::{Action, ActionTarget, RoutedAction, render_request, to_all};
use crate::date::{DateTime, TimeDelta, TimeOfDay, Weekday, checked_add_signed, day_after, in_day_range, time_after};
use crate::date_text::{hm_text, push_hm};
use crate::text::push_char;
use crate::event::{Event, EventManagerError, RecurrenceDeletion, RecurrenceInterval};
use crate::table_widget::{TableState, sat_dec, sat_inc};

verus! {

/// The kinds of recurrence the user picks from, in the order they are offered.
#[derive(Debug, Clone, Copy, PartialEq, Eq, Structural)]
pub enum RecurrenceSelection {
    NoRecurrence,
    EveryNDays,
    EveryWeekday,
    EveryStartOfMonth,
    EveryEndOfMonth,
    EveryYear,
    EveryNWeeks,
}

/// The weekdays the user picks from, in the order they are offered.
pub open spec fn weekday_choices_spec() -> Seq<Weekday> {
    seq![Weekday::Sun, Weekday::Sat, Weekday::Fri, Weekday::Thu, Weekday::Wed, Weekday::Tue, Weekday::Mon]
}

/// The recurrence `r` stands for what a pick asks: `Some(None)` for no recurrence, the same
/// kind with the number the user gave (which must be positive) or with the picked weekdays
/// in order (at least one); `None` where the pick is incomplete and nothing is to change.
pub open spec fn is_recurrence_of(
    r: Option<Option<RecurrenceInterval>>,
    selection: RecurrenceSelection,
    number: Option<u32>,
    weekdays: Seq<Weekday>,
) -> bool {
    match selection {
        RecurrenceSelection::NoRecurrence => r == Some(None::<RecurrenceInterval>),
        RecurrenceSelection::EveryNDays => match number {
            Some(n) => if n > 0 {
                r == Some(Some(RecurrenceInterval::EveryNDays(n)))
            } else {
                r is None
            },
            None => r is None,
        },
        RecurrenceSelection::EveryWeekday => if weekdays.len() > 0 {
            r matches Some(Some(RecurrenceInterval::EveryWeekday(ws))) && ws@ == weekdays
        } else {
            r is None
        },
        RecurrenceSelection::EveryStartOfMonth => r == Some(Some(RecurrenceInterval::EveryStartOfMonth)),
        RecurrenceSelection::EveryEndOfMonth => r == Some(Some(RecurrenceInterval::EveryEndOfMonth)),
        RecurrenceSelection::EveryYear => r == Some(Some(RecurrenceInterval::EveryYear)),
        RecurrenceSelection::EveryNWeeks => match number {
            Some(n) => if n > 0 {
                r == Some(Some(RecurrenceInterval::EveryNWeeks(n)))
            } else {
                r is None
            },
            None => r is None,
        },
    }
}

/// What the day list needs from outside before it can go on.
#[derive(Debug, Clone, Copy, PartialEq, Eq, Structural)]
pub enum DayListRequest {
    /// Read the events of the day (`EventManager::get_events_for_date`) and hand their
    /// positions to `CalendarInfo::set_day`.
    ReadDay(DateTime),
    /// Let the user edit the title and description of the event at this position.
    EditEvent(usize),
    /// Ask the user for the duration of the event at this position (`edit_duration`).
    EditDuration(usize),
    /// Ask the user for the recurrence of the event at this position (`edit_recurrence`),
    /// then send `CalendarInfo::date_actions`.
    EditRecurrence(usize),
    /// Ask the user for the date of the event at this position (`edit_date`), then send
    /// `CalendarInfo::date_actions`.
    EditDate(usize),
    /// Ask the user how to delete the event at this position (`deletion_options`) and delete it.
    DeleteEvent(usize),
}

/// What an action leads to: the actions to send, and what to do outside first, if anything.
pub struct DayListStep {
    pub actions: Vec<RoutedAction>,
    pub request: Option<DayListRequest>,
}

/// The events of the shown day: `event_indices[i]` is the position, among all events, of
/// the event in row `i`.
pub struct CalendarInfo {
    pub current_date: Option<DateTime>,
    pub state: TableState,
    pub event_indices: Vec<usize>,
}

/// The first row whose event is at position `event_index`.
pub open spec fn first_row_of(rows: Seq<usize>, event_index: usize) -> Option<int> {
    if exists|i: int| 0 <= i < rows.len() && rows[i] == event_index {
        Some(choose|i: int| 0 <= i < rows.len() && rows[i] == event_index && forall|j: int| 0 <= j < i ==> rows[j] != event_index)
    } else {
        None
    }
}

impl CalendarInfo {
    /// No day yet, no row selected.
    pub fn new() -> (r: Self)
        ensures
            r.current_date is None,
            r.state == (TableState { offset: 0, selected: None, selected_column: None }),
            r.event_indices@.len() == 0,
    {
        CalendarInfo { current_date: None, state: TableState::new(), event_indices: Vec::new() }
    }

    /// Selects the first row that shows the event at position `event_index`; nothing
    /// changes where no row shows it.
    pub fn select_event_index(&mut self, event_index: usize)
        ensures
            final(self).current_date == old(self).current_date,
            final(self).event_indices@ == old(self).event_indices@,
            match first_row_of(old(self).event_indices@, event_index) {
                Some(i) => final(self).state == (TableState {
                    selected: Some(i as usize),
                    ..old(self).state
                }),
                None => final(self).state == old(self).state,
            },
    {
        let mut i: usize = 0;
        while i < self.event_indices.len()
            invariant
                i <= self.event_indices@.len(),
                self.event_indices@ == old(self).event_indices@,
                self.state == old(self).state,
                self.current_date == old(self).current_date,
                forall|j: int| 0 <= j < i ==> self.event_indices@[j] != event_index,
            decreases self.event_indices@.len() - i,
        {
            if self.event_indices[i] == event_index {
                proof {
                    let rows = self.event_indices@;
                    assert(0 <= i < rows.len() && rows[i as int] == event_index);
                    let c = choose|k: int| 0 <= k < rows.len() && rows[k] == event_index && forall|j: int| 0 <= j < k ==> rows[j] != event_index;
                    assert(c == i) by {
                        if c < i {
                            assert(rows[c] != event_index);
                        } else if c > i {
                            assert(rows[i as int] != event_index);
                        }
                    }
                }
                self.state.select(Some(i));
                return;
            }
            i += 1;
        }
    }

    /// Selects the row of the first listed event that has the id `id`; nothing changes where
    /// no listed event has it.
    pub fn select_event_index_by_id(&mut self, events: &Vec<Event>, id: Option<i64>)
        requires
            forall|i: int| 0 <= i < old(self).event_indices@.len() ==> #[trigger] old(self).event_indices@[i] < events@.len(),
        ensures
            final(self).current_date == old(self).current_date,
            final(self).event_indices@ == old(self).event_indices@,
            (forall|i: int| 0 <= i < old(self).event_indices@.len() ==> events@[#[trigger] old(self).event_indices@[i] as int].id != id)
                ==> final(self).state == old(self).state,
            forall|i: int|
                0 <= i < old(self).event_indices@.len() && events@[#[trigger] old(self).event_indices@[i] as int].id == id
                    && (forall|j: int| 0 <= j < i ==> events@[old(self).event_indices@[j] as int].id != id)
                    ==> final(self).state == (TableState { selected: Some(i as usize), ..old(self).state }),
    {
        let mut i: usize = 0;
        while i < self.event_indices.len()
            invariant
                i <= self.event_indices@.len(),
                self.event_indices@ == old(self).event_indices@,
                self.state == old(self).state,
                self.current_date == old(self).current_date,
                forall|k: int| 0 <= k < self.event_indices@.len() ==> #[trigger] self.event_indices@[k] < events@.len(),
                forall|j: int| 0 <= j < i ==> events@[#[trigger] self.event_indices@[j] as int].id != id,
            decreases self.event_indices@.len() - i,
        {
            let event_index = self.event_indices[i];
            if events[event_index].get_id() == id {
                proof {
                    let rows = self.event_indices@;
                    assert forall|j: int| 0 <= j < i implies rows[j] != event_index by {
                        assert(events@[rows[j] as int].id != id);
                    }
                    assert(0 <= i < rows.len() && rows[i as int] == event_index);
                    let c = choose|k: int| 0 <= k < rows.len() && rows[k] == event_index && forall|j: int| 0 <= j < k ==> rows[j] != event_index;
                    assert(c == i) by {
                        if c < i {
                            assert(rows[c] != event_index);
                        } else if c > i {
                            assert(rows[i as int] != event_index);
                        }
                    }
                    assert forall|k: int|
                        0 <= k < rows.len() && events@[#[trigger] rows[k] as int].id == id
                            && (forall|j: int| 0 <= j < k ==> events@[rows[j] as int].id != id)
                        implies k == i by {
                        if k < i {
                            assert(events@[rows[k] as int].id != id);
                        } else if k > i {
                            assert(events@[rows[i as int] as int].id != id);
                        }
                    }
                }
                self.select_event_index(event_index);
                return;
            }
            i += 1;
        }
    }

    /// Selects the next row.
    pub fn next(&mut self)
        ensures
            final(self).current_date == old(self).current_date,
            final(self).event_indices@ == old(self).event_indices@,
            final(self).state == (TableState {
                selected: Some(
                    match old(self).state.selected {
                        Some(i) => sat_inc(i),
                        None => 0,
                    },
                ),
                ..old(self).state
            }),
    {
        self.state.select_next();
    }

    /// Selects the previous row.
    pub fn prev(&mut self)
        ensures
            final(self).current_date == old(self).current_date,
            final(self).event_indices@ == old(self).event_indices@,
            final(self).state == (TableState {
                selected: Some(
                    match old(self).state.selected {
                        Some(i) => sat_dec(i),
                        None => usize::MAX,
                    },
                ),
                ..old(self).state
            }),
    {
        self.state.select_previous();
    }

    /// Takes the events of the day: the positions, among all events, of the events in the
    /// order of the rows (the first part of each entry of `get_events_for_date`).
    pub fn set_day(&mut self, positions: Vec<usize>)
        ensures
            final(self).event_indices@ == positions@,
            final(self).current_date == old(self).current_date,
            final(self).state == old(self).state,
    {
        self.event_indices = positions;
    }

    /// The position, among all events, of the event in the selected row.
    pub fn current_event_index(&self) -> (r: Option<usize>)
        requires
            self.state.selected matches Some(i) ==> i < self.event_indices@.len(),
        ensures
            match self.state.selected {
                Some(i) => r == Some(self.event_indices@[i as int]),
                None => r is None,
            },
    {
        match self.state.selected() {
            Some(i) => Some(self.event_indices[i]),
            None => None,
        }
    }

    /// What follows a change of the shown date by an edit: the date to all and a request to
    /// draw again; nothing where there is no date.
    pub fn date_actions(&self) -> (r: Vec<RoutedAction>)
        ensures
            match self.current_date {
                Some(d) => r@ == seq![
                    RoutedAction { action: Action::CurrentDateUpdated(d), target: ActionTarget::All },
                    RoutedAction { action: Action::Render, target: ActionTarget::App },
                ],
                None => r@.len() == 0,
            },
    {
        let mut v: Vec<RoutedAction> = Vec::new();
        if let Some(d) = self.current_date {
            v.push(to_all(Action::CurrentDateUpdated(d)));
            v.push(render_request());
        }
        v
    }

    /// Handles `action`: takes a new day, moves or sets the selection, or asks for the edit
    /// of the selected event.
    pub fn update(&mut self, action: &Action) -> (r: DayListStep)
        requires
            old(self).state.selected matches Some(i) ==> i < old(self).event_indices@.len(),
        ensures
            final(self).event_indices@ == old(self).event_indices@,
            match *action {
                Action::CurrentDateUpdated(d) => final(self).current_date == Some(d)
                    && final(self).state == old(self).state && r.actions@.len() == 0
                    && r.request == Some(DayListRequest::ReadDay(d)),
                Action::SelectEventIndex(i) => final(self).current_date == old(self).current_date
                    && r.request is None && r.actions@ == seq![
                    RoutedAction { action: Action::Render, target: ActionTarget::App },
                ] && match first_row_of(old(self).event_indices@, i) {
                    Some(k) => final(self).state == (TableState {
                        selected: Some(k as usize),
                        ..old(self).state
                    }),
                    None => final(self).state == old(self).state,
                },
                Action::UpdateCurrentDay => final(self).current_date == old(self).current_date
                    && final(self).state == old(self).state && r.actions@.len() == 0
                    && match old(self).current_date {
                    Some(d) => r.request == Some(DayListRequest::ReadDay(d)),
                    None => r.request is None,
                },
                Action::NextEvent => final(self).current_date == old(self).current_date
                    && r.request is None && r.actions@ == seq![
                    RoutedAction { action: Action::Render, target: ActionTarget::App },
                ] && final(self).state.selected == Some(
                    match old(self).state.selected {
                        Some(i) => sat_inc(i),
                        None => 0,
                    },
                ),
                Action::PrevEvent => final(self).current_date == old(self).current_date
                    && r.request is None && r.actions@ == seq![
                    RoutedAction { action: Action::Render, target: ActionTarget::App },
                ] && final(self).state.selected == Some(
                    match old(self).state.selected {
                        Some(i) => sat_dec(i),
                        None => usize::MAX,
                    },
                ),
                Action::EditEvent => final(self).current_date == old(self).current_date
                    && final(self).state == old(self).state && r.actions@ == seq![
                    RoutedAction { action: Action::Render, target: ActionTarget::App },
                ] && match old(self).state.selected {
                    Some(i) => r.request == Some(DayListRequest::EditEvent(old(self).event_indices@[i as int])),
                    None => r.request is None,
                },
                Action::EditDurationTime => final(self).current_date == old(self).current_date
                    && final(self).state == old(self).state && r.actions@ == seq![
                    RoutedAction { action: Action::Render, target: ActionTarget::App },
                ] && match old(self).state.selected {
                    Some(i) => r.request == Some(DayListRequest::EditDuration(old(self).event_indices@[i as int])),
                    None => r.request is None,
                },
                Action::DeleteEvent => final(self).current_date == old(self).current_date
                    && final(self).state == old(self).state && r.actions@ == seq![
                    RoutedAction { action: Action::Render, target: ActionTarget::App },
                ] && match (old(self).state.selected, old(self).current_date) {
                    (Some(i), Some(_)) => r.request == Some(DayListRequest::DeleteEvent(old(self).event_indices@[i as int])),
                    _ => r.request is None,
                },
                Action::EditRecurrence => final(self).current_date == old(self).current_date
                    && final(self).state == old(self).state && match old(self).state.selected {
                    Some(i) => r.actions@.len() == 0 && r.request == Some(DayListRequest::EditRecurrence(old(self).event_indices@[i as int])),
                    None => r.request is None && (match old(self).current_date {
                        Some(d) => r.actions@ == seq![
                            RoutedAction { action: Action::CurrentDateUpdated(d), target: ActionTarget::All },
                            RoutedAction { action: Action::Render, target: ActionTarget::App },
                        ],
                        None => r.actions@.len() == 0,
                    }),
                },
                Action::EditDate => final(self).current_date == old(self).current_date
                    && final(self).state == old(self).state && match old(self).state.selected {
                    Some(i) => r.actions@.len() == 0 && r.request == Some(DayListRequest::EditDate(old(self).event_indices@[i as int])),
                    None => r.request is None && (match old(self).current_date {
                        Some(d) => r.actions@ == seq![
                            RoutedAction { action: Action::CurrentDateUpdated(d), target: ActionTarget::All },
                            RoutedAction { action: Action::Render, target: ActionTarget::App },
                        ],
                        None => r.actions@.len() == 0,
                    }),
                },
                _ => final(self).current_date == old(self).current_date && final(self).state
                    == old(self).state && r.request is None && r.actions@.len() == 0,
            },
    {
        match action {
            Action::CurrentDateUpdated(d) => {
                self.current_date = Some(*d);
                DayListStep { actions: Vec::new(), request: Some(DayListRequest::ReadDay(*d)) }
            },
            Action::SelectEventIndex(i) => {
                self.select_event_index(*i);
                let mut v: Vec<RoutedAction> = Vec::new();
                v.push(render_request());
                DayListStep { actions: v, request: None }
            },
            Action::UpdateCurrentDay => {
                let request = match self.current_date {
                    Some(d) => Some(DayListRequest::ReadDay(d)),
                    None => None,
                };
                DayListStep { actions: Vec::new(), request }
            },
            Action::NextEvent => {
                self.next();
                let mut v: Vec<RoutedAction> = Vec::new();
                v.push(render_request());
                DayListStep { actions: v, request: None }
            },
            Action::PrevEvent => {
                self.prev();
                let mut v: Vec<RoutedAction> = Vec::new();
                v.push(render_request());
                DayListStep { actions: v, request: None }
            },
            Action::EditEvent => {
                let request = match self.current_event_index() {
                    Some(k) => Some(DayListRequest::EditEvent(k)),
                    None => None,
                };
                let mut v: Vec<RoutedAction> = Vec::new();
                v.push(render_request());
                DayListStep { actions: v, request }
            },
            Action::EditDurationTime => {
                let request = match self.current_event_index() {
                    Some(k) => Some(DayListRequest::EditDuration(k)),
                    None => None,
                };
                let mut v: Vec<RoutedAction> = Vec::new();
                v.push(render_request());
                DayListStep { actions: v, request }
            },
            Action::DeleteEvent => {
                let request = match (self.current_event_index(), self.current_date) {
                    (Some(k), Some(_)) => Some(DayListRequest::DeleteEvent(k)),
                    _ => None,
                };
                let mut v: Vec<RoutedAction> = Vec::new();
                v.push(render_request());
                DayListStep { actions: v, request }
            },
            Action::EditRecurrence => match self.current_event_index() {
                Some(k) => DayListStep {
                    actions: Vec::new(),
                    request: Some(DayListRequest::EditRecurrence(k)),
                },
                None => DayListStep { actions: self.date_actions(), request: None },
            },
            Action::EditDate => match self.current_event_index() {
                Some(k) => DayListStep { actions: Vec::new(), request: Some(DayListRequest::EditDate(k)) },
                None => DayListStep { actions: self.date_actions(), request: None },
            },
            _ => DayListStep { actions: Vec::new(), request: None },
        }
    }
}

/// The kinds of recurrence, in the order the user is offered them.
pub fn recurrence_selections() -> (r: Vec<RecurrenceSelection>)
    ensures
        r@ == seq![
            RecurrenceSelection::NoRecurrence,
            RecurrenceSelection::EveryNDays,
            RecurrenceSelection::EveryWeekday,
            RecurrenceSelection::EveryStartOfMonth,
            RecurrenceSelection::EveryEndOfMonth,
            RecurrenceSelection::EveryYear,
            RecurrenceSelection::EveryNWeeks,
        ],
{
    let mut v: Vec<RecurrenceSelection> = Vec::new();
    v.push(RecurrenceSelection::NoRecurrence);
    v.push(RecurrenceSelection::EveryNDays);
    v.push(RecurrenceSelection::EveryWeekday);
    v.push(RecurrenceSelection::EveryStartOfMonth);
    v.push(RecurrenceSelection::EveryEndOfMonth);
    v.push(RecurrenceSelection::EveryYear);
    v.push(RecurrenceSelection::EveryNWeeks);
    v
}

/// The weekdays, in the order the user is offered them: Sunday first, Monday last.
pub fn weekday_choices() -> (r: Vec<Weekday>)
    ensures
        r@ == weekday_choices_spec(),
{
    let mut v: Vec<Weekday> = Vec::new();
    v.push(Weekday::Sun);
    v.push(Weekday::Sat);
    v.push(Weekday::Fri);
    v.push(Weekday::Thu);
    v.push(Weekday::Wed);
    v.push(Weekday::Tue);
    v.push(Weekday::Mon);
    v
}

/// The weekdays at the picked positions of `weekday_choices`, in the order picked.
pub fn weekdays_at(picked: &Vec<usize>) -> (r: Vec<Weekday>)
    requires
        forall|i: int| 0 <= i < picked@.len() ==> #[trigger] picked@[i] < 7,
    ensures
        r@ == picked@.map_values(|k: usize| weekday_choices_spec()[k as int]),
{
    let choices = weekday_choices();
    let mut v: Vec<Weekday> = Vec::new();
    let mut i: usize = 0;
    while i < picked.len()
        invariant
            i <= picked@.len(),
            choices@ == weekday_choices_spec(),
            forall|k: int| 0 <= k < picked@.len() ==> #[trigger] picked@[k] < 7,
            v@ == picked@.take(i as int).map_values(|k: usize| weekday_choices_spec()[k as int]),
        decreases picked@.len() - i,
    {
        v.push(choices[picked[i]]);
        i += 1;
        assert(v@ =~= picked@.take(i as int).map_values(|k: usize| weekday_choices_spec()[k as int]));
    }
    assert(picked@.take(picked@.len() as int) =~= picked@);
    v
}

/// The recurrence a pick stands for (see `recurrence_of`): the kind, the number the user
/// gave for the kinds that need one, and the picked weekdays.
pub fn recurrence_from(selection: RecurrenceSelection, number: Option<u32>, weekdays: Vec<Weekday>) -> (r: Option<
    Option<RecurrenceInterval>,
>)
    ensures
        is_recurrence_of(r, selection, number, weekdays@),
{
    match selection {
        RecurrenceSelection::NoRecurrence => Some(None),
        RecurrenceSelection::EveryNDays => match number {
            Some(n) => if n > 0 {
                Some(Some(RecurrenceInterval::EveryNDays(n)))
            } else {
                None
            },
            None => None,
        },
        RecurrenceSelection::EveryWeekday => if weekdays.len() > 0 {
            Some(Some(RecurrenceInterval::EveryWeekday(weekdays)))
        } else {
            None
        },
        RecurrenceSelection::EveryStartOfMonth => Some(Some(RecurrenceInterval::EveryStartOfMonth)),
        RecurrenceSelection::EveryEndOfMonth => Some(Some(RecurrenceInterval::EveryEndOfMonth)),
        RecurrenceSelection::EveryYear => Some(Some(RecurrenceInterval::EveryYear)),
        RecurrenceSelection::EveryNWeeks => match number {
            Some(n) => if n > 0 {
                Some(Some(RecurrenceInterval::EveryNWeeks(n)))
            } else {
                None
            },
            None => None,
        },
    }
}

/// Gives the event the recurrence `interval` and moves its date onto it (see
/// `Event::update_date`); on an error the event keeps its date and has the new recurrence.
pub fn edit_recurrence(event: &mut Event, interval: Option<RecurrenceInterval>) -> (r: Result<(), EventManagerError>)
    requires
        old(event).wf(),
    ensures
        ({
            let e = Event { recurrence_interval: interval, ..*old(event) };
            match e.updated_date() {
                Ok(d) => r is Ok && *final(event) == (Event { date: d, ..e }),
                Err(err) => r == Err::<(), EventManagerError>(err) && *final(event) == e,
            }
        }),
{
    event.recurrence_interval = interval;
    event.update_date()
}

/// Gives the event the date `date` and moves it onto its recurrence (see
/// `Event::update_date`).
pub fn edit_date(event: &mut Event, date: DateTime) -> (r: Result<(), EventManagerError>)
    requires
        old(event).wf(),
        date.wf(),
    ensures
        ({
            let e = Event { date: date, ..*old(event) };
            match e.updated_date() {
                Ok(d) => r is Ok && *final(event) == (Event { date: d, ..e }),
                Err(err) => r == Err::<(), EventManagerError>(err) && *final(event) == e,
            }
        }),
{
    event.date = date;
    event.update_date()
}

/// Gives the event the duration the user entered; an empty answer keeps the old one.
pub fn edit_duration(event: &mut Event, duration: Option<TimeDelta>)
    ensures
        *final(event) == (match duration {
            Some(_) => Event { duration: duration, ..*old(event) },
            None => *old(event),
        }),
{
    if duration.is_some() {
        event.duration = duration;
    }
}

/// How a recurring event can be deleted, in the order offered: all of it, from the shown
/// day on, or the shown day only (the day taken at midnight).
pub fn deletion_options(current_date: DateTime) -> (r: Vec<RecurrenceDeletion>)
    ensures
        r@ == seq![
            RecurrenceDeletion::All,
            RecurrenceDeletion::FromHere(DateTime { date: current_date.date, time: TimeOfDay { hour: 0, minute: 0, second: 0, nanosecond: 0 } }),
            RecurrenceDeletion::ThisOnly(DateTime { date: current_date.date, time: TimeOfDay { hour: 0, minute: 0, second: 0, nanosecond: 0 } }),
        ],
{
    let day = DateTime { date: current_date.date, time: TimeOfDay::midnight() };
    let mut v: Vec<RecurrenceDeletion> = Vec::new();
    v.push(RecurrenceDeletion::All);
    v.push(RecurrenceDeletion::FromHere(day));
    v.push(RecurrenceDeletion::ThisOnly(day));
    v
}

/// Selecting a listed event by its position makes it the current event.
pub proof fn lemma_selected_event_is_current(info: CalendarInfo, event_index: usize)
    requires
        first_row_of(info.event_indices@, event_index) is Some,
    ensures
        ({
            let k = first_row_of(info.event_indices@, event_index)->0;
            &&& 0 <= k < info.event_indices@.len()
            &&& info.event_indices@[k] == event_index
        }),
{
    let rows = info.event_indices@;
    let w = choose|i: int| 0 <= i < rows.len() && rows[i] == event_index;
    assert(0 <= w < rows.len() && rows[w] == event_index);
    lemma_first_row_exists(rows, event_index, w);
}

/// Where a row shows the event, there is a first one that shows it.
proof fn lemma_first_row_exists(rows: Seq<usize>, event_index: usize, w: int)
    requires
        0 <= w < rows.len(),
        rows[w] == event_index,
    ensures
        exists|i: int| 0 <= i < rows.len() && rows[i] == event_index && forall|j: int| 0 <= j < i ==> rows[j] != event_index,
    decreases w,
{
    if exists|j: int| 0 <= j < w && rows[j] == event_index {
        let j = choose|j: int| 0 <= j < w && rows[j] == event_index;
        lemma_first_row_exists(rows, event_index, j);
    } else {
        assert(forall|j: int| 0 <= j < w ==> rows[j] != event_index);
    }
}

/// When an event shown from `start` takes place: `HH:MM` of its start, and `-HH:MM` of its end
/// where it has a duration.
pub open spec fn event_time_text(start: DateTime, duration: Option<TimeDelta>) -> Seq<char> {
    match duration {
        None => hm_text(start.time),
        Some(d) => hm_text(start.time) + seq!['-'] + hm_text(time_after(start, d)),
    }
}

/// The texts of the row of an event of the day list shown from `start`: when it takes place
/// (see `event_time_text`), its title, and its recurrence in words (empty where it does not
/// recur).
pub fn event_row(event: &Event, start: &DateTime) -> (r: Vec<String>)
    requires
        start.wf(),
        event.duration matches Some(d) ==> d.in_range() && in_day_range(day_after(*start, d)),
    ensures
        r@.len() == 3,
        start.time.nanosecond < 1_000_000_000 ==> r@[0]@ == event_time_text(*start, event.duration),
        hm_text(start.time).is_prefix_of(r@[0]@),
        r@[1]@ == event.title@,
        r@[2]@ == match event.recurrence_interval {
            Some(ri) => ri.description(),
            None => Seq::empty(),
        },
{
    let mut when = String::new();
    push_hm(&mut when, start.time);
    proof {
        assert(when@ =~= hm_text(start.time));
    }
    match event.duration {
        Some(d) => {
            match checked_add_signed(*start, d) {
                Some(end) => {
                    push_char(&mut when, '-');
                    push_hm(&mut when, end.time);
                },
                None => {},
            }
        },
        None => {},
    }
    proof {
        assert(hm_text(start.time).is_prefix_of(when@)) by {
            assert(when@.subrange(0, hm_text(start.time).len() as int) =~= hm_text(start.time));
        }
    }
    let recurrence = match &event.recurrence_interval {
        Some(ri) => ri.to_display_string(),
        None => String::new(),
    };
    let mut row: Vec<String> = Vec::new();
    row.push(when);
    row.push(event.title.clone());
    row.push(recurrence);
    row
}

} // verus!
