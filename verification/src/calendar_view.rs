//! The month calendar of the event view: the date it shows, how the keys move that date,
//! and what it tells the other parts of the interface.

use vstd::prelude::*;
use crate::action::{Action, ActionTarget, RoutedAction, render_request, to_all, to_app};
use crate::components::ComponentName;
use crate::date::{DateTime, checked_add_days, checked_sub_days, in_day_range, lemma_civil_of_num, lemma_num_of_civil, now, shift_days};
use crate::editor::{editor_fields, event_from_lines, line_views};
use crate::event::Event;
use crate::text::{decimal, is_blank, is_blank_exec, push_char, push_decimal, push_str};

verus! {

/// The date `date` moved by `n` days, keeping its time; unchanged where that leaves the
/// range of dates.
pub open spec fn moved_by_days(date: DateTime, n: int) -> DateTime {
    match shift_days(date.date, n) {
        Some(d) => DateTime { date: d, time: date.time },
        None => date,
    }
}

/// What the other parts learn when the shown date changes: the new date, sent to all, and
/// a request to draw again.
pub open spec fn date_changed_actions(date: DateTime) -> Seq<RoutedAction> {
    seq![
        RoutedAction { action: Action::CurrentDateUpdated(date), target: ActionTarget::All },
        RoutedAction { action: Action::Render, target: ActionTarget::App },
    ]
}

/// The line that stands for the item `i` with `title` and `description` in a search list.
pub open spec fn search_line(i: nat, title: Seq<char>, description: Seq<char>) -> Seq<char> {
    decimal(i) + seq![' '] + title + seq!['\n'] + description
}

/// What the calendar needs from the user before it can go on.
#[derive(Debug, Clone, Copy, PartialEq, Eq, Structural)]
pub enum CalendarRequest {
    /// Pick one of the events (see `Calendar::find_event_options`), then call
    /// `Calendar::find_event`.
    FindEvent,
    /// Write a new event in the editor, then call `Calendar::add_event`, store the event and
    /// call `Calendar::event_added`.
    AddEvent,
}

/// What an action leads to: the actions to send, and what to ask the user first, if anything.
pub struct CalendarStep {
    pub actions: Vec<RoutedAction>,
    pub request: Option<CalendarRequest>,
}

/// The month calendar; `display_date` is the date it shows and marks.
pub struct Calendar {
    pub display_date: DateTime,
}

impl Calendar {
    /// A calendar on the current date.
    pub fn new() -> (r: Self)
        ensures
            r.display_date.wf(),
    {
        Calendar { display_date: now() }
    }

    /// Shows the current date.
    pub fn go_to_current_date(&mut self)
        ensures
            final(self).display_date.wf(),
    {
        self.display_date = now();
    }

    /// Shows the next day (the time of day stays).
    pub fn next_day(&mut self)
        requires
            old(self).display_date.wf(),
        ensures
            final(self).display_date == moved_by_days(old(self).display_date, 1),
            final(self).display_date.wf(),
    {
        self.move_forward(1);
    }

    /// Shows the previous day.
    pub fn prev_day(&mut self)
        requires
            old(self).display_date.wf(),
        ensures
            final(self).display_date == moved_by_days(old(self).display_date, -1),
            final(self).display_date.wf(),
    {
        self.move_back(1);
    }

    /// Shows the same day of the next week.
    pub fn next_week(&mut self)
        requires
            old(self).display_date.wf(),
        ensures
            final(self).display_date == moved_by_days(old(self).display_date, 7),
            final(self).display_date.wf(),
    {
        self.move_forward(7);
    }

    /// Shows the same day of the previous week.
    pub fn prev_week(&mut self)
        requires
            old(self).display_date.wf(),
        ensures
            final(self).display_date == moved_by_days(old(self).display_date, -7),
            final(self).display_date.wf(),
    {
        self.move_back(7);
    }

    fn move_forward(&mut self, n: u64)
        requires
            old(self).display_date.wf(),
        ensures
            final(self).display_date == moved_by_days(old(self).display_date, n as int),
            final(self).display_date.wf(),
    {
        match checked_add_days(self.display_date.date, n) {
            Some(d) => {
                self.display_date = DateTime { date: d, time: self.display_date.time };
            },
            None => {},
        }
    }

    fn move_back(&mut self, n: u64)
        requires
            old(self).display_date.wf(),
        ensures
            final(self).display_date == moved_by_days(old(self).display_date, -(n as int)),
            final(self).display_date.wf(),
    {
        match checked_sub_days(self.display_date.date, n) {
            Some(d) => {
                self.display_date = DateTime { date: d, time: self.display_date.time };
            },
            None => {},
        }
    }

    fn date_actions(&self) -> (r: Vec<RoutedAction>)
        ensures
            r@ == date_changed_actions(self.display_date),
    {
        let mut v: Vec<RoutedAction> = Vec::new();
        v.push(to_all(Action::CurrentDateUpdated(self.display_date)));
        v.push(render_request());
        v
    }

    /// Handles `action`: moves the shown date and tells the others, opens the date input,
    /// or asks the user to pick or write an event; a date sent by another part is shown.
    pub fn update(&mut self, action: &Action) -> (r: CalendarStep)
        requires
            old(self).display_date.wf(),
            action matches Action::CurrentDateUpdated(d) ==> d.wf(),
        ensures
            final(self).display_date.wf(),
            match *action {
                Action::GoToToday => r.request is None && r.actions@ == date_changed_actions(
                    final(self).display_date,
                ),
                Action::GoToPrevDay => final(self).display_date == moved_by_days(
                    old(self).display_date,
                    -1,
                ) && r.request is None && r.actions@ == date_changed_actions(final(self).display_date),
                Action::GoToNextDay => final(self).display_date == moved_by_days(
                    old(self).display_date,
                    1,
                ) && r.request is None && r.actions@ == date_changed_actions(final(self).display_date),
                Action::GoToPrevWeek => final(self).display_date == moved_by_days(
                    old(self).display_date,
                    -7,
                ) && r.request is None && r.actions@ == date_changed_actions(final(self).display_date),
                Action::GoToNextWeek => final(self).display_date == moved_by_days(
                    old(self).display_date,
                    7,
                ) && r.request is None && r.actions@ == date_changed_actions(final(self).display_date),
                Action::FindDate => final(self).display_date == old(self).display_date
                    && r.request is None && r.actions@ == seq![
                    RoutedAction {
                        action: Action::Popup(ComponentName::DateInput),
                        target: ActionTarget::App,
                    },
                    RoutedAction { action: Action::Render, target: ActionTarget::App },
                ],
                Action::FZFFindEvent => final(self).display_date == old(self).display_date
                    && r.request == Some(CalendarRequest::FindEvent) && r.actions@.len() == 0,
                Action::AddEvent => final(self).display_date == old(self).display_date
                    && r.request == Some(CalendarRequest::AddEvent) && r.actions@.len() == 0,
                Action::CurrentDateUpdated(d) => final(self).display_date == d && r.request is None
                    && r.actions@.len() == 0,
                _ => final(self).display_date == old(self).display_date && r.request is None
                    && r.actions@.len() == 0,
            },
    {
        match action {
            Action::GoToToday => {
                self.go_to_current_date();
                CalendarStep { actions: self.date_actions(), request: None }
            },
            Action::GoToPrevDay => {
                self.prev_day();
                CalendarStep { actions: self.date_actions(), request: None }
            },
            Action::GoToNextDay => {
                self.next_day();
                CalendarStep { actions: self.date_actions(), request: None }
            },
            Action::GoToPrevWeek => {
                self.prev_week();
                CalendarStep { actions: self.date_actions(), request: None }
            },
            Action::GoToNextWeek => {
                self.next_week();
                CalendarStep { actions: self.date_actions(), request: None }
            },
            Action::FindDate => {
                let mut v: Vec<RoutedAction> = Vec::new();
                v.push(to_app(Action::Popup(ComponentName::DateInput)));
                v.push(render_request());
                CalendarStep { actions: v, request: None }
            },
            Action::FZFFindEvent => CalendarStep {
                actions: Vec::new(),
                request: Some(CalendarRequest::FindEvent),
            },
            Action::AddEvent => CalendarStep {
                actions: Vec::new(),
                request: Some(CalendarRequest::AddEvent),
            },
            Action::CurrentDateUpdated(d) => {
                self.display_date = *d;
                CalendarStep { actions: Vec::new(), request: None }
            },
            _ => CalendarStep { actions: Vec::new(), request: None },
        }
    }

    /// The lines the user picks an event from: its position, its title and, on the next
    /// line, its description.
    pub fn find_event_options(events: &Vec<Event>) -> (r: Vec<String>)
        ensures
            r@.len() == events@.len(),
            forall|i: int|
                0 <= i < events@.len() ==> (#[trigger] r@[i])@ == search_line(
                    i as nat,
                    events@[i].title@,
                    events@[i].description@,
                ),
    {
        let mut options: Vec<String> = Vec::new();
        let mut i: usize = 0;
        while i < events.len()
            invariant
                i <= events@.len(),
                options@.len() == i,
                forall|j: int|
                    0 <= j < i ==> (#[trigger] options@[j])@ == search_line(
                        j as nat,
                        events@[j].title@,
                        events@[j].description@,
                    ),
            decreases events@.len() - i,
        {
            let event = &events[i];
            let mut s = String::new();
            proof {
                reveal_strlit("");
            }
            push_decimal(&mut s, i as u64);
            push_char(&mut s, ' ');
            push_str(&mut s, event.title.as_str());
            push_char(&mut s, '\n');
            push_str(&mut s, event.description.as_str());
            assert(s@ =~= search_line(i as nat, event.title@, event.description@));
            options.push(s);
            i += 1;
        }
        options
    }

    /// Shows the date of the event the user picked (the first of `chosen`) and gives its
    /// position; `None`, and nothing changes, where the user picked none.
    pub fn find_event(&mut self, events: &Vec<Event>, chosen: &Vec<usize>) -> (r: Option<usize>)
        requires
            chosen@.len() > 0 ==> chosen@[0] < events@.len(),
        ensures
            chosen@.len() == 0 ==> r is None && final(self).display_date == old(self).display_date,
            chosen@.len() > 0 ==> r == Some(chosen@[0]) && final(self).display_date
                == events@[chosen@[0] as int].date,
    {
        if chosen.len() == 0 {
            return None;
        }
        let index = chosen[0];
        self.display_date = events[index].date;
        Some(index)
    }

    /// What follows a picked event: the shown date to all, the event to select, the focus
    /// down to the day's list, and a request to draw again.
    pub fn event_found(&self, index: usize) -> (r: Vec<RoutedAction>)
        ensures
            r@ == seq![
                RoutedAction {
                    action: Action::CurrentDateUpdated(self.display_date),
                    target: ActionTarget::All,
                },
                RoutedAction { action: Action::SelectEventIndex(index), target: ActionTarget::All },
                RoutedAction { action: Action::FocusDown, target: ActionTarget::App },
                RoutedAction { action: Action::Render, target: ActionTarget::App },
            ],
    {
        let mut v: Vec<RoutedAction> = Vec::new();
        v.push(to_all(Action::CurrentDateUpdated(self.display_date)));
        v.push(to_all(Action::SelectEventIndex(index)));
        v.push(to_app(Action::FocusDown));
        v.push(render_request());
        v
    }

    /// The event written in the editor, on the shown date; `None` where its title is blank.
    pub fn add_event(&self, lines: &Vec<String>) -> (r: Option<Event>)
        ensures
            is_blank(editor_fields(line_views(lines@), false).title) ==> r is None,
            !is_blank(editor_fields(line_views(lines@), false).title) ==> (r matches Some(e) && e.id
                is None && e.title@ == editor_fields(line_views(lines@), false).title
                && e.description@ == editor_fields(line_views(lines@), false).description
                && e.date == self.display_date && e.duration is None && e.recurrence_interval is None
                && e.recurrence_end is None && e.skipped_dates@.len() == 0),
    {
        let event = event_from_lines(lines, self.display_date);
        if is_blank_exec(event.title.as_str()) {
            None
        } else {
            Some(event)
        }
    }

    /// What follows a stored new event at position `index`: the day's list is read again,
    /// the event selected, the focus moved down to the list, and the screen drawn again.
    pub fn event_added(index: usize) -> (r: Vec<RoutedAction>)
        ensures
            r@.len() == 4,
            r@[0].action == Action::UpdateCurrentDay,
            r@[0].target matches ActionTarget::Specific(v) && v@ == seq![ComponentName::CurrentDayList],
            r@[1] == (RoutedAction { action: Action::SelectEventIndex(index), target: ActionTarget::All }),
            r@[2] == (RoutedAction { action: Action::FocusDown, target: ActionTarget::App }),
            r@[3] == (RoutedAction { action: Action::Render, target: ActionTarget::App }),
    {
        let mut v: Vec<RoutedAction> = Vec::new();
        v.push(crate::action::to_part(Action::UpdateCurrentDay, ComponentName::CurrentDayList));
        v.push(to_all(Action::SelectEventIndex(index)));
        v.push(to_app(Action::FocusDown));
        v.push(render_request());
        v
    }

    /// The first actions of the calendar: the shown date, sent to all.
    pub fn init(&self) -> (r: Vec<RoutedAction>)
        ensures
            r@ == seq![
                RoutedAction {
                    action: Action::CurrentDateUpdated(self.display_date),
                    target: ActionTarget::All,
                },
            ],
    {
        let mut v: Vec<RoutedAction> = Vec::new();
        v.push(to_all(Action::CurrentDateUpdated(self.display_date)));
        v
    }
}

/// Moving the shown date by `a` days and then by `b` days is moving it by `a + b` days,
/// where every date on the way exists.
pub proof fn lemma_moves_add_up(date: DateTime, a: int, b: int)
    requires
        date.wf(),
        in_day_range(date.date.num() + a),
        in_day_range(date.date.num() + a + b),
    ensures
        moved_by_days(moved_by_days(date, a), b) == moved_by_days(date, a + b),
{
    lemma_num_of_civil(date.date.num() + a);
}

/// The next day and then the previous day is the day shown before, where there is a next
/// day; so is the next week and then the previous week.
pub proof fn lemma_next_then_prev_day(date: DateTime)
    requires
        date.wf(),
    ensures
        in_day_range(date.date.num() + 1) ==> moved_by_days(moved_by_days(date, 1), -1) == date,
        in_day_range(date.date.num() + 7) ==> moved_by_days(moved_by_days(date, 7), -7) == date,
{
    crate::date::lemma_valid_date_in_range(date.date);
    lemma_civil_of_num(date.date);
    if in_day_range(date.date.num() + 1) {
        lemma_moves_add_up(date, 1, -1);
    }
    if in_day_range(date.date.num() + 7) {
        lemma_moves_add_up(date, 7, -7);
    }
}

/// The next day is one day later, counted in days, where there is a next day.
pub proof fn lemma_next_day_is_one_later(date: DateTime)
    requires
        date.wf(),
        in_day_range(date.date.num() + 1),
    ensures
        moved_by_days(date, 1).date.num() == date.date.num() + 1,
        moved_by_days(date, 1).time == date.time,
{
    lemma_num_of_civil(date.date.num() + 1);
}

} // verus!
