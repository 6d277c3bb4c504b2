//! The task table of the task view: which row is selected, what each key asks for, what
//! the other parts are told afterwards, and the edits of a task that it makes itself.

use vstd::prelude::*;
use crate::action::{Action, ActionTarget, RoutedAction, render_request, to_all, to_part};
use crate::calendar_view::search_line;
use crate::components::ComponentName;
use crate::date::{DateTime, TimeDelta, delta_sum, time_since, utc_now};
use crate::table_widget::{TableState, sat_dec};
use crate::task::{Status, Task};
use crate::text::{push_char, push_decimal, push_signed, push_str, signed_decimal};

verus! {

/// The row selected after moving `amount` rows down in a table of `rows` rows: from the
/// first row on where none is selected (`amount - 1`), never past the last row; nothing
/// moves in an empty table.
pub open spec fn row_after_next(selected: Option<usize>, amount: usize, rows: usize) -> Option<usize> {
    if rows == 0 {
        selected
    } else {
        let n: int = match selected {
            Some(r) => if r + amount > usize::MAX { usize::MAX as int } else { r + amount },
            None => if amount == 0 { 0 } else { amount - 1 },
        };
        Some((if n >= rows { rows - 1 } else { n }) as usize)
    }
}

/// The row selected after moving `amount` rows up: never before the first row, counted from
/// past the last row where none is selected; nothing moves in an empty table.
pub open spec fn row_after_prev(selected: Option<usize>, amount: usize, rows: usize) -> Option<usize> {
    if rows == 0 {
        selected
    } else {
        let n: int = match selected {
            Some(r) => r - amount,
            None => rows - amount,
        };
        Some((if n < 0 { 0 } else { n }) as usize)
    }
}

/// The position of the first task with the id `id`.
pub open spec fn first_with_id(tasks: Seq<Task>, id: Option<i64>) -> Option<int>
    decreases tasks.len(),
{
    if tasks.len() == 0 {
        None
    } else {
        match first_with_id(tasks.drop_last(), id) {
            Some(k) => Some(k),
            None => if tasks.last().id == id {
                Some(tasks.len() - 1)
            } else {
                None
            },
        }
    }
}

/// The part of a status filter that asks for one status.
pub open spec fn status_clause(s: Status) -> Seq<char> {
    "status == '\""@ + s.name() + "\"'"@
}

/// The custom filter that lets the tasks with any of `statuses` pass.
pub open spec fn status_filter_text(statuses: Seq<Status>) -> Seq<char>
    decreases statuses.len(),
{
    if statuses.len() == 0 {
        Seq::empty()
    } else if statuses.len() == 1 {
        status_clause(statuses[0])
    } else {
        status_filter_text(statuses.drop_last()) + " OR "@ + status_clause(statuses.last())
    }
}

/// The text the editor opens with for a task.
pub open spec fn task_editor_text(title: Seq<char>, description: Seq<char>, severity: i64) -> Seq<char> {
    "[title]\n"@ + title + "\n\n[description]\n"@ + description + "\n\n[severity]\n"@ + signed_decimal(
        severity as int,
    )
}

/// The task with its timer started at `now`, or, where it runs, stopped and the time since
/// its start added to the time taken (from zero where there is none yet).
pub open spec fn timer_toggled(task: Task, now: DateTime) -> Option<Task> {
    match task.timer_start {
        Some(start) => {
            let before = match task.time_taken {
                Some(d) => d,
                None => TimeDelta { secs: 0, nanos: 0 },
            };
            match delta_sum(before, time_since(now, start)) {
                Some(total) => Some(Task { timer_start: None, time_taken: Some(total), ..task }),
                None => None,
            }
        },
        None => Some(Task { timer_start: Some(now), ..task }),
    }
}

/// What the task table needs done outside before it tells the others.
#[derive(Debug, Clone, Copy, PartialEq, Eq, Structural)]
pub enum TaskRequest {
    DeleteTask,
    DeleteDoneTasks,
    AddTask,
    ResetDueDate,
    ResetReminderDate,
    ResetTimeTaken,
    /// Read the tasks again and select the first.
    ReadTable,
    ResetStatusFilter,
    ResetTagFilter,
    PickTagFilter,
    PickStatusFilter,
    PickOrder,
    ShowTracked,
    ToggleTimeTracking,
    FindTask,
    ToggleDoneTasks,
    ToggleShowOnlyUntagged,
    EditTask,
    EditDueDate,
    EditReminderDate,
    EditStatus,
    EditTimeTaken,
}

/// What the others are told afterwards (see `reply_actions`).
#[derive(Debug, Clone, Copy, PartialEq, Eq, Structural)]
pub enum TaskReply {
    Nothing,
    /// The current task to all, and a request to draw again.
    Table,
    /// The custom filter to its part, the current task to all, and a request to draw again.
    StatusFilter,
    /// The tag filter to its part, the current task to all, and a request to draw again.
    TagFilterReset,
    /// The tag filter to its part and the current task to all.
    TagFilterSet,
    /// A request to draw again.
    RenderOnly,
    /// Both switches of the task list to the filter's part, the current task to all, and a
    /// request to draw again.
    Switches,
}

/// What an action leads to: what to do outside first, if anything, and what to tell the
/// others afterwards.
pub struct TaskStep {
    pub request: Option<TaskRequest>,
    pub reply: TaskReply,
}

/// What each action asks for and what follows it.
pub open spec fn task_step_of(action: Action) -> (Option<TaskRequest>, TaskReply) {
    match action {
        Action::DeleteTask => (Some(TaskRequest::DeleteTask), TaskReply::Table),
        Action::DeleteAllDoneTasks => (Some(TaskRequest::DeleteDoneTasks), TaskReply::Table),
        Action::AddTask => (Some(TaskRequest::AddTask), TaskReply::Table),
        Action::NextTask => (None, TaskReply::Table),
        Action::PrevTask => (None, TaskReply::Table),
        Action::SelectFirst => (None, TaskReply::Table),
        Action::SelectLast => (None, TaskReply::Table),
        Action::ResetDueDate => (Some(TaskRequest::ResetDueDate), TaskReply::Table),
        Action::ResetReminderDate => (Some(TaskRequest::ResetReminderDate), TaskReply::Table),
        Action::ResetTimeTaken => (Some(TaskRequest::ResetTimeTaken), TaskReply::Table),
        Action::UpdateTaskTable => (Some(TaskRequest::ReadTable), TaskReply::Table),
        Action::ResetStatusFilter => (Some(TaskRequest::ResetStatusFilter), TaskReply::StatusFilter),
        Action::ResetTagFilter => (Some(TaskRequest::ResetTagFilter), TaskReply::TagFilterReset),
        Action::FZFTagFilter => (Some(TaskRequest::PickTagFilter), TaskReply::TagFilterSet),
        Action::FZFStatusFilter => (Some(TaskRequest::PickStatusFilter), TaskReply::StatusFilter),
        Action::FZFOrderBy => (Some(TaskRequest::PickOrder), TaskReply::Table),
        Action::ShowCurrentlyTrackedTasks => (Some(TaskRequest::ShowTracked), TaskReply::RenderOnly),
        Action::ToggleTimeTracking => (Some(TaskRequest::ToggleTimeTracking), TaskReply::Table),
        Action::FZFFindTask => (Some(TaskRequest::FindTask), TaskReply::Table),
        Action::ToggleDoneTasks => (Some(TaskRequest::ToggleDoneTasks), TaskReply::Switches),
        Action::ToggleShowOnlyUntagged => (Some(TaskRequest::ToggleShowOnlyUntagged), TaskReply::Switches),
        Action::EditTask => (Some(TaskRequest::EditTask), TaskReply::Table),
        Action::EditDueDate => (Some(TaskRequest::EditDueDate), TaskReply::Table),
        Action::EditReminderDate => (Some(TaskRequest::EditReminderDate), TaskReply::Table),
        Action::EditStatus => (Some(TaskRequest::EditStatus), TaskReply::Table),
        Action::EditTimeTaken => (Some(TaskRequest::EditTimeTaken), TaskReply::Table),
        _ => (None, TaskReply::Nothing),
    }
}

/// The actions of a reply, given the current task and its row and the two switches of the
/// task list.
pub open spec fn reply_actions_of(
    reply: TaskReply,
    task: Option<Task>,
    row: Option<usize>,
    hide_done: bool,
    show_tagless: bool,
) -> Seq<(Action, int)> {
    let current = (Action::CurrentTaskUpdated(task, row), 0int);
    let render = (Action::Render, 1int);
    match reply {
        TaskReply::Nothing => Seq::empty(),
        TaskReply::Table => seq![current, render],
        TaskReply::StatusFilter => seq![(Action::CustomFilterUpdated, 2int), current, render],
        TaskReply::TagFilterReset => seq![(Action::UpdateTagFilter, 3int), current, render],
        TaskReply::TagFilterSet => seq![(Action::UpdateTagFilter, 3int), current],
        TaskReply::RenderOnly => seq![render],
        TaskReply::Switches => seq![
            (Action::HideAllStatus(hide_done), 2int),
            (Action::ShowOnlyTaglessStatus(show_tagless), 2int),
            current,
            render,
        ],
    }
}

/// Where an action of a reply goes: 0 to all, 1 to the application, 2 to the part that
/// shows the filter, 3 to the tag filter.
pub open spec fn sent_as(r: RoutedAction, a: (Action, int)) -> bool {
    &&& r.action == a.0
    &&& a.1 == 0 ==> r.target == ActionTarget::All
    &&& a.1 == 1 ==> r.target == ActionTarget::App
    &&& a.1 == 2 ==> (r.target matches ActionTarget::Specific(v) && v@ == seq![ComponentName::CurrentFilterInfo])
    &&& a.1 == 3 ==> (r.target matches ActionTarget::Specific(v) && v@ == seq![ComponentName::TagFilter])
}

/// The actions of a reply (see `reply_actions_of`).
pub fn reply_actions(reply: TaskReply, task: Option<Task>, row: Option<usize>, hide_done: bool, show_tagless: bool) -> (r: Vec<
    RoutedAction,
>)
    ensures
        r@.len() == reply_actions_of(reply, task, row, hide_done, show_tagless).len(),
        forall|i: int|
            0 <= i < r@.len() ==> sent_as(#[trigger] r@[i], reply_actions_of(reply, task, row, hide_done, show_tagless)[i]),
{
    let mut v: Vec<RoutedAction> = Vec::new();
    match reply {
        TaskReply::Nothing => {},
        TaskReply::Table => {
            v.push(to_all(Action::CurrentTaskUpdated(task, row)));
            v.push(render_request());
        },
        TaskReply::StatusFilter => {
            v.push(to_part(Action::CustomFilterUpdated, ComponentName::CurrentFilterInfo));
            v.push(to_all(Action::CurrentTaskUpdated(task, row)));
            v.push(render_request());
        },
        TaskReply::TagFilterReset => {
            v.push(to_part(Action::UpdateTagFilter, ComponentName::TagFilter));
            v.push(to_all(Action::CurrentTaskUpdated(task, row)));
            v.push(render_request());
        },
        TaskReply::TagFilterSet => {
            v.push(to_part(Action::UpdateTagFilter, ComponentName::TagFilter));
            v.push(to_all(Action::CurrentTaskUpdated(task, row)));
        },
        TaskReply::RenderOnly => {
            v.push(render_request());
        },
        TaskReply::Switches => {
            v.push(to_part(Action::HideAllStatus(hide_done), ComponentName::CurrentFilterInfo));
            v.push(to_part(Action::ShowOnlyTaglessStatus(show_tagless), ComponentName::CurrentFilterInfo));
            v.push(to_all(Action::CurrentTaskUpdated(task, row)));
            v.push(render_request());
        },
    }
    v
}

/// The selection of the task table, the number of its rows, and the statuses of the
/// status filter.
pub struct TaskComponent {
    pub state: TableState,
    pub rows_len: usize,
    pub current_status_filter: Vec<Status>,
}

impl TaskComponent {
    /// An empty table, nothing selected, no status filter.
    pub fn new() -> (r: Self)
        ensures
            r.state == (TableState { offset: 0, selected: None, selected_column: None }),
            r.rows_len == 0,
            r.current_status_filter@.len() == 0,
    {
        TaskComponent { state: TableState::new(), rows_len: 0, current_status_filter: Vec::new() }
    }

    /// The selected row.
    pub fn current_row(&self) -> (r: Option<usize>)
        ensures
            r == self.state.selected,
    {
        self.state.selected()
    }

    /// Moves the selection `amount` rows down (see `row_after_next`).
    pub fn next(&mut self, amount: usize)
        ensures
            final(self).state == (TableState {
                selected: row_after_next(old(self).state.selected, amount, old(self).rows_len),
                ..old(self).state
            }),
            final(self).rows_len == old(self).rows_len,
            final(self).current_status_filter@ == old(self).current_status_filter@,
    {
        if self.rows_len > 0 {
            let mut new_selection = match self.state.selected() {
                Some(row) => row.saturating_add(amount),
                None => amount.saturating_sub(1),
            };
            if new_selection >= self.rows_len {
                new_selection = self.rows_len - 1;
            }
            self.state.select(Some(new_selection));
        }
    }

    /// Moves the selection `amount` rows up (see `row_after_prev`).
    pub fn prev(&mut self, amount: usize)
        ensures
            final(self).state == (TableState {
                selected: row_after_prev(old(self).state.selected, amount, old(self).rows_len),
                ..old(self).state
            }),
            final(self).rows_len == old(self).rows_len,
            final(self).current_status_filter@ == old(self).current_status_filter@,
    {
        if self.rows_len > 0 {
            let new_selection = match self.state.selected() {
                Some(row) => row.saturating_sub(amount),
                None => self.rows_len.saturating_sub(amount),
            };
            self.state.select(Some(new_selection));
        }
    }

    /// Selects the first row, where there is one.
    pub fn select_first(&mut self)
        ensures
            final(self).state == (if old(self).rows_len > 0 {
                TableState { selected: Some(0usize), ..old(self).state }
            } else {
                old(self).state
            }),
            final(self).rows_len == old(self).rows_len,
            final(self).current_status_filter@ == old(self).current_status_filter@,
    {
        if self.rows_len > 0 {
            self.state.select(Some(0));
        }
    }

    /// Selects the last row, where there is one.
    pub fn select_last(&mut self)
        ensures
            final(self).state == (if old(self).rows_len > 0 {
                TableState { selected: Some((old(self).rows_len - 1) as usize), ..old(self).state }
            } else {
                old(self).state
            }),
            final(self).rows_len == old(self).rows_len,
            final(self).current_status_filter@ == old(self).current_status_filter@,
    {
        if self.rows_len > 0 {
            self.state.select(Some(self.rows_len - 1));
        }
    }

    /// Takes the number of tasks shown; a selection past them moves to the last one.
    pub fn set_rows(&mut self, rows: usize)
        ensures
            final(self).rows_len == rows,
            final(self).current_status_filter@ == old(self).current_status_filter@,
            final(self).state == (match old(self).state.selected {
                Some(i) => if i >= rows && rows > 0 {
                    TableState { selected: Some((rows - 1) as usize), ..old(self).state }
                } else {
                    old(self).state
                },
                None => old(self).state,
            }),
    {
        self.rows_len = rows;
        match self.state.selected() {
            Some(index) => if index >= self.rows_len {
                self.select_last();
            },
            None => {},
        }
    }

    /// What reading the table again (the request `ReadTable`) does once the tasks are read:
    /// `rows` rows are taken (`set_rows`) and the first of them is selected (`select_first`).
    pub fn table_read(&mut self, rows: usize)
        ensures
            final(self).rows_len == rows,
            final(self).current_status_filter@ == old(self).current_status_filter@,
            final(self).state == (if rows > 0 {
                TableState { selected: Some(0usize), ..old(self).state }
            } else {
                old(self).state
            }),
    {
        self.set_rows(rows);
        self.select_first();
    }

    /// Selects the row of the first task with the id `id`, or none where no task has it;
    /// nothing changes where `id` is `None`.
    pub fn select_task_by_id(&mut self, tasks: &Vec<Task>, id: Option<i64>)
        ensures
            final(self).rows_len == old(self).rows_len,
            final(self).current_status_filter@ == old(self).current_status_filter@,
            id is None ==> final(self).state == old(self).state,
            id is Some ==> final(self).state == (match first_with_id(tasks@, id) {
                Some(k) => TableState { selected: Some(k as usize), ..old(self).state },
                None => TableState { selected: None, offset: 0, ..old(self).state },
            }),
    {
        if id.is_none() {
            return;
        }
        let mut found: Option<usize> = None;
        let mut i: usize = 0;
        assert(tasks@.take(0) =~= Seq::<Task>::empty());
        while i < tasks.len()
            invariant_except_break
                found is None,
            invariant
                i <= tasks@.len(),
                first_with_id(tasks@.take(i as int), id) is None,
            ensures
                found matches Some(k) ==> first_with_id(tasks@, id) == Some(k as int),
                found is None ==> first_with_id(tasks@.take(tasks@.len() as int), id) is None,
            decreases tasks@.len() - i,
        {
            assert(tasks@.take(i + 1).drop_last() =~= tasks@.take(i as int));
            if tasks[i].get_id() == id {
                assert(first_with_id(tasks@.take(i + 1), id) == Some(i as int));
                proof {
                    lemma_first_with_id_stays(tasks@, id, i + 1);
                }
                found = Some(i);
                break;
            }
            i += 1;
        }
        proof {
            if found is None {
                assert(tasks@.take(tasks@.len() as int) =~= tasks@);
            }
        }
        self.state.select(found);
    }

    /// The selection after the selected task was deleted: one row less; none selected in an
    /// empty table, the previous row where the selection is past the end.
    pub fn after_delete(&mut self)
        ensures
            final(self).rows_len == (if old(self).rows_len == 0 { 0 } else { old(self).rows_len - 1 }),
            final(self).current_status_filter@ == old(self).current_status_filter@,
            final(self).state == (if final(self).rows_len == 0 {
                TableState { selected: None, offset: 0, ..old(self).state }
            } else {
                match old(self).state.selected {
                    Some(i) => if i >= final(self).rows_len {
                        TableState { selected: Some(sat_dec(i)), ..old(self).state }
                    } else {
                        old(self).state
                    },
                    None => old(self).state,
                }
            }),
    {
        self.rows_len = self.rows_len.saturating_sub(1);
        if self.rows_len == 0 {
            self.state.select(None);
        }
        match self.state.selected() {
            Some(index) => if index >= self.rows_len {
                self.state.select_previous();
            },
            None => {},
        }
    }

    /// Handles `action`: moves the selection (by `prefix_number` rows where it is not zero),
    /// and says what to do outside and what to tell the others (see `task_step_of`).
    pub fn update(&mut self, prefix_number: usize, action: &Action) -> (r: TaskStep)
        ensures
            (r.request, r.reply) == task_step_of(*action),
            final(self).rows_len == old(self).rows_len,
            final(self).current_status_filter@ == old(self).current_status_filter@,
            final(self).state == (match *action {
                Action::NextTask => TableState {
                    selected: row_after_next(
                        old(self).state.selected,
                        if prefix_number != 0 { prefix_number } else { 1 },
                        old(self).rows_len,
                    ),
                    ..old(self).state
                },
                Action::PrevTask => TableState {
                    selected: row_after_prev(
                        old(self).state.selected,
                        if prefix_number != 0 { prefix_number } else { 1 },
                        old(self).rows_len,
                    ),
                    ..old(self).state
                },
                Action::SelectFirst => if old(self).rows_len > 0 {
                    TableState { selected: Some(0usize), ..old(self).state }
                } else {
                    old(self).state
                },
                Action::SelectLast => if old(self).rows_len > 0 {
                    TableState { selected: Some((old(self).rows_len - 1) as usize), ..old(self).state }
                } else {
                    old(self).state
                },
                _ => old(self).state,
            }),
    {
        let amount: usize = if prefix_number != 0 { prefix_number } else { 1 };
        match action {
            Action::DeleteTask => TaskStep { request: Some(TaskRequest::DeleteTask), reply: TaskReply::Table },
            Action::DeleteAllDoneTasks => TaskStep { request: Some(TaskRequest::DeleteDoneTasks), reply: TaskReply::Table },
            Action::AddTask => TaskStep { request: Some(TaskRequest::AddTask), reply: TaskReply::Table },
            Action::NextTask => {
                self.next(amount);
                TaskStep { request: None, reply: TaskReply::Table }
            },
            Action::PrevTask => {
                self.prev(amount);
                TaskStep { request: None, reply: TaskReply::Table }
            },
            Action::SelectFirst => {
                self.select_first();
                TaskStep { request: None, reply: TaskReply::Table }
            },
            Action::SelectLast => {
                self.select_last();
                TaskStep { request: None, reply: TaskReply::Table }
            },
            Action::ResetDueDate => TaskStep { request: Some(TaskRequest::ResetDueDate), reply: TaskReply::Table },
            Action::ResetReminderDate => TaskStep { request: Some(TaskRequest::ResetReminderDate), reply: TaskReply::Table },
            Action::ResetTimeTaken => TaskStep { request: Some(TaskRequest::ResetTimeTaken), reply: TaskReply::Table },
            Action::UpdateTaskTable => TaskStep { request: Some(TaskRequest::ReadTable), reply: TaskReply::Table },
            Action::ResetStatusFilter => TaskStep { request: Some(TaskRequest::ResetStatusFilter), reply: TaskReply::StatusFilter },
            Action::ResetTagFilter => TaskStep { request: Some(TaskRequest::ResetTagFilter), reply: TaskReply::TagFilterReset },
            Action::FZFTagFilter => TaskStep { request: Some(TaskRequest::PickTagFilter), reply: TaskReply::TagFilterSet },
            Action::FZFStatusFilter => TaskStep { request: Some(TaskRequest::PickStatusFilter), reply: TaskReply::StatusFilter },
            Action::FZFOrderBy => TaskStep { request: Some(TaskRequest::PickOrder), reply: TaskReply::Table },
            Action::ShowCurrentlyTrackedTasks => TaskStep { request: Some(TaskRequest::ShowTracked), reply: TaskReply::RenderOnly },
            Action::ToggleTimeTracking => TaskStep { request: Some(TaskRequest::ToggleTimeTracking), reply: TaskReply::Table },
            Action::FZFFindTask => TaskStep { request: Some(TaskRequest::FindTask), reply: TaskReply::Table },
            Action::ToggleDoneTasks => TaskStep { request: Some(TaskRequest::ToggleDoneTasks), reply: TaskReply::Switches },
            Action::ToggleShowOnlyUntagged => TaskStep { request: Some(TaskRequest::ToggleShowOnlyUntagged), reply: TaskReply::Switches },
            Action::EditTask => TaskStep { request: Some(TaskRequest::EditTask), reply: TaskReply::Table },
            Action::EditDueDate => TaskStep { request: Some(TaskRequest::EditDueDate), reply: TaskReply::Table },
            Action::EditReminderDate => TaskStep { request: Some(TaskRequest::EditReminderDate), reply: TaskReply::Table },
            Action::EditStatus => TaskStep { request: Some(TaskRequest::EditStatus), reply: TaskReply::Table },
            Action::EditTimeTaken => TaskStep { request: Some(TaskRequest::EditTimeTaken), reply: TaskReply::Table },
            _ => TaskStep { request: None, reply: TaskReply::Nothing },
        }
    }

    /// A new task as the table adds it: with the tags of the tag filter, and with the status
    /// of the status filter where that filter asks for exactly one, else in the backlog.
    pub fn prepare_new_task(&self, task: Task, tag_filter: &Vec<i64>) -> (r: Task)
        ensures
            r == (Task {
                tags: r.tags,
                status: if self.current_status_filter@.len() == 1 {
                    self.current_status_filter@[0]
                } else {
                    Status::Backlog
                },
                ..task
            }),
            r.tags@ == tag_filter@,
    {
        let mut task = task;
        task.tags = tag_filter.clone();
        task.status = if self.current_status_filter.len() == 1 {
            self.current_status_filter[0]
        } else {
            Status::Backlog
        };
        task
    }

    /// Takes the statuses the user picked as the status filter and gives the custom filter
    /// that lets tasks with any of them pass; nothing changes where none was picked.
    pub fn set_status_filter(&mut self, statuses: Vec<Status>) -> (r: Option<String>)
        ensures
            final(self).state == old(self).state,
            final(self).rows_len == old(self).rows_len,
            statuses@.len() == 0 ==> r is None && final(self).current_status_filter@ == old(self).current_status_filter@,
            statuses@.len() > 0 ==> (r matches Some(f) && f@ == status_filter_text(statuses@)
                && final(self).current_status_filter@ == statuses@),
    {
        if statuses.len() == 0 {
            return None;
        }
        let mut text = String::new();
        let mut i: usize = 0;
        proof {
            reveal_strlit("");
        }
        while i < statuses.len()
            invariant
                i <= statuses@.len(),
                text@ == status_filter_text(statuses@.take(i as int)),
            decreases statuses@.len() - i,
        {
            assert(statuses@.take(i + 1).drop_last() =~= statuses@.take(i as int));
            if i > 0 {
                push_str(&mut text, " OR ");
            }
            let ghost before = text@;
            push_str(&mut text, "status == '\"");
            let name = statuses[i].get_string();
            push_str(&mut text, name.as_str());
            push_str(&mut text, "\"'");
            proof {
                if i == 0 {
                    assert(statuses@.take(1) =~= seq![statuses@[0]]);
                }
                assert(text@ =~= before + status_clause(statuses@[i as int]));
            }
            i += 1;
        }
        assert(statuses@.take(statuses@.len() as int) =~= statuses@);
        self.current_status_filter = statuses;
        Some(text)
    }

    /// Drops the status filter.
    pub fn reset_filter(&mut self)
        ensures
            final(self).state == old(self).state,
            final(self).rows_len == old(self).rows_len,
            final(self).current_status_filter@.len() == 0,
    {
        self.current_status_filter = Vec::new();
    }
}

/// The position of the first task with the id `id` stays the first one in longer lists.
proof fn lemma_first_with_id_stays(tasks: Seq<Task>, id: Option<i64>, n: int)
    requires
        0 <= n <= tasks.len(),
        first_with_id(tasks.take(n), id) is Some,
    ensures
        first_with_id(tasks, id) == first_with_id(tasks.take(n), id),
    decreases tasks.len() - n,
{
    if n < tasks.len() {
        assert(tasks.take(n + 1).drop_last() =~= tasks.take(n));
        lemma_first_with_id_stays(tasks, id, n + 1);
    } else {
        assert(tasks.take(n) =~= tasks);
    }
}

/// The lines the user picks a task from: its position, its title and, on the next line,
/// its description.
pub fn find_task_options(tasks: &Vec<Task>) -> (r: Vec<String>)
    ensures
        r@.len() == tasks@.len(),
        forall|i: int|
            0 <= i < tasks@.len() ==> (#[trigger] r@[i])@ == search_line(
                i as nat,
                tasks@[i].title@,
                tasks@[i].description@,
            ),
{
    let mut options: Vec<String> = Vec::new();
    let mut i: usize = 0;
    while i < tasks.len()
        invariant
            i <= tasks@.len(),
            options@.len() == i,
            forall|j: int|
                0 <= j < i ==> (#[trigger] options@[j])@ == search_line(
                    j as nat,
                    tasks@[j].title@,
                    tasks@[j].description@,
                ),
        decreases tasks@.len() - i,
    {
        let task = &tasks[i];
        let mut s = String::new();
        proof {
            reveal_strlit("");
        }
        push_decimal(&mut s, i as u64);
        push_char(&mut s, ' ');
        push_str(&mut s, task.title.as_str());
        push_char(&mut s, '\n');
        push_str(&mut s, task.description.as_str());
        assert(s@ =~= search_line(i as nat, task.title@, task.description@));
        options.push(s);
        i += 1;
    }
    options
}

/// The text the editor opens with to edit a task: its title, description and severity.
pub fn task_editor_contents(task: &Task) -> (r: String)
    ensures
        r@ == task_editor_text(task.title@, task.description@, task.severity),
{
    let mut s = String::new();
    proof {
        reveal_strlit("");
    }
    push_str(&mut s, "[title]\n");
    push_str(&mut s, task.title.as_str());
    push_str(&mut s, "\n\n[description]\n");
    push_str(&mut s, task.description.as_str());
    push_str(&mut s, "\n\n[severity]\n");
    push_signed(&mut s, task.severity);
    assert(s@ =~= task_editor_text(task.title@, task.description@, task.severity));
    s
}

/// The cells of the task's row: its title, its status in quotes, its severity.
pub fn task_row(task: &Task) -> (r: Vec<String>)
    ensures
        r@.len() == 3,
        r@[0]@ == task.title@,
        r@[1]@ == seq!['"'] + task.status.name() + seq!['"'],
        r@[2]@ == signed_decimal(task.severity as int),
{
    let mut v: Vec<String> = Vec::new();
    v.push(task.title.clone());
    let mut status = String::new();
    proof {
        reveal_strlit("");
    }
    push_char(&mut status, '"');
    let name = task.status.get_string();
    push_str(&mut status, name.as_str());
    push_char(&mut status, '"');
    assert(status@ =~= seq!['"'] + task.status.name() + seq!['"']);
    v.push(status);
    let mut severity = String::new();
    push_signed(&mut severity, task.severity);
    assert(severity@ =~= signed_decimal(task.severity as int));
    v.push(severity);
    v
}

/// The date the reminder input starts from: the due date, else `now`.
pub fn reminder_input_start(task: &Task, now: DateTime) -> (r: DateTime)
    ensures
        r == (match task.due_date {
            Some(d) => d,
            None => now,
        }),
{
    match task.due_date {
        Some(d) => d,
        None => now,
    }
}

/// Starts the task's timer at `now`, or stops it and adds the time since its start to the
/// time taken (see `timer_toggled`).
pub fn toggle_timer(task: Task, now: DateTime) -> (r: Option<Task>)
    requires
        now.wf(),
        task.timer_start matches Some(s) ==> s.wf(),
        task.time_taken matches Some(d) ==> d.in_range(),
    ensures
        r == timer_toggled(task, now),
{
    let mut t = task;
    match t.timer_start {
        Some(start) => {
            let duration = now.signed_duration_since(&start);
            let before = match t.time_taken {
                Some(d) => d,
                None => TimeDelta { secs: 0, nanos: 0 },
            };
            match before.checked_add(&duration) {
                Some(total) => {
                    t.timer_start = None;
                    t.time_taken = Some(total);
                    Some(t)
                },
                None => None,
            }
        },
        None => {
            t.timer_start = Some(now);
            Some(t)
        },
    }
}

/// Starts or stops the task's timer now (see `toggle_timer`); `None` where the time taken
/// would leave the range of durations.
pub fn start_stop_task(task: Task) -> (r: Option<Task>)
    requires
        task.timer_start matches Some(s) ==> s.wf(),
        task.time_taken matches Some(d) ==> d.in_range(),
    ensures
        exists|now: DateTime| now.wf() && r == timer_toggled(task, now),
{
    let now = utc_now();
    toggle_timer(task, now)
}

/// Moving down `k` rows and then up `k` rows comes back to the row selected before, where
/// moving down did not stop at the last row.
pub proof fn lemma_next_then_prev(r: usize, k: usize, rows: usize)
    requires
        r + k < rows,
    ensures
        row_after_prev(row_after_next(Some(r), k, rows), k, rows) == Some(r),
{
}

/// Moving keeps the selection within the table, where there is a table (a move is at least
/// one row, as `update` makes it).
pub proof fn lemma_moves_stay_in_table(selected: Option<usize>, k: usize, rows: usize)
    requires
        rows > 0,
        k > 0,
        selected matches Some(r) ==> r < rows,
    ensures
        row_after_next(selected, k, rows) matches Some(r) && r < rows,
        row_after_prev(selected, k, rows) matches Some(r) && r < rows,
{
}

/// Starting the timer and stopping it later adds the time in between to the time taken
/// (counted from zero where there was none), where the sum stays within range.
pub proof fn lemma_start_then_stop(task: Task, start: DateTime, stop: DateTime)
    requires
        task.timer_start is None,
    ensures
        ({
            let before = match task.time_taken {
                Some(d) => d,
                None => TimeDelta { secs: 0, nanos: 0 },
            };
            match timer_toggled(task, start) {
                Some(running) => match delta_sum(before, time_since(stop, start)) {
                    Some(total) => timer_toggled(running, stop) == Some(
                        Task { timer_start: None, time_taken: Some(total), ..task },
                    ),
                    None => timer_toggled(running, stop) is None,
                },
                None => false,
            }
        }),
{
}

/// Which pair of configured colours a task's row is drawn with.
#[derive(Debug, Clone, Copy, PartialEq, Eq, Structural)]
pub enum RowColors {
    /// The task's time is being tracked, whatever its status.
    TimeTracked,
    Backlog,
    Pending,
    InProgress,
    Testing,
    Done,
}

/// The colours of a task's row: those of time tracking while its timer runs, otherwise
/// those of its status.
pub fn row_colors(task: &Task) -> (r: RowColors)
    ensures
        r == (if task.timer_start is Some {
            RowColors::TimeTracked
        } else {
            match task.status {
                Status::Backlog => RowColors::Backlog,
                Status::Pending => RowColors::Pending,
                Status::InProgress => RowColors::InProgress,
                Status::Testing => RowColors::Testing,
                Status::Done => RowColors::Done,
            }
        }),
{
    if task.timer_start.is_some() {
        RowColors::TimeTracked
    } else {
        match task.status {
            Status::Backlog => RowColors::Backlog,
            Status::Pending => RowColors::Pending,
            Status::InProgress => RowColors::InProgress,
            Status::Testing => RowColors::Testing,
            Status::Done => RowColors::Done,
        }
    }
}

} // verus!
