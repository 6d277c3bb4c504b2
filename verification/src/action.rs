//! What the parts of the interface tell each other, and where it is sent.

use vstd::prelude::*;
use crate::components::ComponentName;
use crate::date::DateTime;
use crate::task::Task;
use crate::ui_navigation::View;
use vstd::view::View as _;

verus! {

/// Everything that can happen in the interface: what a key stands for, and what the parts
/// of the interface tell each other.
#[derive(Debug, Clone)]
pub enum Action {
    Tick,
    Render,
    Resize(u16, u16),
    Quit,
    QuitHelp,
    ClearScreen,
    Error(String),
    FocusLeft,
    FocusRight,
    FocusUp,
    FocusDown,
    Popup(ComponentName),
    QuitPopup,
    GoToToday,
    GoToPrevDay,
    GoToNextDay,
    GoToPrevWeek,
    GoToNextWeek,
    FindDate,
    FZFFindEvent,
    AddEvent,
    NextEvent,
    PrevEvent,
    EditEvent,
    EditDurationTime,
    EditRecurrence,
    EditDate,
    DeleteEvent,
    AddTask,
    DeleteTask,
    EditTask,
    DeleteAllDoneTasks,
    ToggleTimeTracking,
    FZFFindTask,
    ToggleDoneTasks,
    ResetDueDate,
    ResetReminderDate,
    ResetTimeTaken,
    EditReminderDate,
    EditStatus,
    EditTimeTaken,
    EditDueDate,
    NextTask,
    PrevTask,
    SelectFirst,
    SelectLast,
    ResetTagFilter,
    ResetStatusFilter,
    FZFTagFilter,
    FZFStatusFilter,
    FZFOrderBy,
    ShowCurrentlyTrackedTasks,
    ToggleShowOnlyUntagged,
    AddTagsToTask,
    DeleteTagsFromTask,
    PrevTagInTask,
    NextTagInTask,
    NextTag,
    PrevTag,
    EditTag,
    DeleteTag,
    AddTag,
    ToggleTag,
    UpdateTaskTable,
    CurrentTaskUpdated(Option<Task>, Option<usize>),
    CurrentDateUpdated(DateTime),
    UpdateTagFilter,
    UpdateTagsInInfo,
    CustomFilterUpdated,
    SelectEventIndex(usize),
    UpdateCurrentDay,
    HideAllStatus(bool),
    ShowOnlyTaglessStatus(bool),
    ViewMain,
    ViewHelp,
    ViewCalendar,
    NextView,
    PrevView,
}

/// The receivers of an action.
#[derive(Debug, Clone)]
pub enum ActionTarget {
    All,
    Specific(Vec<ComponentName>),
    Active,
    App,
    View(View),
}

/// An action together with where it is sent.
#[derive(Debug, Clone)]
pub struct RoutedAction {
    pub action: Action,
    pub target: ActionTarget,
}

/// `Render`, sent to the application.
pub fn render_request() -> (r: RoutedAction)
    ensures
        r.action == Action::Render,
        r.target == ActionTarget::App,
{
    RoutedAction { action: Action::Render, target: ActionTarget::App }
}

/// `action`, sent to every part.
pub fn to_all(action: Action) -> (r: RoutedAction)
    ensures
        r.action == action,
        r.target == ActionTarget::All,
{
    RoutedAction { action, target: ActionTarget::All }
}

/// `action`, sent to the application.
pub fn to_app(action: Action) -> (r: RoutedAction)
    ensures
        r.action == action,
        r.target == ActionTarget::App,
{
    RoutedAction { action, target: ActionTarget::App }
}

/// `action`, sent to the part `name` alone.
pub fn to_part(action: Action, name: ComponentName) -> (r: RoutedAction)
    ensures
        r.action == action,
        r.target matches ActionTarget::Specific(v) && v@ == seq![name],
{
    let mut v: Vec<ComponentName> = Vec::new();
    v.push(name);
    RoutedAction { action, target: ActionTarget::Specific(v) }
}

} // verus!
