//! The parts of the task view that show information: the tags of the current task, the
//! state of the filters, and the current task itself.

use vstd::prelude::*;
use crate::action::{Action, ActionTarget, RoutedAction, render_request, to_all};
use crate::date::TimeDelta;
use crate::multi_list::ListState;
use crate::task::{Tag, Task};
use crate::text::{decimal, push_char, push_decimal, push_str};

verus! {

/// What the tags of the current task need from outside.
#[derive(Debug, Clone, Copy, PartialEq, Eq, Structural)]
pub enum TagsInfoRequest {
    /// Hand the task and its row carried by the action to `CurrentTagsInfo::update_current_task`.
    TakeTask,
    /// Read the tags of the task with this id and hand them to `CurrentTagsInfo::set_tags`.
    ReadTags(i64),
    /// Let the user pick tags to add (`tags_to_choose`, `add_picked_tags`).
    AddTags,
    /// Let the user pick tags to take off (`remove_picked_tags`), then send
    /// `CurrentTagsInfo::delete_reply`.
    DeleteTags,
}

/// What an action leads to: the actions to send, and what to do outside first, if anything.
pub struct TagsInfoStep {
    pub actions: Vec<RoutedAction>,
    pub request: Option<TagsInfoRequest>,
}

/// The tags of the current task.
pub struct CurrentTagsInfo {
    pub list_state: ListState,
    pub current_tags: Vec<Tag>,
    pub current_task: Option<Task>,
    pub current_task_index: Option<usize>,
}

impl CurrentTagsInfo {
    /// No task, no tags.
    pub fn new() -> (r: Self)
        ensures
            r.current_tags@.len() == 0,
            r.current_task is None,
            r.current_task_index is None,
            r.list_state.offset == 0,
            r.list_state.current_index is None,
            r.list_state.selected_indices@.len() == 0,
    {
        CurrentTagsInfo {
            list_state: ListState::default(),
            current_tags: Vec::new(),
            current_task: None,
            current_task_index: None,
        }
    }

    /// The id of the current task, where there is one and it has an id.
    pub fn current_task_id(&self) -> (r: Option<i64>)
        ensures
            r == (match self.current_task {
                Some(t) => t.id,
                None => None,
            }),
    {
        match &self.current_task {
            Some(t) => t.get_id(),
            None => None,
        }
    }

    /// Takes the current task and its row; without a task there are no tags, for a task
    /// with an id its tags are to be read (the id is given).
    pub fn update_current_task(&mut self, task: Option<Task>, index: Option<usize>) -> (r: Option<i64>)
        ensures
            final(self).current_task == task,
            final(self).current_task_index == index,
            r == (match task {
                Some(t) => t.id,
                None => None,
            }),
            task is None ==> final(self).current_tags@.len() == 0,
            task is Some ==> final(self).current_tags@ == old(self).current_tags@,
    {
        self.current_task = task;
        self.current_task_index = index;
        if self.current_task.is_none() {
            self.current_tags = Vec::new();
            return None;
        }
        self.current_task_id()
    }

    /// Takes the tags read for the current task.
    pub fn set_tags(&mut self, tags: Vec<Tag>)
        ensures
            final(self).current_tags@ == tags@,
            final(self).current_task == old(self).current_task,
            final(self).current_task_index == old(self).current_task_index,
    {
        self.current_tags = tags;
    }

    /// Handles `action`: moves the highlight, or asks for the task, its tags, or a change of
    /// them.
    pub fn update(&mut self, action: &Action) -> (r: TagsInfoStep)
        ensures
            final(self).current_tags@ == old(self).current_tags@,
            final(self).current_task == old(self).current_task,
            final(self).current_task_index == old(self).current_task_index,
            final(self).list_state.selected_indices@ == old(self).list_state.selected_indices@,
            match *action {
                Action::NextTagInTask => r.request is None && r.actions@ == seq![
                    RoutedAction { action: Action::Render, target: ActionTarget::App },
                ] && final(self).list_state.current_index == Some(
                    match old(self).list_state.current_index {
                        Some(i) => if i == usize::MAX { usize::MAX } else { (i + 1) as usize },
                        None => 0usize,
                    },
                ),
                Action::PrevTagInTask => r.request is None && r.actions@ == seq![
                    RoutedAction { action: Action::Render, target: ActionTarget::App },
                ] && final(self).list_state.current_index == Some(
                    match old(self).list_state.current_index {
                        Some(i) => if i == 0 { 0usize } else { (i - 1) as usize },
                        None => usize::MAX,
                    },
                ),
                Action::CurrentTaskUpdated(_, _) => r.request == Some(TagsInfoRequest::TakeTask)
                    && r.actions@.len() == 0 && final(self).list_state == old(self).list_state,
                Action::UpdateTagsInInfo => r.actions@.len() == 0 && final(self).list_state
                    == old(self).list_state && r.request == (match old(self).current_task {
                    Some(t) => match t.id {
                        Some(id) => Some(TagsInfoRequest::ReadTags(id)),
                        None => None,
                    },
                    None => None,
                }),
                Action::AddTagsToTask => r.actions@ == seq![
                    RoutedAction { action: Action::Render, target: ActionTarget::App },
                ] && final(self).list_state == old(self).list_state && r.request == (match old(
                    self,
                ).current_task {
                    Some(t) => if t.id is Some {
                        Some(TagsInfoRequest::AddTags)
                    } else {
                        None
                    },
                    None => None,
                }),
                Action::DeleteTagsFromTask => final(self).list_state == old(self).list_state && (match old(
                    self,
                ).current_task {
                    Some(_) => r.request == Some(TagsInfoRequest::DeleteTags) && r.actions@.len() == 0,
                    None => r.request is None && r.actions@ == seq![
                        RoutedAction { action: Action::Render, target: ActionTarget::App },
                    ],
                }),
                _ => r.request is None && r.actions@.len() == 0 && final(self).list_state == old(
                    self,
                ).list_state,
            },
    {
        match action {
            Action::NextTagInTask => {
                self.list_state.next();
                let mut v: Vec<RoutedAction> = Vec::new();
                v.push(render_request());
                TagsInfoStep { actions: v, request: None }
            },
            Action::PrevTagInTask => {
                self.list_state.previous();
                let mut v: Vec<RoutedAction> = Vec::new();
                v.push(render_request());
                TagsInfoStep { actions: v, request: None }
            },
            Action::CurrentTaskUpdated(_, _) => TagsInfoStep {
                actions: Vec::new(),
                request: Some(TagsInfoRequest::TakeTask),
            },
            Action::UpdateTagsInInfo => {
                let request = match self.current_task_id() {
                    Some(id) => Some(TagsInfoRequest::ReadTags(id)),
                    None => None,
                };
                TagsInfoStep { actions: Vec::new(), request }
            },
            Action::AddTagsToTask => {
                let request = match self.current_task_id() {
                    Some(_) => Some(TagsInfoRequest::AddTags),
                    None => None,
                };
                let mut v: Vec<RoutedAction> = Vec::new();
                v.push(render_request());
                TagsInfoStep { actions: v, request }
            },
            Action::DeleteTagsFromTask => {
                if self.current_task.is_some() {
                    TagsInfoStep { actions: Vec::new(), request: Some(TagsInfoRequest::DeleteTags) }
                } else {
                    Self::delete_reply(false)
                }
            },
            _ => TagsInfoStep { actions: Vec::new(), request: None },
        }
    }

    /// What follows taking tags off the task: where the task left the list, the task table
    /// and the tag filter are read again; the screen is drawn again in any case.
    pub fn delete_reply(update_table: bool) -> (r: TagsInfoStep)
        ensures
            r.request is None,
            update_table ==> r.actions@ == seq![
                RoutedAction { action: Action::UpdateTaskTable, target: ActionTarget::All },
                RoutedAction { action: Action::UpdateTagFilter, target: ActionTarget::All },
                RoutedAction { action: Action::Render, target: ActionTarget::App },
            ],
            !update_table ==> r.actions@ == seq![
                RoutedAction { action: Action::Render, target: ActionTarget::App },
            ],
    {
        let mut v: Vec<RoutedAction> = Vec::new();
        if update_table {
            v.push(to_all(Action::UpdateTaskTable));
            v.push(to_all(Action::UpdateTagFilter));
        }
        v.push(render_request());
        TagsInfoStep { actions: v, request: None }
    }
}

/// The line that shows whether a switch is on.
pub open spec fn switch_line(label: Seq<char>, on: bool) -> Seq<char> {
    label + if on { "[x]"@ } else { "[ ]"@ }
}

/// The state of the filters of the task list: the custom filter and the two switches.
pub struct CustomFilterInfo {
    pub custom_filter: Option<String>,
    pub hide_done: bool,
    pub show_only_tagless: bool,
}

impl CustomFilterInfo {
    /// No custom filter, both switches off.
    pub fn new() -> (r: Self)
        ensures
            r.custom_filter is None,
            !r.hide_done,
            !r.show_only_tagless,
    {
        CustomFilterInfo { custom_filter: None, hide_done: false, show_only_tagless: false }
    }

    /// Takes the state of a switch from `action`; gives whether the custom filter is to be
    /// read again (`TaskManager::get_custom_filter`, then `set_custom_filter`).
    pub fn update(&mut self, action: &Action) -> (r: bool)
        ensures
            r == (*action is CustomFilterUpdated),
            final(self).custom_filter == old(self).custom_filter,
            final(self).hide_done == (match *action {
                Action::HideAllStatus(b) => b,
                _ => old(self).hide_done,
            }),
            final(self).show_only_tagless == (match *action {
                Action::ShowOnlyTaglessStatus(b) => b,
                _ => old(self).show_only_tagless,
            }),
    {
        match action {
            Action::CustomFilterUpdated => true,
            Action::HideAllStatus(status) => {
                self.hide_done = *status;
                false
            },
            Action::ShowOnlyTaglessStatus(status) => {
                self.show_only_tagless = *status;
                false
            },
            _ => false,
        }
    }

    /// Takes the custom filter read again.
    pub fn set_custom_filter(&mut self, filter: Option<String>)
        ensures
            final(self).custom_filter == filter,
            final(self).hide_done == old(self).hide_done,
            final(self).show_only_tagless == old(self).show_only_tagless,
    {
        self.custom_filter = filter;
    }

    /// The lines shown: the custom filter (or that there is none) and the two switches, with
    /// empty lines between.
    pub fn lines(&self) -> (r: Vec<String>)
        ensures
            r@.len() == 6,
            r@[0]@.len() == 0,
            r@[1]@ == (match self.custom_filter {
                Some(f) => f@,
                None => "o no status filter active"@,
            }),
            r@[2]@.len() == 0,
            r@[3]@ == switch_line("o hide completed tasks: "@, self.hide_done),
            r@[4]@.len() == 0,
            r@[5]@ == switch_line("o show only tasks without tags: "@, self.show_only_tagless),
    {
        proof {
            reveal_strlit("");
        }
        let mut v: Vec<String> = Vec::new();
        v.push(String::new());
        let mut filter = String::new();
        match &self.custom_filter {
            Some(f) => push_str(&mut filter, f.as_str()),
            None => push_str(&mut filter, "o no status filter active"),
        }
        v.push(filter);
        v.push(String::new());
        let mut hide = String::new();
        push_str(&mut hide, "o hide completed tasks: ");
        push_str(&mut hide, if self.hide_done { "[x]" } else { "[ ]" });
        v.push(hide);
        v.push(String::new());
        let mut tagless = String::new();
        push_str(&mut tagless, "o show only tasks without tags: ");
        push_str(&mut tagless, if self.show_only_tagless { "[x]" } else { "[ ]" });
        v.push(tagless);
        v
    }
}

/// A part of a length of time, as two digits at least; with a minus sign where the whole
/// length is negative and the part is not zero.
pub open spec fn time_part(v: nat, negative: bool) -> Seq<char> {
    if negative && v > 0 {
        seq!['-'] + decimal(v)
    } else if v < 10 {
        seq!['0'] + decimal(v)
    } else {
        decimal(v)
    }
}

/// The whole seconds of a length of time, rounded toward zero.
pub open spec fn whole_seconds(d: TimeDelta) -> int {
    if d.secs < 0 && d.nanos > 0 {
        d.secs + 1
    } else {
        d.secs as int
    }
}

/// The time taken as hours, minutes and seconds: `HH:MM:SS (HH:MM:SS)`.
pub open spec fn time_taken_text(d: TimeDelta) -> Seq<char> {
    let total = whole_seconds(d);
    let neg = total < 0;
    let a = if neg { -total } else { total };
    time_part((a / 3600) as nat, neg) + ":"@ + time_part(((a % 3600) / 60) as nat, neg) + ":"@
        + time_part((a % 60) as nat, neg) + " (HH:MM:SS)"@
}

pub(crate) fn push_time_part(s: &mut String, v: u64, negative: bool)
    ensures
        final(s)@ == old(s)@ + time_part(v as nat, negative),
{
    if negative && v > 0 {
        push_char(s, '-');
        push_decimal(s, v);
        assert(old(s)@.push('-') + decimal(v as nat) =~= old(s)@ + time_part(v as nat, negative));
    } else if v < 10 {
        push_char(s, '0');
        push_decimal(s, v);
        assert(old(s)@.push('0') + decimal(v as nat) =~= old(s)@ + time_part(v as nat, negative));
    } else {
        push_decimal(s, v);
    }
}

/// The current task, as the information part shows it.
pub struct CurrentTaskInfo {
    pub current_task: Option<Task>,
}

impl CurrentTaskInfo {
    /// No task.
    pub fn new() -> (r: Self)
        ensures
            r.current_task is None,
    {
        CurrentTaskInfo { current_task: None }
    }

    /// Takes the current task.
    pub fn update_current_task(&mut self, task: Option<Task>)
        ensures
            final(self).current_task == task,
    {
        self.current_task = task;
    }

    /// The time taken as hours, minutes and seconds (see `time_taken_text`).
    pub fn time_taken(d: TimeDelta) -> (r: String)
        ensures
            r@ == time_taken_text(d),
    {
        let total: i64 = if d.secs < 0 && d.nanos > 0 {
            d.secs + 1
        } else {
            d.secs
        };
        let neg = total < 0;
        let a: u64 = if neg {
            (-(total as i128)) as u64
        } else {
            total as u64
        };
        let mut s = String::new();
        proof {
            reveal_strlit("");
            reveal_strlit(":");
            assert(total as int == whole_seconds(d));
            assert(a as int == (if neg { -(total as int) } else { total as int }));
        }
        push_time_part(&mut s, a / 3600, neg);
        push_char(&mut s, ':');
        push_time_part(&mut s, (a % 3600) / 60, neg);
        push_char(&mut s, ':');
        push_time_part(&mut s, a % 60, neg);
        push_str(&mut s, " (HH:MM:SS)");
        assert(s@ =~= time_taken_text(d));
        s
    }
}

} // verus!
