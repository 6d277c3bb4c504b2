//! Tasks, their status and their tags.

use vstd::prelude::*;
use crate::date::{DateTime, TimeDelta};

verus! {

/// The stage a task is in.
#[derive(Debug, Clone, Copy, PartialEq, Eq, Structural)]
pub enum Status {
    Backlog,
    Pending,
    InProgress,
    Testing,
    Done,
}

impl Status {
    /// The name of the status.
    pub open spec fn name(self) -> Seq<char> {
        match self {
            Status::Backlog => "Backlog"@,
            Status::Pending => "Pending"@,
            Status::InProgress => "InProgress"@,
            Status::Testing => "Testing"@,
            Status::Done => "Done"@,
        }
    }

    pub fn get_string(&self) -> (r: String)
        ensures
            r@ == self.name(),
    {
        match self {
            Status::Backlog => "Backlog".to_owned(),
            Status::Pending => "Pending".to_owned(),
            Status::InProgress => "InProgress".to_owned(),
            Status::Testing => "Testing".to_owned(),
            Status::Done => "Done".to_owned(),
        }
    }
}

/// A tag: its text, and the id that storage gives it.
#[derive(Debug, Clone)]
pub struct Tag {
    /// Given by storage when the tag is stored.
    pub id: Option<i64>,
    pub text: String,
}

impl Tag {
    pub fn new(id: Option<i64>, text: &str) -> (r: Self)
        ensures
            r.id == id,
            r.text@ == text@,
    {
        Self { id, text: text.to_owned() }
    }

    pub fn get_id(&self) -> (r: Option<i64>)
        ensures
            r == self.id,
    {
        self.id
    }

    /// Gives the tag its id; a tag's id is given once.
    pub fn set_id(&mut self, id: i64)
        requires
            old(self).id is None,
        ensures
            *final(self) == (Tag { id: Some(id), ..*old(self) }),
    {
        self.id = Some(id);
    }
}

/// Two tags are the same tag when their ids are equal.
impl PartialEq for Tag {
    fn eq(&self, other: &Self) -> (r: bool) {
        self.id == other.id
    }
}

impl vstd::std_specs::cmp::PartialEqSpecImpl for Tag {
    open spec fn obeys_eq_spec() -> bool {
        true
    }

    open spec fn eq_spec(&self, other: &Self) -> bool {
        self.id == other.id
    }
}

impl Eq for Tag {

}

/// A task, with the id that storage gives it.
#[derive(Debug, Clone)]
pub struct Task {
    /// Given by storage when the task is stored.
    pub id: Option<i64>,
    pub title: String,
    pub description: String,
    pub severity: i64,
    pub tags: Vec<i64>,
    pub status: Status,
    pub creation_date: DateTime,
    pub due_date: Option<DateTime>,
    pub reminder_date: Option<DateTime>,
    pub timer_start: Option<DateTime>,
    pub time_taken: Option<TimeDelta>,
}

impl Task {
    pub fn new(
        id: Option<i64>,
        title: &str,
        description: &str,
        severity: i64,
        tags: Vec<i64>,
        status: Status,
        creation_date: DateTime,
        due_date: Option<DateTime>,
        reminder_date: Option<DateTime>,
        timer_start: Option<DateTime>,
        time_taken: Option<TimeDelta>,
    ) -> (r: Self)
        ensures
            r.id == id,
            r.title@ == title@,
            r.description@ == description@,
            r.severity == severity,
            r.tags@ == tags@,
            r.status == status,
            r.creation_date == creation_date,
            r.due_date == due_date,
            r.reminder_date == reminder_date,
            r.timer_start == timer_start,
            r.time_taken == time_taken,
    {
        Self {
            id,
            title: title.to_owned(),
            description: description.to_owned(),
            severity,
            tags,
            status,
            creation_date,
            due_date,
            reminder_date,
            timer_start,
            time_taken,
        }
    }

    pub fn get_id(&self) -> (r: Option<i64>)
        ensures
            r == self.id,
    {
        self.id
    }

    /// Gives the task its id; a task's id is given once.
    pub fn set_id(&mut self, id: i64)
        requires
            old(self).id is None,
        ensures
            *final(self) == (Task { id: Some(id), ..*old(self) }),
    {
        self.id = Some(id);
    }
}

} // verus!
