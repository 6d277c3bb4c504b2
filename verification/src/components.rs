//! Names that identify the parts of the interface.

use vstd::prelude::*;

verus! {

/// The parts of the interface, also used to group key bindings.
#[derive(Debug, Copy, Clone, PartialEq, Eq, Structural, Hash)]
pub enum ComponentName {
    Global,
    /// Bindings that hold everywhere in the task view.
    TaskViewGlobal,
    TaskList,
    CurrentTaskInfo,
    CurrentFilterInfo,
    CurrentTagsInfo,
    TagFilter,
    /// Bindings that hold everywhere in the event view.
    EventViewGlobal,
    Calendar,
    CurrentDayList,
    SelectedDate,
    DateInput,
    NoName,
}

/// Identifies a part of the interface: by its name, or by its name and a number.
#[derive(Debug, Copy, Clone, PartialEq, Eq, Structural, Hash)]
pub enum Id {
    Empty,
    CompName(ComponentName),
    CompNameId { name: ComponentName, id: usize },
}

impl Id {
    /// The name of the part; `NoName` for `Id::Empty`.
    pub open spec fn name_of(self) -> ComponentName {
        match self {
            Id::CompName(name) => name,
            Id::CompNameId { name, id: _ } => name,
            Id::Empty => ComponentName::NoName,
        }
    }

    pub fn get_name(&self) -> (r: ComponentName)
        ensures
            r == self.name_of(),
    {
        match self {
            Id::CompName(name) => *name,
            Id::CompNameId { name, id: _ } => *name,
            Id::Empty => ComponentName::NoName,
        }
    }
}

} // verus!
