//! The tasks and tags on show, with the filters and the order that pick and arrange them.
//!
//! Storage keeps the tasks and tags and answers the filter queries; this type keeps what
//! is on show and decides what each operation does to it. An operation that storage takes
//! part in is stated for the case where storage succeeded, and takes its answers as
//! arguments.

use vstd::prelude::*;
use core::cmp::Ordering;
use crate::task::{Status, Tag, Task};
use crate::task_order::TaskOrder;
use crate::sorting::{
    sort_stable, stable_sort, sorted_by, strict_order, lemma_stable_sort_items, lemma_stable_sort_permutes,
    lemma_stable_sort_sorted,
};
use crate::task_order::{lemma_compare_transitive, lemma_compare_total};

verus! {

/// Errors of the task operations.
#[derive(Debug, Clone)]
pub enum TaskManagerError {
    MissingTaskId(String),
    MissingTagId(String),
    TaskIdNotFound(i64),
}

/// The tasks and tags on show, and how they are picked and ordered.
#[derive(Debug, Clone)]
pub struct TaskManager {
    tasks: Vec<Task>,
    hide_done: bool,
    show_only_tagless: bool,
    current_ordering: TaskOrder,
    tags: Vec<Tag>,
    tags_filter: Vec<i64>,
    sql_filter: Option<String>,
}

/// What a `TaskManager` holds.
pub struct TaskManagerView {
    pub tasks: Seq<Task>,
    pub hide_done: bool,
    pub show_only_tagless: bool,
    pub ordering: TaskOrder,
    pub tags: Seq<Tag>,
    pub tags_filter: Seq<i64>,
    pub sql_filter: Option<Seq<char>>,
}

impl View for TaskManager {
    type V = TaskManagerView;

    closed spec fn view(&self) -> TaskManagerView {
        TaskManagerView {
            tasks: self.tasks@,
            hide_done: self.hide_done,
            show_only_tagless: self.show_only_tagless,
            ordering: self.current_ordering,
            tags: self.tags@,
            tags_filter: self.tags_filter@,
            sql_filter: match self.sql_filter {
                Some(s) => Some(s@),
                None => None,
            },
        }
    }
}

/// `a` comes before `b` in the order of texts, character by character.
pub open spec fn text_lt(a: Seq<char>, b: Seq<char>) -> bool
    decreases a.len(),
{
    if a.len() == 0 {
        b.len() > 0
    } else if b.len() == 0 {
        false
    } else if a[0] != b[0] {
        a[0] < b[0]
    } else {
        text_lt(a.skip(1), b.skip(1))
    }
}

/// Tags in the order of their texts.
pub open spec fn tag_lt() -> spec_fn(Tag, Tag) -> bool {
    |a: Tag, b: Tag| text_lt(a.text@, b.text@)
}

/// Tasks in the order `o`.
pub open spec fn task_lt(o: TaskOrder) -> spec_fn(Task, Task) -> bool {
    |a: Task, b: Task| o.compare(a, b) == Ordering::Less
}

/// The task is kept on show: without tags where only tagless tasks are shown, not done
/// where done tasks are hidden.
pub open spec fn shown(t: Task, hide_done: bool, show_only_tagless: bool) -> bool {
    if show_only_tagless {
        t.tags@.len() == 0
    } else if hide_done {
        t.status != Status::Done
    } else {
        true
    }
}

/// The tasks of `s` that are kept on show, in their order.
pub open spec fn shown_tasks(s: Seq<Task>, hide_done: bool, show_only_tagless: bool) -> Seq<Task>
    decreases s.len(),
{
    if s.len() == 0 {
        s
    } else {
        let prev = shown_tasks(s.drop_last(), hide_done, show_only_tagless);
        if shown(s.last(), hide_done, show_only_tagless) {
            prev.push(s.last())
        } else {
            prev
        }
    }
}

/// The first position from `i` on whose task carries the id `id`.
pub open spec fn task_position(tasks: Seq<Task>, id: i64, i: int) -> Option<int>
    decreases tasks.len() - i,
{
    if i < 0 || i >= tasks.len() {
        None
    } else if tasks[i].id == Some(id) {
        Some(i)
    } else {
        task_position(tasks, id, i + 1)
    }
}

/// The first position from `i` on whose tag carries the id `id`.
pub open spec fn tag_position(tags: Seq<Tag>, id: i64, i: int) -> Option<int>
    decreases tags.len() - i,
{
    if i < 0 || i >= tags.len() {
        None
    } else if tags[i].id == Some(id) {
        Some(i)
    } else {
        tag_position(tags, id, i + 1)
    }
}

/// The ids of `s` other than `id`, in their order.
pub open spec fn without_id(s: Seq<i64>, id: i64) -> Seq<i64>
    decreases s.len(),
{
    if s.len() == 0 {
        s
    } else if s.last() == id {
        without_id(s.drop_last(), id)
    } else {
        without_id(s.drop_last(), id).push(s.last())
    }
}

/// The task passes the filters: storage's answers for the tags and the custom filter, and
/// not done where done tasks are hidden.
pub open spec fn passes(
    m: TaskManagerView,
    t: Task,
    passes_tags_filter: bool,
    passes_sql_filter: bool,
) -> bool {
    passes_tags_filter && passes_sql_filter && !(m.hide_done && t.status == Status::Done)
}

/// The view with the tasks `tasks` sorted in its order.
pub open spec fn with_sorted_tasks(m: TaskManagerView, tasks: Seq<Task>) -> TaskManagerView {
    TaskManagerView { tasks: stable_sort(tasks, task_lt(m.ordering)), ..m }
}

/// The task as `update_task` stores it at position `i`: with its own id, or else that of
/// the task it replaces.
pub open spec fn task_with_id(m: TaskManagerView, t: Task, i: int) -> Task {
    if t.id is None {
        Task { id: m.tasks[i].id, ..t }
    } else {
        t
    }
}

/// What `update_task` does to the tasks on show once the task at `i` was stored as `t`.
pub open spec fn after_task_update(
    m: TaskManagerView,
    t: Task,
    i: int,
    passes_tags_filter: bool,
    passes_sql_filter: bool,
) -> TaskManagerView {
    if m.show_only_tagless {
        if t.tags@.len() == 0 {
            with_sorted_tasks(m, m.tasks.update(i, t))
        } else {
            TaskManagerView { tasks: m.tasks.remove(i), ..m }
        }
    } else if passes(m, t, passes_tags_filter, passes_sql_filter) {
        with_sorted_tasks(m, m.tasks.update(i, t))
    } else {
        TaskManagerView { tasks: m.tasks.remove(i), ..m }
    }
}

/// No text comes before itself.
pub proof fn lemma_text_lt_irreflexive(a: Seq<char>)
    ensures
        !text_lt(a, a),
    decreases a.len(),
{
    if a.len() > 0 {
        lemma_text_lt_irreflexive(a.skip(1));
    }
}

/// The order of texts is transitive.
pub proof fn lemma_text_lt_transitive(a: Seq<char>, b: Seq<char>, c: Seq<char>)
    requires
        text_lt(a, b),
        text_lt(b, c),
    ensures
        text_lt(a, c),
    decreases a.len(),
{
    if a.len() > 0 && b.len() > 0 && c.len() > 0 && a[0] == b[0] && b[0] == c[0] {
        lemma_text_lt_transitive(a.skip(1), b.skip(1), c.skip(1));
    }
}

/// Tags by text, and tasks in any of the orders, are strict orders.
pub proof fn lemma_orders_strict(o: TaskOrder)
    ensures
        strict_order(tag_lt()),
        strict_order(task_lt(o)),
{
    assert forall|a: Tag| !#[trigger] tag_lt()(a, a) by {
        lemma_text_lt_irreflexive(a.text@);
    }
    assert forall|a: Tag, b: Tag, c: Tag| #[trigger] tag_lt()(a, b) && #[trigger] tag_lt()(b, c) implies tag_lt()(a, c) by {
        lemma_text_lt_transitive(a.text@, b.text@, c.text@);
    }
    assert forall|a: Task| !#[trigger] task_lt(o)(a, a) by {
        lemma_compare_total(o, a, a);
    }
    assert forall|a: Task, b: Task, c: Task| #[trigger] task_lt(o)(a, b) && #[trigger] task_lt(o)(b, c) implies task_lt(o)(a, c) by {
        lemma_compare_transitive(o, a, b, c);
    }
}

fn text_less(_none: &(), a: &Tag, b: &Tag) -> (r: bool)
    ensures
        r == tag_lt()(*a, *b),
{
    let x = crate::parser::chars_of(a.text.as_str());
    let y = crate::parser::chars_of(b.text.as_str());
    let mut i: usize = 0;
    assert(x@.skip(0) =~= x@);
    assert(y@.skip(0) =~= y@);
    while i < x.len() && i < y.len() && x[i] == y[i]
        invariant
            i <= x@.len(),
            i <= y@.len(),
            text_lt(x@.skip(i as int), y@.skip(i as int)) == text_lt(x@, y@),
        decreases x@.len() - i,
    {
        assert(x@.skip(i as int).skip(1) =~= x@.skip(i + 1));
        assert(y@.skip(i as int).skip(1) =~= y@.skip(i + 1));
        i += 1;
    }
    if i == x.len() {
        i < y.len()
    } else if i == y.len() {
        false
    } else {
        x[i] < y[i]
    }
}

fn task_less(o: &TaskOrder, a: &Task, b: &Task) -> (r: bool)
    ensures
        r == task_lt(*o)(*a, *b),
{
    match o.compare_tasks(a, b) {
        Ordering::Less => true,
        _ => false,
    }
}

impl TaskManager {
    /// Nothing on show, no filter, done tasks shown, ordered by severity from high to low.
    pub fn new() -> (r: Self)
        ensures
            r@.tasks == Seq::<Task>::empty(),
            !r@.hide_done,
            !r@.show_only_tagless,
            r@.ordering == TaskOrder::SeverityHighToLow,
            r@.tags == Seq::<Tag>::empty(),
            r@.tags_filter == Seq::<i64>::empty(),
            r@.sql_filter is None,
    {
        TaskManager {
            tasks: Vec::new(),
            hide_done: false,
            show_only_tagless: false,
            current_ordering: TaskOrder::SeverityHighToLow,
            tags: Vec::new(),
            tags_filter: Vec::new(),
            sql_filter: None,
        }
    }

    pub fn get_tasks(&self) -> (r: &Vec<Task>)
        ensures
            r@ == self@.tasks,
    {
        &self.tasks
    }

    pub fn get_tags(&self) -> (r: &Vec<Tag>)
        ensures
            r@ == self@.tags,
    {
        &self.tags
    }

    /// Hides done tasks, or shows them again; hiding them ends showing only tagless tasks.
    pub fn toggle_hide_done(&mut self)
        ensures
            final(self)@ == (TaskManagerView {
                hide_done: !old(self)@.hide_done,
                show_only_tagless: if !old(self)@.hide_done {
                    false
                } else {
                    old(self)@.show_only_tagless
                },
                ..old(self)@
            }),
    {
        self.hide_done = !self.hide_done;
        if self.hide_done {
            self.show_only_tagless = false;
        }
    }

    pub fn get_hide_done_status(&self) -> (r: bool)
        ensures
            r == self@.hide_done,
    {
        self.hide_done
    }

    /// Shows only the tasks without tags, or all again; showing only those stops hiding done
    /// tasks. Gives the new setting.
    pub fn toggle_show_task_without_tags(&mut self) -> (r: bool)
        ensures
            r == !old(self)@.show_only_tagless,
            final(self)@ == (TaskManagerView {
                show_only_tagless: !old(self)@.show_only_tagless,
                hide_done: if !old(self)@.show_only_tagless {
                    false
                } else {
                    old(self)@.hide_done
                },
                ..old(self)@
            }),
    {
        self.show_only_tagless = !self.show_only_tagless;
        if self.show_only_tagless {
            self.hide_done = false;
        }
        self.show_only_tagless
    }

    pub fn get_show_tagless_status(&self) -> (r: bool)
        ensures
            r == self@.show_only_tagless,
    {
        self.show_only_tagless
    }

    /// Takes the tasks that pass the stored filters and all tags, as storage gives them:
    /// keeps the tasks on show, sorts them in the current order and the tags by their text,
    /// both stably.
    pub fn update(&mut self, tasks: Vec<Task>, tags: Vec<Tag>)
        ensures
            final(self)@ == (TaskManagerView {
                tasks: stable_sort(
                    shown_tasks(tasks@, old(self)@.hide_done, old(self)@.show_only_tagless),
                    task_lt(old(self)@.ordering),
                ),
                tags: stable_sort(tags@, tag_lt()),
                ..old(self)@
            }),
            sorted_by(final(self)@.tasks, task_lt(final(self)@.ordering)),
            sorted_by(final(self)@.tags, tag_lt()),
    {
        proof {
            lemma_orders_strict(self.current_ordering);
            lemma_stable_sort_sorted(tags@, tag_lt());
        }
        let mut rest = tasks;
        let ghost orig = rest@;
        let mut kept: Vec<Task> = Vec::new();
        let ghost hide = self.hide_done;
        let ghost tagless = self.show_only_tagless;
        assert(orig.take(0) =~= Seq::<Task>::empty());
        assert(orig.skip(0) =~= orig);
        assert(orig.len() == rest.len());
        let mut i: usize = 0;
        while rest.len() > 0
            invariant
                i <= orig.len(),
                orig.len() <= usize::MAX,
                rest@ == orig.skip(i as int),
                kept@ == shown_tasks(orig.take(i as int), hide, tagless),
                hide == self.hide_done,
                tagless == self.show_only_tagless,
            decreases rest@.len(),
        {
            let t = rest.remove(0);
            assert(orig.take(i + 1).drop_last() =~= orig.take(i as int));
            assert(orig.take(i + 1).last() == t);
            assert(rest@ =~= orig.skip(i + 1));
            let keep = if self.show_only_tagless {
                t.tags.len() == 0
            } else if self.hide_done {
                t.status != Status::Done
            } else {
                true
            };
            if keep {
                kept.push(t);
            }
            i += 1;
        }
        assert(orig.take(i as int) =~= orig);
        let mut tags = tags;
        sort_stable(&mut tags, &(), text_less, Ghost(tag_lt()));
        self.tags = tags;
        proof {
            lemma_stable_sort_sorted(kept@, task_lt(self.current_ordering));
        }
        sort_stable(&mut kept, &self.current_ordering, task_less, Ghost(task_lt(self.current_ordering)));
        self.tasks = kept;
    }

    /// Orders the tasks by `ordering`, stably.
    pub fn set_ordering(&mut self, ordering: TaskOrder)
        ensures
            final(self)@ == (TaskManagerView {
                ordering,
                tasks: stable_sort(old(self)@.tasks, task_lt(ordering)),
                ..old(self)@
            }),
            sorted_by(final(self)@.tasks, task_lt(ordering)),
    {
        proof {
            lemma_orders_strict(ordering);
            lemma_stable_sort_sorted(self.tasks@, task_lt(ordering));
        }
        self.current_ordering = ordering;
        sort_stable(&mut self.tasks, &ordering, task_less, Ghost(task_lt(ordering)));
    }

    /// Sets the tags filter and the custom filter; the tasks are then read again.
    pub fn set_filter(&mut self, filtered_tags: Vec<i64>, custom_filter: Option<&str>)
        ensures
            final(self)@ == (TaskManagerView {
                tags_filter: filtered_tags@,
                sql_filter: match custom_filter {
                    Some(f) => Some(f@),
                    None => None,
                },
                ..old(self)@
            }),
    {
        self.tags_filter = filtered_tags;
        self.sql_filter = match custom_filter {
            None => None,
            Some(filter) => Some(filter.to_owned()),
        };
    }

    /// Sets the custom filter; the tasks are then read again.
    pub fn set_custom_filter(&mut self, custom_filter: Option<&str>)
        ensures
            final(self)@ == (TaskManagerView {
                sql_filter: match custom_filter {
                    Some(f) => Some(f@),
                    None => None,
                },
                ..old(self)@
            }),
    {
        self.sql_filter = match custom_filter {
            None => None,
            Some(filter) => Some(filter.to_owned()),
        };
    }

    /// Sets the tags filter; the tasks are then read again.
    pub fn set_tags_filter(&mut self, filtered_tags: Vec<i64>)
        ensures
            final(self)@ == (TaskManagerView { tags_filter: filtered_tags@, ..old(self)@ }),
    {
        self.tags_filter = filtered_tags;
    }

    pub fn get_custom_filter(&self) -> (r: Option<String>)
        ensures
            match r {
                Some(s) => self@.sql_filter == Some(s@),
                None => self@.sql_filter is None,
            },
    {
        match &self.sql_filter {
            Some(s) => Some(s.clone()),
            None => None,
        }
    }

    pub fn get_tag_filter(&self) -> (r: &Vec<i64>)
        ensures
            r@ == self@.tags_filter,
    {
        &self.tags_filter
    }

    /// The tag filter, to change in place; nothing else of the manager changes.
    pub fn get_tag_filter_mut(&mut self) -> (r: &mut Vec<i64>)
        ensures
            r@ == old(self)@.tags_filter,
            final(self)@ == (TaskManagerView { tags_filter: final(r)@, ..old(self)@ }),
    {
        &mut self.tags_filter
    }

    /// The task at the given position, if there is one.
    pub fn get_current_task(&self, task_index: &Option<usize>) -> (r: Option<&Task>)
        ensures
            match task_index {
                Some(i) => if *i < self@.tasks.len() {
                    r matches Some(t) && *t == self@.tasks[*i as int]
                } else {
                    r is None
                },
                None => r is None,
            },
    {
        match task_index {
            Some(index) => {
                if *index < self.tasks.len() {
                    Some(&self.tasks[*index])
                } else {
                    None
                }
            },
            None => None,
        }
    }

    /// Takes the task at `task_index` off show where it exists and has an id; gives that id,
    /// which storage then deletes.
    pub fn delete_task(&mut self, task_index: usize) -> (r: Option<i64>)
        ensures
            if task_index < old(self)@.tasks.len() && old(self)@.tasks[task_index as int].id is Some {
                &&& r == old(self)@.tasks[task_index as int].id
                &&& final(self)@ == (TaskManagerView {
                    tasks: old(self)@.tasks.remove(task_index as int),
                    ..old(self)@
                })
            } else {
                &&& r is None
                &&& final(self)@ == old(self)@
            },
    {
        if task_index < self.tasks.len() {
            match self.tasks[task_index].get_id() {
                Some(id) => {
                    self.tasks.remove(task_index);
                    Some(id)
                },
                None => None,
            }
        } else {
            None
        }
    }

    fn task_position_exec(&self, id: i64) -> (r: Option<usize>)
        ensures
            match r {
                Some(i) => task_position(self@.tasks, id, 0) == Some(i as int) && i < self@.tasks.len()
                    && self@.tasks[i as int].id == Some(id),
                None => task_position(self@.tasks, id, 0) is None,
            },
    {
        let mut i: usize = 0;
        while i < self.tasks.len()
            invariant
                i <= self.tasks@.len(),
                task_position(self.tasks@, id, 0) == task_position(self.tasks@, id, i as int),
            decreases self.tasks@.len() - i,
        {
            match self.tasks[i].get_id() {
                Some(x) => {
                    if x == id {
                        return Some(i);
                    }
                },
                None => {},
            }
            i += 1;
        }
        None
    }

    /// Takes the task with the id of `task` off show, as `delete_task` does.
    pub fn delete_task_with_id(&mut self, task: Task) -> (r: Result<Option<i64>, TaskManagerError>)
        ensures
            match task.id {
                None => (r matches Err(TaskManagerError::MissingTaskId(t)) && t@ == task.title@)
                    && final(self)@ == old(self)@,
                Some(id) => match task_position(old(self)@.tasks, id, 0) {
                    None => (r matches Err(TaskManagerError::TaskIdNotFound(x)) && x == id)
                        && final(self)@ == old(self)@,
                    Some(i) => r == Ok::<Option<i64>, TaskManagerError>(Some(id))
                        && final(self)@ == (TaskManagerView {
                        tasks: old(self)@.tasks.remove(i),
                        ..old(self)@
                    }),
                },
            },
    {
        let task_id = match task.get_id() {
            Some(id) => id,
            None => {
                return Err(TaskManagerError::MissingTaskId(task.title));
            },
        };
        match self.task_position_exec(task_id) {
            Some(index) => Ok(self.delete_task(index)),
            None => Err(TaskManagerError::TaskIdNotFound(task_id)),
        }
    }

    /// Puts a stored task (one that storage gave its id) on show where it passes the filters,
    /// in the current order; storage's answers for the tags and custom filters are asked
    /// only where not only tagless tasks are shown. Gives the id, except where only tagless
    /// tasks are shown.
    pub fn add_task(&mut self, task: Task, passes_tags_filter: bool, passes_sql_filter: bool) -> (r:
        Result<Option<i64>, TaskManagerError>)
        ensures
            match task.id {
                None => (r matches Err(TaskManagerError::MissingTaskId(t)) && t@ == task.title@)
                    && final(self)@ == old(self)@,
                Some(id) => if old(self)@.show_only_tagless {
                    &&& r == Ok::<Option<i64>, TaskManagerError>(None)
                    &&& final(self)@ == (if task.tags@.len() == 0 {
                        with_sorted_tasks(old(self)@, old(self)@.tasks.push(task))
                    } else {
                        old(self)@
                    })
                } else {
                    &&& r == Ok::<Option<i64>, TaskManagerError>(Some(id))
                    &&& final(self)@ == (if passes(old(self)@, task, passes_tags_filter, passes_sql_filter) {
                        with_sorted_tasks(old(self)@, old(self)@.tasks.push(task))
                    } else {
                        old(self)@
                    })
                },
            },
            final(self)@.tasks != old(self)@.tasks ==> sorted_by(final(self)@.tasks, task_lt(final(self)@.ordering)),
    {
        proof {
            lemma_orders_strict(self.current_ordering);
            lemma_stable_sort_sorted(self.tasks@.push(task), task_lt(self.current_ordering));
        }
        let task_id = match task.get_id() {
            Some(id) => id,
            None => {
                return Err(TaskManagerError::MissingTaskId(task.title));
            },
        };
        if self.show_only_tagless {
            if task.tags.len() == 0 {
                self.tasks.push(task);
                sort_stable(&mut self.tasks, &self.current_ordering, task_less, Ghost(task_lt(self.current_ordering)));
            }
            return Ok(None);
        }
        let passes_hide_done = self.task_passes_hide_done_filter(&task);
        if passes_tags_filter && passes_sql_filter && passes_hide_done {
            self.tasks.push(task);
            sort_stable(&mut self.tasks, &self.current_ordering, task_less, Ghost(task_lt(self.current_ordering)));
        }
        Ok(Some(task_id))
    }

    fn task_passes_hide_done_filter(&self, task: &Task) -> (r: bool)
        ensures
            r == !(self@.hide_done && task.status == Status::Done),
    {
        !(self.hide_done && task.status == Status::Done)
    }

    /// The task as `update_task` stores it: with its own id, or else the id of the task it
    /// replaces. Errs where neither has an id, or where no position is given and the task
    /// has none.
    pub fn prepare_task_update(&self, task: Task, task_index: &Option<usize>) -> (r: Result<
        Task,
        TaskManagerError,
    >)
        requires
            task_index matches Some(i) ==> i < self@.tasks.len(),
        ensures
            match task_index {
                Some(i) => match r {
                    Ok(t) => t == task_with_id(self@, task, *i as int) && t.id is Some,
                    Err(TaskManagerError::MissingTaskId(s)) => task.id is None && self@.tasks[*i as int].id is None
                        && s@ == self@.tasks[*i as int].title@,
                    Err(_) => false,
                },
                None => match r {
                    Ok(t) => t == task && task.id is Some,
                    Err(TaskManagerError::MissingTaskId(s)) => task.id is None && s@ == task.title@,
                    Err(_) => false,
                },
            },
    {
        match task_index {
            Some(index) => {
                let mut task = task;
                if task.get_id().is_none() {
                    match self.tasks[*index].get_id() {
                        Some(id) => task.set_id(id),
                        None => {
                            return Err(TaskManagerError::MissingTaskId(self.tasks[*index].title.clone()));
                        },
                    }
                }
                Ok(task)
            },
            None => {
                if task.get_id().is_none() {
                    return Err(TaskManagerError::MissingTaskId(task.title));
                }
                Ok(task)
            },
        }
    }

    /// Replaces the task at the given position (or else the task with the same id) by its
    /// stored form (see `prepare_task_update`), where it passes the filters, and takes it off
    /// show where it does not. Storage's answers for the tags and custom filters are asked
    /// only where not only tagless tasks are shown.
    pub fn update_task(
        &mut self,
        task: Task,
        task_index: &Option<usize>,
        passes_tags_filter: bool,
        passes_sql_filter: bool,
    ) -> (r: Result<(), TaskManagerError>)
        requires
            task_index matches Some(i) ==> i < old(self)@.tasks.len(),
            task_index is None && task.id is Some ==> task_position(old(self)@.tasks, task.id->0, 0) is Some,
        ensures
            match task_index {
                Some(i) => match r {
                    Ok(_) => (task.id is Some || old(self)@.tasks[*i as int].id is Some)
                        && final(self)@ == after_task_update(
                        old(self)@,
                        task_with_id(old(self)@, task, *i as int),
                        *i as int,
                        passes_tags_filter,
                        passes_sql_filter,
                    ),
                    Err(TaskManagerError::MissingTaskId(s)) => task.id is None && old(self)@.tasks[*i as int].id is None
                        && s@ == old(self)@.tasks[*i as int].title@ && final(self)@ == old(self)@,
                    Err(_) => false,
                },
                None => match r {
                    Ok(_) => task.id is Some && final(self)@ == after_task_update(
                        old(self)@,
                        task,
                        task_position(old(self)@.tasks, task.id->0, 0)->0,
                        passes_tags_filter,
                        passes_sql_filter,
                    ),
                    Err(TaskManagerError::MissingTaskId(s)) => task.id is None && s@ == task.title@
                        && final(self)@ == old(self)@,
                    Err(_) => false,
                },
            },
    {
        match task_index {
            Some(index) => {
                let index = *index;
                let task = match self.prepare_task_update(task, &Some(index)) {
                    Ok(t) => t,
                    Err(e) => {
                        return Err(e);
                    },
                };

                self.store_task(task, index, passes_tags_filter, passes_sql_filter);
                Ok(())
            },
            None => self.update_task_with_id(task, passes_tags_filter, passes_sql_filter),
        }
    }

    fn store_task(&mut self, task: Task, index: usize, passes_tags_filter: bool, passes_sql_filter: bool)
        requires
            index < old(self)@.tasks.len(),
        ensures
            final(self)@ == after_task_update(old(self)@, task, index as int, passes_tags_filter, passes_sql_filter),
    {
        let keep = if self.show_only_tagless {
            task.tags.len() == 0
        } else {
            let passes_hide_done = self.task_passes_hide_done_filter(&task);
            passes_tags_filter && passes_sql_filter && passes_hide_done
        };
        if keep {
            let ghost e = task;
            let ghost old_tasks = self.tasks@;
            let mut task = task;
            std::mem::swap(&mut self.tasks[index], &mut task);
            assert(self.tasks@ =~= old_tasks.update(index as int, e));
            sort_stable(&mut self.tasks, &self.current_ordering, task_less, Ghost(task_lt(self.current_ordering)));
        } else {
            self.tasks.remove(index);
        }
    }

    /// Replaces the task with the same id, as `update_task` does.
    pub fn update_task_with_id(&mut self, task: Task, passes_tags_filter: bool, passes_sql_filter: bool) -> (r:
        Result<(), TaskManagerError>)
        requires
            task.id is Some ==> task_position(old(self)@.tasks, task.id->0, 0) is Some,
        ensures
            match r {
                Ok(_) => task.id is Some && final(self)@ == after_task_update(
                    old(self)@,
                    task,
                    task_position(old(self)@.tasks, task.id->0, 0)->0,
                    passes_tags_filter,
                    passes_sql_filter,
                ),
                Err(TaskManagerError::MissingTaskId(s)) => task.id is None && s@ == task.title@
                    && final(self)@ == old(self)@,
                Err(_) => false,
            },
    {
        let task_id = match task.get_id() {
            Some(id) => id,
            None => {
                return Err(TaskManagerError::MissingTaskId(task.title));
            },
        };
        match self.task_position_exec(task_id) {
            Some(index) => {
                self.store_task(task, index, passes_tags_filter, passes_sql_filter);
                Ok(())
            },
            None => {
                proof {
                    assert(false);
                }
                Ok(())
            },
        }
    }

    /// Adds a stored tag (one that storage gave its id); the tags stay sorted by text.
    pub fn add_tag(&mut self, tag: Tag)
        ensures
            final(self)@ == (TaskManagerView {
                tags: stable_sort(old(self)@.tags.push(tag), tag_lt()),
                ..old(self)@
            }),
            sorted_by(final(self)@.tags, tag_lt()),
    {
        proof {
            lemma_orders_strict(self.current_ordering);
            lemma_stable_sort_sorted(self.tags@.push(tag), tag_lt());
        }
        self.tags.push(tag);
        sort_stable(&mut self.tags, &(), text_less, Ghost(tag_lt()));
    }

    /// The position of the first tag with the id `id`.
    pub fn tag_index(&self, id: i64) -> (r: Option<usize>)
        ensures
            match r {
                Some(i) => tag_position(self@.tags, id, 0) == Some(i as int) && i < self@.tags.len(),
                None => tag_position(self@.tags, id, 0) is None,
            },
    {
        let mut i: usize = 0;
        while i < self.tags.len()
            invariant
                i <= self.tags@.len(),
                tag_position(self.tags@, id, 0) == tag_position(self.tags@, id, i as int),
            decreases self.tags@.len() - i,
        {
            match self.tags[i].get_id() {
                Some(x) => {
                    if x == id {
                        return Some(i);
                    }
                },
                None => {},
            }
            i += 1;
        }
        None
    }

    /// Replaces the first tag with the id of `tag` by `tag` (storage stores it where there is
    /// one); the tags are then sorted by text, stably.
    pub fn update_tag(&mut self, tag: Tag) -> (r: Result<(), TaskManagerError>)
        ensures
            match tag.id {
                None => (r matches Err(TaskManagerError::MissingTagId(t)) && t@ == tag.text@)
                    && final(self)@ == old(self)@,
                Some(id) => r is Ok && final(self)@ == (TaskManagerView {
                    tags: stable_sort(
                        match tag_position(old(self)@.tags, id, 0) {
                            Some(i) => old(self)@.tags.update(i, tag),
                            None => old(self)@.tags,
                        },
                        tag_lt(),
                    ),
                    ..old(self)@
                }),
            },
            tag.id is Some ==> sorted_by(final(self)@.tags, tag_lt()),
    {
        let tag_id = match tag.get_id() {
            Some(id) => id,
            None => {
                return Err(TaskManagerError::MissingTagId(tag.text));
            },
        };
        let ghost old_view = self@;
        let ghost e = tag;
        match self.tag_index(tag_id) {
            Some(i) => {
                let ghost old_tags = self.tags@;
                let mut tag = tag;
                std::mem::swap(&mut self.tags[i], &mut tag);
                assert(self.tags@ =~= old_tags.update(i as int, e));
            },
            None => {},
        }
        let ghost mid = self.tags@;
        assert(mid == match tag_position(old_view.tags, tag_id, 0) {
            Some(i) => old_view.tags.update(i, e),
            None => old_view.tags,
        });
        proof {
            lemma_orders_strict(self.current_ordering);
            lemma_stable_sort_sorted(mid, tag_lt());
        }
        sort_stable(&mut self.tags, &(), text_less, Ghost(tag_lt()));
        assert(self@.tags == stable_sort(mid, tag_lt()));
        assert(self@ == (TaskManagerView { tags: stable_sort(mid, tag_lt()), ..old_view }));
        Ok(())
    }

    /// Drops `tag_id` from the tags filter once storage deleted the tag; the tasks are then
    /// read again.
    pub fn delete_tag(&mut self, tag_id: i64)
        ensures
            final(self)@ == (TaskManagerView {
                tags_filter: without_id(old(self)@.tags_filter, tag_id),
                ..old(self)@
            }),
    {
        let ghost orig = self.tags_filter@;
        let mut kept: Vec<i64> = Vec::new();
        let mut i: usize = 0;
        assert(orig.take(0) =~= Seq::<i64>::empty());
        while i < self.tags_filter.len()
            invariant
                orig == self.tags_filter@,
                i <= orig.len(),
                kept@ == without_id(orig.take(i as int), tag_id),
            decreases orig.len() - i,
        {
            assert(orig.take(i + 1).drop_last() =~= orig.take(i as int));
            let id = self.tags_filter[i];
            if id != tag_id {
                kept.push(id);
            }
            i += 1;
        }
        assert(orig.take(i as int) =~= orig);
        self.tags_filter = kept;
    }
}

/// While done tasks are hidden (and the list is not limited to tagless tasks), updating a
/// task keeps every done task off the list: a task that becomes done leaves it, and a task
/// that is not done stays on it where it passes the tag and custom filters.
pub proof fn lemma_update_hides_done(
    m: TaskManagerView,
    t: Task,
    i: int,
    passes_tags_filter: bool,
    passes_sql_filter: bool,
)
    requires
        0 <= i < m.tasks.len(),
        m.hide_done,
        !m.show_only_tagless,
        forall|j: int| 0 <= j < m.tasks.len() ==> (#[trigger] m.tasks[j]).status != Status::Done,
    ensures
        ({
            let r = after_task_update(m, t, i, passes_tags_filter, passes_sql_filter);
            &&& forall|j: int| 0 <= j < r.tasks.len() ==> (#[trigger] r.tasks[j]).status != Status::Done
            &&& t.status == Status::Done ==> r.tasks == m.tasks.remove(i)
            &&& t.status != Status::Done && passes_tags_filter && passes_sql_filter ==> r.tasks.contains(t)
        }),
{
    let r = after_task_update(m, t, i, passes_tags_filter, passes_sql_filter);
    if passes(m, t, passes_tags_filter, passes_sql_filter) {
        let u = m.tasks.update(i, t);
        lemma_stable_sort_items(u, task_lt(m.ordering));
        lemma_stable_sort_permutes(u, task_lt(m.ordering));
        assert forall|j: int| 0 <= j < r.tasks.len() implies (#[trigger] r.tasks[j]).status != Status::Done by {
            assert(u.contains(r.tasks[j]));
            let k = choose|k: int| 0 <= k < u.len() && u[k] == r.tasks[j];
            if k != i {
                assert(u[k] == m.tasks[k]);
            }
        }
        let st = stable_sort(u, task_lt(m.ordering));
        broadcast use vstd::seq_lib::group_to_multiset_ensures;
        assert(u[i] == t);
        assert(u.contains(t));
        assert(u.to_multiset().count(t) > 0);
        assert(st.to_multiset().count(t) > 0);
        assert(st.contains(t));
    } else {
        assert forall|j: int| 0 <= j < r.tasks.len() implies (#[trigger] r.tasks[j]).status != Status::Done by {
            if j < i {
                assert(r.tasks[j] == m.tasks[j]);
            } else {
                assert(r.tasks[j] == m.tasks[j + 1]);
            }
        }
    }
}

} // verus!
