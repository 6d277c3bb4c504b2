//! The two tag lists of the task view: the tag filter, whose marks are the tags the task
//! list is filtered by, and the tags of the current task.

use vstd::prelude::*;
use crate::action::{Action, ActionTarget, RoutedAction, render_request, to_all};
use crate::multi_list::{ListState, first_index};
use crate::task::Tag;
use crate::task_manager::TaskManagerError;
use crate::text::{decimal, is_blank, is_blank_exec, eq_text, push_char, push_decimal, push_str};

verus! {

/// The positions, below `n`, of the tags whose id is in `filter`, in ascending order.
pub open spec fn marked_positions(tags: Seq<Tag>, filter: Seq<i64>, n: int) -> Seq<usize>
    decreases n,
{
    if n <= 0 {
        Seq::empty()
    } else {
        let prev = marked_positions(tags, filter, n - 1);
        match tags[n - 1].id {
            Some(id) => if filter.contains(id) {
                prev.push((n - 1) as usize)
            } else {
                prev
            },
            None => prev,
        }
    }
}

/// `s` without any `x`, the rest in order.
pub open spec fn without_value(s: Seq<i64>, x: i64) -> Seq<i64>
    decreases s.len(),
{
    if s.len() == 0 {
        s
    } else if s.last() == x {
        without_value(s.drop_last(), x)
    } else {
        without_value(s.drop_last(), x).push(s.last())
    }
}

/// Two tags are the same: the same id and the same text.
pub open spec fn same_tag(a: Tag, b: Tag) -> bool {
    a.id == b.id && a.text@ == b.text@
}

/// The tags of `all` that are not among `current`, in order.
pub open spec fn tags_not_in(all: Seq<Tag>, current: Seq<Tag>) -> Seq<Tag>
    decreases all.len(),
{
    if all.len() == 0 {
        Seq::empty()
    } else {
        let prev = tags_not_in(all.drop_last(), current);
        if exists|j: int| 0 <= j < current.len() && same_tag(current[j], all.last()) {
            prev
        } else {
            prev.push(all.last())
        }
    }
}

/// The line that stands for the tag at position `i` in a pick list.
pub open spec fn tag_line(i: nat, text: Seq<char>) -> Seq<char> {
    decimal(i) + seq![' '] + text
}

/// `name` can be given to a new tag: no tag has it and it is not blank.
pub open spec fn is_new_name(tags: Seq<Tag>, name: Seq<char>) -> bool {
    &&& forall|i: int| 0 <= i < tags.len() ==> (#[trigger] tags[i]).text@ != name
    &&& !is_blank(name)
}

/// `name` can be given to a new tag or to a renamed one (see `is_new_name`).
pub fn is_new_tag_name(tags: &Vec<Tag>, name: &str) -> (r: bool)
    ensures
        r == is_new_name(tags@, name@),
{
    let w = crate::parser::chars_of(name);
    let mut i: usize = 0;
    while i < tags.len()
        invariant
            i <= tags@.len(),
            w@ == name@,
            forall|j: int| 0 <= j < i ==> (#[trigger] tags@[j]).text@ != name@,
        decreases tags@.len() - i,
    {
        let t = crate::parser::chars_of(tags[i].text.as_str());
        if crate::text::eq_text(&t, name) {
            return false;
        }
        i += 1;
    }
    !is_blank_exec(name)
}

/// The lines of a pick list of tags: the position and the text of each.
pub fn tag_options(tags: &Vec<Tag>) -> (r: Vec<String>)
    ensures
        r@.len() == tags@.len(),
        forall|i: int| 0 <= i < tags@.len() ==> (#[trigger] r@[i])@ == tag_line(i as nat, tags@[i].text@),
{
    let mut options: Vec<String> = Vec::new();
    let mut i: usize = 0;
    while i < tags.len()
        invariant
            i <= tags@.len(),
            options@.len() == i,
            forall|j: int| 0 <= j < i ==> (#[trigger] options@[j])@ == tag_line(j as nat, tags@[j].text@),
        decreases tags@.len() - i,
    {
        let mut s = String::new();
        proof {
            reveal_strlit("");
        }
        push_decimal(&mut s, i as u64);
        push_char(&mut s, ' ');
        push_str(&mut s, tags[i].text.as_str());
        assert(s@ =~= tag_line(i as nat, tags@[i as int].text@));
        options.push(s);
        i += 1;
    }
    options
}

fn contains_id(v: &Vec<i64>, x: i64) -> (r: bool)
    ensures
        r == v@.contains(x),
{
    let mut i: usize = 0;
    while i < v.len()
        invariant
            i <= v@.len(),
            forall|j: int| 0 <= j < i ==> v@[j] != x,
        decreases v@.len() - i,
    {
        if v[i] == x {
            assert(v@[i as int] == x);
            return true;
        }
        i += 1;
    }
    false
}

/// `v` without any `x`, the rest in order.
fn remove_value(v: &Vec<i64>, x: i64) -> (r: Vec<i64>)
    ensures
        r@ == without_value(v@, x),
{
    let mut out: Vec<i64> = Vec::new();
    let mut i: usize = 0;
    while i < v.len()
        invariant
            i <= v@.len(),
            out@ == without_value(v@.take(i as int), x),
        decreases v@.len() - i,
    {
        assert(v@.take(i + 1).drop_last() =~= v@.take(i as int));
        if v[i] != x {
            out.push(v[i]);
        }
        i += 1;
    }
    assert(v@.take(v@.len() as int) =~= v@);
    out
}

/// What the tag filter needs from outside before it can go on.
#[derive(Debug, Clone, Copy, PartialEq, Eq, Structural)]
pub enum TagFilterRequest {
    /// Read the tags and the filter again and hand them to `CurrentTagFilter::update_list`.
    ReadList,
    /// Ask the user for a new name of the highlighted tag; rename it where `is_new_tag_name`.
    EditTag,
    /// Delete the highlighted tag (`CurrentTagFilter::highlighted_tag_id`).
    DeleteTag,
    /// Ask the user for the name of a new tag; add it where `is_new_tag_name`.
    AddTag,
    /// Toggle the highlighted tag in the filter (`CurrentTagFilter::toggle_current_tag`) and
    /// read the tasks again.
    ToggleTag,
}

/// What an action leads to: the actions to send, and what to do outside first, if anything.
pub struct TagFilterStep {
    pub actions: Vec<RoutedAction>,
    pub request: Option<TagFilterRequest>,
}

/// The list of all tags, with the tags of the filter marked.
pub struct CurrentTagFilter {
    pub list_state: ListState,
}

impl CurrentTagFilter {
    /// No tag highlighted or marked.
    pub fn new() -> (r: Self)
        ensures
            r.list_state.offset == 0,
            r.list_state.current_index is None,
            r.list_state.selected_indices@.len() == 0,
    {
        CurrentTagFilter { list_state: ListState::default() }
    }

    /// Marks exactly the tags whose id is in `filter`.
    pub fn update_list(&mut self, tags: &Vec<Tag>, filter: &Vec<i64>)
        ensures
            final(self).list_state.selected_indices@ == marked_positions(tags@, filter@, tags@.len() as int),
            final(self).list_state.current_index == old(self).list_state.current_index,
            final(self).list_state.offset == old(self).list_state.offset,
    {
        let mut marked: Vec<usize> = Vec::new();
        let mut i: usize = 0;
        while i < tags.len()
            invariant
                i <= tags@.len(),
                marked@ == marked_positions(tags@, filter@, i as int),
            decreases tags@.len() - i,
        {
            match tags[i].get_id() {
                Some(id) => {
                    if contains_id(filter, id) {
                        marked.push(i);
                    }
                },
                None => {},
            }
            i += 1;
        }
        self.list_state.selected_indices = marked;
    }

    /// The id of the highlighted tag, if a tag is highlighted and has one.
    pub fn highlighted_tag_id(&self, tags: &Vec<Tag>) -> (r: Option<i64>)
        requires
            self.list_state.current_index matches Some(i) ==> i < tags@.len(),
        ensures
            match self.list_state.current_index {
                Some(i) => r == tags@[i as int].id,
                None => r is None,
            },
    {
        match self.list_state.current_index {
            Some(i) => tags[i].get_id(),
            None => None,
        }
    }

    /// Marks the highlighted tag, or unmarks it, and puts its id into the filter or takes it
    /// out; gives whether the filter was touched (a tag with an id is highlighted).
    pub fn toggle_current_tag(&mut self, tags: &Vec<Tag>, filter: &mut Vec<i64>) -> (r: bool)
        requires
            old(self).list_state.current_index matches Some(i) ==> i < tags@.len(),
        ensures
            final(self).list_state.offset == old(self).list_state.offset,
            final(self).list_state.current_index == old(self).list_state.current_index,
            match old(self).list_state.current_index {
                Some(i) => {
                    let marked = old(self).list_state.selected_indices@.contains(i);
                    &&& final(self).list_state.selected_indices@ == if marked {
                        old(self).list_state.selected_indices@.remove(
                            first_index(old(self).list_state.selected_indices@, i),
                        )
                    } else {
                        old(self).list_state.selected_indices@.push(i)
                    }
                    &&& match tags@[i as int].id {
                        Some(id) => r && final(filter)@ == if marked {
                            without_value(old(filter)@, id)
                        } else {
                            old(filter)@.push(id)
                        },
                        None => !r && final(filter)@ == old(filter)@,
                    }
                },
                None => !r && final(filter)@ == old(filter)@ && final(self).list_state.selected_indices@
                    == old(self).list_state.selected_indices@,
            },
    {
        let now_marked = self.list_state.toggle();
        let i = match self.list_state.current_index {
            Some(i) => i,
            None => {
                return false;
            },
        };
        let id = match tags[i].get_id() {
            Some(id) => id,
            None => {
                return false;
            },
        };
        if now_marked {
            filter.push(id);
        } else {
            let kept = remove_value(filter, id);
            *filter = kept;
        }
        true
    }

    /// Handles `action`: moves the highlight, or asks for the change of a tag or of the filter.
    pub fn update(&mut self, action: &Action) -> (r: TagFilterStep)
        ensures
            final(self).list_state.offset == old(self).list_state.offset,
            final(self).list_state.selected_indices@ == old(self).list_state.selected_indices@,
            match *action {
                Action::UpdateTagFilter => r.request == Some(TagFilterRequest::ReadList) && r.actions@.len() == 0
                    && final(self).list_state.current_index == old(self).list_state.current_index,
                Action::NextTag => r.request is None && r.actions@ == seq![
                    RoutedAction { action: Action::Render, target: ActionTarget::App },
                ] && final(self).list_state.current_index == Some(
                    match old(self).list_state.current_index {
                        Some(i) => if i == usize::MAX { usize::MAX } else { (i + 1) as usize },
                        None => 0usize,
                    },
                ),
                Action::PrevTag => r.request is None && r.actions@ == seq![
                    RoutedAction { action: Action::Render, target: ActionTarget::App },
                ] && final(self).list_state.current_index == Some(
                    match old(self).list_state.current_index {
                        Some(i) => if i == 0 { 0usize } else { (i - 1) as usize },
                        None => usize::MAX,
                    },
                ),
                Action::EditTag => r.request == Some(TagFilterRequest::EditTag) && r.actions@ == seq![
                    RoutedAction { action: Action::UpdateTagsInInfo, target: ActionTarget::All },
                    RoutedAction { action: Action::UpdateTaskTable, target: ActionTarget::All },
                    RoutedAction { action: Action::Render, target: ActionTarget::App },
                ] && final(self).list_state.current_index == old(self).list_state.current_index,
                Action::DeleteTag => r.request == Some(TagFilterRequest::DeleteTag) && r.actions@ == seq![
                    RoutedAction { action: Action::UpdateTagsInInfo, target: ActionTarget::All },
                    RoutedAction { action: Action::UpdateTaskTable, target: ActionTarget::All },
                    RoutedAction { action: Action::Render, target: ActionTarget::App },
                ] && final(self).list_state.current_index == old(self).list_state.current_index,
                Action::AddTag => r.request == Some(TagFilterRequest::AddTag) && r.actions@ == seq![
                    RoutedAction { action: Action::Render, target: ActionTarget::App },
                ] && final(self).list_state.current_index == old(self).list_state.current_index,
                Action::ToggleTag => r.request == Some(TagFilterRequest::ToggleTag) && r.actions@ == seq![
                    RoutedAction { action: Action::UpdateTaskTable, target: ActionTarget::All },
                    RoutedAction { action: Action::Render, target: ActionTarget::App },
                ] && final(self).list_state.current_index == old(self).list_state.current_index,
                _ => r.request is None && r.actions@.len() == 0
                    && final(self).list_state.current_index == old(self).list_state.current_index,
            },
    {
        match action {
            Action::UpdateTagFilter => TagFilterStep {
                actions: Vec::new(),
                request: Some(TagFilterRequest::ReadList),
            },
            Action::NextTag => {
                self.list_state.next();
                let mut v: Vec<RoutedAction> = Vec::new();
                v.push(render_request());
                TagFilterStep { actions: v, request: None }
            },
            Action::PrevTag => {
                self.list_state.previous();
                let mut v: Vec<RoutedAction> = Vec::new();
                v.push(render_request());
                TagFilterStep { actions: v, request: None }
            },
            Action::EditTag => {
                let mut v: Vec<RoutedAction> = Vec::new();
                v.push(to_all(Action::UpdateTagsInInfo));
                v.push(to_all(Action::UpdateTaskTable));
                v.push(render_request());
                TagFilterStep { actions: v, request: Some(TagFilterRequest::EditTag) }
            },
            Action::DeleteTag => {
                let mut v: Vec<RoutedAction> = Vec::new();
                v.push(to_all(Action::UpdateTagsInInfo));
                v.push(to_all(Action::UpdateTaskTable));
                v.push(render_request());
                TagFilterStep { actions: v, request: Some(TagFilterRequest::DeleteTag) }
            },
            Action::AddTag => {
                let mut v: Vec<RoutedAction> = Vec::new();
                v.push(render_request());
                TagFilterStep { actions: v, request: Some(TagFilterRequest::AddTag) }
            },
            Action::ToggleTag => {
                let mut v: Vec<RoutedAction> = Vec::new();
                v.push(to_all(Action::UpdateTaskTable));
                v.push(render_request());
                TagFilterStep { actions: v, request: Some(TagFilterRequest::ToggleTag) }
            },
            _ => TagFilterStep { actions: Vec::new(), request: None },
        }
    }
}

/// The tags of `all` that the current task does not carry yet (see `tags_not_in`), which
/// the user picks from to add.
pub fn tags_to_choose(all: &Vec<Tag>, current: &Vec<Tag>) -> (r: Vec<Tag>)
    ensures
        r@.len() == tags_not_in(all@, current@).len(),
        forall|i: int| 0 <= i < r@.len() ==> same_tag(#[trigger] r@[i], tags_not_in(all@, current@)[i]),
{
    let mut out: Vec<Tag> = Vec::new();
    let mut i: usize = 0;
    while i < all.len()
        invariant
            i <= all@.len(),
            out@.len() == tags_not_in(all@.take(i as int), current@).len(),
            forall|k: int| 0 <= k < out@.len() ==> same_tag(#[trigger] out@[k], tags_not_in(all@.take(i as int), current@)[k]),
        decreases all@.len() - i,
    {
        assert(all@.take(i + 1).drop_last() =~= all@.take(i as int));
        let tag = &all[i];
        let mut found = false;
        let mut j: usize = 0;
        while j < current.len()
            invariant_except_break
                !found,
            invariant
                j <= current@.len(),
                forall|k: int| 0 <= k < j ==> !same_tag(current@[k], *tag),
            ensures
                found ==> j < current@.len() && same_tag(current@[j as int], *tag),
                !found ==> j == current@.len(),
            decreases current@.len() - j,
        {
            let t = crate::parser::chars_of(current[j].text.as_str());
            if current[j].id == tag.id && eq_text(&t, tag.text.as_str()) {
                found = true;
                break;
            }
            j += 1;
        }
        let ghost a = all@.take(i + 1);
        let ghost prev = out@;
        assert(a.last() == *tag);
        if !found {
            assert(!(exists|k: int| 0 <= k < current@.len() && same_tag(current@[k], a.last())));
            out.push(Tag { id: tag.id, text: tag.text.clone() });
            assert(tags_not_in(a, current@) == tags_not_in(all@.take(i as int), current@).push(a.last()));
            assert forall|k: int| 0 <= k < out@.len() implies same_tag(#[trigger] out@[k], tags_not_in(a, current@)[k]) by {
                if k < prev.len() {
                    assert(out@[k] == prev[k]);
                }
            }
        } else {
            assert(same_tag(current@[j as int], a.last()));
            assert(tags_not_in(a, current@) == tags_not_in(all@.take(i as int), current@));
        }
        i += 1;
    }
    assert(all@.take(all@.len() as int) =~= all@);
    out
}

/// The picked tags (positions in `choices`, the first `n` picks) that have an id, in the
/// order picked.
pub open spec fn picked_with_id(choices: Seq<Tag>, picked: Seq<usize>, n: int) -> Seq<Tag>
    decreases n,
{
    if n <= 0 {
        Seq::empty()
    } else {
        let prev = picked_with_id(choices, picked, n - 1);
        let t = choices[picked[n - 1] as int];
        if t.id is Some {
            prev.push(t)
        } else {
            prev
        }
    }
}

/// The tags of `current` below position `n` that are not picked, in order.
pub open spec fn unpicked(current: Seq<Tag>, picked: Seq<usize>, n: int) -> Seq<Tag>
    decreases n,
{
    if n <= 0 {
        Seq::empty()
    } else {
        let prev = unpicked(current, picked, n - 1);
        if picked.contains((n - 1) as usize) {
            prev
        } else {
            prev.push(current[n - 1])
        }
    }
}

/// The text of the first tag of `s` without an id.
pub open spec fn first_missing_id(s: Seq<Tag>) -> Option<Seq<char>>
    decreases s.len(),
{
    if s.len() == 0 {
        None
    } else {
        match first_missing_id(s.drop_last()) {
            Some(t) => Some(t),
            None => if s.last().id is None {
                Some(s.last().text@)
            } else {
                None
            },
        }
    }
}

/// `a` and `b` hold the same tags, in the same order.
pub open spec fn same_tags(a: Seq<Tag>, b: Seq<Tag>) -> bool {
    a.len() == b.len() && forall|k: int| 0 <= k < a.len() ==> same_tag(#[trigger] a[k], b[k])
}

/// Adds the tags the user picked (positions in `choices`) to the current task: each one
/// with an id goes to `current` and its id to `task_tags`, in the order picked.
pub fn add_picked_tags(current: &mut Vec<Tag>, task_tags: &mut Vec<i64>, choices: &Vec<Tag>, picked: &Vec<usize>)
    requires
        forall|i: int| 0 <= i < picked@.len() ==> #[trigger] picked@[i] < choices@.len(),
    ensures
        ({
            let added = picked_with_id(choices@, picked@, picked@.len() as int);
            &&& same_tags(final(current)@, old(current)@ + added)
            &&& final(task_tags)@ == old(task_tags)@ + added.map_values(|t: Tag| t.id->0)
        }),
{
    let ghost c0 = current@;
    let ghost t0 = task_tags@;
    let mut i: usize = 0;
    assert(c0 + picked_with_id(choices@, picked@, 0) =~= c0);
    while i < picked.len()
        invariant
            i <= picked@.len(),
            forall|k: int| 0 <= k < picked@.len() ==> #[trigger] picked@[k] < choices@.len(),
            same_tags(current@, c0 + picked_with_id(choices@, picked@, i as int)),
            task_tags@ == t0 + picked_with_id(choices@, picked@, i as int).map_values(|t: Tag| t.id->0),
        decreases picked@.len() - i,
    {
        let tag = &choices[picked[i]];
        let ghost before = picked_with_id(choices@, picked@, i as int);
        let ghost cur0 = current@;
        match tag.get_id() {
            Some(id) => {
                current.push(Tag { id: tag.id, text: tag.text.clone() });
                task_tags.push(id);
                let ghost after = before.push(*tag);
                assert(picked_with_id(choices@, picked@, i + 1) == after);
                assert(after.map_values(|t: Tag| t.id->0) =~= before.map_values(|t: Tag| t.id->0).push(id));
                assert(task_tags@ =~= t0 + after.map_values(|t: Tag| t.id->0));
                assert forall|k: int| 0 <= k < current@.len() implies same_tag(#[trigger] current@[k], (c0 + after)[k]) by {
                    if k < cur0.len() {
                        assert(current@[k] == cur0[k]);
                        assert((c0 + after)[k] == (c0 + before)[k]);
                    }
                }
            },
            None => {
                assert(picked_with_id(choices@, picked@, i + 1) == before);
            },
        }
        i += 1;
    }
}

/// The tags of the current task without the ones at the picked positions, and their ids;
/// an error names the first kept tag without an id.
pub fn remove_picked_tags(current: &Vec<Tag>, picked: &Vec<usize>) -> (r: Result<(Vec<Tag>, Vec<i64>), TaskManagerError>)
    ensures
        ({
            let rest = unpicked(current@, picked@, current@.len() as int);
            match first_missing_id(rest) {
                None => r matches Ok((kept, ids)) && same_tags(kept@, rest) && ids@ == rest.map_values(
                    |t: Tag| t.id->0,
                ),
                Some(t) => r matches Err(TaskManagerError::MissingTagId(s)) && s@ == t,
            }
        }),
{
    let mut kept: Vec<Tag> = Vec::new();
    let mut ids: Vec<i64> = Vec::new();
    let mut i: usize = 0;
    while i < current.len()
        invariant
            i <= current@.len(),
            first_missing_id(unpicked(current@, picked@, i as int)) is None,
            same_tags(kept@, unpicked(current@, picked@, i as int)),
            ids@ == unpicked(current@, picked@, i as int).map_values(|t: Tag| t.id->0),
        decreases current@.len() - i,
    {
        let mut is_picked = false;
        let mut j: usize = 0;
        while j < picked.len()
            invariant_except_break
                !is_picked,
            invariant
                j <= picked@.len(),
                forall|k: int| 0 <= k < j ==> picked@[k] != i,
            ensures
                is_picked ==> j < picked@.len() && picked@[j as int] == i,
                !is_picked ==> j == picked@.len(),
            decreases picked@.len() - j,
        {
            if picked[j] == i {
                is_picked = true;
                break;
            }
            j += 1;
        }
        let ghost before = unpicked(current@, picked@, i as int);
        proof {
            if is_picked {
                assert(picked@.contains(i));
                assert(unpicked(current@, picked@, i + 1) == before);
            } else {
                assert(!picked@.contains(i));
                assert(unpicked(current@, picked@, i + 1) == before.push(current@[i as int]));
                assert(before.push(current@[i as int]).drop_last() =~= before);
            }
        }
        if !is_picked {
            let tag = &current[i];
            match tag.get_id() {
                Some(id) => {
                    let ghost kb = kept@;
                    kept.push(Tag { id: tag.id, text: tag.text.clone() });
                    ids.push(id);
                    let ghost after = before.push(*tag);
                    assert(after.map_values(|t: Tag| t.id->0) =~= before.map_values(|t: Tag| t.id->0).push(id));
                    assert forall|k: int| 0 <= k < kept@.len() implies same_tag(#[trigger] kept@[k], after[k]) by {
                        if k < kb.len() {
                            assert(kept@[k] == kb[k]);
                        }
                    }
                },
                None => {
                    proof {
                        lemma_missing_stays(current@, picked@, i + 1);
                    }
                    return Err(TaskManagerError::MissingTagId(tag.text.clone()));
                },
            }
        }
        i += 1;
    }
    Ok((kept, ids))
}

/// Once a tag without an id is kept, it stays the first one as more tags are looked at.
proof fn lemma_missing_stays(current: Seq<Tag>, picked: Seq<usize>, n: int)
    requires
        0 <= n <= current.len(),
        first_missing_id(unpicked(current, picked, n)) is Some,
    ensures
        first_missing_id(unpicked(current, picked, current.len() as int)) == first_missing_id(
            unpicked(current, picked, n),
        ),
    decreases current.len() - n,
{
    if n < current.len() {
        let a = unpicked(current, picked, n);
        if !picked.contains(n as usize) {
            assert(a.push(current[n]).drop_last() =~= a);
        }
        lemma_missing_stays(current, picked, n + 1);
    }
}

/// Toggling a tag that is not in the filter twice leaves the filter as it was: it is put in
/// and taken out again.
pub proof fn lemma_toggle_twice_restores_filter(filter: Seq<i64>, id: i64)
    requires
        !filter.contains(id),
    ensures
        without_value(filter.push(id), id) == filter,
    decreases filter.len(),
{
    lemma_without_absent(filter, id);
    assert(filter.push(id).drop_last() =~= filter);
}

/// Taking out a value that is not there changes nothing.
proof fn lemma_without_absent(s: Seq<i64>, x: i64)
    requires
        !s.contains(x),
    ensures
        without_value(s, x) == s,
    decreases s.len(),
{
    if s.len() > 0 {
        assert(!s.drop_last().contains(x)) by {
            if s.drop_last().contains(x) {
                let k = choose|k: int| 0 <= k < s.drop_last().len() && s.drop_last()[k] == x;
                assert(s[k] == x);
            }
        }
        lemma_without_absent(s.drop_last(), x);
        assert(s.last() != x) by {
            assert(s[s.len() - 1] == s.last());
        }
        assert(s.drop_last().push(s.last()) =~= s);
    }
}

/// After the filter is toggled on a tag, the tag's id is in it exactly when the tag is marked.
pub proof fn lemma_toggle_marks_follow_filter(filter: Seq<i64>, id: i64, marked_now: bool)
    ensures
        marked_now ==> filter.push(id).contains(id),
        !marked_now ==> !without_value(filter, id).contains(id),
{
    if marked_now {
        assert(filter.push(id)[filter.len() as int] == id);
    } else {
        lemma_without_removes(filter, id);
    }
}

proof fn lemma_without_removes(s: Seq<i64>, x: i64)
    ensures
        !without_value(s, x).contains(x),
    decreases s.len(),
{
    if s.len() > 0 {
        lemma_without_removes(s.drop_last(), x);
        if s.last() != x {
            let w = without_value(s.drop_last(), x);
            assert forall|k: int| 0 <= k < w.push(s.last()).len() implies w.push(s.last())[k] != x by {
                if k < w.len() {
                    assert(w.push(s.last())[k] == w[k]);
                }
            }
        }
    }
}

} // verus!
