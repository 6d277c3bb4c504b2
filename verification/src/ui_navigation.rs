//! The views of the interface and the directions in which the focus moves.

use vstd::prelude::*;
use crate::components::{ComponentName, Id};
use vstd::view::View as _;

verus! {

#[derive(PartialEq, Copy, Eq, Structural, Clone, Hash, Debug)]
pub enum View {
    TaskView,
    CalendarView,
    PopupView,
}

impl View {
    /// The part that has the focus when the view is entered.
    pub open spec fn default_id(self) -> Id {
        match self {
            View::TaskView => Id::CompName(ComponentName::TaskList),
            View::CalendarView => Id::CompName(ComponentName::Calendar),
            View::PopupView => Id::CompName(ComponentName::DateInput),
        }
    }

    /// The name under which the view's own key bindings are grouped.
    pub fn get_name(&self) -> (r: ComponentName)
        ensures
            r == (match self {
                View::TaskView => ComponentName::TaskViewGlobal,
                View::CalendarView => ComponentName::EventViewGlobal,
                View::PopupView => ComponentName::DateInput,
            }),
    {
        match self {
            View::TaskView => ComponentName::TaskViewGlobal,
            View::CalendarView => ComponentName::EventViewGlobal,
            View::PopupView => ComponentName::DateInput,
        }
    }

    /// The part that has the focus when the view is entered.
    pub fn get_default_active_id(&self) -> (r: Id)
        ensures
            r == self.default_id(),
    {
        match self {
            View::TaskView => Id::CompName(ComponentName::TaskList),
            View::CalendarView => Id::CompName(ComponentName::Calendar),
            View::PopupView => Id::CompName(ComponentName::DateInput),
        }
    }
}

#[derive(Debug, Clone, Copy, PartialEq, Eq, Structural, Hash)]
pub enum Direction {
    Up,
    Down,
    Left,
    Right,
}

/// Why the focus cannot move or a layout cannot be read.
#[derive(Debug, Clone)]
pub enum NavigationError {
    /// The view has no layout, or the part with the focus is not in it.
    NoTarget { direction: Direction, from: Id, view: View },
    /// A name in a layout that the map of names does not hold.
    UnknownName(String),
    /// The view has no part with this id.
    MissingComponent { view: View, id: Id },
}

/// The parts of each view.
pub open spec fn view_components(v: View) -> Seq<ComponentName> {
    match v {
        View::TaskView => seq![
            ComponentName::TaskList,
            ComponentName::CurrentTagsInfo,
            ComponentName::TagFilter,
            ComponentName::CurrentTaskInfo,
            ComponentName::CurrentFilterInfo,
        ],
        View::CalendarView => seq![
            ComponentName::Calendar,
            ComponentName::CurrentDayList,
            ComponentName::SelectedDate,
        ],
        View::PopupView => seq![ComponentName::DateInput],
    }
}

/// The view has a part with the id `id`.
pub open spec fn has_component(v: View, id: Id) -> bool {
    id matches Id::CompName(n) && view_components(v).contains(n)
}

/// The ids of the parts of `view`.
pub fn components_of(view: View) -> (r: Vec<Id>)
    ensures
        r@ == view_components(view).map_values(|n: ComponentName| Id::CompName(n)),
{
    let mut v: Vec<Id> = Vec::new();
    match view {
        View::TaskView => {
            v.push(Id::CompName(ComponentName::TaskList));
            v.push(Id::CompName(ComponentName::CurrentTagsInfo));
            v.push(Id::CompName(ComponentName::TagFilter));
            v.push(Id::CompName(ComponentName::CurrentTaskInfo));
            v.push(Id::CompName(ComponentName::CurrentFilterInfo));
        },
        View::CalendarView => {
            v.push(Id::CompName(ComponentName::Calendar));
            v.push(Id::CompName(ComponentName::CurrentDayList));
            v.push(Id::CompName(ComponentName::SelectedDate));
        },
        View::PopupView => {
            v.push(Id::CompName(ComponentName::DateInput));
        },
    }
    assert(v@ =~= view_components(view).map_values(|n: ComponentName| Id::CompName(n)));
    v
}

/// Whether `view` has a part with the id `id`.
pub fn view_has_component(view: View, id: Id) -> (r: bool)
    ensures
        r == has_component(view, id),
{
    let ids = components_of(view);
    let mut i: usize = 0;
    while i < ids.len()
        invariant
            i <= ids@.len(),
            ids@ == view_components(view).map_values(|n: ComponentName| Id::CompName(n)),
            forall|j: int| 0 <= j < i ==> ids@[j] != id,
        decreases ids@.len() - i,
    {
        if ids[i] == id {
            assert(view_components(view)[i as int] == id->CompName_0);
            return true;
        }
        i += 1;
    }
    proof {
        if has_component(view, id) {
            let k = choose|k: int| 0 <= k < view_components(view).len() && view_components(view)[k] == id->CompName_0;
            assert(ids@[k] == id);
        }
    }
    false
}

/// The part a name stands for: the last entry of `map` with that name.
pub open spec fn lookup(map: Seq<(&str, Id)>, key: Seq<char>) -> Option<Id>
    decreases map.len(),
{
    if map.len() == 0 {
        None
    } else if map.last().0@ == key {
        Some(map.last().1)
    } else {
        lookup(map.drop_last(), key)
    }
}

/// The part a name of a layout stands for; an empty name stands for no part.
pub open spec fn id_of(map: Seq<(&str, Id)>, key: Seq<char>) -> Result<Id, Seq<char>> {
    if key.len() == 0 {
        Ok(Id::Empty)
    } else {
        match lookup(map, key) {
            Some(id) => Ok(id),
            None => Err(key),
        }
    }
}

/// The parts a row of names stands for, or the first name that stands for none.
pub open spec fn ids_of_row(row: Seq<&str>, map: Seq<(&str, Id)>) -> Result<Seq<Id>, Seq<char>>
    decreases row.len(),
{
    if row.len() == 0 {
        Ok(Seq::empty())
    } else {
        match ids_of_row(row.drop_last(), map) {
            Err(k) => Err(k),
            Ok(prev) => match id_of(map, row.last()@) {
                Ok(id) => Ok(prev.push(id)),
                Err(k) => Err(k),
            },
        }
    }
}

/// The parts a layout of names stands for, or the first name (in reading order) that
/// stands for none.
pub open spec fn ids_of_grid(grid: Seq<Vec<&str>>, map: Seq<(&str, Id)>) -> Result<Seq<Seq<Id>>, Seq<char>>
    decreases grid.len(),
{
    if grid.len() == 0 {
        Ok(Seq::empty())
    } else {
        match ids_of_grid(grid.drop_last(), map) {
            Err(k) => Err(k),
            Ok(prev) => match ids_of_row(grid.last()@, map) {
                Ok(row) => Ok(prev.push(row)),
                Err(k) => Err(k),
            },
        }
    }
}

/// The layouts of the task view and the calendar view.
pub open spec fn task_view_layout() -> Seq<Seq<Id>> {
    seq![
        seq![Id::CompName(ComponentName::TaskList), Id::CompName(ComponentName::CurrentTagsInfo)],
        seq![Id::CompName(ComponentName::TaskList), Id::CompName(ComponentName::TagFilter)],
    ]
}

pub open spec fn calendar_view_layout() -> Seq<Seq<Id>> {
    seq![seq![Id::CompName(ComponentName::Calendar)], seq![Id::CompName(ComponentName::CurrentDayList)]]
}

/// The neighbour of the cell at row `r`, column `c` in direction `d`: the cell next to it,
/// or the cell itself at the edge.
pub open spec fn neighbor_at(g: Seq<Seq<Id>>, r: int, c: int, d: Direction) -> Id {
    match d {
        Direction::Up => if r > 0 { g[r - 1][c] } else { g[r][c] },
        Direction::Down => if r + 1 < g.len() { g[r + 1][c] } else { g[r][c] },
        Direction::Left => if c > 0 { g[r][c - 1] } else { g[r][c] },
        Direction::Right => if c + 1 < g[r].len() { g[r][c + 1] } else { g[r][c] },
    }
}

/// All rows are as long as the first, so that every cell has a cell above and below it where
/// there is a row above or below.
pub open spec fn grid_ok(g: Seq<Seq<Id>>) -> bool {
    forall|r: int| 0 <= r < g.len() ==> #[trigger] g[r].len() == g[0].len()
}

/// The last column, before `c`, of `row` that holds `id`.
pub open spec fn last_in_row(row: Seq<Id>, id: Id, c: int) -> Option<int>
    decreases c,
{
    if c <= 0 {
        None
    } else if row[c - 1] == id {
        Some(c - 1)
    } else {
        last_in_row(row, id, c - 1)
    }
}

/// The last cell, in reading order and before row `r`, that holds `id`.
pub open spec fn last_cell(g: Seq<Seq<Id>>, id: Id, r: int) -> Option<(int, int)>
    decreases r,
{
    if r <= 0 {
        None
    } else {
        match last_in_row(g[r - 1], id, g[r - 1].len() as int) {
            Some(c) => Some((r - 1, c)),
            None => last_cell(g, id, r - 1),
        }
    }
}

/// Where the focus goes from `id` in direction `d`: the neighbour of the last cell that holds
/// `id`; `None` where no cell holds it.
pub open spec fn nav_target(g: Seq<Seq<Id>>, id: Id, d: Direction) -> Option<Id> {
    match last_cell(g, id, g.len() as int) {
        Some((r, c)) => Some(neighbor_at(g, r, c, d)),
        None => None,
    }
}

/// The layout of `view` among the layouts.
pub open spec fn layout_of(layouts: Seq<(View, Vec<Vec<Id>>)>, view: View) -> Option<Seq<Seq<Id>>>
    decreases layouts.len(),
{
    if layouts.len() == 0 {
        None
    } else if layouts.last().0 == view {
        Some(layouts.last().1@.map_values(|row: Vec<Id>| row@))
    } else {
        layout_of(layouts.drop_last(), view)
    }
}

/// The focus among the parts of the interface: the layouts of the views, the view shown and
/// the part that has the focus, and the popup, if one is open.
pub struct UINavigation {
    layouts: Vec<(View, Vec<Vec<Id>>)>,
    all_views: Vec<View>,
    current_view_index: usize,
    pub current_view: View,
    pub current_component_id: Id,
    pub popup: Option<Id>,
}

impl UINavigation {
    /// The view shown.
    pub closed spec fn shown_view(&self) -> View {
        self.current_view
    }

    /// The part with the focus.
    pub closed spec fn focus(&self) -> Id {
        self.current_component_id
    }

    /// The popup, if one is open.
    pub closed spec fn popup_id(&self) -> Option<Id> {
        self.popup
    }

    /// The layout of `view`, row by row, as added last.
    pub closed spec fn layout(&self, view: View) -> Option<Seq<Seq<Id>>> {
        layout_of(self.layouts@, view)
    }

    /// The views that `next_view` goes through, in turn.
    pub closed spec fn views(&self) -> Seq<View> {
        self.all_views@
    }

    /// The position of the shown view among `views`.
    pub closed spec fn view_index(&self) -> int {
        self.current_view_index as int
    }

    /// Every layout has rows of one length.
    pub open spec fn layouts_ok(&self) -> bool {
        forall|v: View| #[trigger] self.layout(v) matches Some(g) ==> grid_ok(g)
    }

    pub closed spec fn wf(&self) -> bool {
        &&& self.all_views@.len() > 0
        &&& self.current_view_index < self.all_views@.len()
        &&& self.current_view == self.all_views@[self.current_view_index as int]
    }

    fn layout_position(&self, view: View) -> (r: Option<usize>)
        ensures
            match r {
                Some(i) => i < self.layouts@.len() && self.layouts@[i as int].0 == view && layout_of(
                    self.layouts@,
                    view,
                ) == Some(self.layouts@[i as int].1@.map_values(|row: Vec<Id>| row@)),
                None => layout_of(self.layouts@, view) is None,
            },
    {
        let mut i: usize = self.layouts.len();
        assert(self.layouts@.take(i as int) =~= self.layouts@);
        while i > 0
            invariant
                i <= self.layouts@.len(),
                layout_of(self.layouts@.take(i as int), view) == layout_of(self.layouts@, view),
            decreases i,
        {
            assert(self.layouts@.take(i as int).drop_last() =~= self.layouts@.take(i - 1));
            if self.layouts[i - 1].0 == view {
                return Some(i - 1);
            }
            i -= 1;
        }
        None
    }

    /// Sets the layout of `view`: where the focus goes from each part, in each direction.
    pub fn add_navigation_view(&mut self, view: View, grid: Vec<Vec<Id>>)
        requires
            grid_ok(grid@.map_values(|row: Vec<Id>| row@)),
        ensures
            final(self).layout(view) == Some(grid@.map_values(|row: Vec<Id>| row@)),
            forall|v: View| v != view ==> final(self).layout(v) == old(self).layout(v),
            final(self).views() == old(self).views(),
            final(self).view_index() == old(self).view_index(),
            final(self).shown_view() == old(self).shown_view(),
            final(self).focus() == old(self).focus(),
            final(self).popup_id() == old(self).popup_id(),
            old(self).wf() ==> final(self).wf(),
    {
        let ghost g = grid@.map_values(|row: Vec<Id>| row@);
        self.layouts.push((view, grid));
        assert(self.layouts@.drop_last() == old(self).layouts@);
        assert forall|v: View| v != view implies self.layout(v) == old(self).layout(v) by {
            assert(self.layouts@.drop_last() == old(self).layouts@);
        }
    }

    /// The focus on the task view's list, with the layouts of the task and calendar views.
    pub fn new() -> (r: Result<Self, NavigationError>)
        ensures
            r matches Ok(n) && n.wf() && n.shown_view() == View::TaskView
                && n.focus() == View::TaskView.default_id() && n.popup_id() is None
                && n.views() == seq![View::TaskView, View::CalendarView] && n.view_index() == 0
                && n.layout(View::TaskView) == Some(task_view_layout())
                && n.layout(View::CalendarView) == Some(calendar_view_layout())
                && n.layout(View::PopupView) is None && n.layouts_ok(),
    {
        let mut all_views: Vec<View> = Vec::new();
        all_views.push(View::TaskView);
        all_views.push(View::CalendarView);
        let current_view_index: usize = 0;
        let current_view = all_views[current_view_index];
        let current_component_id = current_view.get_default_active_id();
        let mut navigation = UINavigation {
            layouts: Vec::new(),
            all_views,
            current_view_index,
            current_view,
            current_component_id,
            popup: None,
        };

        let mut component_map: Vec<(&str, Id)> = Vec::new();
        component_map.push(("task-list", Id::CompName(ComponentName::TaskList)));
        component_map.push(("task-info", Id::CompName(ComponentName::CurrentTaskInfo)));
        component_map.push(("current-tags", Id::CompName(ComponentName::CurrentTagsInfo)));
        component_map.push(("tag-filter", Id::CompName(ComponentName::TagFilter)));
        component_map.push(("current-filter", Id::CompName(ComponentName::CurrentFilterInfo)));
        let mut rows: Vec<Vec<&str>> = Vec::new();
        rows.push(vec!["task-list", "current-tags"]);
        rows.push(vec!["task-list", "tag-filter"]);
        assert(rows@[0]@ =~= seq!["task-list", "current-tags"]);
        assert(rows@[1]@ =~= seq!["task-list", "tag-filter"]);
        proof {
            reveal_strlit("task-list");
            reveal_strlit("task-info");
            reveal_strlit("current-tags");
            reveal_strlit("tag-filter");
            reveal_strlit("current-filter");
            reveal_strlit("calendar");
            reveal_strlit("current-day");
            reveal_strlit("selected-date");
        }
        assert(component_map@ =~= seq![
            ("task-list", Id::CompName(ComponentName::TaskList)),
            ("task-info", Id::CompName(ComponentName::CurrentTaskInfo)),
            ("current-tags", Id::CompName(ComponentName::CurrentTagsInfo)),
            ("tag-filter", Id::CompName(ComponentName::TagFilter)),
            ("current-filter", Id::CompName(ComponentName::CurrentFilterInfo)),
        ]);
        let grid = match Self::transform_to_ids(&rows, &component_map) {
            Ok(g) => g,
            Err(e) => {
                proof {
                    lemma_task_names(rows@, component_map@);
                }
                return Err(e);
            },
        };
        proof {
            lemma_task_names(rows@, component_map@);
        }
        navigation.add_navigation_view(View::TaskView, grid);

        let mut component_map: Vec<(&str, Id)> = Vec::new();
        component_map.push(("calendar", Id::CompName(ComponentName::Calendar)));
        component_map.push(("current-day", Id::CompName(ComponentName::CurrentDayList)));
        component_map.push(("selected-date", Id::CompName(ComponentName::SelectedDate)));
        let mut rows: Vec<Vec<&str>> = Vec::new();
        rows.push(vec!["calendar"]);
        rows.push(vec!["current-day"]);
        assert(rows@[0]@ =~= seq!["calendar"]);
        assert(rows@[1]@ =~= seq!["current-day"]);
        assert(component_map@ =~= seq![
            ("calendar", Id::CompName(ComponentName::Calendar)),
            ("current-day", Id::CompName(ComponentName::CurrentDayList)),
            ("selected-date", Id::CompName(ComponentName::SelectedDate)),
        ]);
        let grid = match Self::transform_to_ids(&rows, &component_map) {
            Ok(g) => g,
            Err(e) => {
                proof {
                    lemma_calendar_names(rows@, component_map@);
                }
                return Err(e);
            },
        };
        proof {
            lemma_calendar_names(rows@, component_map@);
        }
        navigation.add_navigation_view(View::CalendarView, grid);
        proof {
            assert(grid_ok(task_view_layout()));
            assert(grid_ok(calendar_view_layout()));
            assert forall|v: View| (#[trigger] navigation.layout(v) matches Some(g) ==> grid_ok(g)) by {
                match v {
                    View::TaskView => {},
                    View::CalendarView => {},
                    View::PopupView => {},
                }
            }
        }
        Ok(navigation)
    }

    /// The parts that a layout of names stands for; an empty name stands for no part. Errs with
    /// the first name, in reading order, that `component_map` does not hold.
    pub fn transform_to_ids(grid: &Vec<Vec<&str>>, component_map: &Vec<(&str, Id)>) -> (r: Result<
        Vec<Vec<Id>>,
        NavigationError,
    >)
        ensures
            match ids_of_grid(grid@, component_map@) {
                Ok(g) => r matches Ok(v) && v@.map_values(|row: Vec<Id>| row@) == g,
                Err(k) => r matches Err(NavigationError::UnknownName(s)) && s@ == k,
            },
    {
        let mut res: Vec<Vec<Id>> = Vec::new();
        let mut i: usize = 0;
        assert(grid@.take(0) =~= Seq::<Vec<&str>>::empty());
        assert(res@.map_values(|row: Vec<Id>| row@) =~= Seq::<Seq<Id>>::empty());
        while i < grid.len()
            invariant
                i <= grid@.len(),
                ids_of_grid(grid@.take(i as int), component_map@) == Ok::<Seq<Seq<Id>>, Seq<char>>(
                    res@.map_values(|row: Vec<Id>| row@),
                ),
            decreases grid@.len() - i,
        {
            assert(grid@.take(i + 1).drop_last() =~= grid@.take(i as int));
            let row = &grid[i];
            let mut row_vec: Vec<Id> = Vec::new();
            let mut j: usize = 0;
            assert(row@.take(0) =~= Seq::<&str>::empty());
            while j < row.len()
                invariant
                    j <= row@.len(),
                    i < grid@.len(),
                    grid@[i as int]@ == row@,
                    ids_of_grid(grid@.take(i as int), component_map@) is Ok,
                    ids_of_row(row@.take(j as int), component_map@) == Ok::<Seq<Id>, Seq<char>>(row_vec@),
                decreases row@.len() - j,
            {
                assert(row@.take(j + 1).drop_last() =~= row@.take(j as int));
                let key = row[j];
                if key.unicode_len() == 0 {
                    row_vec.push(Id::Empty);
                } else {
                    match Self::lookup_exec(component_map, key) {
                        Some(id) => row_vec.push(id),
                        None => {
                            proof {
                                assert(row@.take(j + 1).last() == row@[j as int]);
                                assert(ids_of_row(row@.take(j + 1), component_map@) is Err);
                                lemma_row_error_stays(row@, component_map@, (j + 1) as int);
                                assert(grid@[i as int]@ == row@);
                                lemma_grid_row_error(grid@, component_map@, i as int);
                            }
                            return Err(NavigationError::UnknownName(key.to_owned()));
                        },
                    }
                }
                j += 1;
            }
            assert(row@.take(row@.len() as int) =~= row@);
            let ghost before = res@;
            res.push(row_vec);
            assert(res@.map_values(|row: Vec<Id>| row@) =~= before.map_values(|row: Vec<Id>| row@).push(row_vec@));
            i += 1;
        }
        assert(grid@.take(grid@.len() as int) =~= grid@);
        Ok(res)
    }

    fn lookup_exec(map: &Vec<(&str, Id)>, key: &str) -> (r: Option<Id>)
        ensures
            r == lookup(map@, key@),
    {
        let w = crate::parser::chars_of(key);
        let mut i: usize = map.len();
        assert(map@.take(i as int) =~= map@);
        while i > 0
            invariant
                i <= map@.len(),
                w@ == key@,
                lookup(map@.take(i as int), key@) == lookup(map@, key@),
            decreases i,
        {
            assert(map@.take(i as int).drop_last() =~= map@.take(i - 1));
            let entry = map[i - 1];
            if crate::text::eq_text(&w, entry.0) {
                return Some(entry.1);
            }
            i -= 1;
        }
        None
    }

    /// Shows the next view, in turn, with the focus on its default part.
    pub fn next_view(&mut self)
        requires
            old(self).wf(),
        ensures
            final(self).wf(),
            final(self).view_index() == (old(self).view_index() + 1) % (old(self).views().len() as int),
            final(self).shown_view() == old(self).views()[final(self).view_index()],
            final(self).focus() == final(self).shown_view().default_id(),
            final(self).views() == old(self).views(),
            forall|v: View| final(self).layout(v) == old(self).layout(v),
            final(self).popup_id() == old(self).popup_id(),
    {
        let n = self.all_views.len();
        self.current_view_index = (self.current_view_index + 1) % n;
        self.current_view = self.all_views[self.current_view_index];
        self.current_component_id = self.current_view.get_default_active_id();
    }

    /// Moves the focus in `direction` within the shown view: to the neighbour of the part with
    /// the focus, staying where that neighbour is no part. Errs where the view has no layout or
    /// the part with the focus is not in it.
    pub fn move_to(&mut self, direction: &Direction) -> (r: Result<(), NavigationError>)
        requires
            old(self).layout(old(self).shown_view()) matches Some(g) ==> grid_ok(g),
        ensures
            final(self).shown_view() == old(self).shown_view(),
            final(self).popup_id() == old(self).popup_id(),
            final(self).views() == old(self).views(),
            final(self).view_index() == old(self).view_index(),
            forall|v: View| final(self).layout(v) == old(self).layout(v),
            old(self).wf() ==> final(self).wf(),
            match old(self).layout(old(self).shown_view()) {
                Some(g) => match nav_target(g, old(self).focus(), *direction) {
                    Some(t) => r is Ok && final(self).focus() == (if t == Id::Empty {
                        old(self).focus()
                    } else {
                        t
                    }),
                    None => r is Err && final(self).focus() == old(self).focus(),
                },
                None => r is Err && final(self).focus() == old(self).focus(),
            },
    {
        let fail = NavigationError::NoTarget {
            direction: *direction,
            from: self.current_component_id,
            view: self.current_view,
        };
        let pos = match self.layout_position(self.current_view) {
            Some(p) => p,
            None => {
                return Err(fail);
            },
        };
        let grid = &self.layouts[pos].1;
        let ghost g = grid@.map_values(|row: Vec<Id>| row@);
        let id = self.current_component_id;
        let mut r: usize = grid.len();
        let mut found: Option<(usize, usize)> = None;
        while r > 0
            invariant_except_break
                found is None,
                last_cell(g, id, r as int) == last_cell(g, id, g.len() as int),
            invariant
                r <= grid@.len(),
                g == grid@.map_values(|row: Vec<Id>| row@),
            ensures
                match found {
                    Some((fr, fc)) => fr < g.len() && fc < g[fr as int].len() && last_cell(
                        g,
                        id,
                        g.len() as int,
                    ) == Some((fr as int, fc as int)),
                    None => last_cell(g, id, g.len() as int) is None,
                },
            decreases r,
        {
            let row = &grid[r - 1];
            assert(row@ == g[r - 1]);
            let mut c: usize = row.len();
            while c > 0
                invariant
                    c <= row@.len(),
                    last_in_row(row@, id, c as int) == last_in_row(row@, id, row@.len() as int),
                ensures
                    c == 0 || row@[c - 1] == id,
                decreases c,
            {
                if row[c - 1] == id {
                    break;
                }
                c -= 1;
            }
            if c > 0 {
                found = Some(((r - 1), (c - 1)));
                break;
            }
            r -= 1;
        }
        let (fr, fc) = match found {
            Some(p) => p,
            None => {
                return Err(fail);
            },
        };
        assert(g[fr as int] == grid@[fr as int]@);
        let target = Self::neighbor_exec(grid, fr, fc, direction);
        if target != Id::Empty {
            self.current_component_id = target;
        }
        Ok(())
    }

    fn neighbor_exec(grid: &Vec<Vec<Id>>, r: usize, c: usize, d: &Direction) -> (t: Id)
        requires
            r < grid@.len(),
            c < grid@[r as int]@.len(),
            grid_ok(grid@.map_values(|row: Vec<Id>| row@)),
        ensures
            t == neighbor_at(grid@.map_values(|row: Vec<Id>| row@), r as int, c as int, *d),
    {
        let ghost g = grid@.map_values(|row: Vec<Id>| row@);
        assert(g[r as int] == grid@[r as int]@);
        assert(c < g[r as int].len());
        match d {
            Direction::Up => if r > 0 {
                assert(g[r - 1] == grid@[r - 1]@);
                assert(g[r - 1].len() == g[0].len());
                grid[r - 1][c]
            } else {
                grid[r][c]
            },
            Direction::Down => if r < grid.len() - 1 {
                assert(g[r + 1] == grid@[r + 1]@);
                assert(g[r + 1].len() == g[0].len());
                grid[r + 1][c]
            } else {
                grid[r][c]
            },
            Direction::Left => if c > 0 {
                grid[r][c - 1]
            } else {
                grid[r][c]
            },
            Direction::Right => if c < grid[r].len() - 1 {
                grid[r][c + 1]
            } else {
                grid[r][c]
            },
        }
    }

    /// The part with the focus, where the view shown has it.
    pub fn current_component(&self) -> (r: Result<Id, NavigationError>)
        ensures
            has_component(self.shown_view(), self.focus()) ==> r == Ok::<Id, NavigationError>(self.focus()),
            !has_component(self.shown_view(), self.focus()) ==> (r matches Err(
                NavigationError::MissingComponent { view, id },
            ) && view == self.shown_view() && id == self.focus()),
    {
        if view_has_component(self.current_view, self.current_component_id) {
            Ok(self.current_component_id)
        } else {
            Err(NavigationError::MissingComponent { view: self.current_view, id: self.current_component_id })
        }
    }

    /// The popup, where one is open and it is a part of the popup view.
    pub fn get_popup_component(&self) -> (r: Option<Id>)
        ensures
            r == (match self.popup_id() {
                Some(p) => if has_component(View::PopupView, p) {
                    Some(p)
                } else {
                    None
                },
                None => None,
            }),
    {
        match self.popup {
            Some(p) => if view_has_component(View::PopupView, p) {
                Some(p)
            } else {
                None
            },
            None => None,
        }
    }

    /// Opens the part `component_name` as the popup.
    pub fn set_popup(&mut self, component_name: ComponentName)
        ensures
            final(self).popup_id() == Some(Id::CompName(component_name)),
            old(self).wf() ==> final(self).wf(),
            final(self).shown_view() == old(self).shown_view(),
            final(self).focus() == old(self).focus(),
            final(self).views() == old(self).views(),
            final(self).view_index() == old(self).view_index(),
            forall|v: View| final(self).layout(v) == old(self).layout(v),
    {
        self.popup = Some(Id::CompName(component_name));
    }

    /// Closes the popup.
    pub fn remove_popup(&mut self)
        ensures
            final(self).popup_id() is None,
            old(self).wf() ==> final(self).wf(),
            final(self).shown_view() == old(self).shown_view(),
            final(self).focus() == old(self).focus(),
            final(self).views() == old(self).views(),
            final(self).view_index() == old(self).view_index(),
            forall|v: View| final(self).layout(v) == old(self).layout(v),
    {
        self.popup = None;
    }
}

/// Once a row has a name that stands for no part, so does every longer part of the row.
proof fn lemma_row_error_stays(row: Seq<&str>, map: Seq<(&str, Id)>, j: int)
    requires
        0 <= j <= row.len(),
        ids_of_row(row.take(j), map) is Err,
    ensures
        ids_of_row(row, map) == ids_of_row(row.take(j), map),
    decreases row.len() - j,
{
    if j < row.len() {
        assert(row.take(j + 1).drop_last() =~= row.take(j));
        lemma_row_error_stays(row, map, j + 1);
    } else {
        assert(row.take(j) =~= row);
    }
}

/// A row that has a name standing for no part makes the whole layout err with that name.
proof fn lemma_grid_row_error(grid: Seq<Vec<&str>>, map: Seq<(&str, Id)>, i: int)
    requires
        0 <= i < grid.len(),
        ids_of_grid(grid.take(i), map) is Ok,
        ids_of_row(grid[i]@, map) is Err,
    ensures
        ids_of_grid(grid, map) == Err::<Seq<Seq<Id>>, Seq<char>>(ids_of_row(grid[i]@, map)->Err_0),
{
    assert(grid.take(i + 1).drop_last() =~= grid.take(i));
    lemma_grid_error_stays(grid, map, i + 1);
}

proof fn lemma_grid_error_stays(grid: Seq<Vec<&str>>, map: Seq<(&str, Id)>, i: int)
    requires
        0 <= i <= grid.len(),
        ids_of_grid(grid.take(i), map) is Err,
    ensures
        ids_of_grid(grid, map) == ids_of_grid(grid.take(i), map),
    decreases grid.len() - i,
{
    if i < grid.len() {
        assert(grid.take(i + 1).drop_last() =~= grid.take(i));
        lemma_grid_error_stays(grid, map, i + 1);
    } else {
        assert(grid.take(i) =~= grid);
    }
}

/// The names of the task view's layout stand for its parts.
proof fn lemma_task_names(rows: Seq<Vec<&str>>, map: Seq<(&str, Id)>)
    requires
        rows.len() == 2,
        rows[0]@ == seq!["task-list", "current-tags"],
        rows[1]@ == seq!["task-list", "tag-filter"],
        map == seq![
            ("task-list", Id::CompName(ComponentName::TaskList)),
            ("task-info", Id::CompName(ComponentName::CurrentTaskInfo)),
            ("current-tags", Id::CompName(ComponentName::CurrentTagsInfo)),
            ("tag-filter", Id::CompName(ComponentName::TagFilter)),
            ("current-filter", Id::CompName(ComponentName::CurrentFilterInfo)),
        ],
    ensures
        ids_of_grid(rows, map) == Ok::<Seq<Seq<Id>>, Seq<char>>(task_view_layout()),
{
    reveal_strlit("task-list");
    reveal_strlit("task-info");
    reveal_strlit("current-tags");
    reveal_strlit("tag-filter");
    reveal_strlit("current-filter");
    let m4 = map.drop_last();
    let m3 = m4.drop_last();
    let m2 = m3.drop_last();
    let m1 = m2.drop_last();
    assert(m4 =~= map.take(4));
    assert(m3 =~= map.take(3));
    assert(m2 =~= map.take(2));
    assert(m1 =~= map.take(1));
    assert(m1.drop_last() =~= Seq::<(&str, Id)>::empty());
    assert(lookup(m1, "task-list"@) == Some(Id::CompName(ComponentName::TaskList)));
    assert("task-info"@[5] != "task-list"@[5]);
    assert("current-tags"@.len() != "task-list"@.len());
    assert("tag-filter"@.len() != "task-list"@.len());
    assert("current-filter"@.len() != "task-list"@.len());
    assert("current-filter"@.len() != "current-tags"@.len());
    assert("tag-filter"@.len() != "current-tags"@.len());
    assert(lookup(m2, "task-list"@) == Some(Id::CompName(ComponentName::TaskList)));
    assert(lookup(m3, "task-list"@) == Some(Id::CompName(ComponentName::TaskList)));
    assert(lookup(m4, "task-list"@) == Some(Id::CompName(ComponentName::TaskList)));
    assert("current-filter"@.len() != "tag-filter"@.len());
    assert(lookup(m3, "current-tags"@) == Some(Id::CompName(ComponentName::CurrentTagsInfo)));
    assert(lookup(m4, "tag-filter"@) == Some(Id::CompName(ComponentName::TagFilter)));
    assert(lookup(map, "current-tags"@) == Some(Id::CompName(ComponentName::CurrentTagsInfo)));
    assert(lookup(m4, "current-tags"@) == Some(Id::CompName(ComponentName::CurrentTagsInfo)));
    assert(lookup(map, "task-list"@) == Some(Id::CompName(ComponentName::TaskList)));
    assert(lookup(map, "current-tags"@) == Some(Id::CompName(ComponentName::CurrentTagsInfo)));
    assert(lookup(map, "tag-filter"@) == Some(Id::CompName(ComponentName::TagFilter)));
    let r0 = rows[0]@;
    let r1 = rows[1]@;
    assert(r0.drop_last().drop_last() =~= Seq::<&str>::empty());
    assert(r1.drop_last().drop_last() =~= Seq::<&str>::empty());
    let tl = Id::CompName(ComponentName::TaskList);
    assert(r0.drop_last().last() == "task-list" && r0.last() == "current-tags");
    assert(r1.drop_last().last() == "task-list" && r1.last() == "tag-filter");
    assert("task-list"@.len() > 0 && "current-tags"@.len() > 0 && "tag-filter"@.len() > 0);
    assert(ids_of_row(r0.drop_last().drop_last(), map) == Ok::<Seq<Id>, Seq<char>>(Seq::empty()));
    assert(ids_of_row(r0.drop_last(), map) == Ok::<Seq<Id>, Seq<char>>(seq![tl]));
    assert(ids_of_row(r1.drop_last().drop_last(), map) == Ok::<Seq<Id>, Seq<char>>(Seq::empty()));
    assert(ids_of_row(r1.drop_last(), map) == Ok::<Seq<Id>, Seq<char>>(seq![tl]));
    assert(seq![tl].push(Id::CompName(ComponentName::CurrentTagsInfo)) =~= task_view_layout()[0]);
    assert(seq![tl].push(Id::CompName(ComponentName::TagFilter)) =~= task_view_layout()[1]);
    assert(ids_of_row(r0, map) == Ok::<Seq<Id>, Seq<char>>(task_view_layout()[0]));
    assert(ids_of_row(r1, map) == Ok::<Seq<Id>, Seq<char>>(task_view_layout()[1]));
    lemma_two_rows(rows, map, task_view_layout());
}

/// The names of the calendar view's layout stand for its parts.
proof fn lemma_calendar_names(rows: Seq<Vec<&str>>, map: Seq<(&str, Id)>)
    requires
        rows.len() == 2,
        rows[0]@ == seq!["calendar"],
        rows[1]@ == seq!["current-day"],
        map == seq![
            ("calendar", Id::CompName(ComponentName::Calendar)),
            ("current-day", Id::CompName(ComponentName::CurrentDayList)),
            ("selected-date", Id::CompName(ComponentName::SelectedDate)),
        ],
    ensures
        ids_of_grid(rows, map) == Ok::<Seq<Seq<Id>>, Seq<char>>(calendar_view_layout()),
{
    reveal_strlit("calendar");
    reveal_strlit("current-day");
    reveal_strlit("selected-date");
    let m2 = map.drop_last();
    let m1 = m2.drop_last();
    assert(m2 =~= map.take(2));
    assert(m1 =~= map.take(1));
    assert(m1.drop_last() =~= Seq::<(&str, Id)>::empty());
    assert(lookup(m1, "calendar"@) == Some(Id::CompName(ComponentName::Calendar)));
    assert("current-day"@.len() != "calendar"@.len());
    assert("selected-date"@.len() != "calendar"@.len());
    assert("selected-date"@.len() != "current-day"@.len());
    assert(lookup(m2, "calendar"@) == Some(Id::CompName(ComponentName::Calendar)));
    assert(lookup(map, "calendar"@) == Some(Id::CompName(ComponentName::Calendar)));
    assert(lookup(m2, "current-day"@) == Some(Id::CompName(ComponentName::CurrentDayList)));
    assert("calendar"@.len() > 0 && "current-day"@.len() > 0);
    assert(lookup(map, "current-day"@) == Some(Id::CompName(ComponentName::CurrentDayList)));
    let r0 = rows[0]@;
    let r1 = rows[1]@;
    assert(r0.drop_last() =~= Seq::<&str>::empty());
    assert(r1.drop_last() =~= Seq::<&str>::empty());
    assert(r0.last() == "calendar" && r1.last() == "current-day");
    assert(ids_of_row(r0.drop_last(), map) == Ok::<Seq<Id>, Seq<char>>(Seq::empty()));
    assert(ids_of_row(r1.drop_last(), map) == Ok::<Seq<Id>, Seq<char>>(Seq::empty()));
    assert(Seq::<Id>::empty().push(Id::CompName(ComponentName::Calendar)) =~= calendar_view_layout()[0]);
    assert(Seq::<Id>::empty().push(Id::CompName(ComponentName::CurrentDayList)) =~= calendar_view_layout()[1]);
    assert(ids_of_row(r0, map) == Ok::<Seq<Id>, Seq<char>>(calendar_view_layout()[0]));
    assert(ids_of_row(r1, map) == Ok::<Seq<Id>, Seq<char>>(calendar_view_layout()[1]));
    lemma_two_rows(rows, map, calendar_view_layout());
}

/// A layout of two rows stands for the two rows that its rows stand for.
proof fn lemma_two_rows(rows: Seq<Vec<&str>>, map: Seq<(&str, Id)>, g: Seq<Seq<Id>>)
    requires
        rows.len() == 2,
        g.len() == 2,
        ids_of_row(rows[0]@, map) == Ok::<Seq<Id>, Seq<char>>(g[0]),
        ids_of_row(rows[1]@, map) == Ok::<Seq<Id>, Seq<char>>(g[1]),
    ensures
        ids_of_grid(rows, map) == Ok::<Seq<Seq<Id>>, Seq<char>>(g),
{
    let first = rows.drop_last();
    assert(first.drop_last() =~= Seq::<Vec<&str>>::empty());
    assert(first.last() == rows[0]);
    assert(ids_of_grid(first.drop_last(), map) == Ok::<Seq<Seq<Id>>, Seq<char>>(Seq::empty()));
    assert(ids_of_row(first.last()@, map) == Ok::<Seq<Id>, Seq<char>>(g[0]));
    assert(ids_of_grid(first, map) == Ok::<Seq<Seq<Id>>, Seq<char>>(Seq::empty().push(g[0])));
    assert(Seq::empty().push(g[0]).push(g[1]) =~= g);
}

} // verus!
