//! Selection state of a list that can mark several of its items.

use vstd::prelude::*;

verus! {

/// Direction in which a list is laid out.
#[derive(PartialEq, Eq, Structural, Clone, Copy, Debug, Hash)]
pub enum ListDirection {
    /// The first value is on the top, going to the bottom.
    TopToBottom,
    /// The first value is on the bottom, going to the top.
    BottomToTop,
}

impl Default for ListDirection {
    fn default() -> (r: Self)
        ensures
            r == ListDirection::TopToBottom,
    {
        ListDirection::TopToBottom
    }
}

/// The highlighted item (`current_index`), the first item shown (`offset`) and the
/// marked items (`selected_indices`, each at most once) of a list.
#[derive(Clone, Debug, PartialEq, Eq, Hash)]
pub struct ListState {
    pub offset: usize,
    pub current_index: Option<usize>,
    pub selected_indices: Vec<usize>,
}

impl Default for ListState {
    fn default() -> (r: Self)
        ensures
            r.offset == 0,
            r.current_index is None,
            r.selected_indices@ == Seq::<usize>::empty(),
    {
        ListState { offset: 0, current_index: None, selected_indices: Vec::new() }
    }
}

/// Position of the first occurrence of `x` in `s`.
pub open spec fn first_index(s: Seq<usize>, x: usize) -> int {
    choose|i: int| 0 <= i < s.len() && s[i] == x && forall|j: int| 0 <= j < i ==> s[j] != x
}

/// Whether `x` occurs in `v`.
pub(crate) fn vec_contains(v: &Vec<usize>, x: usize) -> (r: bool)
    ensures
        r == v@.contains(x),
{
    let mut i: usize = 0;
    while i < v.len()
        invariant
            i <= v.len(),
            forall|j: int| 0 <= j < i ==> v@[j] != x,
        decreases v.len() - i,
    {
        if v[i] == x {
            assert(v@[i as int] == x);
            return true;
        }
        i += 1;
    }
    false
}

/// The position of the first occurrence of `x` in `v`.
pub(crate) fn vec_position(v: &Vec<usize>, x: usize) -> (r: Option<usize>)
    ensures
        match r {
            Some(i) => i < v@.len() && v@[i as int] == x && forall|j: int| 0 <= j < i ==> v@[j] != x,
            None => !v@.contains(x),
        },
{
    let mut i: usize = 0;
    while i < v.len()
        invariant
            i <= v.len(),
            forall|j: int| 0 <= j < i ==> v@[j] != x,
        decreases v.len() - i,
    {
        if v[i] == x {
            return Some(i);
        }
        i += 1;
    }
    None
}

impl ListState {
    /// The state with another offset.
    pub fn with_offset(self, offset: usize) -> (r: Self)
        ensures
            r.offset == offset,
            r.current_index == self.current_index,
            r.selected_indices@ == self.selected_indices@,
    {
        let mut s = self;
        s.offset = offset;
        s
    }

    /// The state with another highlighted item.
    pub fn with_selected(self, selected: Option<usize>) -> (r: Self)
        ensures
            r.offset == self.offset,
            r.current_index == selected,
            r.selected_indices@ == self.selected_indices@,
    {
        let mut s = self;
        s.current_index = selected;
        s
    }

    pub fn offset(&self) -> (r: usize)
        ensures
            r == self.offset,
    {
        self.offset
    }

    /// Access to the offset for changing it.
    pub fn offset_mut(&mut self) -> (r: &mut usize)
        ensures
            *r == old(self).offset,
            final(self).offset == *final(r),
            final(self).current_index == old(self).current_index,
            final(self).selected_indices == old(self).selected_indices,
    {
        &mut self.offset
    }

    pub fn current_index(&self) -> (r: Option<usize>)
        ensures
            r == self.current_index,
    {
        self.current_index
    }

    /// Access to the highlighted item for changing it.
    pub fn current_index_mut(&mut self) -> (r: &mut Option<usize>)
        ensures
            *r == old(self).current_index,
            final(self).current_index == *final(r),
            final(self).offset == old(self).offset,
            final(self).selected_indices == old(self).selected_indices,
    {
        &mut self.current_index
    }

    /// Access to the marked items for changing them.
    pub fn selected_indices(&mut self) -> (r: &mut Vec<usize>)
        ensures
            *r == old(self).selected_indices,
            final(self).selected_indices == *final(r),
            final(self).offset == old(self).offset,
            final(self).current_index == old(self).current_index,
    {
        &mut self.selected_indices
    }

    /// Highlights an item, or nothing; highlighting nothing scrolls back to the top.
    pub fn set_current_index(&mut self, index: Option<usize>)
        ensures
            final(self).current_index == index,
            final(self).offset == (if index is None { 0 } else { old(self).offset }),
            final(self).selected_indices@ == old(self).selected_indices@,
    {
        self.current_index = index;
        if index.is_none() {
            self.offset = 0;
        }
    }

    /// Highlights the next item, or the first when none is highlighted.
    pub fn next(&mut self)
        ensures
            final(self).current_index == Some(
                match old(self).current_index {
                    Some(i) => if i == usize::MAX { usize::MAX } else { (i + 1) as usize },
                    None => 0usize,
                },
            ),
            final(self).offset == old(self).offset,
            final(self).selected_indices@ == old(self).selected_indices@,
    {
        let next = match self.current_index {
            Some(i) => i.saturating_add(1),
            None => 0,
        };
        self.set_current_index(Some(next));
    }

    /// Highlights the previous item, or the last when none is highlighted.
    pub fn previous(&mut self)
        ensures
            final(self).current_index == Some(
                match old(self).current_index {
                    Some(i) => if i == 0 { 0usize } else { (i - 1) as usize },
                    None => usize::MAX,
                },
            ),
            final(self).offset == old(self).offset,
            final(self).selected_indices@ == old(self).selected_indices@,
    {
        let previous = match self.current_index {
            Some(i) => i.saturating_sub(1),
            None => usize::MAX,
        };
        self.set_current_index(Some(previous));
    }

    /// Highlights the first item.
    pub fn highlight_first(&mut self)
        ensures
            final(self).current_index == Some(0usize),
            final(self).offset == old(self).offset,
            final(self).selected_indices@ == old(self).selected_indices@,
    {
        self.set_current_index(Some(0));
    }

    /// Highlights the last item (the largest index, which drawing brings back into range).
    pub fn highlight_last(&mut self)
        ensures
            final(self).current_index == Some(usize::MAX),
            final(self).offset == old(self).offset,
            final(self).selected_indices@ == old(self).selected_indices@,
    {
        self.set_current_index(Some(usize::MAX));
    }

    /// Moves the highlight `amount` items down (from the first when none is highlighted).
    pub fn scroll_down_by(&mut self, amount: u16)
        ensures
            final(self).current_index == Some(
                ({
                    let cur = match old(self).current_index {
                        Some(i) => i as int,
                        None => 0,
                    };
                    if cur + amount > usize::MAX { usize::MAX } else { (cur + amount) as usize }
                }),
            ),
            final(self).offset == old(self).offset,
            final(self).selected_indices@ == old(self).selected_indices@,
    {
        let selected = match self.current_index {
            Some(i) => i,
            None => 0,
        };
        self.set_current_index(Some(selected.saturating_add(amount as usize)));
    }

    /// Moves the highlight `amount` items up, stopping at the first item.
    pub fn scroll_up_by(&mut self, amount: u16)
        ensures
            final(self).current_index == Some(
                ({
                    let cur = match old(self).current_index {
                        Some(i) => i as int,
                        None => 0,
                    };
                    if cur - amount < 0 { 0usize } else { (cur - amount) as usize }
                }),
            ),
            final(self).offset == old(self).offset,
            final(self).selected_indices@ == old(self).selected_indices@,
    {
        let selected = match self.current_index {
            Some(i) => i,
            None => 0,
        };
        self.set_current_index(Some(selected.saturating_sub(amount as usize)));
    }

    /// Marks the highlighted item, unless it is already marked.
    pub fn select_current(&mut self)
        ensures
            final(self).offset == old(self).offset,
            final(self).current_index == old(self).current_index,
            final(self).selected_indices@ == (match old(self).current_index {
                Some(i) => if old(self).selected_indices@.contains(i) {
                    old(self).selected_indices@
                } else {
                    old(self).selected_indices@.push(i)
                },
                None => old(self).selected_indices@,
            }),
    {
        if let Some(current_index) = self.current_index {
            if !vec_contains(&self.selected_indices, current_index) {
                self.selected_indices.push(current_index);
            }
        }
    }

    /// Marks the item at `index`, unless it is already marked.
    pub fn select_index(&mut self, index: usize)
        ensures
            final(self).offset == old(self).offset,
            final(self).current_index == old(self).current_index,
            final(self).selected_indices@ == (if old(self).selected_indices@.contains(index) {
                old(self).selected_indices@
            } else {
                old(self).selected_indices@.push(index)
            }),
    {
        if !vec_contains(&self.selected_indices, index) {
            self.selected_indices.push(index);
        }
    }

    /// Unmarks the highlighted item when it is marked, marks it otherwise; returns
    /// whether it is marked afterwards (`false` when nothing is highlighted).
    pub fn toggle(&mut self) -> (r: bool)
        ensures
            final(self).offset == old(self).offset,
            final(self).current_index == old(self).current_index,
            match old(self).current_index {
                Some(i) => if old(self).selected_indices@.contains(i) {
                    &&& !r
                    &&& final(self).selected_indices@ == old(self).selected_indices@.remove(
                        first_index(old(self).selected_indices@, i),
                    )
                } else {
                    &&& r
                    &&& final(self).selected_indices@ == old(self).selected_indices@.push(i)
                },
                None => !r && final(self).selected_indices@ == old(self).selected_indices@,
            },
    {
        if let Some(current_index) = self.current_index {
            if let Some(index) = vec_position(&self.selected_indices, current_index) {
                proof {
                    let s = self.selected_indices@;
                    assert(s.contains(current_index));
                    let f = first_index(s, current_index);
                    assert(0 <= f < s.len() && s[f] == current_index && forall|j: int|
                        0 <= j < f ==> s[j] != current_index);
                    if f < index {
                        assert(s[f] != current_index);
                    }
                    if index < f {
                        assert(s[index as int] != current_index);
                    }
                }
                self.selected_indices.remove(index);
                return false;
            } else {
                self.selected_indices.push(current_index);
                return true;
            }
        }
        return false;
    }
}

/// Where `x` occurs in `s`, `first_index` finds its first occurrence.
proof fn lemma_first_index(s: Seq<usize>, x: usize, k: int)
    requires
        0 <= k < s.len(),
        s[k] == x,
    ensures
        0 <= first_index(s, x) <= k,
        s[first_index(s, x)] == x,
        forall|j: int| 0 <= j < first_index(s, x) ==> s[j] != x,
    decreases k,
{
    if exists|j: int| 0 <= j < k && s[j] == x {
        let j = choose|j: int| 0 <= j < k && s[j] == x;
        lemma_first_index(s, x, j);
    } else {
        assert(0 <= k < s.len() && s[k] == x && forall|j: int| 0 <= j < k ==> s[j] != x);
        let f = first_index(s, x);
        if f > k {
            assert(s[k] != x);
        }
        if f < k {
            assert(s[f] != x);
        }
    }
}

/// Toggling an unmarked item twice leaves the marks as they were.
pub proof fn lemma_toggle_twice_unmarked(s: Seq<usize>, i: usize)
    requires
        !s.contains(i),
    ensures
        s.push(i).remove(first_index(s.push(i), i)) == s,
{
    let t = s.push(i);
    lemma_first_index(t, i, s.len() as int);
    let f = first_index(t, i);
    if f < s.len() {
        assert(s[f] == t[f]);
    }
    assert(t.remove(s.len() as int) =~= s);
}

/// Toggling a marked item twice keeps the same marks (the item is marked last), where it
/// was marked once.
pub proof fn lemma_toggle_twice_marked(s: Seq<usize>, i: usize)
    requires
        s.contains(i),
        !s.remove(first_index(s, i)).contains(i),
    ensures
        s.remove(first_index(s, i)).push(i).to_multiset() == s.to_multiset(),
{
    broadcast use vstd::seq_lib::group_to_multiset_ensures;
    let k = choose|k: int| 0 <= k < s.len() && s[k] == i;
    lemma_first_index(s, i, k);
    let p = first_index(s, i);
    let t = s.remove(p);
    assert(t.to_multiset() == s.to_multiset().remove(i));
    assert(s.to_multiset().count(i) > 0);
    assert(t.push(i).to_multiset() =~= s.to_multiset());
}

/// Number of rows taken by the items `a..b` of a list whose items take `h[i]` rows each.
pub open spec fn span_height(h: Seq<usize>, a: int, b: int) -> int
    decreases b - a,
{
    if b <= a {
        0
    } else {
        span_height(h, a, b - 1) + h[b - 1]
    }
}

/// The largest end `e` in `a..=bound` such that the items `a..e` fit in `max` rows.
pub open spec fn fit_end(h: Seq<usize>, a: int, bound: int, max: int) -> int
    decreases bound - a,
{
    if bound <= a || span_height(h, a, bound) <= max {
        bound
    } else {
        fit_end(h, a, bound - 1, max)
    }
}

/// The smallest start `f` in `lo..=b` such that the items `f..b` fit in `max` rows.
pub open spec fn fit_start(h: Seq<usize>, lo: int, b: int, max: int) -> int
    decreases b - lo,
{
    if b <= lo || span_height(h, lo, b) <= max {
        lo
    } else {
        fit_start(h, lo + 1, b, max)
    }
}

/// `x - y`, or 0 where `y` is larger.
pub open spec fn sub_or_zero(x: int, y: int) -> int {
    if x >= y {
        x - y
    } else {
        0
    }
}

/// The smaller of two integers.
pub open spec fn min_int(x: int, y: int) -> int {
    if x <= y {
        x
    } else {
        y
    }
}

/// Rows taken by the items within `p` places of `sel` (the list has at least one item).
pub open spec fn padding_window(h: Seq<usize>, sel: int, p: int) -> int {
    span_height(h, sub_or_zero(sel, p), min_int(sel + p, h.len() - 1) + 1)
}

/// The largest padding up to `p` whose window around `sel` fits in `max` rows (0 if none does).
pub open spec fn reduced_padding(h: Seq<usize>, sel: int, p: int, max: int) -> int
    decreases p,
{
    if p <= 0 {
        0
    } else if padding_window(h, sel, p) <= max {
        p
    } else {
        reduced_padding(h, sel, p - 1, max)
    }
}

/// The item that has to be shown: the highlighted one (if any) moved by the scroll padding
/// towards the edge of the window `first..last` it would leave.
pub open spec fn padded_target(
    h: Seq<usize>,
    selected: Option<usize>,
    max: int,
    first: int,
    last: int,
    padding: int,
) -> Option<int> {
    match selected {
        None => None,
        Some(s) => {
            let last_valid = h.len() - 1;
            let sel = min_int(s as int, last_valid);
            let p = reduced_padding(h, sel, padding, max);
            let v = if min_int(sel + p, last_valid) >= last {
                sel + p
            } else if sub_or_zero(sel, p) < first {
                sub_or_zero(sel, p)
            } else {
                sel
            };
            Some(min_int(v, last_valid))
        },
    }
}

/// The items `first..last` shown in `max` rows: starting from `offset`, as many items as
/// fit, then moved so that the target item (see `padded_target`, else the offset) is shown.
pub open spec fn items_bounds(
    h: Seq<usize>,
    selected: Option<usize>,
    offset: int,
    max: int,
    padding: int,
) -> (int, int) {
    let off = min_int(offset, h.len() - 1);
    let last0 = fit_end(h, off, h.len() as int, max);
    let t = match padded_target(h, selected, max, off, last0, padding) {
        Some(v) => v,
        None => off,
    };
    let (f1, l1) = if t >= last0 {
        (fit_start(h, off, t + 1, max), t + 1)
    } else {
        (off, last0)
    };
    if t < f1 {
        (t, fit_end(h, t, l1, max))
    } else {
        (f1, l1)
    }
}

/// The rows taken by `a..b` are the rows of `a..m` and of `m..b`.
pub proof fn lemma_span_split(h: Seq<usize>, a: int, m: int, b: int)
    requires
        a <= m <= b,
    ensures
        span_height(h, a, b) == span_height(h, a, m) + span_height(h, m, b),
    decreases b - m,
{
    if m < b {
        lemma_span_split(h, a, m, b - 1);
    }
}

/// Rows taken are never negative.
proof fn lemma_span_nonneg(h: Seq<usize>, a: int, b: int)
    ensures
        span_height(h, a, b) >= 0,
    decreases b - a,
{
    if a < b {
        lemma_span_nonneg(h, a, b - 1);
    }
}

/// A part of a span takes at most the rows of the span.
proof fn lemma_span_within(h: Seq<usize>, a: int, b: int, c: int, d: int)
    requires
        a <= c <= d <= b,
    ensures
        span_height(h, c, d) <= span_height(h, a, b),
{
    lemma_span_split(h, a, c, b);
    lemma_span_split(h, c, d, b);
    lemma_span_nonneg(h, a, c);
    lemma_span_nonneg(h, d, b);
}

/// `fit_end` is the end found by extending while the items fit.
proof fn lemma_fit_end_is(h: Seq<usize>, a: int, bound: int, max: int, e: int)
    requires
        a <= e <= bound,
        span_height(h, a, e) <= max,
        e == bound || span_height(h, a, e + 1) > max,
    ensures
        fit_end(h, a, bound, max) == e,
    decreases bound - e,
{
    if e < bound {
        lemma_span_within(h, a, bound, a, e + 1);
        lemma_fit_end_is(h, a, bound - 1, max, e);
    }
}

/// `fit_start` is the start found by dropping items from the front while they do not fit.
proof fn lemma_fit_start_is(h: Seq<usize>, lo: int, b: int, max: int, f: int)
    requires
        lo <= f <= b,
        span_height(h, f, b) <= max,
        f == lo || span_height(h, f - 1, b) > max,
    ensures
        fit_start(h, lo, b, max) == f,
    decreases f - lo,
{
    if lo < f {
        lemma_span_within(h, lo, b, f - 1, b);
        lemma_fit_start_is(h, lo + 1, b, max, f);
    }
}

/// The list of items, each given by the number of rows it takes, and how many items to keep
/// visible around the highlighted one.
pub struct List {
    pub heights: Vec<usize>,
    pub scroll_padding: usize,
}

impl List {
    /// A list of items taking `heights[i]` rows each, without scroll padding.
    pub fn new(heights: Vec<usize>) -> (r: Self)
        ensures
            r.heights@ == heights@,
            r.scroll_padding == 0,
    {
        List { heights, scroll_padding: 0 }
    }

    /// The list keeping `padding` items visible around the highlighted one.
    pub fn scroll_padding(self, padding: usize) -> (r: Self)
        ensures
            r.heights@ == self.heights@,
            r.scroll_padding == padding,
    {
        List { heights: self.heights, scroll_padding: padding }
    }

    /// The number of items.
    pub fn len(&self) -> (r: usize)
        ensures
            r == self.heights@.len(),
    {
        self.heights.len()
    }

    /// Whether the list has no item.
    pub fn is_empty(&self) -> (r: bool)
        ensures
            r == (self.heights@.len() == 0),
    {
        self.heights.len() == 0
    }
}

/// The highlighted item kept within a list of `len` items (the last one where it lies past
/// the end).
pub open spec fn clamped_index(current: Option<usize>, len: int) -> Option<usize> {
    match current {
        Some(c) => if c >= len {
            Some((len - 1) as usize)
        } else {
            Some(c)
        },
        None => None,
    }
}

impl List {
    /// Rows taken by all the items.
    pub open spec fn total_height(&self) -> int {
        span_height(self.heights@, 0, self.heights@.len() as int)
    }

    /// Rows taken by the items `lo..hi`.
    fn rows_of(&self, lo: usize, hi: usize) -> (r: usize)
        requires
            lo <= hi <= self.heights@.len(),
            self.total_height() <= usize::MAX,
        ensures
            r == span_height(self.heights@, lo as int, hi as int),
    {
        let mut sum: usize = 0;
        let mut i: usize = lo;
        while i < hi
            invariant
                lo <= i <= hi <= self.heights@.len(),
                self.total_height() <= usize::MAX,
                sum == span_height(self.heights@, lo as int, i as int),
            decreases hi - i,
        {
            proof {
                lemma_span_within(self.heights@, 0, self.heights@.len() as int, lo as int, i + 1);
            }
            sum = sum + self.heights[i];
            i += 1;
        }
        sum
    }

    /// The item to keep shown for the highlighted one `selected`, given the window
    /// `first_visible_index..last_visible_index`: the scroll padding is reduced until the items
    /// around the highlighted one fit in `max_height` rows.
    fn apply_scroll_padding_to_selected_index(
        &self,
        selected: Option<usize>,
        max_height: usize,
        first_visible_index: usize,
        last_visible_index: usize,
    ) -> (r: Option<usize>)
        requires
            self.heights@.len() > 0,
            self.total_height() <= usize::MAX,
        ensures
            match padded_target(
                self.heights@,
                selected,
                max_height as int,
                first_visible_index as int,
                last_visible_index as int,
                self.scroll_padding as int,
            ) {
                Some(v) => r == Some(v as usize) && 0 <= v < self.heights@.len(),
                None => r is None,
            },
    {
        let ghost h = self.heights@;
        let len = self.heights.len();
        let last_valid = len - 1;
        let sel = match selected {
            None => {
                return None;
            },
            Some(s) => if s < last_valid {
                s
            } else {
                last_valid
            },
        };
        let mut p = self.scroll_padding;
        while p > 0
            invariant
                sel <= last_valid,
                last_valid + 1 == len,
                len == h.len(),
                h == self.heights@,
                self.total_height() <= usize::MAX,
                reduced_padding(h, sel as int, self.scroll_padding as int, max_height as int)
                    == reduced_padding(h, sel as int, p as int, max_height as int),
            ensures
                p == reduced_padding(h, sel as int, self.scroll_padding as int, max_height as int),
            decreases p,
        {
            let lo = if sel >= p {
                sel - p
            } else {
                0
            };
            let up = sel.saturating_add(p);
            let hi = if up < last_valid {
                up
            } else {
                last_valid
            };
            let w = self.rows_of(lo, hi + 1);
            if w <= max_height {
                break;
            }
            p -= 1;
        }
        let up = sel.saturating_add(p);
        let up_clamped = if up < last_valid {
            up
        } else {
            last_valid
        };
        let down = if sel >= p {
            sel - p
        } else {
            0
        };
        let v = if up_clamped >= last_visible_index {
            up
        } else if down < first_visible_index {
            down
        } else {
            sel
        };
        Some(
            if v < last_valid {
                v
            } else {
                last_valid
            },
        )
    }

    /// The items `first..last` shown in `max_height` rows, starting at `offset` and moved so
    /// that the highlighted item `selected`, with its scroll padding, stays shown.
    fn get_items_bounds(&self, selected: Option<usize>, offset: usize, max_height: usize) -> (r: (
        usize,
        usize,
    ))
        requires
            self.heights@.len() > 0,
            self.total_height() <= usize::MAX,
        ensures
            r.0 as int == items_bounds(
                self.heights@,
                selected,
                offset as int,
                max_height as int,
                self.scroll_padding as int,
            ).0,
            r.1 as int == items_bounds(
                self.heights@,
                selected,
                offset as int,
                max_height as int,
                self.scroll_padding as int,
            ).1,
            r.0 <= r.1 <= self.heights@.len(),
    {
        let ghost h = self.heights@;
        let ghost max = max_height as int;
        let len = self.heights.len();
        let off = if offset < len - 1 {
            offset
        } else {
            len - 1
        };
        let mut first = off;
        let mut last = off;
        let mut height: usize = 0;
        while last < len
            invariant
                off <= last <= len,
                len == h.len(),
                h == self.heights@,
                max == max_height as int,
                self.total_height() <= usize::MAX,
                height == span_height(h, off as int, last as int),
                height <= max_height,
            ensures
                off <= last <= len,
                height == span_height(h, off as int, last as int),
                height <= max_height,
                last == len || span_height(h, off as int, last + 1) > max,
            decreases len - last,
        {
            proof {
                lemma_span_within(h, 0, len as int, off as int, last + 1);
                assert(span_height(h, off as int, last + 1) == height + h[last as int]);
            }
            if height + self.heights[last] > max_height {
                break;
            }
            height = height + self.heights[last];
            last += 1;
        }
        let ghost last0 = last as int;
        proof {
            lemma_fit_end_is(h, off as int, len as int, max, last0);
        }
        let t = match self.apply_scroll_padding_to_selected_index(selected, max_height, first, last) {
            Some(v) => v,
            None => off,
        };
        let ghost f1: int = if t >= last0 {
            fit_start(h, off as int, t + 1, max)
        } else {
            off as int
        };
        let ghost l1: int = if t >= last0 {
            t + 1
        } else {
            last0
        };
        while t >= last
            invariant
                off <= first <= last <= len,
                t < len,
                len == h.len(),
                h == self.heights@,
                max == max_height as int,
                self.total_height() <= usize::MAX,
                height == span_height(h, first as int, last as int),
                height <= max_height,
                first == off || span_height(h, first - 1, last as int) > max,
                last >= last0,
                t >= last0 ==> last <= t + 1,
                t < last0 ==> first == off && last == last0,
            decreases len - last,
        {
            proof {
                lemma_span_within(h, 0, len as int, first as int, last + 1);
                assert(span_height(h, first as int, last + 1) == height + h[last as int]);
                if first > off {
                    lemma_span_within(h, first - 1, last + 1, first - 1, last as int);
                }
            }
            height = height + self.heights[last];
            last += 1;
            while height > max_height
                invariant
                    off <= first <= last <= len,
                    len == h.len(),
                    h == self.heights@,
                    max == max_height as int,
                    height == span_height(h, first as int, last as int),
                    first == off || span_height(h, first - 1, last as int) > max,
                decreases last - first,
            {
                proof {
                    if first == last {
                        assert(span_height(h, first as int, last as int) == 0);
                    }
                    lemma_span_split(h, first as int, first + 1, last as int);
                    assert(span_height(h, first as int, first as int) == 0);
                    assert(span_height(h, first as int, first + 1) == h[first as int]);
                    lemma_span_nonneg(h, first + 1, last as int);
                }
                height = height - self.heights[first];
                first += 1;
            }
        }
        proof {
            if t >= last0 {
                lemma_fit_start_is(h, off as int, t + 1, max, first as int);
            }
            assert(first == f1 && last == l1);
            lemma_fit_end_is(h, first as int, l1, max, last as int);
        }
        if t < first {
        while t < first
            invariant
                t <= first <= last <= l1 <= len,
                len == h.len(),
                h == self.heights@,
                max == max_height as int,
                self.total_height() <= usize::MAX,
                height == span_height(h, first as int, last as int),
                height <= max_height,
                last == l1 || span_height(h, first as int, last + 1) > max,
            decreases first,
        {
            proof {
                lemma_span_within(h, 0, len as int, first - 1, last as int);
                lemma_span_split(h, first - 1, first as int, last as int);
                assert(span_height(h, first - 1, first - 1) == 0);
                assert(span_height(h, first - 1, first as int) == h[first - 1]);
                if last < l1 {
                    lemma_span_within(h, first - 1, last + 1, first as int, last + 1);
                }
            }
            first -= 1;
            height = height + self.heights[first];
            while height > max_height
                invariant
                    first <= last <= l1 <= len,
                    len == h.len(),
                    h == self.heights@,
                    max == max_height as int,
                    height == span_height(h, first as int, last as int),
                    last == l1 || span_height(h, first as int, last + 1) > max,
                decreases last - first,
            {
                proof {
                    if first == last {
                        assert(span_height(h, first as int, last as int) == 0);
                    }
                    assert(span_height(h, first as int, last as int) == span_height(
                        h,
                        first as int,
                        last - 1,
                    ) + h[last - 1]);
                    lemma_span_nonneg(h, first as int, last - 1);
                }
                last -= 1;
                height = height - self.heights[last];
            }
        }
        }
        proof {
            if t < f1 {
                lemma_fit_end_is(h, t as int, l1, max, last as int);
            }
        }
        (first, last)
    }

    /// What drawing the list in an area of `width` × `height` cells does to `state`, and the
    /// items `first..last` that it then shows (`None` when it shows nothing): nothing changes
    /// in an empty area; an empty list loses its highlight; otherwise the highlight is kept
    /// within the list and the offset becomes the first item shown.
    pub fn visible_items(&self, width: u16, height: u16, state: &mut ListState) -> (r: Option<(
        usize,
        usize,
    )>)
        requires
            self.total_height() <= usize::MAX,
        ensures
            width == 0 || height == 0 ==> r is None && final(state).offset == old(state).offset
                && final(state).current_index == old(state).current_index,
            width > 0 && height > 0 && self.heights@.len() == 0 ==> r is None
                && final(state).current_index is None && final(state).offset == 0,
            width > 0 && height > 0 && self.heights@.len() > 0 ==> ({
                let cur = clamped_index(old(state).current_index, self.heights@.len() as int);
                let b = items_bounds(
                    self.heights@,
                    cur,
                    old(state).offset as int,
                    height as int,
                    self.scroll_padding as int,
                );
                &&& final(state).current_index == cur
                &&& r == Some((b.0 as usize, b.1 as usize))
                &&& final(state).offset as int == b.0
                &&& b.0 <= b.1 <= self.heights@.len()
            }),
            final(state).selected_indices@ == old(state).selected_indices@,
    {
        if width == 0 || height == 0 {
            return None;
        }
        let len = self.heights.len();
        if len == 0 {
            state.set_current_index(None);
            return None;
        }
        match state.current_index {
            Some(c) => {
                if c >= len {
                    state.set_current_index(Some(len - 1));
                }
            },
            None => {},
        }
        let (first, last) = self.get_items_bounds(state.current_index, state.offset, height as usize);
        state.offset = first;
        Some((first, last))
    }
}

/// `fit_end` lies in `a..=bound`, its items fit, and no longer run from `a` fits.
proof fn lemma_fit_end_props(h: Seq<usize>, a: int, bound: int, max: int)
    requires
        a <= bound,
        0 <= max,
    ensures
        a <= fit_end(h, a, bound, max) <= bound,
        span_height(h, a, fit_end(h, a, bound, max)) <= max,
        forall|e: int|
            a <= e <= bound && span_height(h, a, e) <= max ==> e <= fit_end(h, a, bound, max),
    decreases bound - a,
{
    if span_height(h, a, bound) > max {
        assert(span_height(h, a, a) == 0);
        lemma_fit_end_props(h, a, bound - 1, max);
    }
}

/// `fit_start` lies in `lo..=b`, its items fit, and no earlier start from `lo` fits.
proof fn lemma_fit_start_props(h: Seq<usize>, lo: int, b: int, max: int)
    requires
        lo <= b,
        0 <= max,
    ensures
        lo <= fit_start(h, lo, b, max) <= b,
        span_height(h, fit_start(h, lo, b, max), b) <= max,
        forall|f: int| lo <= f <= b && span_height(h, f, b) <= max ==> fit_start(h, lo, b, max) <= f,
    decreases b - lo,
{
    if span_height(h, lo, b) > max {
        assert(span_height(h, b, b) == 0);
        lemma_fit_start_props(h, lo + 1, b, max);
    }
}

/// The reduced padding is at most the padding asked for, and its window fits unless it is 0.
proof fn lemma_reduced_padding(h: Seq<usize>, sel: int, p: int, max: int)
    ensures
        0 <= reduced_padding(h, sel, p, max),
        p >= 0 ==> reduced_padding(h, sel, p, max) <= p,
        reduced_padding(h, sel, p, max) == 0 || padding_window(
            h,
            sel,
            reduced_padding(h, sel, p, max),
        ) <= max,
    decreases p,
{
    if p > 0 && padding_window(h, sel, p) > max {
        lemma_reduced_padding(h, sel, p - 1, max);
    }
}

/// The items shown by a list always fit in the rows available.
pub proof fn lemma_shown_items_fit(
    h: Seq<usize>,
    selected: Option<usize>,
    offset: int,
    max: int,
    padding: int,
)
    requires
        h.len() > 0,
        0 <= offset,
        0 <= max,
        0 <= padding,
    ensures
        0 <= items_bounds(h, selected, offset, max, padding).0 <= items_bounds(
            h,
            selected,
            offset,
            max,
            padding,
        ).1 <= h.len(),
        span_height(
            h,
            items_bounds(h, selected, offset, max, padding).0,
            items_bounds(h, selected, offset, max, padding).1,
        ) <= max,
{
    let off = min_int(offset, h.len() - 1);
    let last0 = fit_end(h, off, h.len() as int, max);
    lemma_fit_end_props(h, off, h.len() as int, max);
    let t = match padded_target(h, selected, max, off, last0, padding) {
        Some(v) => v,
        None => off,
    };
    match selected {
        Some(s) => {
            let sel = min_int(s as int, h.len() - 1);
            lemma_reduced_padding(h, sel, padding, max);
        },
        None => {},
    }
    assert(0 <= t < h.len());
    if t >= last0 {
        lemma_fit_start_props(h, off, t + 1, max);
        let f1 = fit_start(h, off, t + 1, max);
        if t < f1 {
            lemma_fit_end_props(h, t, t + 1, max);
        }
    } else if t < off {
        lemma_fit_end_props(h, t, last0, max);
    }
}

/// A highlighted item that fits in the rows available is always among the items shown,
/// whatever the offset and the scroll padding.
pub proof fn lemma_highlighted_item_shown(
    h: Seq<usize>,
    s: usize,
    offset: int,
    max: int,
    padding: int,
)
    requires
        h.len() > 0,
        s < h.len(),
        h[s as int] <= max,
        0 <= offset,
        0 <= padding,
    ensures
        items_bounds(h, Some(s), offset, max, padding).0 <= s < items_bounds(
            h,
            Some(s),
            offset,
            max,
            padding,
        ).1,
{
    let len = h.len() as int;
    let off = min_int(offset, len - 1);
    let last0 = fit_end(h, off, len, max);
    lemma_fit_end_props(h, off, len, max);
    let sel = s as int;
    let p = reduced_padding(h, sel, padding, max);
    lemma_reduced_padding(h, sel, padding, max);
    let lo = sub_or_zero(sel, p);
    let hi = min_int(sel + p, len - 1) + 1;
    assert(span_height(h, lo, hi) <= max) by {
        if p == 0 {
            assert(span_height(h, sel, sel) == 0);
            assert(span_height(h, sel, sel + 1) == h[sel]);
        }
    }
    let t = hi - 1;
    if min_int(sel + p, len - 1) >= last0 {
        lemma_fit_start_props(h, off, hi, max);
        if lo < off {
            lemma_fit_end_props(h, off, len, max);
            assert(last0 < len);
            if span_height(h, off, last0 + 1) <= max {
                assert(last0 + 1 <= fit_end(h, off, len, max));
            }
            lemma_span_within(h, lo, hi, off, last0 + 1);
        }
    } else if lo < off {
        lemma_fit_end_props(h, lo, last0, max);
    }
}

} // verus!
