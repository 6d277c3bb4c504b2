//! Selection state of a table (the selected row, the selected column and the first
//! row shown) and the rows that a table shows in an area.

use vstd::prelude::*;

verus! {

/// `i + 1`, staying at the largest value.
pub open spec fn sat_inc(i: usize) -> usize {
    if i == usize::MAX {
        usize::MAX
    } else {
        (i + 1) as usize
    }
}

/// `i - 1`, staying at zero.
pub open spec fn sat_dec(i: usize) -> usize {
    if i == 0 {
        0
    } else {
        (i - 1) as usize
    }
}

/// `i + n`, staying at the largest value.
pub open spec fn sat_add(i: usize, n: int) -> usize {
    if i + n > usize::MAX {
        usize::MAX
    } else {
        (i + n) as usize
    }
}

/// `i - n`, staying at zero.
pub open spec fn sat_sub(i: usize, n: int) -> usize {
    if i - n < 0 {
        0
    } else {
        (i - n) as usize
    }
}

#[derive(Debug, Clone, Copy, PartialEq, Eq, Structural, Hash)]
pub struct TableState {
    pub offset: usize,
    pub selected: Option<usize>,
    pub selected_column: Option<usize>,
}

impl Default for TableState {
    fn default() -> (r: Self)
        ensures
            r == (TableState { offset: 0, selected: None, selected_column: None }),
    {
        TableState { offset: 0, selected: None, selected_column: None }
    }
}

impl TableState {
    /// Nothing selected, showing from the first row.
    pub fn new() -> (r: Self)
        ensures
            r == (TableState { offset: 0, selected: None, selected_column: None }),
    {
        TableState { offset: 0, selected: None, selected_column: None }
    }

    pub fn with_offset(self, offset: usize) -> (r: Self)
        ensures
            r == (TableState { offset, ..self }),
    {
        TableState { offset, ..self }
    }

    pub fn with_selected(self, selected: Option<usize>) -> (r: Self)
        ensures
            r == (TableState { selected, ..self }),
    {
        TableState { selected, ..self }
    }

    pub fn with_selected_column(self, selected: Option<usize>) -> (r: Self)
        ensures
            r == (TableState { selected_column: selected, ..self }),
    {
        TableState { selected_column: selected, ..self }
    }

    /// Selects a cell (row and column), or nothing in both.
    pub fn with_selected_cell(self, selected: Option<(usize, usize)>) -> (r: Self)
        ensures
            r == (match selected {
                Some((row, col)) => TableState {
                    selected: Some(row),
                    selected_column: Some(col),
                    ..self
                },
                None => TableState { selected: None, selected_column: None, ..self },
            }),
    {
        let mut s = self;
        if let Some((r, c)) = selected {
            s.selected = Some(r);
            s.selected_column = Some(c);
        } else {
            s.selected = None;
            s.selected_column = None;
        }
        s
    }

    pub fn offset(&self) -> (r: usize)
        ensures
            r == self.offset,
    {
        self.offset
    }

    pub fn offset_mut(&mut self) -> (r: &mut usize)
        ensures
            *r == old(self).offset,
            *final(self) == (TableState { offset: *final(r), ..*old(self) }),
    {
        &mut self.offset
    }

    pub fn selected(&self) -> (r: Option<usize>)
        ensures
            r == self.selected,
    {
        self.selected
    }

    pub fn selected_column(&self) -> (r: Option<usize>)
        ensures
            r == self.selected_column,
    {
        self.selected_column
    }

    /// The selected cell, when both a row and a column are selected.
    pub fn selected_cell(&self) -> (r: Option<(usize, usize)>)
        ensures
            r == (match (self.selected, self.selected_column) {
                (Some(row), Some(col)) => Some((row, col)),
                _ => None,
            }),
    {
        if let (Some(r), Some(c)) = (self.selected, self.selected_column) {
            return Some((r, c));
        }
        None
    }

    pub fn selected_mut(&mut self) -> (r: &mut Option<usize>)
        ensures
            *r == old(self).selected,
            *final(self) == (TableState { selected: *final(r), ..*old(self) }),
    {
        &mut self.selected
    }

    pub fn selected_column_mut(&mut self) -> (r: &mut Option<usize>)
        ensures
            *r == old(self).selected_column,
            *final(self) == (TableState { selected_column: *final(r), ..*old(self) }),
    {
        &mut self.selected_column
    }

    /// Selects a row, or nothing; selecting nothing scrolls back to the top.
    pub fn select(&mut self, index: Option<usize>)
        ensures
            *final(self) == (TableState {
                selected: index,
                offset: if index is None { 0 } else { old(self).offset },
                ..*old(self)
            }),
    {
        self.selected = index;
        if index.is_none() {
            self.offset = 0;
        }
    }

    pub fn select_column(&mut self, index: Option<usize>)
        ensures
            *final(self) == (TableState { selected_column: index, ..*old(self) }),
    {
        self.selected_column = index;
    }

    /// Selects a cell; selecting nothing clears row and column and scrolls to the top.
    pub fn select_cell(&mut self, indexes: Option<(usize, usize)>)
        ensures
            *final(self) == (match indexes {
                Some((row, col)) => TableState {
                    selected: Some(row),
                    selected_column: Some(col),
                    ..*old(self)
                },
                None => TableState { offset: 0, selected: None, selected_column: None },
            }),
    {
        if let Some((r, c)) = indexes {
            self.selected = Some(r);
            self.selected_column = Some(c);
        } else {
            self.offset = 0;
            self.selected = None;
            self.selected_column = None;
        }
    }

    /// Selects the next row, or the first when none is selected.
    pub fn select_next(&mut self)
        ensures
            *final(self) == (TableState {
                selected: Some(
                    match old(self).selected {
                        Some(i) => sat_inc(i),
                        None => 0,
                    },
                ),
                ..*old(self)
            }),
    {
        let next = match self.selected {
            Some(i) => i.saturating_add(1),
            None => 0,
        };
        self.select(Some(next));
    }

    /// Selects the next column, or the first when none is selected.
    pub fn select_next_column(&mut self)
        ensures
            *final(self) == (TableState {
                selected_column: Some(
                    match old(self).selected_column {
                        Some(i) => sat_inc(i),
                        None => 0,
                    },
                ),
                ..*old(self)
            }),
    {
        let next = match self.selected_column {
            Some(i) => i.saturating_add(1),
            None => 0,
        };
        self.select_column(Some(next));
    }

    /// Selects the previous row, or the last when none is selected.
    pub fn select_previous(&mut self)
        ensures
            *final(self) == (TableState {
                selected: Some(
                    match old(self).selected {
                        Some(i) => sat_dec(i),
                        None => usize::MAX,
                    },
                ),
                ..*old(self)
            }),
    {
        let previous = match self.selected {
            Some(i) => i.saturating_sub(1),
            None => usize::MAX,
        };
        self.select(Some(previous));
    }

    /// Selects the previous column, or the last when none is selected.
    pub fn select_previous_column(&mut self)
        ensures
            *final(self) == (TableState {
                selected_column: Some(
                    match old(self).selected_column {
                        Some(i) => sat_dec(i),
                        None => usize::MAX,
                    },
                ),
                ..*old(self)
            }),
    {
        let previous = match self.selected_column {
            Some(i) => i.saturating_sub(1),
            None => usize::MAX,
        };
        self.select_column(Some(previous));
    }

    pub fn select_first(&mut self)
        ensures
            *final(self) == (TableState { selected: Some(0usize), ..*old(self) }),
    {
        self.select(Some(0));
    }

    pub fn select_first_column(&mut self)
        ensures
            *final(self) == (TableState { selected_column: Some(0usize), ..*old(self) }),
    {
        self.select_column(Some(0));
    }

    /// Selects the last row (the largest index, which drawing brings back into range).
    pub fn select_last(&mut self)
        ensures
            *final(self) == (TableState { selected: Some(usize::MAX), ..*old(self) }),
    {
        self.select(Some(usize::MAX));
    }

    pub fn select_last_column(&mut self)
        ensures
            *final(self) == (TableState { selected_column: Some(usize::MAX), ..*old(self) }),
    {
        self.select_column(Some(usize::MAX));
    }

    /// Moves the row selection `amount` rows down (from the first when none is selected).
    pub fn scroll_down_by(&mut self, amount: u16)
        ensures
            *final(self) == (TableState {
                selected: Some(
                    sat_add(
                        match old(self).selected {
                            Some(i) => i,
                            None => 0,
                        },
                        amount as int,
                    ),
                ),
                ..*old(self)
            }),
    {
        let selected = match self.selected {
            Some(i) => i,
            None => 0,
        };
        self.select(Some(selected.saturating_add(amount as usize)));
    }

    /// Moves the row selection `amount` rows up, stopping at the first row.
    pub fn scroll_up_by(&mut self, amount: u16)
        ensures
            *final(self) == (TableState {
                selected: Some(
                    sat_sub(
                        match old(self).selected {
                            Some(i) => i,
                            None => 0,
                        },
                        amount as int,
                    ),
                ),
                ..*old(self)
            }),
    {
        let selected = match self.selected {
            Some(i) => i,
            None => 0,
        };
        self.select(Some(selected.saturating_sub(amount as usize)));
    }

    /// Moves the column selection `amount` columns right.
    pub fn scroll_right_by(&mut self, amount: u16)
        ensures
            *final(self) == (TableState {
                selected_column: Some(
                    sat_add(
                        match old(self).selected_column {
                            Some(i) => i,
                            None => 0,
                        },
                        amount as int,
                    ),
                ),
                ..*old(self)
            }),
    {
        let selected = match self.selected_column {
            Some(i) => i,
            None => 0,
        };
        self.select_column(Some(selected.saturating_add(amount as usize)));
    }

    /// Moves the column selection `amount` columns left, stopping at the first column.
    pub fn scroll_left_by(&mut self, amount: u16)
        ensures
            *final(self) == (TableState {
                selected_column: Some(
                    sat_sub(
                        match old(self).selected_column {
                            Some(i) => i,
                            None => 0,
                        },
                        amount as int,
                    ),
                ),
                ..*old(self)
            }),
    {
        let selected = match self.selected_column {
            Some(i) => i,
            None => 0,
        };
        self.select_column(Some(selected.saturating_sub(amount as usize)));
    }
}

/// Selecting the next row and then the previous one comes back to the row selected before,
/// unless that row was the last possible one.
pub proof fn lemma_next_then_previous(i: usize)
    requires
        i < usize::MAX,
    ensures
        sat_dec(sat_inc(i)) == i,
{
}

/// Scrolling down `n` rows and then up `n` rows comes back to the row selected before,
/// unless scrolling down stopped at the last possible row.
pub proof fn lemma_scroll_down_then_up(i: usize, n: u16)
    requires
        i + n <= usize::MAX,
    ensures
        sat_sub(sat_add(i, n as int), n as int) == i,
{
}

/// Scrolling up `n` rows and then down `n` rows comes back to the row selected before,
/// unless scrolling up stopped at the first row.
pub proof fn lemma_scroll_up_then_down(i: usize, n: u16)
    requires
        i >= n,
    ensures
        sat_add(sat_sub(i, n as int), n as int) == i,
{
}

/// A row of a table: the texts of its cells, its height and its margins, in rows of the screen.
#[derive(Debug, Clone, PartialEq, Eq)]
pub struct Row {
    pub cells: Vec<String>,
    pub height: u16,
    pub top_margin: u16,
    pub bottom_margin: u16,
}

/// Rows of the screen that a row takes with its margins, at most the largest `u16`.
pub open spec fn row_total(r: Row) -> int {
    let t = r.height + r.top_margin + r.bottom_margin;
    if t > u16::MAX {
        u16::MAX as int
    } else {
        t
    }
}

/// Rows of the screen taken by the rows `a..b`, margins included.
pub open spec fn rows_span(rows: Seq<Row>, a: int, b: int) -> int
    decreases b - a,
{
    if b <= a {
        0
    } else {
        rows_span(rows, a, b - 1) + row_total(rows[b - 1])
    }
}

/// From row `k` on, the first row that does not start within `area` rows after the rows
/// `start..k` (or the number of rows): the rows shown from `start` before scrolling.
pub open spec fn rows_fit_end(rows: Seq<Row>, start: int, k: int, area: int) -> int
    decreases rows.len() - k,
{
    if 0 <= k < rows.len() && rows_span(rows, start, k) + rows[k].height <= area {
        rows_fit_end(rows, start, k + 1, area)
    } else {
        k
    }
}

/// The smallest start `f` in `lo..=b` such that the rows `f..b` fit in `area` rows.
pub open spec fn rows_fit_start(rows: Seq<Row>, lo: int, b: int, area: int) -> int
    decreases b - lo,
{
    if b <= lo || rows_span(rows, lo, b) <= area {
        lo
    } else {
        rows_fit_start(rows, lo + 1, b, area)
    }
}

/// The rows `start..end` that a table shows in `area` rows: from the offset (or the selected
/// row, if it comes earlier), as many rows as start within the area, scrolled down until the
/// selected row is shown, and one partly shown row more where rows are left.
pub open spec fn visible_rows_of(
    rows: Seq<Row>,
    offset: int,
    selected: Option<usize>,
    area: int,
) -> (int, int) {
    let last_row = rows.len() - 1;
    let s0 = if offset <= last_row {
        offset
    } else {
        last_row
    };
    let start0 = match selected {
        Some(s) => if s < s0 {
            s as int
        } else {
            s0
        },
        None => s0,
    };
    let end0 = rows_fit_end(rows, start0, start0, area);
    let (start1, end1) = match selected {
        Some(s) => {
            let sel = if s <= last_row {
                s as int
            } else {
                last_row
            };
            if sel >= end0 {
                (rows_fit_start(rows, start0, sel + 1, area), sel + 1)
            } else {
                (start0, end0)
            }
        },
        None => (start0, end0),
    };
    if rows_span(rows, start1, end1) < area && end1 < rows.len() {
        (start1, end1 + 1)
    } else {
        (start1, end1)
    }
}

/// Number of columns: the most cells in a row, the header or the footer.
pub open spec fn most_cells(rows: Seq<Row>, header: Option<Row>, footer: Option<Row>) -> int
    decreases rows.len(),
{
    if rows.len() == 0 {
        let h = match header {
            Some(r) => r.cells@.len() as int,
            None => 0,
        };
        let f = match footer {
            Some(r) => r.cells@.len() as int,
            None => 0,
        };
        if h >= f {
            h
        } else {
            f
        }
    } else {
        let rest = most_cells(rows.drop_last(), header, footer);
        let n = rows.last().cells@.len() as int;
        if n >= rest {
            n
        } else {
            rest
        }
    }
}

/// The row selection after drawing a table of `len` rows: kept within the rows, and nothing
/// where there is no row.
pub open spec fn clamped_row(selected: Option<usize>, len: int) -> Option<usize> {
    if len == 0 {
        None
    } else {
        match selected {
            Some(s) => if s >= len {
                Some((len - 1) as usize)
            } else {
                Some(s)
            },
            None => None,
        }
    }
}

/// The column selection after drawing a table of `count` columns.
pub open spec fn clamped_column(selected: Option<usize>, count: int) -> Option<usize> {
    if count == 0 {
        None
    } else {
        match selected {
            Some(s) => if s >= count {
                Some((count - 1) as usize)
            } else {
                Some(s)
            },
            None => None,
        }
    }
}

/// The number shown in front of row `i`: its distance to the selected row (the first row
/// where none is selected), and the selected row's own index on that row.
pub open spec fn relative_number(selected: Option<usize>, i: usize) -> int {
    let c = match selected {
        Some(s) => s as int,
        None => 0,
    };
    if c == i {
        c
    } else if c > i {
        c - i
    } else {
        i - c
    }
}

/// The number shown in front of row `i` of a table that shows relative line numbers.
pub fn relative_line_number(selected: Option<usize>, i: usize) -> (r: usize)
    ensures
        r == relative_number(selected, i),
{
    let c = match selected {
        Some(s) => s,
        None => 0,
    };
    if c == i {
        c
    } else if c > i {
        c - i
    } else {
        i - c
    }
}

impl Row {
    /// A row of one screen row without margins.
    pub fn new(cells: Vec<String>) -> (r: Self)
        ensures
            r.cells@ == cells@,
            r.height == 1,
            r.top_margin == 0,
            r.bottom_margin == 0,
    {
        Row { cells, height: 1, top_margin: 0, bottom_margin: 0 }
    }

    /// The row with other cells.
    pub fn cells(self, cells: Vec<String>) -> (r: Self)
        ensures
            r == (Row { cells, ..self }),
    {
        Row { cells, ..self }
    }

    /// The row with another height.
    pub fn height(self, height: u16) -> (r: Self)
        ensures
            r == (Row { height, ..self }),
    {
        Row { height, ..self }
    }

    /// The row with another top margin.
    pub fn top_margin(self, margin: u16) -> (r: Self)
        ensures
            r == (Row { top_margin: margin, ..self }),
    {
        Row { top_margin: margin, ..self }
    }

    /// The row with another bottom margin.
    pub fn bottom_margin(self, margin: u16) -> (r: Self)
        ensures
            r == (Row { bottom_margin: margin, ..self }),
    {
        Row { bottom_margin: margin, ..self }
    }

    /// Rows of the screen taken with the margins, at most the largest `u16`.
    pub fn height_with_margin(&self) -> (r: u16)
        ensures
            r as int == row_total(*self),
    {
        let t: u32 = self.height as u32 + self.top_margin as u32 + self.bottom_margin as u32;
        if t > 65535 {
            65535
        } else {
            t as u16
        }
    }
}

/// The rows of the screen taken by the rows `a..b` are those of `a..m` and of `m..b`.
pub proof fn lemma_rows_span_split(rows: Seq<Row>, a: int, m: int, b: int)
    requires
        a <= m <= b,
    ensures
        rows_span(rows, a, b) == rows_span(rows, a, m) + rows_span(rows, m, b),
    decreases b - m,
{
    if m < b {
        lemma_rows_span_split(rows, a, m, b - 1);
    }
}

proof fn lemma_rows_span_nonneg(rows: Seq<Row>, a: int, b: int)
    ensures
        rows_span(rows, a, b) >= 0,
    decreases b - a,
{
    if a < b {
        lemma_rows_span_nonneg(rows, a, b - 1);
    }
}

proof fn lemma_rows_span_within(rows: Seq<Row>, a: int, b: int, c: int, d: int)
    requires
        a <= c <= d <= b,
    ensures
        rows_span(rows, c, d) <= rows_span(rows, a, b),
{
    lemma_rows_span_split(rows, a, c, b);
    lemma_rows_span_split(rows, c, d, b);
    lemma_rows_span_nonneg(rows, a, c);
    lemma_rows_span_nonneg(rows, d, b);
}

/// `rows_fit_start` is the start found by dropping rows from the front while they do not fit.
proof fn lemma_rows_fit_start_is(rows: Seq<Row>, lo: int, b: int, area: int, f: int)
    requires
        lo <= f <= b,
        rows_span(rows, f, b) <= area,
        f == lo || rows_span(rows, f - 1, b) > area,
    ensures
        rows_fit_start(rows, lo, b, area) == f,
    decreases f - lo,
{
    if lo < f {
        lemma_rows_span_within(rows, lo, b, f - 1, b);
        lemma_rows_fit_start_is(rows, lo + 1, b, area, f);
    }
}

/// Every row, twice over with its margins, fits in what a `u16` holds beyond `area` rows:
/// the sizes for which the row arithmetic of a table stays within `u16`.
pub open spec fn rows_within_u16(rows: Seq<Row>, area: int) -> bool {
    forall|i: int|
        0 <= i < rows.len() ==> area + 2 * (rows[i].height + rows[i].top_margin
            + rows[i].bottom_margin) <= u16::MAX
}

/// A table: its rows, an optional header and footer, and whether each row shows its distance
/// to the selected one.
pub struct Table {
    pub rows: Vec<Row>,
    pub header: Option<Row>,
    pub footer: Option<Row>,
    pub show_relative_line_number: bool,
}

impl Table {
    /// A table of these rows, without header, footer or relative line numbers.
    pub fn new(rows: Vec<Row>) -> (r: Self)
        ensures
            r.rows@ == rows@,
            r.header is None,
            r.footer is None,
            !r.show_relative_line_number,
    {
        Table { rows, header: None, footer: None, show_relative_line_number: false }
    }

    /// The table with other rows.
    pub fn rows(self, rows: Vec<Row>) -> (r: Self)
        ensures
            r.rows@ == rows@,
            r.header == self.header,
            r.footer == self.footer,
            r.show_relative_line_number == self.show_relative_line_number,
    {
        Table { rows, ..self }
    }

    /// The table with a header.
    pub fn header(self, header: Row) -> (r: Self)
        ensures
            r.rows@ == self.rows@,
            r.header == Some(header),
            r.footer == self.footer,
            r.show_relative_line_number == self.show_relative_line_number,
    {
        Table { header: Some(header), ..self }
    }

    /// The table with a footer.
    pub fn footer(self, footer: Row) -> (r: Self)
        ensures
            r.rows@ == self.rows@,
            r.header == self.header,
            r.footer == Some(footer),
            r.show_relative_line_number == self.show_relative_line_number,
    {
        Table { footer: Some(footer), ..self }
    }

    /// The table showing, or not, relative line numbers.
    pub fn show_relative_line_number(self, show: bool) -> (r: Self)
        ensures
            r.rows@ == self.rows@,
            r.header == self.header,
            r.footer == self.footer,
            r.show_relative_line_number == show,
    {
        Table { show_relative_line_number: show, ..self }
    }

    /// The number of columns: the most cells in a row, the header or the footer.
    pub fn column_count(&self) -> (r: usize)
        ensures
            r as int == most_cells(self.rows@, self.header, self.footer),
    {
        let h = match &self.header {
            Some(r) => r.cells.len(),
            None => 0,
        };
        let f = match &self.footer {
            Some(r) => r.cells.len(),
            None => 0,
        };
        let mut count = if h >= f {
            h
        } else {
            f
        };
        let mut i: usize = 0;
        while i < self.rows.len()
            invariant
                i <= self.rows@.len(),
                count as int == most_cells(self.rows@.take(i as int), self.header, self.footer),
            decreases self.rows@.len() - i,
        {
            proof {
                assert(self.rows@.take(i + 1).drop_last() =~= self.rows@.take(i as int));
            }
            let n = self.rows[i].cells.len();
            if n >= count {
                count = n;
            }
            i += 1;
        }
        proof {
            assert(self.rows@.take(self.rows@.len() as int) =~= self.rows@);
        }
        count
    }

    /// The rows `start..end` shown in `area_height` rows of the screen for `state`.
    fn visible_rows(&self, state: &TableState, area_height: u16) -> (r: (usize, usize))
        requires
            self.rows@.len() > 0,
            rows_within_u16(self.rows@, area_height as int),
        ensures
            r.0 as int == visible_rows_of(self.rows@, state.offset as int, state.selected, area_height as int).0,
            r.1 as int == visible_rows_of(self.rows@, state.offset as int, state.selected, area_height as int).1,
            r.0 <= r.1 <= self.rows@.len(),
    {
        let ghost rows = self.rows@;
        let ghost area = area_height as int;
        let len = self.rows.len();
        let last_row = len - 1;
        let mut start = if state.offset <= last_row {
            state.offset
        } else {
            last_row
        };
        match state.selected {
            Some(s) => {
                if s < start {
                    start = s;
                }
            },
            None => {},
        }
        let ghost start0 = start as int;
        let mut end = start;
        let mut height: u16 = 0;
        while end < len
            invariant
                start0 == start <= end <= len,
                len == rows.len(),
                rows == self.rows@,
                area == area_height as int,
                rows_within_u16(rows, area),
                height == rows_span(rows, start as int, end as int),
                height <= area || (end > 0 && height <= area + row_total(rows[end - 1])),
                rows_fit_end(rows, start0, start0, area) == rows_fit_end(rows, start0, end as int, area),
            ensures
                start0 == start <= end <= len,
                height == rows_span(rows, start as int, end as int),
                height <= area || (end > 0 && height <= area + row_total(rows[end - 1])),
                rows_fit_end(rows, start0, start0, area) == end,
            decreases len - end,
        {
            let row = &self.rows[end];
            proof {
                assert(rows_within_u16(rows, area));
                assert(area + 2 * (rows[end as int].height + rows[end as int].top_margin
                    + rows[end as int].bottom_margin) <= u16::MAX);
                if end > 0 {
                    assert(area + 2 * (rows[end - 1].height + rows[end - 1].top_margin
                        + rows[end - 1].bottom_margin) <= u16::MAX);
                }
            }
            if height + row.height > area_height {
                break;
            }
            height = height + row.height_with_margin();
            end += 1;
        }
        let ghost end0 = end as int;
        match state.selected {
            Some(s) => {
                let sel = if s <= last_row {
                    s
                } else {
                    last_row
                };
                while sel >= end
                    invariant
                        start0 <= start <= end <= len,
                        sel < len,
                        len == rows.len(),
                        rows == self.rows@,
                        area == area_height as int,
                        rows_within_u16(rows, area),
                        height == rows_span(rows, start as int, end as int),
                        height <= area || (end > 0 && height <= area + row_total(rows[end - 1])),
                        start == start0 || rows_span(rows, start - 1, end as int) > area,
                        end >= end0,
                        sel >= end0 ==> end <= sel + 1,
                        sel < end0 ==> start == start0 && end == end0,
                        sel >= end0 && end > end0 ==> height <= area,
                    decreases len - end,
                {
                    proof {
                        assert(area + 2 * (rows[end as int].height + rows[end as int].top_margin
                            + rows[end as int].bottom_margin) <= u16::MAX);
                        if end > 0 {
                            assert(area + 2 * (rows[end - 1].height + rows[end - 1].top_margin
                                + rows[end - 1].bottom_margin) <= u16::MAX);
                        }
                        if start > start0 {
                            lemma_rows_span_within(rows, start - 1, end + 1, start - 1, end as int);
                        }
                    }
                    height = height + self.rows[end].height_with_margin();
                    end += 1;
                    while height > area_height
                        invariant
                            start0 <= start <= end <= len,
                            len == rows.len(),
                            rows == self.rows@,
                            area == area_height as int,
                            height == rows_span(rows, start as int, end as int),
                            start == start0 || rows_span(rows, start - 1, end as int) > area,
                        decreases end - start,
                    {
                        proof {
                            if start == end {
                                assert(rows_span(rows, start as int, end as int) == 0);
                            }
                            lemma_rows_span_split(rows, start as int, start + 1, end as int);
                            assert(rows_span(rows, start as int, start as int) == 0);
                            assert(rows_span(rows, start as int, start + 1) == row_total(rows[start as int]));
                            lemma_rows_span_nonneg(rows, start + 1, end as int);
                        }
                        height = height - self.rows[start].height_with_margin();
                        start += 1;
                    }
                }
                proof {
                    if sel >= end0 {
                        lemma_rows_fit_start_is(rows, start0, sel + 1, area, start as int);
                    }
                }
            },
            None => {},
        }
        if height < area_height && end < len {
            end += 1;
        }
        (start, end)
    }

    /// What drawing the table in an area of `width` × `height` cells, whose part between
    /// header and footer is `rows_height` rows high, does to `state`, and the rows
    /// `start..end` that it then shows (`None` when it shows no row): nothing changes in an
    /// empty area; otherwise the selections are kept within the rows and columns, an empty
    /// table loses its row selection, and the offset becomes the first row shown.
    pub fn shown_rows(&self, width: u16, height: u16, rows_height: u16, state: &mut TableState) -> (r:
        Option<(usize, usize)>)
        requires
            rows_within_u16(self.rows@, rows_height as int),
        ensures
            width == 0 || height == 0 ==> r is None && *final(state) == *old(state),
            width > 0 && height > 0 && self.rows@.len() == 0 ==> r is None && *final(state) == (
            TableState {
                offset: 0,
                selected: None,
                selected_column: clamped_column(
                    old(state).selected_column,
                    most_cells(self.rows@, self.header, self.footer),
                ),
            }),
            width > 0 && height > 0 && self.rows@.len() > 0 ==> ({
                let sel = clamped_row(old(state).selected, self.rows@.len() as int);
                let b = visible_rows_of(self.rows@, old(state).offset as int, sel, rows_height as int);
                &&& r == Some((b.0 as usize, b.1 as usize))
                &&& *final(state) == (TableState {
                    offset: b.0 as usize,
                    selected: sel,
                    selected_column: clamped_column(
                        old(state).selected_column,
                        most_cells(self.rows@, self.header, self.footer),
                    ),
                })
                &&& 0 <= b.0 <= b.1 <= self.rows@.len()
            }),
    {
        if width == 0 || height == 0 {
            return None;
        }
        let len = self.rows.len();
        match state.selected {
            Some(s) => {
                if s >= len {
                    state.select(
                        Some(
                            if len > 0 {
                                len - 1
                            } else {
                                0
                            },
                        ),
                    );
                }
            },
            None => {},
        }
        if len == 0 {
            state.select(None);
        }
        let count = self.column_count();
        match state.selected_column {
            Some(s) => {
                if s >= count {
                    state.select_column(
                        Some(
                            if count > 0 {
                                count - 1
                            } else {
                                0
                            },
                        ),
                    );
                }
            },
            None => {},
        }
        if count == 0 {
            state.select_column(None);
        }
        if len == 0 {
            return None;
        }
        let (start, end) = self.visible_rows(state, rows_height);
        state.offset = start;
        Some((start, end))
    }
}

proof fn lemma_rows_fit_end_bounds(rows: Seq<Row>, start: int, k: int, area: int)
    requires
        0 <= k <= rows.len(),
    ensures
        k <= rows_fit_end(rows, start, k, area) <= rows.len(),
    decreases rows.len() - k,
{
    if k < rows.len() && rows_span(rows, start, k) + rows[k].height <= area {
        lemma_rows_fit_end_bounds(rows, start, k + 1, area);
    }
}

proof fn lemma_rows_fit_start_props(rows: Seq<Row>, lo: int, b: int, area: int)
    requires
        lo <= b,
        0 <= area,
    ensures
        lo <= rows_fit_start(rows, lo, b, area) <= b,
        forall|f: int|
            lo <= f <= b && rows_span(rows, f, b) <= area ==> rows_fit_start(rows, lo, b, area) <= f,
    decreases b - lo,
{
    if rows_span(rows, lo, b) > area {
        assert(rows_span(rows, b, b) == 0);
        lemma_rows_fit_start_props(rows, lo + 1, b, area);
    }
}

/// The selected row of a table is always among the rows shown when it fits in the area,
/// margins included, whatever the offset.
pub proof fn lemma_selected_row_shown(rows: Seq<Row>, offset: int, s: usize, area: int)
    requires
        rows.len() > 0,
        s < rows.len(),
        row_total(rows[s as int]) <= area,
        0 <= offset,
    ensures
        visible_rows_of(rows, offset, Some(s), area).0 <= s < visible_rows_of(
            rows,
            offset,
            Some(s),
            area,
        ).1,
{
    let last_row = rows.len() - 1;
    let s0 = if offset <= last_row {
        offset
    } else {
        last_row
    };
    let start0 = if s < s0 {
        s as int
    } else {
        s0
    };
    lemma_rows_fit_end_bounds(rows, start0, start0, area);
    let end0 = rows_fit_end(rows, start0, start0, area);
    if s >= end0 {
        lemma_rows_fit_start_props(rows, start0, s + 1, area);
        assert(rows_span(rows, s as int, s as int) == 0);
        assert(rows_span(rows, s as int, s + 1) == row_total(rows[s as int]));
    }
}

} // verus!
