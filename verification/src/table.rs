//! The query-result table: ordered column headers, ordered rows of
//! string-rendered cells, and a two-axis scroll offset, `(col, row)`, with
//! bounds-checked stepping.

use vstd::prelude::*;

use crate::paging::scroll_back_step;

verus! {

/// How many trailing columns stay scrollable on screen: the column scroll
/// stops once fewer than this many columns would remain.
pub const RESERVED_COLS: usize = 3;

/// Slack past the last row: the row scroll may run this many rows beyond
/// the content, letting the last rows scroll fully into view.
pub const ROW_SLACK: usize = 3;

/// Whether the column scroll may still advance: only while more than
/// `RESERVED_COLS` columns remain to the right.
pub open spec fn col_fwd_step(s: u16, ncols: int) -> u16 {
    if s + RESERVED_COLS < ncols {
        s.saturating_add(1)
    } else {
        s
    }
}

/// Whether the row scroll may still advance: only while the visible window
/// ends short of the content plus its slack.
pub open spec fn row_fwd_step(s: u16, visible: u16, nrows: int) -> u16 {
    if s + visible < nrows + ROW_SLACK {
        s.saturating_add(1)
    } else {
        s
    }
}

/// The scrollable result table.  `size` is the visible `(cols, rows)`
/// extent and `scroll` the `(col, row)` offset.
pub struct Table {
    pub headers: Vec<String>,
    pub items: Vec<Vec<String>>,
    pub scroll: (u16, u16),
    pub size: (u16, u16),
}

impl Table {
    /// An empty table: no headers, no rows, no scroll, no known size yet.
    pub fn new() -> (t: Table)
        ensures
            t.headers@ == Seq::<String>::empty(),
            t.items@ == Seq::<Vec<String>>::empty(),
            t.scroll == (0u16, 0u16),
            t.size == (0u16, 0u16),
    {
        Table { headers: Vec::new(), items: Vec::new(), scroll: (0, 0), size: (0, 0) }
    }

    /// Record the visible size `(cols, rows)`; the content and the scroll
    /// offset stay as they are.
    pub fn get_size(&mut self, size: (u16, u16))
        ensures
            final(self).size == size,
            final(self).headers@ == old(self).headers@,
            final(self).items@ == old(self).items@,
            final(self).scroll == old(self).scroll,
    {
        self.size = size;
    }

    /// Replace the content wholesale with a fresh result set and reset the
    /// scroll to the origin.  An empty row set is a no-op: the last
    /// non-empty result stays on screen instead of being blanked.
    pub fn get_table(&mut self, headers: Vec<String>, items: Vec<Vec<String>>)
        ensures
            items@.len() > 0 ==> {
                &&& final(self).headers@ == headers@
                &&& final(self).items@ == items@
                &&& final(self).scroll == (0u16, 0u16)
            },
            items@.len() == 0 ==> *final(self) == *old(self),
            final(self).size == old(self).size,
    {
        if !items.is_empty() {
            self.headers = headers;
            self.items = items;
            self.scroll = (0, 0);
        }
    }

    /// Scroll one column right; a no-op once only the reserved trailing
    /// columns remain.
    pub fn next_col(&mut self)
        ensures
            final(self).scroll.0 == col_fwd_step(old(self).scroll.0, old(self).headers@.len() as int),
            final(self).scroll.1 == old(self).scroll.1,
            final(self).headers@ == old(self).headers@,
            final(self).items@ == old(self).items@,
            final(self).size == old(self).size,
    {
        if self.scroll.0 as usize + RESERVED_COLS < self.headers.len() {
            self.scroll.0 = self.scroll.0.saturating_add(1);
        }
    }

    /// Scroll one column left; a no-op at the left edge.
    pub fn prev_col(&mut self)
        ensures
            final(self).scroll.0 == scroll_back_step(old(self).scroll.0),
            final(self).scroll.1 == old(self).scroll.1,
            final(self).headers@ == old(self).headers@,
            final(self).items@ == old(self).items@,
            final(self).size == old(self).size,
    {
        self.scroll.0 = self.scroll.0.saturating_sub(1);
    }

    /// Scroll one row down; a no-op once the visible window has run past
    /// the content and its slack.
    pub fn next_row(&mut self)
        ensures
            final(self).scroll.1 == row_fwd_step(
                old(self).scroll.1,
                old(self).size.1,
                old(self).items@.len() as int,
            ),
            final(self).scroll.0 == old(self).scroll.0,
            final(self).headers@ == old(self).headers@,
            final(self).items@ == old(self).items@,
            final(self).size == old(self).size,
    {
        let pos: usize = self.scroll.1 as usize + self.size.1 as usize;
        let within = if pos < ROW_SLACK {
            true
        } else {
            pos - ROW_SLACK < self.items.len()
        };
        if within {
            self.scroll.1 = self.scroll.1.saturating_add(1);
        }
    }

    /// Scroll one row up; a no-op at the top.
    pub fn prev_row(&mut self)
        ensures
            final(self).scroll.1 == scroll_back_step(old(self).scroll.1),
            final(self).scroll.0 == old(self).scroll.0,
            final(self).headers@ == old(self).headers@,
            final(self).items@ == old(self).items@,
            final(self).size == old(self).size,
    {
        self.scroll.1 = self.scroll.1.saturating_sub(1);
    }
}

/// Scroll saturation, forward along columns: once only the reserved
/// trailing columns remain, a further step does not advance, and a step
/// never advances by more than one column.
pub proof fn lemma_col_fwd_stops(s: u16, ncols: int)
    ensures
        s + RESERVED_COLS >= ncols ==> col_fwd_step(s, ncols) == s,
        col_fwd_step(s, ncols) <= s + 1,
{
}

/// Scroll saturation, forward along rows: once the visible window reaches
/// the content plus its slack, a further step does not advance, and a step
/// never advances by more than one row.
pub proof fn lemma_row_fwd_stops(s: u16, visible: u16, nrows: int)
    ensures
        s + visible >= nrows + ROW_SLACK ==> row_fwd_step(s, visible, nrows) == s,
        row_fwd_step(s, visible, nrows) <= s + 1,
{
}

/// `n` rightward column steps over unchanged headers.
pub open spec fn col_fwd_n(s: u16, ncols: int, n: nat) -> u16
    decreases n,
{
    if n == 0 {
        s
    } else {
        col_fwd_step(col_fwd_n(s, ncols, (n - 1) as nat), ncols)
    }
}

/// Repeated rightward steps stop advancing at the reserved-column
/// boundary: from an offset already at the boundary, any number of further
/// steps changes nothing.
pub proof fn lemma_col_fwd_n_stops(s: u16, ncols: int, n: nat)
    requires
        s + RESERVED_COLS >= ncols,
    ensures
        col_fwd_n(s, ncols, n) == s,
    decreases n,
{
    if n > 0 {
        lemma_col_fwd_n_stops(s, ncols, (n - 1) as nat);
    }
}

/// `n` downward row steps over unchanged content and size.
pub open spec fn row_fwd_n(s: u16, visible: u16, nrows: int, n: nat) -> u16
    decreases n,
{
    if n == 0 {
        s
    } else {
        row_fwd_step(row_fwd_n(s, visible, nrows, (n - 1) as nat), visible, nrows)
    }
}

/// Repeated downward steps stop advancing at the slack boundary: from an
/// offset already at the boundary, any number of further steps changes
/// nothing.
pub proof fn lemma_row_fwd_n_stops(s: u16, visible: u16, nrows: int, n: nat)
    requires
        s + visible >= nrows + ROW_SLACK,
    ensures
        row_fwd_n(s, visible, nrows, n) == s,
    decreases n,
{
    if n > 0 {
        lemma_row_fwd_n_stops(s, visible, nrows, (n - 1) as nat);
    }
}

} // verus!
