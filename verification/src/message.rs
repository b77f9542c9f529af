//! The message log: an append-only list of text entries with a two-axis
//! scroll offset, `(row, column)`, over a known visible size.

use vstd::prelude::*;

use crate::paging::scroll_back_step;

verus! {

/// Whether the vertical scroll may still advance: only while rows below the
/// visible window remain.
pub open spec fn msg_down_step(s: u16, visible: u16, total: int) -> u16 {
    if s + visible < total {
        s.saturating_add(1)
    } else {
        s
    }
}

/// The scrollable message log.  `size` is the visible `(cols, rows)` extent
/// and `scroll` the `(row, col)` offset.
pub struct Message {
    pub context: Vec<String>,
    pub size: (u16, u16),
    pub scroll: (u16, u16),
}

impl Message {
    /// An empty log: no entries, no scroll, no known size yet.
    pub fn new() -> (m: Message)
        ensures
            m.context@ == Seq::<String>::empty(),
            m.size == (0u16, 0u16),
            m.scroll == (0u16, 0u16),
    {
        Message { context: Vec::new(), size: (0, 0), scroll: (0, 0) }
    }

    /// Record the visible size `(cols, rows)`; the entries and the scroll
    /// offset stay as they are.
    pub fn get_size(&mut self, size: (u16, u16))
        ensures
            final(self).size == size,
            final(self).context@ == old(self).context@,
            final(self).scroll == old(self).scroll,
    {
        self.size = size;
    }

    /// Append one entry and advance the vertical scroll once if rows remain
    /// below the visible window, so the log follows its newest entry.
    pub fn push(&mut self, context: String)
        ensures
            final(self).context@ == old(self).context@.push(context),
            final(self).scroll.0 == msg_down_step(
                old(self).scroll.0,
                old(self).size.1,
                old(self).context@.len() as int + 1,
            ),
            final(self).scroll.1 == old(self).scroll.1,
            final(self).size == old(self).size,
    {
        self.context.push(context);
        self.scroll_down();
    }

    /// Scroll one row up; a no-op at the top.
    pub fn scroll_up(&mut self)
        ensures
            final(self).scroll.0 == scroll_back_step(old(self).scroll.0),
            final(self).scroll.1 == old(self).scroll.1,
            final(self).context@ == old(self).context@,
            final(self).size == old(self).size,
    {
        self.scroll.0 = self.scroll.0.saturating_sub(1);
    }

    /// Scroll one row down; a no-op once no rows remain below the visible
    /// window.
    pub fn scroll_down(&mut self)
        ensures
            final(self).scroll.0 == msg_down_step(
                old(self).scroll.0,
                old(self).size.1,
                old(self).context@.len() as int,
            ),
            final(self).scroll.1 == old(self).scroll.1,
            final(self).context@ == old(self).context@,
            final(self).size == old(self).size,
    {
        let pos: usize = self.scroll.0 as usize + self.size.1 as usize;
        if pos < self.context.len() {
            self.scroll.0 = self.scroll.0.saturating_add(1);
        }
    }

    /// Scroll one column left; a no-op at the left edge.
    pub fn scroll_left(&mut self)
        ensures
            final(self).scroll.1 == scroll_back_step(old(self).scroll.1),
            final(self).scroll.0 == old(self).scroll.0,
            final(self).context@ == old(self).context@,
            final(self).size == old(self).size,
    {
        self.scroll.1 = self.scroll.1.saturating_sub(1);
    }

    /// Scroll one column right; entries are free-form text, so the
    /// horizontal scroll has no content bound and only saturates at the
    /// numeric ceiling.
    pub fn scroll_right(&mut self)
        ensures
            final(self).scroll.1 == old(self).scroll.1.saturating_add(1),
            final(self).scroll.0 == old(self).scroll.0,
            final(self).context@ == old(self).context@,
            final(self).size == old(self).size,
    {
        self.scroll.1 = self.scroll.1.saturating_add(1);
    }
}

/// Scroll saturation, forward: once no rows remain below the visible
/// window, a further downward step does not advance, and a step never
/// advances by more than one row.
pub proof fn lemma_msg_down_stops(s: u16, visible: u16, total: int)
    ensures
        s + visible >= total ==> msg_down_step(s, visible, total) == s,
        msg_down_step(s, visible, total) <= s + 1,
{
}

/// `n` downward steps of the vertical scroll over unchanged content.
pub open spec fn msg_down_n(s: u16, visible: u16, total: int, n: nat) -> u16
    decreases n,
{
    if n == 0 {
        s
    } else {
        msg_down_step(msg_down_n(s, visible, total, (n - 1) as nat), visible, total)
    }
}

/// Repeated downward steps stop advancing at the content edge: from an
/// offset already at the edge, any number of further steps changes nothing.
pub proof fn lemma_msg_down_n_stops(s: u16, visible: u16, total: int, n: nat)
    requires
        s + visible >= total,
    ensures
        msg_down_n(s, visible, total, n) == s,
    decreases n,
{
    if n > 0 {
        lemma_msg_down_n_stops(s, visible, total, (n - 1) as nat);
    }
}

} // verus!
