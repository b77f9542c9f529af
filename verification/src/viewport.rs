//! Viewport scrolling: derive a scroll offset from a cursor position and a
//! visible size so that the cursor stays inside the visible window, a few
//! cells away from its trailing edge.

use vstd::prelude::*;

verus! {

/// How many cells the cursor is kept away from the trailing edge of the
/// visible window.
pub const VIEW_MARGIN: u16 = 5;

/// The scroll offset that keeps position `pos` visible inside a window of
/// `visible` cells: zero while the cursor fits in the first
/// `visible - VIEW_MARGIN` cells, and just far enough otherwise.  All
/// subtraction saturates at zero, so degenerate (too small) window sizes
/// never underflow.
pub open spec fn spec_follow_offset(pos: u16, visible: u16) -> u16 {
    pos.saturating_sub(visible.saturating_sub(VIEW_MARGIN))
}

/// Recompute one axis of a scroll offset from the cursor position `pos` and
/// the visible extent `visible` on that axis.
pub fn follow_offset(pos: u16, visible: u16) -> (offset: u16)
    ensures
        offset == spec_follow_offset(pos, visible),
{
    pos.saturating_sub(visible.saturating_sub(VIEW_MARGIN))
}

/// Viewport containment: whenever the visible extent is larger than the
/// margin, the recomputed offset places the position inside the visible
/// window: `offset <= pos < offset + visible`.
pub proof fn lemma_follow_offset_contains(pos: u16, visible: u16)
    requires
        visible > VIEW_MARGIN,
    ensures
        spec_follow_offset(pos, visible) <= pos,
        pos < spec_follow_offset(pos, visible) + visible,
{
}

/// For degenerate window sizes the offset still never exceeds the position,
/// so the subtraction can never wrap.
pub proof fn lemma_follow_offset_bounded(pos: u16, visible: u16)
    ensures
        spec_follow_offset(pos, visible) <= pos,
{
}

} // verus!
