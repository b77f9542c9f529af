//! The shared shape of every scroll axis here: an offset stepped one unit
//! at a time, saturating at zero on the way back and bounds-checked on the
//! way forward by the owning structure.

use vstd::prelude::*;

verus! {

/// One backward step of a scroll offset: down by one, floored at zero.
pub open spec fn scroll_back_step(s: u16) -> u16 {
    s.saturating_sub(1)
}

/// `n` backward steps of a scroll offset.
pub open spec fn scroll_back_n(s: u16, n: nat) -> u16
    decreases n,
{
    if n == 0 {
        s
    } else {
        scroll_back_step(scroll_back_n(s, (n - 1) as nat))
    }
}

/// Scroll saturation, backward: any number of backward steps taken from
/// offset zero leaves the offset at zero — it never goes negative and never
/// wraps.
pub proof fn lemma_scroll_back_saturates(n: nat)
    ensures
        scroll_back_n(0, n) == 0,
    decreases n,
{
    if n > 0 {
        lemma_scroll_back_saturates((n - 1) as nat);
    }
}

/// A backward step never moves the offset by more than one, and never up.
pub proof fn lemma_scroll_back_step_bounds(s: u16)
    ensures
        scroll_back_step(s) <= s,
        s - scroll_back_step(s) <= 1,
{
}

} // verus!
