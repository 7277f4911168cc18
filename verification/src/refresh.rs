//! The display-refresh rule.
//!
//! Only one frame is ever composed per run: the refresh loop re-presents
//! the same buffer at a bounded cadence (it is a display-refresh loop, not
//! a live-data loop) until a dismiss condition is observed. The loop itself
//! lives with the display surface; the decision of when it stops is pinned
//! down here.

use vstd::prelude::*;

verus! {

/// Whether the refresh loop stops: the surface was closed externally, or
/// the designated mouse button or key went down.
pub fn should_dismiss(open: bool, mouse_down: bool, key_down: bool) -> (r: bool)
    ensures
        r == (!open || mouse_down || key_down),
{
    !open || mouse_down || key_down
}

} // verus!
