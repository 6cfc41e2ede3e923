//! The decision behind pinning the widget to the desktop.

use vstd::prelude::*;

verus! {

/// Position to which "Show Desktop" (Win+D) moves every top-level window.
pub const SHOW_DESKTOP_POS: i32 = -32000;

/// Whether a pending window move is the one "Show Desktop" makes: a real move
/// (no "no move" flag) to (-32000, -32000). Exactly that move is vetoed.
pub fn is_show_desktop_move(no_move: bool, x: i32, y: i32) -> (r: bool)
    ensures
        r == (!no_move && x == SHOW_DESKTOP_POS && y == SHOW_DESKTOP_POS),
{
    !no_move && x == SHOW_DESKTOP_POS && y == SHOW_DESKTOP_POS
}

} // verus!
