//! Reading where a window stands on the screen.

use vstd::prelude::*;

verus! {

/// Where a window is placed on the screen.
#[derive(Clone, Copy, Debug, PartialEq, Eq, Structural)]
pub enum WindowPlacement {
    /// Left to the windowing system.
    Automatic,
    /// Centered on a monitor.
    Centered,
    /// At a given position, in physical pixels, of its top-left corner.
    At { x: i32, y: i32 },
}

/// The window's position when it was placed at one, else the origin.
pub open spec fn placement_origin(placement: WindowPlacement) -> (i32, i32) {
    match placement {
        WindowPlacement::At { x, y } => (x, y),
        _ => (0, 0),
    }
}

/// The position to report for a window: the one it was placed at, or
/// `(0, 0)` when its placement names no position.
pub fn window_origin(placement: &WindowPlacement) -> (origin: (i32, i32))
    ensures
        origin == placement_origin(*placement),
{
    match placement {
        WindowPlacement::At { x, y } => (*x, *y),
        _ => (0, 0),
    }
}

/// A window placed at a position reports exactly that position, negative
/// coordinates included; a placement that names no position reports the
/// origin.
pub proof fn lemma_window_origin_reports_placement(x: i32, y: i32)
    ensures
        placement_origin(WindowPlacement::At { x, y }).0 == x,
        placement_origin(WindowPlacement::At { x, y }).1 == y,
        placement_origin(WindowPlacement::Automatic) == (0i32, 0i32),
        placement_origin(WindowPlacement::Centered) == (0i32, 0i32),
{
}

} // verus!
