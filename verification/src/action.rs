//! The events that drive the dashboard.

use vstd::prelude::*;

verus! {

/// One event: a timer signal, a navigation command, or a request that
/// concerns the whole screen.
#[derive(Debug, Clone, PartialEq, Eq)]
pub enum Action {
    Tick,
    Render,
    Resize(u16, u16),
    Suspend,
    Resume,
    Update(u128),
    Quit,
    Up,
    Down,
    PageUp,
    PageDown,
    Left,
    Right,
    ClearScreen,
    Error(String),
    Help,
}

} // verus!
