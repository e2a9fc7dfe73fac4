//! The refresh interval shown for diagnosis.

use vstd::prelude::*;

verus! {

/// What the diagnosis line shows.
#[derive(Clone, Copy, Debug, PartialEq, Eq)]
pub struct DebugState {
    pub interval_as_millis: u128,
}

/// Holds the refresh interval last reported.
#[derive(Clone, Copy, Debug, PartialEq, Eq)]
pub struct DebugWidget {
    pub state: DebugState,
}

impl DebugWidget {
    /// A widget that has not been told an interval yet.
    pub fn new() -> (widget: DebugWidget)
        ensures
            widget.state.interval_as_millis == 0,
    {
        DebugWidget { state: DebugState { interval_as_millis: 0 } }
    }

    /// Records the refresh interval, in milliseconds.
    pub fn on_load(&mut self, interval_as_millis: u128)
        ensures
            final(self).state.interval_as_millis == interval_as_millis,
    {
        self.state.interval_as_millis = interval_as_millis;
    }
}

} // verus!
