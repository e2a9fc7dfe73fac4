//! A placeholder panel for machine-wide CPU load.

use vstd::prelude::*;

verus! {

/// The CPU panel. It holds one flag: whether it has been set up.
#[derive(Debug)]
pub struct Cpu {
    pub state: bool,
}

impl Cpu {
    /// A panel that has not been set up.
    pub fn new() -> (cpu: Cpu)
        ensures
            !cpu.state,
    {
        Cpu { state: false }
    }
}

} // verus!
