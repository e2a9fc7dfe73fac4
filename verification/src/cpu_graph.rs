//! A rolling window of machine-wide load readings.

use crate::sparkline::push_sample;
use crate::sparkline::pushed;
use std::collections::VecDeque;
use vstd::prelude::*;

verus! {

/// The readings behind the load graph, oldest first.
#[derive(Debug, Clone, PartialEq, Eq)]
pub struct CpuGraph {
    pub data: VecDeque<u64>,
}

impl CpuGraph {
    /// Adds a reading at the back and drops the oldest, so that the window
    /// keeps its length.
    #[must_use]
    pub fn update(self, point: u64) -> (graph: CpuGraph)
        ensures
            graph.data@ == pushed(self.data@, point),
    {
        let mut data = self.data;
        push_sample(&mut data, point);
        CpuGraph { data }
    }
}

impl Default for CpuGraph {
    /// A window of two readings, 0 and 25.
    fn default() -> (graph: CpuGraph)
        ensures
            graph.data@ == seq![0u64, 25u64],
    {
        let mut data: VecDeque<u64> = VecDeque::new();
        data.push_back(0);
        data.push_back(25);
        assert(data@ =~= seq![0u64, 25u64]);
        CpuGraph { data }
    }
}

} // verus!
