//! Optional caps on a search, composed by logical OR.

use vstd::prelude::*;
use crate::search_stats::SearchStats;

verus! {

/// Any subset of an iteration cap, a wall-clock cap and a node cap. An
/// unset cap never stops the search.
#[derive(Clone, Copy, PartialEq, Eq, Structural, Debug)]
pub struct SearchLimits {
    pub max_iters: Option<u64>,
    pub max_time_ms: Option<u64>,
    pub max_nodes: Option<u64>,
}

impl SearchLimits {
    /// Whether the measured counters exceed any configured cap.
    pub open spec fn spec_reached(self, iters: u64, elapsed_ms: u64, total_nodes: u64) -> bool {
        ||| (self.max_iters matches Some(m) && iters >= m)
        ||| (self.max_time_ms matches Some(m) && elapsed_ms >= m)
        ||| (self.max_nodes matches Some(m) && total_nodes >= m)
    }

    /// No caps: the search runs until interrupted from outside.
    pub fn new() -> (l: SearchLimits)
        ensures
            l == (SearchLimits { max_iters: None::<u64>, max_time_ms: None::<u64>, max_nodes: None::<u64> }),
    {
        SearchLimits { max_iters: None, max_time_ms: None, max_nodes: None }
    }

    /// Cap the number of iterations.
    pub fn add_iters(&mut self, iter_count: u32)
        ensures
            *final(self) == (SearchLimits { max_iters: Some(iter_count as u64), ..*old(self) }),
    {
        self.max_iters = Some(iter_count as u64);
    }

    /// Cap the wall-clock time in milliseconds.
    pub fn add_time(&mut self, time_ms: u64)
        ensures
            *final(self) == (SearchLimits { max_time_ms: Some(time_ms), ..*old(self) }),
    {
        self.max_time_ms = Some(time_ms);
    }

    /// Cap the number of allocated tree nodes.
    pub fn add_nodes(&mut self, nodes: u64)
        ensures
            *final(self) == (SearchLimits { max_nodes: Some(nodes), ..*old(self) }),
    {
        self.max_nodes = Some(nodes);
    }

    /// True exactly when some configured cap is met or exceeded by the
    /// statistics gathered so far.
    pub fn is_limit_reached(&self, stats: &SearchStats, total_nodes: u64) -> (r: bool)
        ensures
            r == self.spec_reached(stats.iters, stats.elapsed_ms, total_nodes),
    {
        let iters_hit = match self.max_iters {
            Some(m) => stats.iters >= m,
            None => false,
        };
        let time_hit = match self.max_time_ms {
            Some(m) => stats.elapsed_ms >= m,
            None => false,
        };
        let nodes_hit = match self.max_nodes {
            Some(m) => total_nodes >= m,
            None => false,
        };
        iters_hit || time_hit || nodes_hit
    }
}

} // verus!
