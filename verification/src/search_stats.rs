//! Counters gathered while a search runs: iterations, descent depths and
//! elapsed wall-clock time.

use vstd::prelude::*;

verus! {

/// Relies on std::time::SystemTime::now for wall-clock milliseconds since the
/// Unix epoch; the value depends on the machine's clock, so nothing is
/// promised about it.
#[verifier::external_body]
fn current_millis() -> u64 {
    std::time::SystemTime::now().duration_since(std::time::SystemTime::UNIX_EPOCH).map(
        |d| d.as_millis() as u64,
    ).unwrap_or(0)
}

/// Search statistics. All counters saturate instead of wrapping, so a very
/// long search freezes the counts rather than corrupting them.
#[derive(Clone, Copy, PartialEq, Eq, Structural, Debug)]
pub struct SearchStats {
    pub iters: u64,
    pub sum_depth: u64,
    pub max_depth: u32,
    pub elapsed_ms: u64,
    pub start_ms: u64,
}

impl SearchStats {
    /// The statistics after one more iteration that reached `depth`.
    pub open spec fn spec_after_iteration(self, depth: u32) -> SearchStats {
        SearchStats {
            iters: if self.iters < u64::MAX { (self.iters + 1) as u64 } else { u64::MAX },
            sum_depth: if self.sum_depth + depth <= u64::MAX {
                (self.sum_depth + depth) as u64
            } else {
                u64::MAX
            },
            max_depth: if depth > self.max_depth { depth } else { self.max_depth },
            ..self
        }
    }

    /// Average descent depth so far; zero before the first iteration.
    pub open spec fn spec_avg_depth(self) -> int {
        if self.iters == 0 {
            0
        } else {
            self.sum_depth as int / self.iters as int
        }
    }

    /// Fresh counters; the start time is read from the wall clock.
    pub fn new() -> (s: SearchStats)
        ensures
            s.iters == 0,
            s.sum_depth == 0,
            s.max_depth == 0,
            s.elapsed_ms == 0,
    {
        SearchStats { iters: 0, sum_depth: 0, max_depth: 0, elapsed_ms: 0, start_ms: current_millis() }
    }

    /// Record one finished iteration that descended to `depth`.
    pub fn add_iteration(&mut self, depth: u32)
        ensures
            *final(self) == old(self).spec_after_iteration(depth),
    {
        self.iters = self.iters.saturating_add(1);
        self.sum_depth = self.sum_depth.saturating_add(depth as u64);
        if depth > self.max_depth {
            self.max_depth = depth;
        }
    }

    /// Average descent depth so far.
    pub fn avg_depth(&self) -> (d: u64)
        ensures
            d == self.spec_avg_depth(),
    {
        if self.iters == 0 {
            0
        } else {
            self.sum_depth / self.iters
        }
    }

    /// Re-read the wall clock. Only `elapsed_ms` changes; its value comes
    /// from the machine's clock, so nothing is promised about it.
    pub fn update_time_passed(&mut self)
        ensures
            final(self).iters == old(self).iters,
            final(self).sum_depth == old(self).sum_depth,
            final(self).max_depth == old(self).max_depth,
            final(self).start_ms == old(self).start_ms,
    {
        let now = current_millis();
        self.elapsed_ms = now.saturating_sub(self.start_ms);
    }
}

} // verus!
