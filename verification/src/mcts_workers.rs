//! The worker passes of a search. The primary pass drives statistics, the
//! clock and the limits and raises the interruption flag; a helper pass only
//! iterates and polls the flag. The outer cycle relaunches passes after
//! recycling the oldest tree segment whenever one stops on segment
//! exhaustion. An embedding that runs helpers on OS threads shares the flag
//! between them; here every pass is expressed over exclusive access.

use vstd::prelude::*;
use crate::board::GameBoard;
use crate::mcts::Mcts;
use crate::mcts_iteration::{spec_visit_sum, MAX_DESCENT_DEPTH};
use crate::tree::Tree;

verus! {

/// Nodes allocated in the tree, as the limit check counts them.
pub open spec fn spec_usage(t: Tree) -> int {
    t.fills@[0] + t.fills@[1] + t.fills@[2] + t.fills@[3]
}

impl<B: GameBoard> Mcts<B> {
    /// The outer search cycle: run a primary pass; if it stopped for any
    /// reason but segment exhaustion the search is over, otherwise recycle
    /// the oldest segment and relaunch. On return the interruption flag is
    /// always up: the search is finished.
    pub fn search_loop(&mut self, tree: &mut Tree)
        requires
            old(tree).wf(),
            old(self).options.wf(),
            !old(self).interruption,
            old(tree).root_edge.visits < u32::MAX ==> spec_visit_sum(
                old(tree).spec_edges(old(tree).spec_root()),
            ) == old(tree).root_edge.visits,
        ensures
            final(tree).wf(),
            final(self).options == old(self).options,
            final(self).limits == old(self).limits,
            final(self).interruption,
            final(tree).root_edge.visits < u32::MAX ==> spec_visit_sum(
                final(tree).spec_edges(final(tree).spec_root()),
            ) == final(tree).root_edge.visits,
    {
        let mut cycles: u64 = 0;
        while cycles < u64::MAX
            invariant
                tree.wf(),
                self.options.wf(),
                self.options == old(self).options,
                self.limits == old(self).limits,
                !self.interruption,
                tree.root_edge.visits < u32::MAX ==> spec_visit_sum(
                    tree.spec_edges(tree.spec_root()),
                ) == tree.root_edge.visits,
            decreases u64::MAX - cycles,
        {
            cycles = cycles + 1;
            self.main_loop(tree);
            if self.interruption {
                return;
            }
            tree.advance_segments();
        }
        // The cycle budget is out; that ends the search.
        self.interruption = true;
    }

    /// The primary worker: descend once per pass, fold the result into the
    /// root edge, keep the statistics and the clock, and raise the
    /// interruption flag when the root is proven terminal or a limit is
    /// reached. Returns with the flag down only on segment exhaustion; a
    /// raised flag always has a stated cause; as long as neither counter
    /// saturates, the root edge gains exactly one visit per counted
    /// iteration; and a configured iteration cap is respected up to the one
    /// descent that is already running when the cap is hit.
    pub fn main_loop(&mut self, tree: &mut Tree)
        requires
            old(tree).wf(),
            old(self).options.wf(),
            !old(self).interruption,
            old(tree).root_edge.visits < u32::MAX ==> spec_visit_sum(
                old(tree).spec_edges(old(tree).spec_root()),
            ) == old(tree).root_edge.visits,
        ensures
            final(tree).wf(),
            final(self).options == old(self).options,
            final(self).limits == old(self).limits,
            final(self).interruption || final(tree).fills@[final(tree).young as int] == final(tree).seg_cap,
            final(self).interruption ==> final(tree).spec_state(
                final(tree).spec_root(),
            ).spec_is_terminal() || final(self).limits.spec_reached(
                final(self).stats.iters,
                final(self).stats.elapsed_ms,
                spec_usage(*final(tree)) as u64,
            ) || final(tree).root_edge.visits == u32::MAX || final(tree).spec_edges(
                final(tree).spec_root(),
            ).len() == 0,
            final(tree).root_edge.visits < u32::MAX ==> spec_visit_sum(
                final(tree).spec_edges(final(tree).spec_root()),
            ) == final(tree).root_edge.visits,
            final(self).stats.iters - old(self).stats.iters == final(tree).root_edge.visits - old(tree).root_edge.visits || final(self).stats.iters == u64::MAX || final(tree).root_edge.visits == u32::MAX,
            final(self).limits.max_iters matches Some(m) ==> final(self).stats.iters
                <= old(self).stats.iters + 1 || final(self).stats.iters <= m,
    {
        let root_index = tree.root_index();
        let mut k: u64 = 0;
        while k < u64::MAX
            invariant
                tree.wf(),
                self.options.wf(),
                self.options == old(self).options,
                self.limits == old(self).limits,
                root_index.spec_is_root(),
                root_index == tree.spec_root(),
                !self.interruption,
                tree.root_edge.visits < u32::MAX ==> spec_visit_sum(
                    tree.spec_edges(tree.spec_root()),
                ) == tree.root_edge.visits,
                self.stats.iters >= old(self).stats.iters,
                tree.root_edge.visits as int >= vstd::math::min(k as int, u32::MAX as int),
                self.stats.iters - old(self).stats.iters == tree.root_edge.visits - old(tree).root_edge.visits || self.stats.iters == u64::MAX || tree.root_edge.visits
                    == u32::MAX,
                self.limits.max_iters matches Some(m) ==> self.stats.iters < m || self.stats.iters
                    == old(self).stats.iters,
            decreases u64::MAX - k,
        {
            k = k + 1;
            let ghost t_it = *tree;
            let mut depth: u32 = 0;
            let mut position = self.root_position.duplicate();
            let root_visits = tree.root_edge.visits;
            let result = self.process_deeper_node(
                tree,
                root_index,
                root_visits,
                &mut position,
                &mut depth,
                true,
                MAX_DESCENT_DEPTH,
            );
            match result {
                Some(score) => {
                    if !tree.has_children(root_index) {
                        proof {
                            // An empty action list holds no visits, and by
                            // the descent's contract it was empty before
                            // this pass too, so the counters agree at zero.
                            assert(spec_visit_sum(tree.spec_edges(tree.spec_root())) == 0);
                            assert(t_it.spec_edges(t_it.spec_root()).len() == 0);
                            assert(spec_visit_sum(t_it.spec_edges(t_it.spec_root())) == 0);
                            assert(tree.root_edge == t_it.root_edge);
                            assert(t_it.root_edge.visits < u32::MAX ==> t_it.root_edge.visits
                                == 0);
                        }
                        // The collaborator reported no moves for an
                        // unresolved root: a malformed position; fail the
                        // search rather than count a descent that traversed
                        // no edge.
                        self.interruption = true;
                        return;
                    }
                    tree.root_edge.bump(score);
                },
                None => {
                    // Segment exhaustion: yield so the outer cycle can
                    // recycle the oldest segment.
                    return;
                },
            }
            self.stats.add_iteration(depth);
            if tree.state_of(root_index).is_terminal() {
                self.interruption = true;
            }
            if self.stats.iters % 128 == 0 {
                self.stats.update_time_passed();
            }
            let usage = tree.total_usage();
            if self.limits.is_limit_reached(&self.stats, usage as u64) {
                self.interruption = true;
            }
            if self.interruption {
                return;
            }
        }
        // The pass budget is out; only a saturated visit counter gets here.
        self.interruption = true;
    }

    /// A helper worker: descend and backpropagate with no reporting and no
    /// limit checks; it stops only when the young segment is exhausted, the
    /// root is proven terminal, the shared interruption flag is observed, or
    /// the root edge's visit counter is saturated.
    pub fn worker_loop(&self, tree: &mut Tree)
        requires
            old(tree).wf(),
            self.options.wf(),
        ensures
            final(tree).wf(),
            final(tree).fills@[final(tree).young as int] == final(tree).seg_cap || final(tree).spec_state(final(tree).spec_root()).spec_is_terminal() || self.interruption || final(tree).root_edge.visits == u32::MAX,
    {
        let root_index = tree.root_index();
        if self.interruption {
            return;
        }
        let mut k: u64 = 0;
        while k < u64::MAX
            invariant
                tree.wf(),
                self.options.wf(),
                root_index.spec_is_root(),
                root_index == tree.spec_root(),
                tree.root_edge.visits as int >= vstd::math::min(k as int, u32::MAX as int),
            decreases u64::MAX - k,
        {
            k = k + 1;
            let mut depth: u32 = 0;
            let mut position = self.root_position.duplicate();
            let root_visits = tree.root_edge.visits;
            let result = self.process_deeper_node(
                tree,
                root_index,
                root_visits,
                &mut position,
                &mut depth,
                true,
                MAX_DESCENT_DEPTH,
            );
            match result {
                Some(score) => {
                    tree.root_edge.bump(score);
                },
                None => {
                    return;
                },
            }
            if tree.state_of(root_index).is_terminal() {
                return;
            }
            if self.interruption {
                return;
            }
        }
    }
}

} // verus!
