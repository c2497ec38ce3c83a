//! The search session: a root position, its options, limits and statistics,
//! and the cooperative interruption flag every worker loop polls.

use vstd::prelude::*;
use crate::board::GameBoard;
use crate::options::EngineOptions;
use crate::score::Score;
use crate::mcts_iteration::{lemma_visit_sum_zero, spec_visit_sum};
use crate::search_helpers::SearchHelpers;
use crate::search_limits::SearchLimits;
use crate::search_stats::SearchStats;
use crate::tree::Tree;

verus! {

/// One Monte Carlo tree search over a shared tree. The embedding owns the
/// tree and hands it to each call, so several searches can reuse one arena.
pub struct Mcts<B: GameBoard> {
    pub root_position: B,
    pub options: EngineOptions,
    pub stats: SearchStats,
    pub limits: SearchLimits,
    pub interruption: bool,
}

impl<B: GameBoard> Mcts<B> {
    pub fn new(
        root_position: B,
        options: EngineOptions,
        stats: SearchStats,
        limits: SearchLimits,
    ) -> (m: Mcts<B>)
        requires
            options.wf(),
        ensures
            m.options == options,
            m.stats == stats,
            m.limits == limits,
            !m.interruption,
            m.options.wf(),
    {
        Mcts { root_position, options, stats, limits, interruption: false }
    }

    /// The move to play from the root: the first most-visited root action
    /// (ties by average score, then lower index) with its average score. A
    /// childless root answers the null move and a draw score.
    pub fn get_best_move(&self, tree: &Tree) -> (r: (u16, Score))
        requires
            tree.wf(),
        ensures
            r.1.wf(),
            tree.spec_edges(tree.spec_root()).len() == 0 ==> r == (
                0u16,
                Score { win: 0u16, draw: crate::score::SCORE_UNIT },
            ),
            tree.spec_edges(tree.spec_root()).len() > 0 ==> exists|i: int|
                {
                    &&& 0 <= i < tree.spec_edges(tree.spec_root()).len()
                    &&& (forall|j: int|
                        0 <= j < tree.spec_edges(tree.spec_root()).len() ==> Tree::spec_pv_key(
                            tree.spec_edges(tree.spec_root())[j],
                        ) <= Tree::spec_pv_key(#[trigger] tree.spec_edges(tree.spec_root())[i]))
                    &&& r.0 == tree.spec_edges(tree.spec_root())[i].mv
                    &&& r.1 == tree.spec_edges(tree.spec_root())[i].spec_avg_score()
                },
    {
        let root = tree.root_index();
        match tree.best_action(root) {
            Some(a) => {
                let e = tree.get_edge_clone(root, a);
                let s = e.avg_score();
                (e.mv, s)
            },
            None => (0, Score::drawn()),
        }
    }

    /// Run the search: classify and expand the root, cycle worker passes
    /// until a limit, a proven root mate or an interruption stops them, and
    /// answer the best root move with its score.
    pub fn search(&mut self, tree: &mut Tree) -> (r: (u16, Score))
        requires
            old(tree).wf(),
            old(self).options.wf(),
            !old(self).interruption,
            old(tree).root_edge.visits < u32::MAX ==> spec_visit_sum(
                old(tree).spec_edges(old(tree).spec_root()),
            ) == old(tree).root_edge.visits,
        ensures
            final(tree).wf(),
            r.1.wf(),
            final(self).options == old(self).options,
            final(self).limits == old(self).limits,
            final(self).interruption,
            final(tree).root_edge.visits < u32::MAX ==> spec_visit_sum(
                final(tree).spec_edges(final(tree).spec_root()),
            ) == final(tree).root_edge.visits,
            final(tree).spec_edges(final(tree).spec_root()).len() == 0 ==> r == (
                0u16,
                Score { win: 0u16, draw: crate::score::SCORE_UNIT },
            ),
            final(tree).spec_edges(final(tree).spec_root()).len() > 0 ==> exists|i: int|
                {
                    &&& 0 <= i < final(tree).spec_edges(final(tree).spec_root()).len()
                    &&& (forall|j: int|
                        0 <= j < final(tree).spec_edges(final(tree).spec_root()).len()
                            ==> Tree::spec_pv_key(final(tree).spec_edges(final(tree).spec_root())[j])
                            <= Tree::spec_pv_key(
                            #[trigger] final(tree).spec_edges(final(tree).spec_root())[i],
                        ))
                    &&& r.0 == final(tree).spec_edges(final(tree).spec_root())[i].mv
                    &&& r.1 == final(tree).spec_edges(final(tree).spec_root())[i].spec_avg_score()
                },
    {
        let root_index = tree.root_index();
        let root_state = SearchHelpers::get_position_state(&self.root_position);
        tree.set_state(root_index, root_state);
        if !root_state.is_terminal() && !tree.has_children(root_index) {
            let pos = self.root_position.duplicate();
            self.expand(tree, root_index, &pos);
            proof {
                // The fresh expansion holds no visits, and the list held
                // none before either, being empty.
                lemma_visit_sum_zero(tree.spec_edges(tree.spec_root()));
                assert(spec_visit_sum(old(tree).spec_edges(old(tree).spec_root())) == 0);
            }
        }
        self.search_loop(tree);
        let best = self.get_best_move(tree);
        self.stats.update_time_passed();
        best
    }
}

} // verus!
