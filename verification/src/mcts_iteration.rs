//! One MCTS descent: terminal or first-visit nodes are only evaluated
//! ("expand on second visit"), everything else is expanded if needed, one
//! action is chosen by PUCT, the position advances, and the child's score is
//! backpropagated with the mate rule on the way out.

use vstd::prelude::*;
use crate::board::GameBoard;
use crate::edge::{Edge, NodeIndex, POLICY_UNIT};
use crate::mcts::Mcts;
use crate::score::{Score, SCORE_UNIT};
use crate::search_helpers::SearchHelpers;
use crate::tree::Tree;

verus! {

/// Total policy prior over a list of edges.
pub open spec fn spec_policy_sum(s: Seq<Edge>) -> int
    decreases s.len(),
{
    if s.len() == 0 {
        0
    } else {
        spec_policy_sum(s.drop_last()) + s.last().policy
    }
}

/// Depth cap of one descent; a frame that reaches it is evaluated in place
/// like a first visit instead of recursing further.
pub const MAX_DESCENT_DEPTH: u32 = 256;

/// Total visit count over a list of edges.
pub open spec fn spec_visit_sum(s: Seq<Edge>) -> int
    decreases s.len(),
{
    if s.len() == 0 {
        0
    } else {
        spec_visit_sum(s.drop_last()) + s.last().visits
    }
}

pub proof fn lemma_visit_sum_nonneg(s: Seq<Edge>)
    ensures
        spec_visit_sum(s) >= 0,
    decreases s.len(),
{
    if s.len() > 0 {
        lemma_visit_sum_nonneg(s.drop_last());
    }
}

/// No edge holds more visits than its whole list.
pub proof fn lemma_visit_sum_element(s: Seq<Edge>, a: int)
    requires
        0 <= a < s.len(),
    ensures
        s[a].visits <= spec_visit_sum(s),
    decreases s.len(),
{
    if a == s.len() - 1 {
        lemma_visit_sum_nonneg(s.drop_last());
    } else {
        lemma_visit_sum_element(s.drop_last(), a);
        assert(s.drop_last()[a] == s[a]);
    }
}

/// Replacing one edge changes the total by the difference in visits.
pub proof fn lemma_visit_sum_update(s: Seq<Edge>, a: int, e: Edge)
    requires
        0 <= a < s.len(),
    ensures
        spec_visit_sum(s.update(a, e)) == spec_visit_sum(s) - s[a].visits + e.visits,
    decreases s.len(),
{
    let t = s.update(a, e);
    if a == s.len() - 1 {
        assert(t.drop_last() =~= s.drop_last());
        assert(t.last() == e);
    } else {
        assert(t.drop_last() =~= s.drop_last().update(a, e));
        lemma_visit_sum_update(s.drop_last(), a, e);
        assert(s.drop_last()[a] == s[a]);
        assert(t.last() == s.last());
    }
}

/// A list of unvisited edges has no visits.
pub proof fn lemma_visit_sum_zero(s: Seq<Edge>)
    requires
        forall|a: int| 0 <= a < s.len() ==> (#[trigger] s[a]).visits == 0,
    ensures
        spec_visit_sum(s) == 0,
    decreases s.len(),
{
    if s.len() > 0 {
        assert forall|a: int| 0 <= a < s.drop_last().len() implies (#[trigger] s.drop_last()[a]).visits
            == 0 by {
            assert(s.drop_last()[a] == s[a]);
        }
        lemma_visit_sum_zero(s.drop_last());
    }
}

/// The tree grew monotonically: no segment was recycled and no fill mark
/// moved back, so every index valid before is still valid.
pub open spec fn spec_extends(pre: Tree, post: Tree) -> bool {
    &&& post.generations@ == pre.generations@
    &&& post.fills@.len() == pre.fills@.len()
    &&& (forall|s: int| 0 <= s < pre.fills@.len() ==> pre.fills@[s] <= #[trigger] post.fills@[s])
    &&& post.seg_cap == pre.seg_cap
}

impl<B: GameBoard> Mcts<B> {
    /// Materialize the actions of `node_idx` from the given move list: one
    /// fresh edge per move, in the list's order, with near-uniform priors
    /// summing to exactly one (every move gets `1/n`, the remainder units go
    /// to the first moves).
    pub fn expand_from_moves(&self, tree: &mut Tree, node_idx: NodeIndex, moves: &Vec<u16>)
        requires
            old(tree).wf(),
            old(tree).spec_valid(node_idx),
        ensures
            final(tree).wf(),
            final(tree).spec_valid(node_idx),
            final(tree).spec_edges(node_idx).len() == moves@.len(),
            forall|a: int|
                0 <= a < moves@.len() ==> (#[trigger] final(tree).spec_edges(node_idx)[a]).mv
                    == moves@[a],
            moves@.len() > 0 ==> spec_policy_sum(final(tree).spec_edges(node_idx)) == POLICY_UNIT,
            forall|a: int|
                0 <= a < final(tree).spec_edges(node_idx).len()
                    ==> (#[trigger] final(tree).spec_edges(node_idx)[a]).visits == 0,
            forall|a: int|
                0 <= a < final(tree).spec_edges(node_idx).len()
                    ==> (#[trigger] final(tree).spec_edges(node_idx)[a]).child.spec_is_null(),
            final(tree).states@ == old(tree).states@,
            forall|j: int|
                0 <= j < old(tree).edge_lists.len() && j != old(tree).spec_flat(node_idx)
                    ==> (#[trigger] final(tree).edge_lists[j])@ == old(tree).edge_lists[j]@,
            Tree::spec_same_outer(*old(tree), *final(tree)),
            spec_extends(*old(tree), *final(tree)),
    {
        let n = moves.len();
        let mut actions: Vec<Edge> = Vec::new();
        if n > 0 {
            let unit: usize = POLICY_UNIT as usize;
            let base: usize = unit / n;
            let rem: usize = unit % n;
            proof {
                vstd::arithmetic::div_mod::lemma_fundamental_div_mod(unit as int, n as int);
                vstd::arithmetic::div_mod::lemma_mod_bound(unit as int, n as int);
                vstd::arithmetic::div_mod::lemma_div_pos_is_pos(unit as int, n as int);
                assert(base * n <= unit && base <= unit) by (nonlinear_arith)
                    requires
                        unit as int == n as int * base as int + rem as int,
                        0 <= rem,
                        n >= 1,
                        base >= 0,
                ;
                assert(rem >= 1 ==> base + 1 <= unit) by (nonlinear_arith)
                    requires
                        unit as int == n as int * base as int + rem as int,
                        0 <= rem < n,
                        n >= 1,
                        base >= 0,
                ;
            }
            let mut i: usize = 0;
            while i < n
                invariant
                    i <= n,
                    n == moves.len(),
                    actions.len() == i,
                    unit == POLICY_UNIT,
                    unit as int == n as int * base as int + rem as int,
                    0 <= rem < n,
                    base <= unit,
                    base * n <= unit,
                    rem >= 1 ==> base + 1 <= unit,
                    spec_policy_sum(actions@) == i * base + (if i <= rem {
                        i as int
                    } else {
                        rem as int
                    }),
                    forall|a: int| 0 <= a < i ==> (#[trigger] actions@[a]).visits == 0,
                    forall|a: int| 0 <= a < i ==> (#[trigger] actions@[a]).child.spec_is_null(),
                    forall|a: int| 0 <= a < i ==> (#[trigger] actions@[a]).wf(),
                    forall|a: int| 0 <= a < i ==> (#[trigger] actions@[a]).mv == moves@[a],
                decreases n - i,
            {
                proof {
                    if rem >= 1 {
                        assert(base + 1 <= unit) by (nonlinear_arith)
                            requires
                                unit as int == n as int * base as int + rem as int,
                                1 <= rem < n,
                                base >= 0,
                                n >= 1,
                        ;
                    }
                }
                let p: u16 = if i < rem {
                    (base + 1) as u16
                } else {
                    base as u16
                };
                let e = Edge::new(NodeIndex::null(), moves[i], p);
                let ghost prev = actions@;
                actions.push(e);
                proof {
                    assert(actions@.drop_last() =~= prev);
                    assert((i + 1) * base == i * base + base) by (nonlinear_arith);
                }
                i = i + 1;
            }
        }
        tree.set_actions(node_idx, actions);
    }

    /// Materialize the actions of `node_idx` from the legal moves of
    /// `position`: whatever move list the collaborator answers, the node
    /// gets one fresh edge per move in that order, with priors that sum to
    /// exactly one.
    pub fn expand(&self, tree: &mut Tree, node_idx: NodeIndex, position: &B)
        requires
            old(tree).wf(),
            old(tree).spec_valid(node_idx),
        ensures
            final(tree).wf(),
            final(tree).spec_valid(node_idx),
            final(tree).spec_edges(node_idx).len() > 0 ==> spec_policy_sum(
                final(tree).spec_edges(node_idx),
            ) == POLICY_UNIT,
            forall|a: int|
                0 <= a < final(tree).spec_edges(node_idx).len()
                    ==> (#[trigger] final(tree).spec_edges(node_idx)[a]).visits == 0,
            forall|a: int|
                0 <= a < final(tree).spec_edges(node_idx).len()
                    ==> (#[trigger] final(tree).spec_edges(node_idx)[a]).child.spec_is_null(),
            final(tree).states@ == old(tree).states@,
            forall|j: int|
                0 <= j < old(tree).edge_lists.len() && j != old(tree).spec_flat(node_idx)
                    ==> (#[trigger] final(tree).edge_lists[j])@ == old(tree).edge_lists[j]@,
            Tree::spec_same_outer(*old(tree), *final(tree)),
            spec_extends(*old(tree), *final(tree)),
    {
        let moves = position.legal_moves();
        self.expand_from_moves(tree, node_idx, &moves);
    }

    /// One frame of a descent. A non-root node that is terminal, unvisited
    /// through its edge, or at the depth cap is evaluated and not entered;
    /// otherwise it is expanded if still childless, one action is chosen by
    /// PUCT, the position advances, and the child's result is folded into
    /// the chosen edge together with the mate rule. The returned score is
    /// from the parent's perspective; `None` reports segment exhaustion.
    pub fn process_deeper_node(
        &self,
        tree: &mut Tree,
        current_node_index: NodeIndex,
        action_visits: u32,
        current_position: &mut B,
        depth: &mut u32,
        is_root: bool,
        fuel: u32,
    ) -> (r: Option<Score>)
        requires
            old(tree).wf(),
            old(tree).spec_valid(current_node_index),
            self.options.wf(),
            is_root ==> fuel >= 1,
            is_root ==> current_node_index == old(tree).spec_root(),
            !is_root ==> !current_node_index.spec_is_root(),
        ensures
            final(tree).wf(),
            spec_extends(*old(tree), *final(tree)),
            final(tree).spec_valid(current_node_index),
            r matches Some(s) ==> s.wf(),
            final(tree).root_edge == old(tree).root_edge,
            *final(depth) >= *old(depth),
            r is None ==> final(tree).fills@[final(tree).young as int] == final(tree).seg_cap,
            !is_root && (old(tree).spec_state(current_node_index).spec_is_terminal()
                || action_visits == 0 || fuel == 0) ==> r is Some && final(tree).states@ == old(
                tree,
            ).states@ && final(tree).edge_lists@ == old(tree).edge_lists@ && final(tree).fills@
                == old(tree).fills@ && *final(depth) == *old(depth),
            !is_root && old(tree).spec_state(current_node_index) is Drawn ==> r == Some(
                Score { win: 0u16, draw: SCORE_UNIT },
            ),
            !is_root && old(tree).spec_state(current_node_index) is Lost ==> r == Some(
                Score { win: SCORE_UNIT, draw: 0u16 },
            ),
            !is_root && old(tree).spec_state(current_node_index) is Won ==> r == Some(
                Score { win: 0u16, draw: 0u16 },
            ),
            !is_root ==> final(tree).spec_edges(old(tree).spec_root()) == old(tree).spec_edges(
                old(tree).spec_root(),
            ),
            is_root && r is Some && final(tree).spec_edges(old(tree).spec_root()).len() == 0
                ==> old(tree).spec_edges(old(tree).spec_root()).len() == 0,
            is_root && r is Some && final(tree).spec_edges(old(tree).spec_root()).len() > 0
                && spec_visit_sum(old(tree).spec_edges(old(tree).spec_root())) < u32::MAX
                ==> spec_visit_sum(final(tree).spec_edges(old(tree).spec_root()))
                == spec_visit_sum(old(tree).spec_edges(old(tree).spec_root())) + 1,
            is_root && r is None ==> spec_visit_sum(final(tree).spec_edges(old(tree).spec_root()))
                == spec_visit_sum(old(tree).spec_edges(old(tree).spec_root())),
        decreases fuel,
    {
        let ghost rootv = old(tree).spec_root();
        let node_state = tree.state_of(current_node_index);
        if !is_root && (node_state.is_terminal() || action_visits == 0 || fuel == 0) {
            // First visit or terminal: evaluate here and do not descend.
            let key = current_position.hash_key();
            let md = current_position.material_difference();
            let score = SearchHelpers::get_node_score(
                current_position,
                node_state,
                key,
                tree,
                md,
                &self.options,
            );
            return Some(score.reversed());
        }
        // Expansion is deferred to the second visit to halve policy work.
        if !tree.has_children(current_node_index) {
            self.expand(tree, current_node_index, current_position);
            proof {
                lemma_visit_sum_zero(tree.spec_edges(current_node_index));
            }
        }
        proof {
            if !is_root {
                assert(old(tree).fills[current_node_index.seg as int] <= old(tree).seg_cap);
                old(tree).lemma_flat_distinct(current_node_index, rootv);
                old(tree).lemma_flat_in_bounds(rootv);
                assert(tree.spec_edges(rootv) == old(tree).spec_edges(rootv));
            } else {
                if old(tree).spec_edges(rootv).len() == 0 {
                    assert(spec_visit_sum(old(tree).spec_edges(rootv)) == 0);
                }
            }
            assert(spec_visit_sum(tree.spec_edges(current_node_index)) == spec_visit_sum(
                old(tree).spec_edges(current_node_index),
            ));
        }
        if tree.num_actions(current_node_index) == 0 {
            // The collaborator yielded no moves for an unresolved node;
            // evaluate in place rather than descend.
            let key = current_position.hash_key();
            let md = current_position.material_difference();
            let score = SearchHelpers::get_node_score(
                current_position,
                node_state,
                key,
                tree,
                md,
                &self.options,
            );
            return Some(score.reversed());
        }
        let ghost t1 = *tree;
        let best_action_index = tree.select_action(
            current_node_index,
            action_visits,
            self.options.cpuct_value,
        );
        let new_edge_cpy = tree.get_edge_clone(current_node_index, best_action_index);
        current_position.make_move(new_edge_cpy.mv);
        let maybe_new = tree.get_node_index(
            current_position,
            new_edge_cpy.child,
            current_node_index,
            best_action_index,
        );
        let new_node_index = match maybe_new {
            Some(i) => i,
            None => {
                proof {
                    if is_root {
                        assert(tree.spec_edges(rootv) == t1.spec_edges(rootv));
                    }
                }
                return None;
            },
        };
        proof {
            // An edge's stored child never addresses the pinned root, and a
            // fresh allocation lands in a recyclable segment, so the frame
            // below this one is never the root.
            if t1.spec_valid(new_edge_cpy.child) {
                assert(!new_node_index.spec_is_root());
            } else {
                assert(new_node_index == t1.spec_fresh_index());
                assert(!new_node_index.spec_is_root());
            }
            if !is_root {
                assert(t1.fills[current_node_index.seg as int] <= t1.seg_cap);
                t1.lemma_flat_distinct(current_node_index, rootv);
                t1.lemma_flat_in_bounds(rootv);
                if !t1.spec_valid(new_edge_cpy.child) && t1.fills[t1.young as int] < t1.seg_cap {
                    let fresh = t1.spec_fresh_index();
                    assert(t1.fills[fresh.seg as int] <= t1.seg_cap);
                    t1.lemma_flat_distinct(fresh, rootv);
                }
                assert(tree.spec_edges(rootv) == t1.spec_edges(rootv));
            } else {
                // The child-pointer update keeps every visit counter, so the
                // root's visit total is unchanged.
                if !t1.spec_valid(new_edge_cpy.child) {
                    lemma_visit_sum_update(
                        t1.spec_edges(rootv),
                        best_action_index as int,
                        (Edge {
                            child: t1.spec_fresh_index(),
                            ..t1.spec_edges(rootv)[best_action_index as int]
                        }),
                    );
                }
                assert(spec_visit_sum(tree.spec_edges(rootv)) == spec_visit_sum(
                    t1.spec_edges(rootv),
                ));
                assert(tree.spec_edges(rootv).len() == t1.spec_edges(rootv).len());
            }
        }
        let ghost t2 = *tree;
        if *depth < u32::MAX {
            *depth = *depth + 1;
        }
        let deeper = self.process_deeper_node(
            tree,
            new_node_index,
            new_edge_cpy.visits,
            current_position,
            depth,
            false,
            fuel - 1,
        );
        let score = match deeper {
            Some(s) => s,
            None => {
                proof {
                    if is_root {
                        assert(tree.spec_edges(rootv) == t2.spec_edges(rootv));
                    }
                }
                return None;
            },
        };
        let ghost t3 = *tree;
        proof {
            // The recursion ran strictly below the root.
            assert(t3.spec_edges(rootv) == t2.spec_edges(rootv));
            if is_root {
                assert(t3.spec_edges(current_node_index).len() == t1.spec_edges(
                    current_node_index,
                ).len());
            }
        }
        // A transposition inside the recursion may alias this node, so the
        // action list is re-checked before the statistics are written back.
        if best_action_index < tree.num_actions(current_node_index) {
            proof {
                if is_root && spec_visit_sum(old(tree).spec_edges(rootv)) < u32::MAX {
                    lemma_visit_sum_element(t3.spec_edges(rootv), best_action_index as int);
                    lemma_visit_sum_update(
                        t3.spec_edges(rootv),
                        best_action_index as int,
                        t3.spec_edges(rootv)[best_action_index as int].spec_bumped(score),
                    );
                }
            }
            tree.add_edge_score(current_node_index, best_action_index, score);
            proof {
                if !is_root {
                    assert(t3.fills[current_node_index.seg as int] <= t3.seg_cap);
                    t3.lemma_flat_distinct(current_node_index, rootv);
                    t3.lemma_flat_in_bounds(rootv);
                    assert(tree.spec_edges(rootv) == t3.spec_edges(rootv));
                }
            }
            if tree.is_valid(new_node_index) {
                let child_state = tree.state_of(new_node_index);
                tree.backpropagate_mates(current_node_index, child_state);
            }
        }
        Some(score.reversed())
    }
}

} // verus!
