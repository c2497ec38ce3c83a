//! Edges of the search tree: the per-move statistics that PUCT selection and
//! backpropagation read and write, and the generation-tagged indices that
//! connect them to child nodes.

use vstd::prelude::*;
use crate::score::{Score, ScoreSum, SCORE_UNIT};

verus! {

/// Fixed-point denominator for policy priors: a prior of 1.0 is
/// `POLICY_UNIT` units.
pub const POLICY_UNIT: u16 = 16384;

/// Number of recyclable segments in the tree arena. The pinned root lives in
/// an extra one-slot pseudo-segment with this id.
pub const SEG_COUNT: u32 = 4;

/// Sentinel segment id of an index that points nowhere.
pub const NULL_SEG: u32 = 0xFFFF_FFFF;

/// Address of a node: its segment, its slot inside the segment, and the
/// generation the segment had when the node was allocated. An index whose
/// generation no longer matches the segment's is stale and is treated like
/// a null pointer.
#[derive(Clone, Copy, PartialEq, Eq, Structural, Debug)]
pub struct NodeIndex {
    pub seg: u32,
    pub slot: u32,
    pub generation: u32,
}

impl NodeIndex {
    pub open spec fn spec_is_null(self) -> bool {
        self.seg == NULL_SEG
    }

    pub open spec fn spec_is_root(self) -> bool {
        self.seg == SEG_COUNT && self.slot == 0
    }

    /// The index that points nowhere.
    pub fn null() -> (r: NodeIndex)
        ensures
            r.spec_is_null(),
            r == (NodeIndex { seg: NULL_SEG, slot: 0u32, generation: 0u32 }),
    {
        NodeIndex { seg: NULL_SEG, slot: 0, generation: 0 }
    }

    /// The pinned root slot, outside the recyclable segments.
    pub fn root() -> (r: NodeIndex)
        ensures
            r.spec_is_root(),
            r == (NodeIndex { seg: SEG_COUNT, slot: 0u32, generation: 0u32 }),
    {
        NodeIndex { seg: SEG_COUNT, slot: 0, generation: 0 }
    }

    pub fn is_null(self) -> (r: bool)
        ensures
            r == self.spec_is_null(),
    {
        self.seg == NULL_SEG
    }
}

/// One action out of a node: the move, the policy prior the expansion gave
/// it, the child pointer, and the accumulated visit and score statistics.
#[derive(Clone, Copy, PartialEq, Eq, Structural, Debug)]
pub struct Edge {
    pub child: NodeIndex,
    pub mv: u16,
    pub policy: u16,
    pub visits: u32,
    pub total: ScoreSum,
}

impl Edge {
    /// The statistics are consistent: the prior is a valid fraction, the
    /// accumulated score components cannot exceed one full unit per visit,
    /// and a child pointer never addresses the pinned root slot.
    pub open spec fn wf(self) -> bool {
        &&& self.policy <= POLICY_UNIT
        &&& self.total.win + self.total.draw <= self.visits * SCORE_UNIT
        &&& !self.child.spec_is_root()
    }

    /// A fresh edge for `mv` with prior `policy`: no child, no visits.
    pub fn new(child: NodeIndex, mv: u16, policy: u16) -> (e: Edge)
        requires
            policy <= POLICY_UNIT,
            !child.spec_is_root(),
        ensures
            e == (Edge { child, mv, policy, visits: 0u32, total: ScoreSum { win: 0u64, draw: 0u64 } }),
            e.wf(),
    {
        Edge { child, mv, policy, visits: 0, total: ScoreSum { win: 0, draw: 0 } }
    }

    /// The edge after one more descent finished with score `s`: one more
    /// visit, `s` folded into the totals. Once the visit counter is pinned at
    /// its maximum the edge is frozen so the totals keep their meaning.
    pub open spec fn spec_bumped(self, s: Score) -> Edge {
        if self.visits < u32::MAX {
            Edge {
                visits: (self.visits + 1) as u32,
                total: self.total.spec_add(s),
                ..self
            }
        } else {
            self
        }
    }

    /// Record one descent through this edge.
    pub fn bump(&mut self, s: Score)
        requires
            old(self).wf(),
            s.wf(),
        ensures
            *final(self) == old(self).spec_bumped(s),
            final(self).wf(),
    {
        if self.visits < u32::MAX {
            self.visits = self.visits + 1;
            self.total.add(s);
        }
    }

    /// The all-zero edge a fresh tree's root edge starts as.
    pub open spec fn spec_zero() -> Edge {
        Edge {
            child: NodeIndex { seg: NULL_SEG, slot: 0u32, generation: 0u32 },
            mv: 0u16,
            policy: 0u16,
            visits: 0u32,
            total: ScoreSum { win: 0u64, draw: 0u64 },
        }
    }

    /// The average of the accumulated scores, component-wise; an edge never
    /// visited counts as a certain draw.
    pub open spec fn spec_avg_score(self) -> Score {
        if self.visits == 0 {
            Score { win: 0u16, draw: SCORE_UNIT }
        } else {
            Score {
                win: (self.total.win as int / self.visits as int) as u16,
                draw: (self.total.draw as int / self.visits as int) as u16,
            }
        }
    }

    /// Average score over all visits of this edge.
    pub fn avg_score(&self) -> (s: Score)
        requires
            self.wf(),
        ensures
            s == self.spec_avg_score(),
            s.wf(),
    {
        if self.visits == 0 {
            return Score { win: 0, draw: SCORE_UNIT };
        }
        let v: u64 = self.visits as u64;
        let w: u64 = self.total.win / v;
        let d: u64 = self.total.draw / v;
        proof {
            let vi = self.visits as int;
            let a = self.total.win as int;
            let b = self.total.draw as int;
            vstd::arithmetic::div_mod::lemma_fundamental_div_mod(a, vi);
            vstd::arithmetic::div_mod::lemma_fundamental_div_mod(b, vi);
            vstd::arithmetic::div_mod::lemma_mod_bound(a, vi);
            vstd::arithmetic::div_mod::lemma_mod_bound(b, vi);
            vstd::arithmetic::div_mod::lemma_div_pos_is_pos(a, vi);
            vstd::arithmetic::div_mod::lemma_div_pos_is_pos(b, vi);
            assert(a / vi + b / vi <= SCORE_UNIT) by (nonlinear_arith)
                requires
                    vi >= 1,
                    a == vi * (a / vi) + a % vi,
                    b == vi * (b / vi) + b % vi,
                    a % vi >= 0,
                    b % vi >= 0,
                    a / vi >= 0,
                    b / vi >= 0,
                    a + b <= vi * SCORE_UNIT,
            ;
        }
        Score { win: w as u16, draw: d as u16 }
    }

    /// Law: backpropagation counts descents. One finished descent through an
    /// edge adds exactly one visit and folds exactly that descent's score
    /// into the totals, so an edge's counter equals the number of descents
    /// that traversed it for as long as the counter is not pinned.
    pub proof fn lemma_bump_counts_one_descent(e: Edge, s: Score)
        requires
            e.visits < u32::MAX,
        ensures
            e.spec_bumped(s).visits == e.visits + 1,
            e.spec_bumped(s).total == e.total.spec_add(s),
            e.spec_bumped(s).child == e.child,
            e.spec_bumped(s).mv == e.mv,
            e.spec_bumped(s).policy == e.policy,
    {
    }

    /// Average ranking scalar of the accumulated score, in
    /// `1 / (2*SCORE_UNIT)` units: `(2*total.win + total.draw) / visits`.
    pub open spec fn spec_q_scalar(self) -> int {
        (2 * self.total.win + self.total.draw) / (self.visits as int)
    }

    /// The average score scalar over all visits; at most a certain win.
    pub fn q_scalar(&self) -> (q: u32)
        requires
            self.wf(),
            self.visits > 0,
        ensures
            q == self.spec_q_scalar(),
            q <= 2 * SCORE_UNIT,
    {
        let num: u64 = 2 * self.total.win + self.total.draw;
        proof {
            assert(self.total.win + self.total.draw <= self.visits * SCORE_UNIT);
            assert(num <= 2 * SCORE_UNIT * self.visits) by (nonlinear_arith)
                requires
                    num == 2 * self.total.win + self.total.draw,
                    self.total.win + self.total.draw <= self.visits * SCORE_UNIT,
            ;
            assert(num / (self.visits as u64) <= 2 * SCORE_UNIT) by (nonlinear_arith)
                requires
                    num <= 2 * SCORE_UNIT * self.visits,
                    self.visits > 0,
            ;
        }
        (num / (self.visits as u64)) as u32
    }
}

} // verus!
