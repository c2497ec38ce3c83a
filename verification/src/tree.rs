//! The search tree: a fixed-budget arena of nodes divided into equal
//! segments that are recycled oldest-first when memory runs out, plus the
//! pinned root and the transposition cache. Node addresses carry the
//! generation of their segment, so an index into a recycled segment is
//! recognized as stale instead of aliasing a fresh node.
//!
//! Nodes are stored as two parallel flat vectors (states and edge lists);
//! the flat position of `(seg, slot)` is `seg * seg_cap + slot`, and the
//! root occupies the extra last position.

use vstd::prelude::*;
use crate::board::GameBoard;
use crate::edge::{Edge, NodeIndex, SEG_COUNT};
use crate::game_state::GameState;
use crate::hash_table::HashTable;
use crate::score::Score;
use crate::search_helpers::SearchHelpers;

verus! {

/// Nominal bytes per node used to derive the arena's slot count from its
/// byte budget.
pub const NODE_BYTES: usize = 64;

/// Hard cap on slots per segment, so flat index arithmetic stays small.
pub const SEG_CAP_MAX: usize = 0x100_0000;

/// Every edge of `s` has consistent statistics.
pub open spec fn edges_wf(s: Seq<Edge>) -> bool {
    forall|a: int| 0 <= a < s.len() ==> (#[trigger] s[a]).wf()
}

pub struct Tree {
    pub states: Vec<GameState>,
    pub edge_lists: Vec<Vec<Edge>>,
    pub fills: Vec<usize>,
    pub generations: Vec<u32>,
    pub young: usize,
    pub seg_cap: usize,
    pub root_edge: Edge,
    pub hash: HashTable,
}

impl Tree {
    /// Structural well-formedness: the parallel vectors agree with the
    /// segment geometry and every stored edge is consistent.
    pub open spec fn wf(self) -> bool {
        &&& 1 <= self.seg_cap <= SEG_CAP_MAX
        &&& self.states.len() == SEG_COUNT * self.seg_cap + 1
        &&& self.edge_lists.len() == self.states.len()
        &&& self.fills.len() == SEG_COUNT
        &&& self.generations.len() == SEG_COUNT
        &&& self.young < SEG_COUNT
        &&& (forall|s: int| 0 <= s < SEG_COUNT ==> (#[trigger] self.fills[s]) <= self.seg_cap)
        &&& (forall|i: int|
            0 <= i < self.edge_lists.len() ==> edges_wf((#[trigger] self.edge_lists[i])@))
        &&& self.root_edge.wf()
        &&& self.hash.wf()
        &&& self.hash.entries.len() >= 1
    }

    /// An index is usable when it is the pinned root, or lies under its
    /// segment's fill mark with a matching generation tag.
    pub open spec fn spec_valid(self, idx: NodeIndex) -> bool {
        ||| idx.spec_is_root()
        ||| (idx.seg < SEG_COUNT && (idx.slot as int) < self.fills[idx.seg as int]
            && idx.generation == self.generations[idx.seg as int])
    }

    /// Flat storage position of an index.
    pub open spec fn spec_flat(self, idx: NodeIndex) -> int {
        idx.seg * self.seg_cap + idx.slot
    }

    pub open spec fn spec_state(self, idx: NodeIndex) -> GameState {
        self.states[self.spec_flat(idx)]
    }

    pub open spec fn spec_edges(self, idx: NodeIndex) -> Seq<Edge> {
        self.edge_lists[self.spec_flat(idx)]@
    }

    /// A valid index addresses storage inside the parallel vectors.
    pub proof fn lemma_flat_in_bounds(self, idx: NodeIndex)
        requires
            self.wf(),
            self.spec_valid(idx),
        ensures
            0 <= self.spec_flat(idx) < self.states.len(),
    {
        if idx.spec_is_root() {
        } else {
            assert(idx.seg * self.seg_cap + idx.slot < SEG_COUNT * self.seg_cap + 1)
                by (nonlinear_arith)
                requires
                    idx.seg < SEG_COUNT,
                    (idx.slot as int) < self.seg_cap as int,
                    self.seg_cap >= 1,
            ;
        }
    }

    /// The pinned root's address as a spec value.
    pub open spec fn spec_root(self) -> NodeIndex {
        NodeIndex { seg: SEG_COUNT, slot: 0u32, generation: 0u32 }
    }

    /// The pinned root's index.
    pub fn root_index(&self) -> (r: NodeIndex)
        ensures
            r.spec_is_root(),
            self.spec_valid(r),
            r == self.spec_root(),
    {
        NodeIndex::root()
    }

    fn flat_of(&self, idx: NodeIndex) -> (f: usize)
        requires
            self.wf(),
            self.spec_valid(idx),
        ensures
            f == self.spec_flat(idx),
            f < self.states.len(),
    {
        proof {
            self.lemma_flat_in_bounds(idx);
        }
        (idx.seg as usize) * self.seg_cap + (idx.slot as usize)
    }

    /// Runtime validity test of a possibly stale or null index.
    pub fn is_valid(&self, idx: NodeIndex) -> (r: bool)
        requires
            self.wf(),
        ensures
            r == self.spec_valid(idx),
    {
        if idx.seg == SEG_COUNT && idx.slot == 0 {
            true
        } else if idx.seg < SEG_COUNT {
            (idx.slot as usize) < self.fills[idx.seg as usize] && idx.generation
                == self.generations[idx.seg as usize]
        } else {
            false
        }
    }

    pub fn state_of(&self, idx: NodeIndex) -> (st: GameState)
        requires
            self.wf(),
            self.spec_valid(idx),
        ensures
            st == self.spec_state(idx),
    {
        let f = self.flat_of(idx);
        self.states[f]
    }

    pub fn has_children(&self, idx: NodeIndex) -> (r: bool)
        requires
            self.wf(),
            self.spec_valid(idx),
        ensures
            r == (self.spec_edges(idx).len() > 0),
    {
        let f = self.flat_of(idx);
        self.edge_lists[f].len() > 0
    }

    pub fn num_actions(&self, idx: NodeIndex) -> (n: usize)
        requires
            self.wf(),
            self.spec_valid(idx),
        ensures
            n == self.spec_edges(idx).len(),
    {
        let f = self.flat_of(idx);
        self.edge_lists[f].len()
    }

    /// A snapshot copy of one action's edge.
    pub fn get_edge_clone(&self, idx: NodeIndex, action: usize) -> (e: Edge)
        requires
            self.wf(),
            self.spec_valid(idx),
            action < self.spec_edges(idx).len(),
        ensures
            e == self.spec_edges(idx)[action as int],
            e.wf(),
    {
        let f = self.flat_of(idx);
        self.edge_lists[f][action]
    }

    /// The canonical empty tree: every slot unresolved and unexpanded, all
    /// fill marks, generations and the young pointer at zero, and a zeroed
    /// root edge. The advisory cache is deliberately not part of this.
    pub open spec fn spec_cleared(self) -> bool {
        &&& (forall|i: int| 0 <= i < self.states@.len() ==> self.states@[i] is Unresolved)
        &&& (forall|i: int|
            0 <= i < self.edge_lists@.len() ==> (#[trigger] self.edge_lists@[i])@.len() == 0)
        &&& (forall|s: int| 0 <= s < SEG_COUNT ==> self.fills@[s] == 0)
        &&& (forall|s: int| 0 <= s < SEG_COUNT ==> self.generations@[s] == 0)
        &&& self.young == 0
        &&& self.root_edge == Edge::spec_zero()
    }

    /// Reset every node, statistic and segment mark; the geometry and the
    /// advisory cache stay. Afterwards the tree is the canonical empty tree
    /// of its capacity.
    pub fn clear(&mut self)
        requires
            old(self).wf(),
        ensures
            final(self).wf(),
            final(self).spec_cleared(),
            final(self).seg_cap == old(self).seg_cap,
            final(self).states@.len() == old(self).states@.len(),
            final(self).edge_lists@.len() == old(self).edge_lists@.len(),
            final(self).hash.entries@ == old(self).hash.entries@,
    {
        let len = self.states.len();
        let mut i: usize = 0;
        while i < len
            invariant
                i <= len,
                len == self.states.len(),
                self.states.len() == old(self).states.len(),
                self.edge_lists.len() == old(self).edge_lists.len(),
                self.edge_lists.len() == self.states.len(),
                self.fills@ == old(self).fills@,
                self.generations@ == old(self).generations@,
                self.young == old(self).young,
                self.seg_cap == old(self).seg_cap,
                self.root_edge == old(self).root_edge,
                self.hash.entries@ == old(self).hash.entries@,
                old(self).wf(),
                forall|j: int| 0 <= j < i ==> self.states@[j] is Unresolved,
                forall|j: int| 0 <= j < i ==> (#[trigger] self.edge_lists@[j])@.len() == 0,
            decreases len - i,
        {
            self.states[i] = GameState::Unresolved;
            self.edge_lists[i] = Vec::new();
            i = i + 1;
        }
        let mut s: usize = 0;
        while s < SEG_COUNT as usize
            invariant
                s <= SEG_COUNT,
                self.fills.len() == SEG_COUNT,
                self.generations.len() == SEG_COUNT,
                self.states@.len() == old(self).states@.len(),
                self.edge_lists@.len() == old(self).edge_lists@.len(),
                self.edge_lists.len() == self.states.len(),
                self.young == old(self).young,
                self.seg_cap == old(self).seg_cap,
                self.root_edge == old(self).root_edge,
                self.hash.entries@ == old(self).hash.entries@,
                old(self).wf(),
                forall|j: int| 0 <= j < self.states@.len() ==> self.states@[j] is Unresolved,
                forall|j: int|
                    0 <= j < self.edge_lists@.len() ==> (#[trigger] self.edge_lists@[j])@.len()
                        == 0,
                forall|j: int| 0 <= j < s ==> self.fills@[j] == 0,
                forall|j: int| 0 <= j < s ==> self.generations@[j] == 0,
            decreases SEG_COUNT - s,
        {
            self.fills[s] = 0;
            self.generations[s] = 0;
            s = s + 1;
        }
        self.young = 0;
        self.root_edge = Edge::new(NodeIndex::null(), 0, 0);
    }

    /// Law: clearing leaves nothing behind. Any two cleared trees of the
    /// same capacity present the identical search-visible state, so a search
    /// after a clear starts from the same tree every time.
    pub proof fn lemma_cleared_trees_agree(t1: Tree, t2: Tree)
        requires
            t1.wf(),
            t2.wf(),
            t1.spec_cleared(),
            t2.spec_cleared(),
            t1.seg_cap == t2.seg_cap,
        ensures
            t1.states@ == t2.states@,
            t1.fills@ == t2.fills@,
            t1.generations@ == t2.generations@,
            t1.young == t2.young,
            t1.root_edge == t2.root_edge,
            forall|j: int|
                0 <= j < t1.edge_lists@.len() ==> (#[trigger] t1.edge_lists@[j])@
                    == t2.edge_lists@[j]@,
    {
        assert(t1.states@ =~= t2.states@);
        assert(t1.fills@ =~= t2.fills@);
        assert(t1.generations@ =~= t2.generations@);
        assert forall|j: int| 0 <= j < t1.edge_lists@.len() implies (#[trigger] t1.edge_lists@[j])@
            == t2.edge_lists@[j]@ by {
            assert(t1.edge_lists@[j]@ =~= t2.edge_lists@[j]@);
        }
    }

    /// Slots allocated so far across all recyclable segments.
    pub fn total_usage(&self) -> (used: usize)
        requires
            self.wf(),
        ensures
            used == self.fills@[0] + self.fills@[1] + self.fills@[2] + self.fills@[3],
    {
        proof {
            assert(4 * self.seg_cap <= 4 * SEG_CAP_MAX);
        }
        self.fills[0] + self.fills[1] + self.fills[2] + self.fills[3]
    }

    /// Fields outside the node storage that tree mutations must preserve.
    pub open spec fn spec_same_outer(pre: Tree, post: Tree) -> bool {
        &&& post.fills@ == pre.fills@
        &&& post.generations@ == pre.generations@
        &&& post.young == pre.young
        &&& post.seg_cap == pre.seg_cap
        &&& post.root_edge == pre.root_edge
        &&& post.hash.entries@ == pre.hash.entries@
    }

    /// Fold `score` into the edge `(idx, action)` and count the visit:
    /// backpropagation's per-edge step. Nothing else changes.
    pub fn add_edge_score(&mut self, idx: NodeIndex, action: usize, score: Score)
        requires
            old(self).wf(),
            old(self).spec_valid(idx),
            action < old(self).spec_edges(idx).len(),
            score.wf(),
        ensures
            final(self).wf(),
            final(self).spec_valid(idx),
            final(self).spec_edges(idx) == old(self).spec_edges(idx).update(
                action as int,
                old(self).spec_edges(idx)[action as int].spec_bumped(score),
            ),
            final(self).states@ == old(self).states@,
            forall|j: int|
                0 <= j < old(self).edge_lists.len() && j != old(self).spec_flat(idx)
                    ==> (#[trigger] final(self).edge_lists[j])@ == old(self).edge_lists[j]@,
            Tree::spec_same_outer(*old(self), *final(self)),
    {
        let f = self.flat_of(idx);
        let mut list = self.edge_lists[f].clone();
        proof {
            assert(list@ =~= self.edge_lists[f as int]@);
        }
        let mut e = list[action];
        e.bump(score);
        list[action] = e;
        self.edge_lists[f] = list;
        proof {
            assert(final(self).spec_edges(idx) =~= old(self).spec_edges(idx).update(
                action as int,
                old(self).spec_edges(idx)[action as int].spec_bumped(score),
            ));
        }
    }

    /// Give `idx` its actions; meaningful only for an unexpanded node.
    /// Nothing else changes.
    pub fn set_actions(&mut self, idx: NodeIndex, actions: Vec<Edge>)
        requires
            old(self).wf(),
            old(self).spec_valid(idx),
            edges_wf(actions@),
        ensures
            final(self).wf(),
            final(self).spec_valid(idx),
            final(self).spec_edges(idx) == actions@,
            final(self).states@ == old(self).states@,
            forall|j: int|
                0 <= j < old(self).edge_lists.len() && j != old(self).spec_flat(idx)
                    ==> (#[trigger] final(self).edge_lists[j])@ == old(self).edge_lists[j]@,
            Tree::spec_same_outer(*old(self), *final(self)),
    {
        let f = self.flat_of(idx);
        self.edge_lists[f] = actions;
    }

    /// Two distinct addresses never share a flat storage position.
    pub proof fn lemma_flat_distinct(self, a: NodeIndex, b: NodeIndex)
        requires
            self.wf(),
            a.seg <= SEG_COUNT,
            b.seg <= SEG_COUNT,
            (a.slot as int) < self.seg_cap || (a.seg == SEG_COUNT && a.slot == 0),
            (b.slot as int) < self.seg_cap || (b.seg == SEG_COUNT && b.slot == 0),
            a.seg != b.seg || a.slot != b.slot,
        ensures
            self.spec_flat(a) != self.spec_flat(b),
    {
        assert(a.seg * self.seg_cap + a.slot != b.seg * self.seg_cap + b.slot) by (nonlinear_arith)
            requires
                self.seg_cap >= 1,
                a.seg <= SEG_COUNT,
                b.seg <= SEG_COUNT,
                (a.slot as int) < self.seg_cap || (a.seg == SEG_COUNT && a.slot == 0),
                (b.slot as int) < self.seg_cap || (b.seg == SEG_COUNT && b.slot == 0),
                a.seg != b.seg || a.slot != b.slot,
        ;
    }

    /// The address the next allocation will use.
    pub open spec fn spec_fresh_index(self) -> NodeIndex {
        NodeIndex {
            seg: self.young as u32,
            slot: self.fills[self.young as int] as u32,
            generation: self.generations[self.young as int],
        }
    }

    /// Both trees hold the same nodes, statistics and cache.
    pub open spec fn spec_same_tree(pre: Tree, post: Tree) -> bool {
        &&& post.states@ == pre.states@
        &&& post.edge_lists@ == pre.edge_lists@
        &&& Tree::spec_same_outer(pre, post)
    }

    /// What allocating a child for `(parent, action)` does: a fresh empty
    /// node appears at the young segment's fill mark with a non-`Won` state,
    /// the parent's edge now points at it, and nothing else changes.
    pub open spec fn spec_alloc_post(pre: Tree, post: Tree, parent: NodeIndex, action: int) -> bool {
        let ni = pre.spec_fresh_index();
        &&& post.spec_valid(ni)
        &&& post.spec_edges(ni).len() == 0
        &&& !(post.spec_state(ni) is Won)
        &&& post.spec_edges(parent) == pre.spec_edges(parent).update(
            action,
            (Edge { child: ni, ..pre.spec_edges(parent)[action] }),
        )
        &&& post.fills@ == pre.fills@.update(
            pre.young as int,
            (pre.fills[pre.young as int] + 1) as usize,
        )
        &&& post.states@.len() == pre.states@.len()
        &&& (forall|j: int|
            0 <= j < pre.states@.len() && j != pre.spec_flat(pre.spec_fresh_index())
                ==> post.states@[j] == pre.states@[j])
        &&& (forall|j: int|
            0 <= j < pre.edge_lists@.len() && j != pre.spec_flat(pre.spec_fresh_index()) && j
                != pre.spec_flat(parent) ==> (#[trigger] post.edge_lists@[j])@
                == pre.edge_lists@[j]@)
        &&& post.generations@ == pre.generations@
        &&& post.young == pre.young
        &&& post.seg_cap == pre.seg_cap
        &&& post.root_edge == pre.root_edge
        &&& post.hash.entries@ == pre.hash.entries@
    }

    /// Resolve the child node an edge leads to. A still-valid `existing`
    /// index is reused; a null or stale one makes the node be allocated anew
    /// in the young segment, its state classified from the position, and the
    /// parent's edge repointed. `None` reports segment exhaustion: the young
    /// segment is full and the caller must yield so segments can cycle.
    pub fn get_node_index<B: GameBoard>(
        &mut self,
        position: &B,
        existing: NodeIndex,
        parent: NodeIndex,
        action: usize,
    ) -> (r: Option<NodeIndex>)
        requires
            old(self).wf(),
            old(self).spec_valid(parent),
            action < old(self).spec_edges(parent).len(),
        ensures
            final(self).wf(),
            final(self).spec_valid(parent),
            r matches Some(i) ==> final(self).spec_valid(i),
            forall|ix: NodeIndex|
                old(self).spec_valid(ix) ==> #[trigger] final(self).spec_valid(ix),
            old(self).spec_valid(existing) ==> r == Some(existing) && Tree::spec_same_tree(
                *old(self),
                *final(self),
            ),
            !old(self).spec_valid(existing) && old(self).fills[old(self).young as int] < old(
                self,
            ).seg_cap ==> r == Some(old(self).spec_fresh_index()) && Tree::spec_alloc_post(
                *old(self),
                *final(self),
                parent,
                action as int,
            ),
            !old(self).spec_valid(existing) && old(self).fills[old(self).young as int] >= old(
                self,
            ).seg_cap ==> r == None::<NodeIndex> && Tree::spec_same_tree(*old(self), *final(self)),
    {
        if self.is_valid(existing) {
            return Some(existing);
        }
        let young = self.young;
        let fill = self.fills[young];
        if fill >= self.seg_cap {
            return None;
        }
        let ni = NodeIndex { seg: young as u32, slot: fill as u32, generation: self.generations[young] };
        proof {
            assert(young * self.seg_cap + fill < SEG_COUNT * self.seg_cap + 1) by (nonlinear_arith)
                requires
                    young < SEG_COUNT,
                    fill < self.seg_cap,
                    self.seg_cap >= 1,
            ;
        }
        let nf = young * self.seg_cap + fill;
        let st = SearchHelpers::get_position_state::<B>(position);
        self.states[nf] = st;
        self.edge_lists[nf] = Vec::new();
        self.fills[young] = fill + 1;
        proof {
            assert(self.wf());
            assert(self.spec_valid(parent));
            old(self).lemma_flat_distinct(parent, ni);
            assert(self.spec_flat(parent) == old(self).spec_flat(parent));
        }
        let pf = self.flat_of(parent);
        let mut list = self.edge_lists[pf].clone();
        proof {
            assert(list@ =~= self.edge_lists[pf as int]@);
        }
        let mut e = list[action];
        e.child = ni;
        list[action] = e;
        self.edge_lists[pf] = list;
        proof {
            assert(final(self).spec_edges(parent) =~= old(self).spec_edges(parent).update(
                action as int,
                (Edge { child: ni, ..old(self).spec_edges(parent)[action as int] }),
            ));
            assert(final(self).fills@ =~= old(self).fills@.update(
                old(self).young as int,
                (old(self).fills[old(self).young as int] + 1) as usize,
            ));
        }
        Some(ni)
    }

    /// Rotate the young-segment pointer one step and recycle the segment it
    /// lands on: its fill mark drops to zero and its generation moves on, so
    /// every index into it becomes stale. The pinned root is untouched.
    pub fn advance_segments(&mut self)
        requires
            old(self).wf(),
        ensures
            final(self).wf(),
            final(self).young == (old(self).young + 1) % (SEG_COUNT as int),
            final(self).fills@ == old(self).fills@.update(final(self).young as int, 0usize),
            final(self).generations@ == old(self).generations@.update(
                final(self).young as int,
                old(self).generations[final(self).young as int].wrapping_add(1),
            ),
            final(self).states@ == old(self).states@,
            final(self).edge_lists@ == old(self).edge_lists@,
            final(self).seg_cap == old(self).seg_cap,
            final(self).root_edge == old(self).root_edge,
            final(self).hash.entries@ == old(self).hash.entries@,
    {
        let ny = (self.young + 1) % (SEG_COUNT as usize);
        self.young = ny;
        self.fills[ny] = 0;
        let g = self.generations[ny];
        self.generations[ny] = g.wrapping_add(1);
        proof {
            assert(final(self).fills@ =~= old(self).fills@.update(ny as int, 0usize));
            assert(final(self).generations@ =~= old(self).generations@.update(
                ny as int,
                old(self).generations[ny as int].wrapping_add(1),
            ));
        }
    }

    /// The first `n` children of `idx` all point to valid nodes proven won.
    pub open spec fn spec_children_won_upto(self, idx: NodeIndex, n: int) -> bool {
        forall|a: int|
            0 <= a < n ==> self.spec_valid((#[trigger] self.spec_edges(idx)[a]).child)
                && self.spec_state(self.spec_edges(idx)[a].child) is Won
    }

    /// Won-distance of child `a` of `idx`, with 256 standing in for a child
    /// that is missing, stale or not proven won.
    pub open spec fn spec_won_dist(self, idx: NodeIndex, a: int) -> int {
        if self.spec_valid(self.spec_edges(idx)[a].child) {
            match self.spec_state(self.spec_edges(idx)[a].child) {
                GameState::Won(d) => d as int,
                _ => 256,
            }
        } else {
            256
        }
    }

    /// Minimum won-distance over the first `n` children (256 when none).
    pub open spec fn spec_min_won_upto(self, idx: NodeIndex, n: int) -> int
        decreases n,
    {
        if n <= 0 {
            256
        } else {
            let rest = self.spec_min_won_upto(idx, n - 1);
            let d = self.spec_won_dist(idx, n - 1);
            if d < rest {
                d
            } else {
                rest
            }
        }
    }

    /// The mate rule: a child the opponent loses in `d` makes this node won
    /// in `d+1`; when every child is proven won for the opponent, this node
    /// is lost in one more than the quickest of them; otherwise the state
    /// keeps its value. Distances saturate at 255.
    pub open spec fn spec_mate_update(self, idx: NodeIndex, child_state: GameState) -> GameState {
        if child_state is Lost {
            let d = child_state->Lost_0;
            GameState::Won(
                if d < 255 {
                    (d + 1) as u8
                } else {
                    255u8
                },
            )
        } else if self.spec_edges(idx).len() > 0 && self.spec_children_won_upto(
            idx,
            self.spec_edges(idx).len() as int,
        ) {
            let m = self.spec_min_won_upto(idx, self.spec_edges(idx).len() as int);
            GameState::Lost(
                if m < 255 {
                    (m + 1) as u8
                } else {
                    255u8
                },
            )
        } else {
            self.spec_state(idx)
        }
    }

    /// Apply the mate rule at `idx` after a descent reported `child_state`
    /// from below. Only this node's state can change.
    pub fn backpropagate_mates(&mut self, idx: NodeIndex, child_state: GameState)
        requires
            old(self).wf(),
            old(self).spec_valid(idx),
        ensures
            final(self).wf(),
            final(self).spec_valid(idx),
            final(self).spec_state(idx) == old(self).spec_mate_update(idx, child_state),
            final(self).states@.len() == old(self).states@.len(),
            forall|j: int|
                0 <= j < old(self).states@.len() && j != old(self).spec_flat(idx)
                    ==> final(self).states@[j] == old(self).states@[j],
            final(self).edge_lists@ == old(self).edge_lists@,
            Tree::spec_same_outer(*old(self), *final(self)),
    {
        proof {
            old(self).lemma_flat_in_bounds(idx);
        }
        match child_state {
            GameState::Lost(d) => {
                let nd: u8 = if d < 255 {
                    d + 1
                } else {
                    255
                };
                self.set_state(idx, GameState::Won(nd));
            },
            _ => {
                let n = self.num_actions(idx);
                let mut all_won = true;
                let mut min_d: u16 = 256;
                let mut a: usize = 0;
                while a < n
                    invariant
                        self.wf(),
                        self.spec_valid(idx),
                        *self == *old(self),
                        n == self.spec_edges(idx).len(),
                        a <= n,
                        all_won == self.spec_children_won_upto(idx, a as int),
                        min_d as int == self.spec_min_won_upto(idx, a as int),
                        min_d <= 256,
                    decreases n - a,
                {
                    let e = self.get_edge_clone(idx, a);
                    let mut d: u16 = 256;
                    if self.is_valid(e.child) {
                        match self.state_of(e.child) {
                            GameState::Won(w) => {
                                d = w as u16;
                            },
                            _ => {
                                all_won = false;
                            },
                        }
                    } else {
                        all_won = false;
                    }
                    if d < min_d {
                        min_d = d;
                    }
                    a = a + 1;
                }
                if all_won && n > 0 {
                    let m: u8 = if min_d < 255 {
                        (min_d + 1) as u8
                    } else {
                        255
                    };
                    self.set_state(idx, GameState::Lost(m));
                    proof {
                        assert(final(self).states@ == old(self).states@.update(
                            old(self).spec_flat(idx),
                            GameState::Lost(m),
                        ));
                    }
                }
            },
        }
    }

    /// Law: once a node's state is a proven mate, the mate rule never moves
    /// it back to `Unresolved` or `Drawn`.
    pub proof fn lemma_mate_monotonic(self, idx: NodeIndex, child_state: GameState)
        requires
            self.wf(),
            self.spec_valid(idx),
            self.spec_state(idx) is Won || self.spec_state(idx) is Lost,
        ensures
            !(self.spec_mate_update(idx, child_state) is Unresolved),
            !(self.spec_mate_update(idx, child_state) is Drawn),
    {
    }

    /// Overwrite the game state of `idx`. Nothing else changes.
    pub fn set_state(&mut self, idx: NodeIndex, st: GameState)
        requires
            old(self).wf(),
            old(self).spec_valid(idx),
        ensures
            final(self).wf(),
            final(self).spec_valid(idx),
            final(self).states@ == old(self).states@.update(old(self).spec_flat(idx), st),
            final(self).spec_state(idx) == st,
            final(self).edge_lists@ == old(self).edge_lists@,
            Tree::spec_same_outer(*old(self), *final(self)),
    {
        let f = self.flat_of(idx);
        self.states[f] = st;
    }

    /// Build an empty tree: the node budget split into `SEG_COUNT` equal
    /// segments (at least one slot each) plus the pinned root slot, and a
    /// zeroed transposition cache of `hash_bytes`.
    pub fn new(tree_bytes: usize, hash_bytes: usize) -> (t: Tree)
        requires
            8 <= hash_bytes < 0x8_0000_0000,
        ensures
            t.wf(),
            t.spec_cleared(),
            t.hash.entries.len() == hash_bytes / 8,
            crate::hash_table::all_slots_zeroed(t.hash.entries@),
    {
        let per = tree_bytes / NODE_BYTES / (SEG_COUNT as usize);
        let seg_cap: usize = if per < 1 {
            1
        } else if per > SEG_CAP_MAX {
            SEG_CAP_MAX
        } else {
            per
        };
        let total: usize = (SEG_COUNT as usize) * seg_cap + 1;
        let mut states: Vec<GameState> = Vec::with_capacity(total);
        let mut edge_lists: Vec<Vec<Edge>> = Vec::with_capacity(total);
        let mut i: usize = 0;
        while i < total
            invariant
                i <= total,
                states.len() == i,
                edge_lists.len() == i,
                forall|j: int| 0 <= j < i ==> states@[j] is Unresolved,
                forall|j: int| 0 <= j < i ==> (#[trigger] edge_lists@[j])@.len() == 0,
            decreases total - i,
        {
            states.push(GameState::Unresolved);
            edge_lists.push(Vec::new());
            i = i + 1;
        }
        let mut fills: Vec<usize> = Vec::new();
        let mut generations: Vec<u32> = Vec::new();
        let mut s: usize = 0;
        while s < SEG_COUNT as usize
            invariant
                s <= SEG_COUNT,
                fills.len() == s,
                generations.len() == s,
                forall|j: int| 0 <= j < s ==> fills@[j] == 0,
                forall|j: int| 0 <= j < s ==> generations@[j] == 0,
            decreases SEG_COUNT - s,
        {
            fills.push(0);
            generations.push(0);
            s = s + 1;
        }
        Tree {
            states,
            edge_lists,
            fills,
            generations,
            young: 0,
            seg_cap,
            root_edge: Edge::new(NodeIndex::null(), 0, 0),
            hash: HashTable::new(hash_bytes),
        }
    }

    /// Selection key for principal-variation extraction: most visits first,
    /// ties by the average score scalar (a never-visited edge ranks as a
    /// draw).
    pub open spec fn spec_pv_key(e: Edge) -> int {
        e.visits * 1024 + (if e.visits == 0 {
            256
        } else {
            e.spec_q_scalar()
        })
    }

    fn pv_key(e: &Edge) -> (k: u64)
        requires
            e.wf(),
        ensures
            k == Tree::spec_pv_key(*e),
    {
        let tail: u32 = if e.visits == 0 {
            256
        } else {
            e.q_scalar()
        };
        (e.visits as u64) * 1024 + (tail as u64)
    }

    /// The action a principal-variation step follows: the first edge with
    /// the maximal visits count, ties broken by average score, then by the
    /// lower action index. `None` only on a childless node.
    pub fn best_action(&self, idx: NodeIndex) -> (r: Option<usize>)
        requires
            self.wf(),
            self.spec_valid(idx),
        ensures
            (self.spec_edges(idx).len() == 0) <==> (r is None),
            r matches Some(i) ==> {
                &&& i < self.spec_edges(idx).len()
                &&& (forall|j: int|
                    0 <= j < self.spec_edges(idx).len() ==> Tree::spec_pv_key(
                        self.spec_edges(idx)[j],
                    ) <= Tree::spec_pv_key(self.spec_edges(idx)[i as int]))
                &&& (forall|j: int|
                    0 <= j < i ==> Tree::spec_pv_key(self.spec_edges(idx)[j]) < Tree::spec_pv_key(
                        self.spec_edges(idx)[i as int],
                    ))
            },
    {
        let n = self.num_actions(idx);
        if n == 0 {
            return None;
        }
        let first = self.get_edge_clone(idx, 0);
        let mut best: usize = 0;
        let mut best_key: u64 = Tree::pv_key(&first);
        let mut a: usize = 1;
        while a < n
            invariant
                self.wf(),
                self.spec_valid(idx),
                n == self.spec_edges(idx).len(),
                1 <= a <= n,
                best < a,
                best_key == Tree::spec_pv_key(self.spec_edges(idx)[best as int]),
                forall|j: int|
                    0 <= j < a ==> Tree::spec_pv_key(self.spec_edges(idx)[j]) <= best_key,
                forall|j: int|
                    0 <= j < best ==> Tree::spec_pv_key(self.spec_edges(idx)[j]) < best_key,
            decreases n - a,
        {
            let e = self.get_edge_clone(idx, a);
            let k = Tree::pv_key(&e);
            if k > best_key {
                best = a;
                best_key = k;
            }
            a = a + 1;
        }
        Some(best)
    }

    /// The principal variation from `start`: follow the most-visited child
    /// until a missing child, a terminal node or the depth cap stops the
    /// walk. The first move of a non-empty answer is the best action of
    /// `start` itself.
    pub fn pv_from(&self, start: NodeIndex) -> (pv: Vec<u16>)
        requires
            self.wf(),
            self.spec_valid(start),
        ensures
            pv@.len() <= 64,
            (self.spec_edges(start).len() == 0) <==> (pv@.len() == 0),
            pv@.len() > 0 ==> exists|i: int|
                {
                    &&& 0 <= i < self.spec_edges(start).len()
                    &&& (forall|j: int|
                        0 <= j < self.spec_edges(start).len() ==> Tree::spec_pv_key(
                            self.spec_edges(start)[j],
                        ) <= Tree::spec_pv_key(#[trigger] self.spec_edges(start)[i]))
                    &&& pv@[0] == self.spec_edges(start)[i].mv
                },
    {
        let mut pv: Vec<u16> = Vec::new();
        let first = match self.best_action(start) {
            None => {
                return pv;
            },
            Some(a) => a,
        };
        let e0 = self.get_edge_clone(start, first);
        pv.push(e0.mv);
        if !self.is_valid(e0.child) {
            return pv;
        }
        if self.state_of(e0.child).is_terminal() {
            return pv;
        }
        let mut idx = e0.child;
        let mut fuel: usize = 63;
        let mut done = false;
        while !done && fuel > 0
            invariant
                self.wf(),
                self.spec_valid(idx),
                pv@.len() >= 1,
                pv@[0] == self.spec_edges(start)[first as int].mv,
                pv@.len() + fuel <= 64,
            decreases fuel,
        {
            match self.best_action(idx) {
                None => {
                    fuel = fuel - 1;
                    done = true;
                },
                Some(a) => {
                    let e = self.get_edge_clone(idx, a);
                    pv.push(e.mv);
                    fuel = fuel - 1;
                    if self.is_valid(e.child) && !self.state_of(e.child).is_terminal() {
                        idx = e.child;
                    } else {
                        done = true;
                    }
                },
            }
        }
        pv
    }

    /// The principal variation of the whole tree, from the root.
    pub fn get_pv(&self) -> (pv: Vec<u16>)
        requires
            self.wf(),
        ensures
            pv@.len() <= 64,
            (self.spec_edges(self.spec_root()).len() == 0) <==> (pv@.len() == 0),
            pv@.len() > 0 ==> exists|i: int|
                {
                    &&& 0 <= i < self.spec_edges(self.spec_root()).len()
                    &&& (forall|j: int|
                        0 <= j < self.spec_edges(self.spec_root()).len() ==> Tree::spec_pv_key(
                            self.spec_edges(self.spec_root())[j],
                        ) <= Tree::spec_pv_key(#[trigger] self.spec_edges(self.spec_root())[i]))
                    &&& pv@[0] == self.spec_edges(self.spec_root())[i].mv
                },
    {
        let root = self.root_index();
        self.pv_from(root)
    }

    /// Multi-PV extraction: one principal variation per root action, for up
    /// to `k` root actions taken in index order starting from the best one.
    /// The first entry is the main PV; entry `r` opens with its root
    /// action's move and continues below that child like the main walk.
    pub fn get_pvs(&self, k: u32) -> (pvs: Vec<Vec<u16>>)
        requires
            self.wf(),
        ensures
            pvs@.len() == vstd::math::min(k as int, self.spec_edges(self.spec_root()).len() as int),
            forall|r: int| 0 <= r < pvs@.len() ==> (#[trigger] pvs@[r])@.len() >= 1,
    {
        let root = self.root_index();
        let n = self.num_actions(root);
        let count: usize = if (k as usize) < n {
            k as usize
        } else {
            n
        };
        let mut pvs: Vec<Vec<u16>> = Vec::new();
        if count == 0 {
            return pvs;
        }
        // The best root action leads the report; the rest follow in index
        // order, each as its move plus the walk below its child.
        let best = match self.best_action(root) {
            Some(a) => a,
            None => 0,
        };
        pvs.push(self.pv_from(root));
        let mut a: usize = 0;
        while a < n && pvs.len() < count
            invariant
                self.wf(),
                root == self.spec_root(),
                n == self.spec_edges(self.spec_root()).len(),
                self.spec_valid(root),
                count <= n,
                1 <= pvs@.len() <= count,
                n > 0,
                forall|r: int| 0 <= r < pvs@.len() ==> (#[trigger] pvs@[r])@.len() >= 1,
            decreases n - a,
        {
            if a != best {
                let e = self.get_edge_clone(root, a);
                let mut pv: Vec<u16> = Vec::new();
                pv.push(e.mv);
                if self.is_valid(e.child) {
                    if !self.state_of(e.child).is_terminal() {
                        let rest = self.pv_from(e.child);
                        let mut i: usize = 0;
                        while i < rest.len()
                            invariant
                                pv@.len() >= 1,
                                i <= rest@.len(),
                            decreases rest@.len() - i,
                        {
                            pv.push(rest[i]);
                            i = i + 1;
                        }
                    }
                }
                pvs.push(pv);
            }
            a = a + 1;
        }
        // A huge `k` may leave room when the best action was skipped above.
        while pvs.len() < count
            invariant
                self.wf(),
                root == self.spec_root(),
                n == self.spec_edges(self.spec_root()).len(),
                self.spec_valid(root),
                count <= n,
                n > 0,
                1 <= pvs@.len() <= count,
                forall|r: int| 0 <= r < pvs@.len() ==> (#[trigger] pvs@[r])@.len() >= 1,
            decreases count - pvs@.len(),
        {
            pvs.push(self.pv_from(root));
        }
        pvs
    }
}

} // verus!
