//! PUCT action selection: `Q(a) + c_puct * P(a) * sqrt(max(N,1)) / (n(a)+1)`,
//! computed in exact integer arithmetic. The whole formula is scaled by
//! `2^24 * 2*SCORE_UNIT` so that every term is an integer; the square root is
//! taken of `N * 2^32` to keep sixteen fractional bits of precision.

use vstd::prelude::*;
use vstd::arithmetic::power2::lemma2_to64;
use vstd::bits::lemma_u64_shl_is_mul;
use crate::edge::{Edge, NodeIndex};
use crate::options::CPUCT_MAX;
use crate::tree::Tree;

verus! {

/// `r` is the integer square root of `x`.
pub open spec fn spec_is_isqrt(x: int, r: int) -> bool {
    0 <= r && r * r <= x && x < (r + 1) * (r + 1)
}

/// The integer square root, as the unique value `spec_is_isqrt` accepts.
pub open spec fn spec_isqrt(x: int) -> int {
    choose|r: int| spec_is_isqrt(x, r)
}

/// Two integer square roots of the same value coincide.
pub proof fn lemma_isqrt_unique(x: int, a: int, b: int)
    requires
        spec_is_isqrt(x, a),
        spec_is_isqrt(x, b),
    ensures
        a == b,
{
    if a < b {
        assert((a + 1) * (a + 1) <= b * b) by (nonlinear_arith)
            requires
                0 <= a,
                a < b,
        ;
    } else if b < a {
        assert((b + 1) * (b + 1) <= a * a) by (nonlinear_arith)
            requires
                0 <= b,
                b < a,
        ;
    }
}

/// Binary-search integer square root of a 64-bit value.
pub fn isqrt64(x: u64) -> (r: u64)
    ensures
        r <= 0x1_0000_0000,
        spec_is_isqrt(x as int, r as int),
        r == spec_isqrt(x as int),
{
    let mut lo: u64 = 0;
    let mut hi: u64 = 0x1_0000_0000;
    while lo + 1 < hi
        invariant
            lo < hi <= 0x1_0000_0000,
            (lo as int) * (lo as int) <= x as int,
            (x as int) < (hi as int) * (hi as int),
        decreases hi - lo,
    {
        let mid = lo + (hi - lo) / 2;
        proof {
            assert((mid as int) * (mid as int) <= 0x1_0000_0000 * 0x1_0000_0000)
                by (nonlinear_arith)
                requires
                    0 <= mid <= 0x1_0000_0000u64,
            ;
        }
        if (mid as u128) * (mid as u128) <= (x as u128) {
            lo = mid;
        } else {
            hi = mid;
        }
    }
    proof {
        assert(spec_is_isqrt(x as int, lo as int));
        lemma_isqrt_unique(x as int, lo as int, spec_isqrt(x as int));
    }
    lo
}

/// The per-frame exploration factor `c_puct * sqrt(max(N, 1))`, carrying
/// sixteen fractional bits from the square root and eight from `c_puct`.
pub open spec fn spec_explore_value(cpuct: u32, parent_visits: u32) -> int {
    cpuct * spec_isqrt(
        (if parent_visits >= 1 {
            parent_visits as int
        } else {
            1
        }) * 0x1_0000_0000,
    )
}

/// Largest value `spec_explore_value` can take under `CPUCT_MAX`.
pub const EXPLORE_MAX: u64 = 0x1000_0000_0000;

pub fn explore_value(cpuct: u32, parent_visits: u32) -> (ev: u64)
    requires
        cpuct <= CPUCT_MAX,
    ensures
        ev == spec_explore_value(cpuct, parent_visits),
        ev <= EXPLORE_MAX,
{
    let pv: u64 = if parent_visits >= 1 {
        parent_visits as u64
    } else {
        1
    };
    proof {
        lemma2_to64();
        lemma_u64_shl_is_mul(pv, 32);
    }
    let s = isqrt64(pv << 32u64);
    proof {
        assert((cpuct as int) * (s as int) <= CPUCT_MAX * 0x1_0000_0000) by (nonlinear_arith)
            requires
                cpuct <= CPUCT_MAX,
                s <= 0x1_0000_0000,
        ;
    }
    (cpuct as u64) * s
}

/// The selection key of one action: the exploitation term `Q` (first-play
/// urgency one half when unvisited) plus the exploration term, both scaled
/// by `2^24` over the score-scalar units.
pub open spec fn spec_puct_key(e: Edge, explore: int) -> int {
    let q = if e.visits == 0 {
        256
    } else {
        e.spec_q_scalar()
    };
    q * 0x100_0000 + explore * e.policy / (32 * (e.visits + 1))
}

fn puct_key(e: &Edge, explore: u64) -> (k: u64)
    requires
        e.wf(),
        explore <= EXPLORE_MAX,
    ensures
        k == spec_puct_key(*e, explore as int),
{
    let q: u64 = if e.visits == 0 {
        256
    } else {
        e.q_scalar() as u64
    };
    proof {
        assert((explore as int) * (e.policy as int) <= EXPLORE_MAX * 0x4000) by (nonlinear_arith)
            requires
                explore <= EXPLORE_MAX,
                e.policy <= 0x4000,
        ;
    }
    let exploration: u64 = explore * (e.policy as u64) / (32 * (e.visits as u64 + 1));
    proof {
        assert(exploration <= EXPLORE_MAX * 0x4000) by (nonlinear_arith)
            requires
                exploration == (explore as int) * (e.policy as int) / (32 * (e.visits as int + 1)),
                0 <= (explore as int) * (e.policy as int) <= EXPLORE_MAX * 0x4000,
                e.visits >= 0,
        ;
    }
    q * 0x100_0000 + exploration
}

/// `i` is the index PUCT selection must return for `edges` under `explore`:
/// the first index carrying the maximal selection key.
pub open spec fn spec_is_selected(edges: Seq<Edge>, explore: int, i: int) -> bool {
    &&& 0 <= i < edges.len()
    &&& (forall|j: int|
        0 <= j < edges.len() ==> spec_puct_key(edges[j], explore) <= spec_puct_key(
            edges[i],
            explore,
        ))
    &&& (forall|j: int| 0 <= j < i ==> spec_puct_key(edges[j], explore) < spec_puct_key(edges[i], explore))
}

/// Law: PUCT selection is deterministic. On one tree state and one
/// exploration constant only a single action index satisfies the selection
/// contract, so two selections from identical state return the same index.
pub proof fn lemma_selection_deterministic(edges: Seq<Edge>, explore: int, i1: int, i2: int)
    requires
        spec_is_selected(edges, explore, i1),
        spec_is_selected(edges, explore, i2),
    ensures
        i1 == i2,
{
    if i1 < i2 {
        assert(spec_puct_key(edges[i1], explore) < spec_puct_key(edges[i2], explore));
    } else if i2 < i1 {
        assert(spec_puct_key(edges[i2], explore) < spec_puct_key(edges[i1], explore));
    }
}

impl Tree {
    /// Pick the action of `idx` with the best PUCT value; ties go to the
    /// lower index. `parent_visits` is the visit count of the edge that led
    /// here.
    pub fn select_action(&self, idx: NodeIndex, parent_visits: u32, cpuct: u32) -> (r: usize)
        requires
            self.wf(),
            self.spec_valid(idx),
            self.spec_edges(idx).len() > 0,
            cpuct <= CPUCT_MAX,
        ensures
            spec_is_selected(
                self.spec_edges(idx),
                spec_explore_value(cpuct, parent_visits),
                r as int,
            ),
    {
        let explore = explore_value(cpuct, parent_visits);
        let n = self.num_actions(idx);
        let first = self.get_edge_clone(idx, 0);
        let mut best: usize = 0;
        let mut best_key: u64 = puct_key(&first, explore);
        let mut a: usize = 1;
        while a < n
            invariant
                self.wf(),
                self.spec_valid(idx),
                n == self.spec_edges(idx).len(),
                explore == spec_explore_value(cpuct, parent_visits),
                explore <= EXPLORE_MAX,
                1 <= a <= n,
                best < a,
                best_key == spec_puct_key(self.spec_edges(idx)[best as int], explore as int),
                forall|j: int|
                    0 <= j < a ==> spec_puct_key(self.spec_edges(idx)[j], explore as int)
                        <= best_key,
                forall|j: int|
                    0 <= j < best ==> spec_puct_key(self.spec_edges(idx)[j], explore as int)
                        < best_key,
            decreases n - a,
        {
            let e = self.get_edge_clone(idx, a);
            let k = puct_key(&e, explore);
            if k > best_key {
                best = a;
                best_key = k;
            }
            a = a + 1;
        }
        best
    }
}

} // verus!
