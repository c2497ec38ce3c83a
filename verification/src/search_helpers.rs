//! Leaf-evaluation helpers: terminal classification of a position and the
//! cached score lookup that consults the transposition cache before asking
//! the value network collaborator.

use vstd::prelude::*;
use crate::board::GameBoard;
use crate::game_state::GameState;
use crate::hash_table::{HashTable, HashTableEntry};
use crate::options::EngineOptions;
use crate::score::{Score, SCORE_UNIT};
use crate::tree::Tree;

verus! {

pub struct SearchHelpers;

impl SearchHelpers {
    /// Terminal classification from the plain facts read off a position:
    /// the draw rules come first, then mate or stalemate when no move is
    /// legal. A `Won` state never arises here; it comes only from mate
    /// backpropagation.
    pub open spec fn spec_position_state(
        draw_rule: bool,
        move_count: int,
        in_check: bool,
    ) -> GameState {
        if draw_rule {
            GameState::Drawn
        } else if move_count == 0 {
            if in_check {
                GameState::Lost(0u8)
            } else {
                GameState::Drawn
            }
        } else {
            GameState::Unresolved
        }
    }

    /// The decision step of terminal classification, on plain values:
    /// repetition, bare material or 100 reversible plies draw; otherwise a
    /// moveless position is mate when in check, stalemate when not.
    pub fn position_state_from(
        is_repetition: bool,
        insufficient_material: bool,
        half_moves: u32,
        move_count: usize,
        in_check: bool,
    ) -> (st: GameState)
        ensures
            st == Self::spec_position_state(
                is_repetition || insufficient_material || half_moves >= 100,
                move_count as int,
                in_check,
            ),
    {
        if is_repetition || insufficient_material || half_moves >= 100 {
            return GameState::Drawn;
        }
        if move_count == 0 {
            if in_check {
                return GameState::Lost(0);
            } else {
                return GameState::Drawn;
            }
        }
        GameState::Unresolved
    }

    /// Read the draw rules and the legal moves off the board and classify.
    /// Whatever the collaborator answers, the result is never `Won`.
    pub fn get_position_state<B: GameBoard>(position: &B) -> (st: GameState)
        ensures
            !(st is Won),
            st is Lost ==> st == GameState::Lost(0u8),
    {
        let is_repetition = position.is_repetition();
        let insufficient_material = position.is_insufficient_material();
        let half_moves = position.half_move_counter();
        let moves = position.legal_moves();
        let in_check = position.is_in_check();
        Self::position_state_from(is_repetition, insufficient_material, half_moves, moves.len(), in_check)
    }

    /// The cached score with the material bonus folded into the win chance,
    /// clipped so the result stays well-formed.
    pub open spec fn spec_with_bonus(
        c: Score,
        material_difference: i32,
        options: EngineOptions,
    ) -> Score {
        let bonus = if material_difference != 0 {
            options.material_reduction_bonus / 10
        } else {
            0
        };
        Score::spec_sanitized(
            if c.win + bonus <= u16::MAX {
                (c.win + bonus) as u16
            } else {
                u16::MAX
            },
            c.draw,
        )
    }

    fn with_bonus(c: Score, material_difference: i32, options: &EngineOptions) -> (s: Score)
        requires
            options.wf(),
        ensures
            s == Self::spec_with_bonus(c, material_difference, *options),
            s.wf(),
    {
        let bonus: u32 = if material_difference != 0 {
            options.material_reduction_bonus / 10
        } else {
            0
        };
        let raw: u32 = c.win as u32 + bonus;
        let clipped: u16 = if raw <= u16::MAX as u32 {
            raw as u16
        } else {
            u16::MAX
        };
        Score::sanitized(clipped, c.draw)
    }

    /// The score of a leaf: a terminal state has its constant; an unresolved
    /// position is answered from the transposition cache, or evaluated by
    /// the value network collaborator and then cached. The material bonus is
    /// applied to cached and fresh evaluations alike; only the raw
    /// evaluation is stored.
    pub fn get_node_score<B: GameBoard>(
        position: &B,
        state: GameState,
        key: u64,
        tree: &mut Tree,
        material_difference: i32,
        options: &EngineOptions,
    ) -> (s: Score)
        requires
            old(tree).wf(),
            options.wf(),
        ensures
            final(tree).wf(),
            s.wf(),
            final(tree).states@ == old(tree).states@,
            final(tree).edge_lists@ == old(tree).edge_lists@,
            final(tree).fills@ == old(tree).fills@,
            final(tree).generations@ == old(tree).generations@,
            final(tree).young == old(tree).young,
            final(tree).seg_cap == old(tree).seg_cap,
            final(tree).root_edge == old(tree).root_edge,
            state is Drawn ==> s == (Score { win: 0u16, draw: SCORE_UNIT })
                && final(tree).hash.entries@ == old(tree).hash.entries@,
            state is Lost ==> s == (Score { win: 0u16, draw: 0u16 })
                && final(tree).hash.entries@ == old(tree).hash.entries@,
            state is Won ==> s == (Score { win: SCORE_UNIT, draw: 0u16 })
                && final(tree).hash.entries@ == old(tree).hash.entries@,
            state is Unresolved && old(tree).hash.spec_probe(key) is Some ==> s
                == Self::spec_with_bonus(
                old(tree).hash.spec_probe(key).unwrap(),
                material_difference,
                *options,
            ) && final(tree).hash.entries@ == old(tree).hash.entries@,
            state is Unresolved && old(tree).hash.spec_probe(key) is None ==> exists|v: Score|
                v.wf() && final(tree).hash.entries@ == old(tree).hash.entries@.update(
                    HashTable::spec_slot(key, old(tree).hash.entries.len() as int),
                    HashTableEntry { key: (key >> 32) as u32, score: v },
                ) && s == Self::spec_with_bonus(v, material_difference, *options),
    {
        match state {
            GameState::Drawn => Score::drawn(),
            GameState::Lost(_) => Score::lost(),
            GameState::Won(_) => Score::won(),
            GameState::Unresolved => {
                if let Some(cached) = tree.hash.probe(key) {
                    Self::with_bonus(cached, material_difference, options)
                } else {
                    let (w, d) = position.evaluate_win_draw();
                    let fresh = Score::sanitized(w, d);
                    tree.hash.store(key, fresh);
                    proof {
                        assert(tree.hash.entries@ == old(tree).hash.entries@.update(
                            HashTable::spec_slot(key, old(tree).hash.entries.len() as int),
                            HashTableEntry { key: (key >> 32) as u32, score: fresh },
                        ));
                    }
                    let s = Self::with_bonus(fresh, material_difference, options);
                    proof {
                        let slot = HashTable::spec_slot(key, old(tree).hash.entries.len() as int);
                        crate::hash_table::lemma_slot_in_bounds(
                            key,
                            old(tree).hash.entries.len() as int,
                        );
                        assert(old(tree).hash.entries@.update(
                            slot,
                            HashTableEntry { key: (key >> 32) as u32, score: fresh },
                        ).len() == old(tree).hash.entries@.len());
                        assert(fresh.wf() && tree.hash.entries@ == old(tree).hash.entries@.update(
                            slot,
                            HashTableEntry { key: (key >> 32) as u32, score: fresh },
                        ) && s == Self::spec_with_bonus(fresh, material_difference, *options));
                    }
                    s
                }
            },
        }
    }
}

} // verus!
