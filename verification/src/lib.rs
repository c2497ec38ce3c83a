//! A Monte Carlo Tree Search core for two-player, zero-sum, perfect-information
//! games. The engine descends a segmented search tree guided by PUCT selection,
//! expands leaves lazily, evaluates them through an abstract board interface,
//! and backpropagates scores and proven mates. A self-play driver plays whole
//! games and emits packed training samples to a thread-safe sink.
//!
//! The board, the move generator and the evaluation function are external
//! collaborators reached only through the [`board::GameBoard`] trait; every
//! probability in the core is a fixed-point fraction, so the search itself is
//! exact integer arithmetic.

pub mod board;
pub mod edge;
pub mod game_state;
pub mod hash_table;
pub mod mcts;
pub mod mcts_iteration;
pub mod mcts_workers;
pub mod options;
pub mod puct;
pub mod sample;
pub mod score;
pub mod search_helpers;
pub mod search_limits;
pub mod search_stats;
pub mod sink;
pub mod tree;
pub mod value_gen;
