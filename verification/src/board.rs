//! Abstract interface to the external board collaborator: move generation,
//! position keys, draw rules and the value evaluation. The search core never
//! inspects a position directly; it reads only the plain values these methods
//! hand back, so everything proved about the search holds for every
//! implementation of this trait.

use vstd::prelude::*;

verus! {

/// The board collaborator. Implementations live outside the core; no method
/// carries a contract, so the search is verified for every value they may
/// return. Moves are carried as the collaborator's own opaque 16-bit codes.
pub trait GameBoard: Sized {
    /// True when white is to move.
    fn side_to_move_white(&self) -> bool;

    /// The legal moves of the position, in the collaborator's encoding and
    /// in its canonical generation order.
    fn legal_moves(&self) -> Vec<u16>;

    /// Play one move, mutating the position.
    fn make_move(&mut self, mv: u16);

    /// An independent copy of the position; the board is a plain value.
    fn duplicate(&self) -> Self;

    /// True when the side to move stands in check.
    fn is_in_check(&self) -> bool;

    /// True when the position repeats earlier history of the search.
    fn is_repetition(&self) -> bool;

    /// True when neither side retains mating material.
    fn is_insufficient_material(&self) -> bool;

    /// Plies since the last irreversible move.
    fn half_move_counter(&self) -> u32;

    /// The 64-bit hash key of the position, for the transposition cache.
    fn hash_key(&self) -> u64;

    /// A material-imbalance signal for the cached-score bonus: zero when the
    /// material is level.
    fn material_difference(&self) -> i32;

    /// The value head's estimate `(win, draw)` for the side to move, in
    /// fixed-point units of `1 / SCORE_UNIT`. The pair is sanitized by the
    /// core before use, so it may be arbitrary.
    fn evaluate_win_draw(&self) -> (u16, u16);

    /// A packed encoding of the position for training samples: four 64-bit
    /// words chosen by the collaborator.
    fn packed_bitboards(&self) -> (u64, u64, u64, u64);
}

} // verus!
