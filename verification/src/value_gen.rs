//! The self-play driver: play games from a start position with a fresh
//! search per ply, pack one sample per non-terminal ply, label the samples
//! with the final result, and hand each game's blob to the sample sink.

use vstd::prelude::*;
use crossbeam_queue::SegQueue;
use crate::board::GameBoard;
use crate::game_state::GameState;
use crate::mcts::Mcts;
use crate::mcts_iteration::spec_visit_sum;
use crate::options::EngineOptions;
use crate::sample::{
    encode_samples, spec_decode_blob, spec_encode_blob, lemma_blob_decode_encode, SampleRecord,
    RESULT_DRAW, RESULT_LOSS, RESULT_WIN,
};
use crate::search_helpers::SearchHelpers;
use crate::search_limits::SearchLimits;
use crate::search_stats::SearchStats;
use crate::sink::{queue_contents, queue_push};
use crate::tree::Tree;

verus! {

/// Hard cap on plies per self-play game, so a game that the draw rules of
/// the board collaborator never end still terminates.
pub const MAX_GAME_PLIES: u32 = 512;

/// Every sample still carries the draw label it was packed with.
pub open spec fn spec_all_draw(rs: Seq<SampleRecord>) -> bool {
    forall|i: int| 0 <= i < rs.len() ==> (#[trigger] rs[i]).result == RESULT_DRAW
}

/// Every sample is labelled win or loss by whether its side to move is the
/// winning side `w`.
pub open spec fn spec_labeled_from(rs: Seq<SampleRecord>, w: bool) -> bool {
    forall|i: int|
        0 <= i < rs.len() ==> (#[trigger] rs[i]).result == (if rs[i].stm_white == w {
            RESULT_WIN
        } else {
            RESULT_LOSS
        })
}

/// A game's labels are consistent: either the game was drawn and every
/// sample says draw, or one side won and every sample is win/loss from its
/// own side-to-move's perspective.
pub open spec fn spec_labels_consistent(rs: Seq<SampleRecord>) -> bool {
    ||| spec_all_draw(rs)
    ||| spec_labeled_from(rs, true)
    ||| spec_labeled_from(rs, false)
}

/// A byte blob is a well-formed game blob: it decodes into samples whose
/// labels are consistent.
pub open spec fn spec_good_blob(b: Seq<u8>) -> bool {
    &&& spec_decode_blob(b) is Some
    &&& spec_labels_consistent(spec_decode_blob(b).unwrap())
}

pub struct ValueGen;

impl ValueGen {
    /// One ply of self-play: apply the chosen move, then classify the new
    /// position by exactly the search's terminal rules (the draw rules come
    /// before the mate check, as in the search itself). Answers whether the
    /// game just ended; when it ends the classification is stored, a mate
    /// always at distance zero; otherwise `state` is untouched.
    pub fn process_move<B: GameBoard>(
        position: &mut B,
        best_move: u16,
        state: &mut GameState,
    ) -> (is_end: bool)
        ensures
            !is_end ==> *final(state) == *old(state),
            is_end ==> ((*final(state)) is Lost || (*final(state)) is Drawn),
            is_end && (*final(state)) is Lost ==> *final(state) == GameState::Lost(0u8),
    {
        position.make_move(best_move);
        let st = SearchHelpers::get_position_state(position);
        if st.is_terminal() {
            *state = st;
            return true;
        }
        false
    }

    /// Label every recorded sample with the final result from its own
    /// side-to-move's perspective: the winner's plies become wins, the
    /// loser's losses. Nothing else about a sample changes.
    pub fn apply_results(records: &mut Vec<SampleRecord>, winner_white: bool)
        requires
            forall|i: int| 0 <= i < old(records)@.len() ==> (#[trigger] old(records)@[i]).wf(),
        ensures
            final(records)@.len() == old(records)@.len(),
            forall|i: int|
                0 <= i < final(records)@.len() ==> #[trigger] final(records)@[i]
                    == (SampleRecord {
                    result: if old(records)@[i].stm_white == winner_white {
                        RESULT_WIN
                    } else {
                        RESULT_LOSS
                    },
                    ..old(records)@[i]
                }),
            forall|i: int| 0 <= i < final(records)@.len() ==> (#[trigger] final(records)@[i]).wf(),
    {
        let n = records.len();
        let mut i: usize = 0;
        while i < n
            invariant
                i <= n,
                n == records@.len(),
                records@.len() == old(records)@.len(),
                forall|j: int| i <= j < n ==> records@[j] == old(records)@[j],
                forall|j: int|
                    0 <= j < i ==> #[trigger] records@[j] == (SampleRecord {
                        result: if old(records)@[j].stm_white == winner_white {
                            RESULT_WIN
                        } else {
                            RESULT_LOSS
                        },
                        ..old(records)@[j]
                    }),
                forall|j: int| 0 <= j < old(records)@.len() ==> (#[trigger] old(records)@[j]).wf(),
            decreases n - i,
        {
            let mut r = records[i];
            r.result = if r.stm_white == winner_white {
                RESULT_WIN
            } else {
                RESULT_LOSS
            };
            records[i] = r;
            i = i + 1;
        }
    }

    /// Play one game from `start`: a fresh bounded search picks each move,
    /// every non-terminal ply is packed as a sample labelled a draw, and a
    /// decisive game relabels all samples from the winner's perspective.
    /// The answer is the game's samples as one blob, which always decodes
    /// back to the records it encodes.
    pub fn play_one_game<B: GameBoard>(
        start: &B,
        tree: &mut Tree,
        options: &EngineOptions,
        limits: &SearchLimits,
    ) -> (blob: Vec<u8>)
        requires
            old(tree).wf(),
            options.wf(),
        ensures
            final(tree).wf(),
            spec_good_blob(blob@),
            blob@ == spec_encode_blob(spec_decode_blob(blob@).unwrap()),
    {
        let mut position = start.duplicate();
        tree.clear();
        let mut records: Vec<SampleRecord> = Vec::new();
        let mut state = GameState::Unresolved;
        let mut plies: u32 = 0;
        let mut done = false;
        while !done && plies < MAX_GAME_PLIES
            invariant
                tree.wf(),
                options.wf(),
                plies <= MAX_GAME_PLIES,
                forall|i: int| 0 <= i < records@.len() ==> (#[trigger] records@[i]).wf(),
                spec_all_draw(records@),
            decreases MAX_GAME_PLIES - plies,
        {
            plies = plies + 1;
            tree.clear();
            proof {
                // A cleared tree has an empty root list and a zeroed root
                // edge, so both visit totals stand at zero.
                let rootv = tree.spec_root();
                tree.lemma_flat_in_bounds(rootv);
                assert(tree.spec_edges(rootv).len() == 0);
                assert(spec_visit_sum(tree.spec_edges(rootv)) == 0);
            }
            let stats = SearchStats::new();
            let mut mcts = Mcts::new(position.duplicate(), *options, stats, *limits);
            let (best_move, best_score) = mcts.search(tree);
            let (bb0, bb1, bb2, bb3) = position.packed_bitboards();
            let record = SampleRecord {
                bb0,
                bb1,
                bb2,
                bb3,
                stm_white: position.side_to_move_white(),
                score: best_score,
                result: RESULT_DRAW,
            };
            let is_end = Self::process_move(&mut position, best_move, &mut state);
            if is_end {
                // The terminal position carries no search signal; its
                // sample is discarded.
                done = true;
            } else {
                records.push(record);
            }
        }
        if done && !matches!(state, GameState::Drawn) {
            // The side to move at the final position is the loser; samples
            // are labelled from the other side's perspective.
            let winner_white = !position.side_to_move_white();
            Self::apply_results(&mut records, winner_white);
            proof {
                assert(spec_labeled_from(records@, winner_white));
            }
        }
        let blob = encode_samples(&records);
        proof {
            lemma_blob_decode_encode(records@);
        }
        blob
    }

    /// The data-generation loop: one self-play game per start position (the
    /// embedding supplies a fresh start per game, e.g. from an opening
    /// book), at most `iter_count` search iterations per move. Each game
    /// pushes exactly one blob into the sink, appended in game order, and
    /// every pushed blob decodes back into consistently labelled samples.
    pub fn start_game_loop<B: GameBoard>(
        starts: &Vec<B>,
        save_queue: &mut SegQueue<Vec<u8>>,
        iter_count: u32,
    )
        ensures
            queue_contents(*final(save_queue)).len() == queue_contents(*old(save_queue)).len()
                + starts@.len(),
            forall|i: int|
                0 <= i < queue_contents(*old(save_queue)).len() ==> #[trigger] queue_contents(
                    *final(save_queue),
                )[i] == queue_contents(*old(save_queue))[i],
            forall|i: int|
                queue_contents(*old(save_queue)).len() <= i < queue_contents(
                    *final(save_queue),
                ).len() ==> spec_good_blob(#[trigger] queue_contents(*final(save_queue))[i]),
    {
        let options = EngineOptions::new();
        let mut tree = Tree::new(options.tree_bytes, options.hash_bytes);
        let mut limits = SearchLimits::new();
        limits.add_iters(iter_count);
        let mut g: usize = 0;
        while g < starts.len()
            invariant
                tree.wf(),
                options.wf(),
                g <= starts@.len(),
                queue_contents(*save_queue).len() == queue_contents(*old(save_queue)).len() + g,
                forall|i: int|
                    0 <= i < queue_contents(*old(save_queue)).len() ==> #[trigger] queue_contents(
                        *save_queue,
                    )[i] == queue_contents(*old(save_queue))[i],
                forall|i: int|
                    queue_contents(*old(save_queue)).len() <= i < queue_contents(
                        *save_queue,
                    ).len() ==> spec_good_blob(#[trigger] queue_contents(*save_queue)[i]),
            decreases starts@.len() - g,
        {
            let blob = Self::play_one_game(&starts[g], &mut tree, &options, &limits);
            queue_push(save_queue, blob);
            g = g + 1;
        }
    }
}

} // verus!
