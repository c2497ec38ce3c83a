use crossbeam_queue::SegQueue;
use mcts_core::board::GameBoard;
use mcts_core::edge::POLICY_UNIT;
use mcts_core::game_state::GameState;
use mcts_core::mcts::Mcts;
use mcts_core::options::EngineOptions;
use mcts_core::sample::decode_samples;
use mcts_core::search_helpers::SearchHelpers;
use mcts_core::search_limits::SearchLimits;
use mcts_core::search_stats::SearchStats;
use mcts_core::tree::Tree;
use mcts_core::value_gen::ValueGen;

/// A miniature subtraction game: the side to move removes between 1 and
/// `branch` counters; whoever faces an empty pile is "checkmated". It is
/// deterministic, so it exercises the whole search pipeline.
#[derive(Clone, Copy)]
struct ToyBoard {
    n: u32,
    white: bool,
    branch: u16,
}

impl ToyBoard {
    fn new(n: u32, branch: u16) -> ToyBoard {
        ToyBoard { n, white: true, branch }
    }
}

impl GameBoard for ToyBoard {
    fn side_to_move_white(&self) -> bool {
        self.white
    }

    fn legal_moves(&self) -> Vec<u16> {
        let mut moves = Vec::new();
        let mut m: u16 = 1;
        while m <= self.branch && (m as u32) <= self.n {
            moves.push(m);
            m += 1;
        }
        moves
    }

    fn make_move(&mut self, mv: u16) {
        self.n = self.n.saturating_sub(mv as u32);
        self.white = !self.white;
    }

    fn duplicate(&self) -> ToyBoard {
        *self
    }

    fn is_in_check(&self) -> bool {
        true
    }

    fn is_repetition(&self) -> bool {
        false
    }

    fn is_insufficient_material(&self) -> bool {
        false
    }

    fn half_move_counter(&self) -> u32 {
        0
    }

    fn hash_key(&self) -> u64 {
        (self.n as u64) | ((self.white as u64) << 40) | ((self.branch as u64) << 48)
    }

    fn material_difference(&self) -> i32 {
        0
    }

    fn evaluate_win_draw(&self) -> (u16, u16) {
        (128, 0)
    }

    fn packed_bitboards(&self) -> (u64, u64, u64, u64) {
        (self.n as u64, self.white as u64, self.branch as u64, 0x5eed)
    }
}

fn search_setup(iters: u32) -> (EngineOptions, SearchLimits, Tree) {
    let options = EngineOptions::new();
    let mut limits = SearchLimits::new();
    limits.add_iters(iters);
    let tree = Tree::new(1 << 16, 1 << 12);
    (options, limits, tree)
}

#[test]
fn terminal_classification_of_positions() {
    let empty = ToyBoard { n: 0, white: true, branch: 2 };
    assert_eq!(SearchHelpers::get_position_state(&empty), GameState::Lost(0));
    let open = ToyBoard::new(5, 2);
    assert_eq!(SearchHelpers::get_position_state(&open), GameState::Unresolved);
    assert_eq!(
        SearchHelpers::position_state_from(true, false, 0, 4, false),
        GameState::Drawn
    );
    assert_eq!(
        SearchHelpers::position_state_from(false, false, 100, 4, false),
        GameState::Drawn
    );
    assert_eq!(
        SearchHelpers::position_state_from(false, false, 0, 0, false),
        GameState::Drawn
    );
}

#[test]
fn expansion_gives_uniform_priors_summing_to_one() {
    let (options, limits, mut tree) = search_setup(1);
    let board = ToyBoard::new(100, 3);
    let mcts = Mcts::new(board, options, SearchStats::new(), limits);
    let root = tree.root_index();
    mcts.expand(&mut tree, root, &board);
    assert_eq!(tree.num_actions(root), 3);
    let mut sum: u32 = 0;
    for a in 0..3 {
        let e = tree.get_edge_clone(root, a);
        assert_eq!(e.visits, 0);
        sum += e.policy as u32;
    }
    assert_eq!(sum, POLICY_UNIT as u32);
    let priors: Vec<u16> = (0..3).map(|a| tree.get_edge_clone(root, a).policy).collect();
    assert_eq!(priors, vec![5462, 5461, 5461]);
}

#[test]
fn selection_is_deterministic_and_breaks_ties_low() {
    let (options, limits, mut tree) = search_setup(1);
    let board = ToyBoard::new(100, 2);
    let mcts = Mcts::new(board, options, SearchStats::new(), limits);
    let root = tree.root_index();
    mcts.expand(&mut tree, root, &board);
    let first = tree.select_action(root, 0, options.cpuct_value);
    let second = tree.select_action(root, 0, options.cpuct_value);
    assert_eq!(first, second);
    assert_eq!(first, 0);
}

#[test]
fn mate_in_one_is_found_and_interrupts() {
    let (options, limits, mut tree) = search_setup(8);
    let board = ToyBoard::new(1, 2);
    let mut mcts = Mcts::new(board, options, SearchStats::new(), limits);
    let (best_move, best_score) = mcts.search(&mut tree);
    assert_eq!(best_move, 1);
    assert_eq!(tree.state_of(tree.root_index()), GameState::Won(1));
    assert!(mcts.interruption);
    assert_eq!((best_score.win, best_score.draw), (256, 0));
}

#[test]
fn iteration_budget_drives_visit_counts() {
    let (options, limits, mut tree) = search_setup(10);
    let board = ToyBoard::new(1000, 2);
    let mut mcts = Mcts::new(board, options, SearchStats::new(), limits);
    mcts.search(&mut tree);
    assert_eq!(mcts.stats.iters, 10);
    assert_eq!(tree.root_edge.visits, 10);
    let root = tree.root_index();
    let mut child_visits: u64 = 0;
    for a in 0..tree.num_actions(root) {
        child_visits += tree.get_edge_clone(root, a).visits as u64;
    }
    // Every iteration descends through exactly one root action.
    assert_eq!(child_visits, 10);
}

#[test]
fn cleared_trees_repeat_the_same_search() {
    let (options, limits, mut tree) = search_setup(25);
    let board = ToyBoard::new(500, 2);

    tree.clear();
    let mut first = Mcts::new(board, options, SearchStats::new(), limits);
    let (mv1, sc1) = first.search(&mut tree);
    let visits1 = tree.root_edge.visits;
    let per_action1: Vec<u32> = (0..tree.num_actions(tree.root_index()))
        .map(|a| tree.get_edge_clone(tree.root_index(), a).visits)
        .collect();

    tree.clear();
    let mut second = Mcts::new(board, options, SearchStats::new(), limits);
    let (mv2, sc2) = second.search(&mut tree);
    let visits2 = tree.root_edge.visits;
    let per_action2: Vec<u32> = (0..tree.num_actions(tree.root_index()))
        .map(|a| tree.get_edge_clone(tree.root_index(), a).visits)
        .collect();

    assert_eq!(mv1, mv2);
    assert_eq!(sc1, sc2);
    assert_eq!(visits1, visits2);
    assert_eq!(per_action1, per_action2);
    assert_eq!(first.stats.iters, second.stats.iters);
}

#[test]
fn mate_rule_promotes_and_demotes() {
    let (_, _, mut tree) = search_setup(1);
    let root = tree.root_index();
    // A child the opponent loses in 3 makes the node won in 4.
    tree.backpropagate_mates(root, GameState::Lost(3));
    assert_eq!(tree.state_of(root), GameState::Won(4));
    // A non-losing child report leaves a mate state alone (no regression).
    tree.backpropagate_mates(root, GameState::Drawn);
    assert_eq!(tree.state_of(root), GameState::Won(4));
}

#[test]
fn all_children_won_makes_the_node_lost() {
    let (options, limits, mut tree) = search_setup(1);
    let board = ToyBoard::new(9, 2);
    let mcts = Mcts::new(board, options, SearchStats::new(), limits);
    let root = tree.root_index();
    mcts.expand(&mut tree, root, &board);
    // Materialize both children, then declare them won for the opponent.
    for a in 0..2 {
        let edge = tree.get_edge_clone(root, a);
        let mut pos = board.duplicate();
        pos.make_move(edge.mv);
        let child = tree
            .get_node_index(&pos, edge.child, root, a)
            .expect("young segment has room");
        tree.set_state(child, GameState::Won(2 + a as u8));
    }
    tree.backpropagate_mates(root, GameState::Drawn);
    assert_eq!(tree.state_of(root), GameState::Lost(3));
}

#[test]
fn recycled_segments_invalidate_indices() {
    let (options, limits, mut tree) = search_setup(1);
    let board = ToyBoard::new(9, 2);
    let mcts = Mcts::new(board, options, SearchStats::new(), limits);
    let root = tree.root_index();
    mcts.expand(&mut tree, root, &board);
    let edge = tree.get_edge_clone(root, 0);
    let mut pos = board.duplicate();
    pos.make_move(edge.mv);
    let child = tree.get_node_index(&pos, edge.child, root, 0).unwrap();
    assert!(tree.is_valid(child));
    tree.advance_segments();
    assert!(tree.is_valid(child));
    tree.advance_segments();
    tree.advance_segments();
    tree.advance_segments();
    // The fourth rotation recycles the child's segment.
    assert!(!tree.is_valid(child));
    assert!(tree.is_valid(root));
}

#[test]
fn self_play_labels_samples_consistently() {
    let (options, limits, mut tree) = search_setup(16);
    let board = ToyBoard::new(3, 2);
    let blob = ValueGen::play_one_game(&board, &mut tree, &options, &limits);
    let records = decode_samples(&blob).expect("game blob decodes");
    assert!(!records.is_empty());
    // The toy game cannot draw, so every sample is labelled win or loss,
    // and all samples of one side carry the same label.
    for r in &records {
        assert!(r.result == 0 || r.result == 2);
    }
    let white_labels: Vec<u8> =
        records.iter().filter(|r| r.stm_white).map(|r| r.result).collect();
    let black_labels: Vec<u8> =
        records.iter().filter(|r| !r.stm_white).map(|r| r.result).collect();
    assert!(white_labels.windows(2).all(|w| w[0] == w[1]));
    assert!(black_labels.windows(2).all(|w| w[0] == w[1]));
    if !white_labels.is_empty() && !black_labels.is_empty() {
        assert_ne!(white_labels[0], black_labels[0]);
    }
}

#[test]
fn game_loop_pushes_one_blob_per_game() {
    let mut queue: SegQueue<Vec<u8>> = SegQueue::new();
    let starts = vec![ToyBoard::new(4, 2), ToyBoard::new(5, 2), ToyBoard::new(7, 2)];
    ValueGen::start_game_loop(&starts, &mut queue, 8);
    assert_eq!(queue.len(), 3);
    let first = queue.pop().expect("three blobs queued");
    assert!(decode_samples(&first).is_some());
    assert_eq!(queue.len(), 2);
}

#[test]
fn helper_worker_stops_on_proven_mate() {
    let (options, limits, mut tree) = search_setup(1000);
    let board = ToyBoard::new(2, 2);
    let mcts = Mcts::new(board, options, SearchStats::new(), limits);
    mcts.worker_loop(&mut tree);
    assert_eq!(tree.state_of(tree.root_index()), GameState::Won(1));
}

#[test]
fn principal_variation_starts_with_the_best_move() {
    let (options, limits, mut tree) = search_setup(30);
    let board = ToyBoard::new(1000, 2);
    let mut mcts = Mcts::new(board, options, SearchStats::new(), limits);
    let (best_move, _) = mcts.search(&mut tree);
    let pv = tree.get_pv();
    assert!(!pv.is_empty());
    assert!(pv.len() <= 64);
    assert_eq!(pv[0], best_move);
}

#[test]
fn tree_usage_counts_allocated_nodes() {
    let (options, limits, mut tree) = search_setup(10);
    assert_eq!(tree.total_usage(), 0);
    let board = ToyBoard::new(1000, 2);
    let mut mcts = Mcts::new(board, options, SearchStats::new(), limits);
    mcts.search(&mut tree);
    assert!(tree.total_usage() > 0);
    tree.clear();
    assert_eq!(tree.total_usage(), 0);
}

#[test]
fn multi_pv_reports_one_line_per_root_action() {
    let (options, limits, mut tree) = search_setup(30);
    let board = ToyBoard::new(1000, 2);
    let mut mcts = Mcts::new(board, options, SearchStats::new(), limits);
    mcts.search(&mut tree);
    let pvs = tree.get_pvs(2);
    assert_eq!(pvs.len(), 2);
    for pv in &pvs {
        assert!(!pv.is_empty());
    }
    assert_eq!(pvs[0], tree.get_pv());
    let pvs_all = tree.get_pvs(100);
    assert_eq!(pvs_all.len(), tree.num_actions(tree.root_index()));
}
