use mcts::ranking::{top_grid_cells, top_indices_desc};
use mcts::text::board_dump;
use mcts::config::{apply_game_defaults, effective_threads};
use mcts::othello::{compute_othello_legal_moves, reconcile_legal_moves, sort_cells};
use mcts::rng::{scale_to_range, MoveRng};
use mcts::worker::{
    advance_notes, engine_for, flatten_board, gpu_batch_count, move_source, should_recreate_engine, tree_key, EngineKind,
    MoveSource,
};
use mcts::engine::SearchTree;
use mcts::gui::PlayerType;
use rand_xoshiro::rand_core::{RngCore, SeedableRng};
use rand_xoshiro::Xoshiro256PlusPlus;

fn start_board() -> [i32; 64] {
    let mut b = [0i32; 64];
    b[3 * 8 + 3] = -1;
    b[3 * 8 + 4] = 1;
    b[4 * 8 + 3] = 1;
    b[4 * 8 + 4] = -1;
    b
}

#[test]
fn othello_opening_moves() {
    let b = start_board();
    assert_eq!(compute_othello_legal_moves(&b, 1), vec![(3, 2), (2, 3), (5, 4), (4, 5)]);
    assert_eq!(compute_othello_legal_moves(&b, -1), vec![(4, 2), (5, 3), (2, 4), (3, 5)]);
    assert_eq!(compute_othello_legal_moves(&[0; 64], 1), Vec::<(usize, usize)>::new());
}

#[test]
fn othello_needs_a_closing_piece() {
    // a row of opponent pieces running off the board gives no move
    let mut b = [0i32; 64];
    b[0 * 8 + 6] = -1;
    b[0 * 8 + 7] = -1;
    assert_eq!(compute_othello_legal_moves(&b, 1), Vec::<(usize, usize)>::new());
    b[0 * 8 + 4] = 1;
    // playing at column 5 does not close anything either (the line leaves the board)
    assert_eq!(compute_othello_legal_moves(&b, 1), Vec::<(usize, usize)>::new());
    b[0 * 8 + 7] = 1;
    assert_eq!(compute_othello_legal_moves(&b, 1), vec![(5, 0)]);
}

#[test]
fn draws_scaled_to_a_range() {
    assert_eq!(scale_to_range(17, 5, 10), 7);
    assert_eq!(scale_to_range(0, 3, 4), 3);
    assert_eq!(scale_to_range(u64::MAX, 0, 2), 1);
    let mut rng = MoveRng::new();
    for _ in 0..200 {
        let r = rng.random_range(10, 13);
        assert!((10..13).contains(&r));
    }
}

#[test]
fn generator_is_seeded_with_ones() {
    let mut ours = MoveRng::new();
    let mut theirs = Xoshiro256PlusPlus::from_seed([1; 32]);
    for _ in 0..5 {
        assert_eq!(ours.next_u64(), theirs.next_u64());
    }
    let mut a = MoveRng::from_seed([7; 32]);
    let mut b = Xoshiro256PlusPlus::from_seed([7; 32]);
    let x = b.next_u64();
    assert_eq!(a.next_u64(), x);
    let mut c = MoveRng::new();
    let draw = Xoshiro256PlusPlus::from_seed([1; 32]).next_u64();
    assert_eq!(c.random_range(0, 1000), (draw as usize) % 1000);
}

#[test]
fn worker_decisions() {
    assert_eq!(tree_key(true, 5), 0);
    assert_eq!(tree_key(false, -1), -1);
    assert_eq!(engine_for(PlayerType::AiCpu, true), EngineKind::Cpu);
    assert_eq!(engine_for(PlayerType::AiGpu, false), EngineKind::Cpu);
    assert_eq!(engine_for(PlayerType::AiGpuNative, true), EngineKind::Gpu);
    assert_eq!(engine_for(PlayerType::Human, true), EngineKind::NoEngine);
    assert_eq!(gpu_batch_count(100, 256), 1);
    assert_eq!(gpu_batch_count(1000, 100), 10);
}

#[test]
fn boards_flattened_row_by_row() {
    let flat = flatten_board(&vec![vec![1, 2], vec![3, -1]]);
    assert_eq!(flat[0], 1);
    assert_eq!(flat[1], 2);
    assert_eq!(flat[8], 3);
    assert_eq!(flat[9], -1);
    assert_eq!(flat.iter().filter(|c| **c != 0).count(), 4);
    let start = flatten_board(&(0..8).map(|r| (0..8).map(|c| (r * 8 + c) as i32).collect()).collect());
    for i in 0..64 {
        assert_eq!(start[i], i as i32);
    }
}

#[test]
fn virtual_loss_round_trip_on_a_tree() {
    let mut t: SearchTree<u8> = SearchTree::new(50);
    t.ensure_root_expanded(false, vec![1, 2, 3]);
    let path = vec![2usize];
    t.expand_leaf(&path, vec![4]);
    let deep = vec![2usize, 0];
    let before = t.root.children[2].node.children[0].node.virtual_losses;
    t.apply_virtual_loss(&deep);
    t.release_virtual_losses(&deep);
    assert_eq!(t.root.children[2].node.children[0].node.virtual_losses, before);
    assert_eq!(t.root.children[2].node.virtual_losses, -1);
}

#[test]
fn wins_stay_within_twice_the_visits() {
    let mut t: SearchTree<u8> = SearchTree::new(50);
    t.ensure_root_expanded(false, vec![1, 2]);
    let path = vec![0usize];
    for (i, w) in [Some(1), Some(-1), None, Some(1), Some(-1)].iter().enumerate() {
        t.backpropagate(&path, &vec![1, 1], *w);
        let c = &t.root.children[0].node;
        assert!(0 <= c.wins && c.wins <= 2 * c.visits, "after {} results", i + 1);
    }
    assert_eq!(t.root.children[0].node.wins, 5);
    assert_eq!(t.root.children[0].node.visits, 5);
}

#[test]
fn pruning_twice_changes_nothing_more() {
    let mut t: SearchTree<u8> = SearchTree::new(50);
    t.ensure_root_expanded(false, vec![1, 2]);
    t.root.children[1].node.visits = 20;
    t.expand_leaf(&vec![0], vec![3, 4]);
    t.expand_leaf(&vec![1], vec![5]);
    t.prune_tree(10);
    let size = t.root.count_subtree_nodes();
    let count = t.node_count;
    t.prune_tree(10);
    assert_eq!(t.root.count_subtree_nodes(), size);
    assert_eq!(t.node_count, count);
}

#[test]
fn game_size_defaults() {
    assert_eq!(apply_game_defaults(Some("Connect4"), 15, 5), (7, 4));
    assert_eq!(apply_game_defaults(Some("OTHELLO"), 15, 5), (8, 5));
    assert_eq!(apply_game_defaults(Some("connect4"), 10, 6), (10, 6));
    assert_eq!(apply_game_defaults(Some("Gomoku"), 15, 5), (15, 5));
    assert_eq!(apply_game_defaults(Some("chess"), 15, 5), (15, 5));
    assert_eq!(apply_game_defaults(None, 15, 5), (15, 5));
    assert_eq!(effective_threads(0), 8);
    assert_eq!(effective_threads(3), 3);
}

#[test]
fn highest_values_first() {
    assert_eq!(top_indices_desc(&vec![3, 9, 9, 1], 3), vec![1, 2, 0]);
    assert_eq!(top_indices_desc(&vec![], 3), Vec::<usize>::new());
    assert_eq!(top_grid_cells(&vec![vec![1, 5], vec![5, 0]], 3), vec![(0, 1), (1, 0), (0, 0)]);
    assert_eq!(top_grid_cells(&vec![vec![2, 0, 7], vec![4, 4, 0], vec![0, 0, 1]], 5), vec![(0, 2), (1, 0), (1, 1), (0, 0), (2, 2)]);
}

#[test]
fn board_dumps() {
    assert_eq!(board_dump(&vec![vec![0, 1], vec![-1, 3]]), ". X \nO 3 \n");
    assert_eq!(board_dump(&vec![vec![12, -7]]), "? 7 \n");
    assert_eq!(board_dump(&vec![]), "");
    assert_eq!(board_dump(&vec![vec![]]), "\n");
}

#[test]
fn legal_moves_reconciled() {
    let b = start_board();
    let (moves, differed) = reconcile_legal_moves(&vec![(4, 5), (3, 2), (2, 3), (5, 4)], &b, 1);
    assert_eq!(moves, vec![(2, 3), (3, 2), (4, 5), (5, 4)]);
    assert!(!differed);
    let (moves, differed) = reconcile_legal_moves(&vec![(0, 0)], &b, 1);
    assert_eq!(moves, vec![(2, 3), (3, 2), (4, 5), (5, 4)]);
    assert!(differed);
    assert_eq!(sort_cells(&vec![(3, 1), (0, 9), (3, 0), (0, 9)]), vec![(0, 9), (0, 9), (3, 0), (3, 1)]);
    assert!(should_recreate_engine(None, Some(5)));
    assert!(should_recreate_engine(Some(4), Some(5)));
    assert!(!should_recreate_engine(Some(5), Some(5)));
    assert!(!should_recreate_engine(Some(5), None));
}

#[test]
fn played_moves_are_routed_by_their_maker() {
    assert_eq!(move_source("Player 1 (AiCpu)"), MoveSource::Cpu);
    assert_eq!(move_source("Player 2 (AiGpuNative)"), MoveSource::GpuNative);
    assert_eq!(move_source("Player 2 (AiGpu)"), MoveSource::Gpu);
    assert_eq!(move_source("Player 1 (Human)"), MoveSource::Other);
    assert_eq!(advance_notes(MoveSource::Cpu), (true, false));
    assert_eq!(advance_notes(MoveSource::GpuNative), (false, false));
    assert_eq!(advance_notes(MoveSource::Gpu), (false, true));
    assert_eq!(advance_notes(MoveSource::Other), (true, true));
}
