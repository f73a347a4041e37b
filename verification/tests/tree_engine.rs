use mcts::engine::{
    best_child_index, prune_schedule, should_measure_overhead, ExpansionGate, FinalMove, ImmediateMove,
    MoveSelectionStrategy, PruneSchedule, SearchTree,
};
use mcts::game::GameState;
use mcts::rng::MoveRng;
use mcts::tree::{Child, Node};

fn leaf(visits: i32, wins: i32, depth: u32) -> Node<u32> {
    let mut n = Node::new_at_depth(depth);
    n.visits = visits;
    n.wins = wins;
    n
}

fn tree_with_children(stats: &[(u32, i32, i32)]) -> SearchTree<u32> {
    let mut t = SearchTree::new(1000);
    for (mv, visits, wins) in stats {
        t.root.children.push(Child { mv: *mv, node: leaf(*visits, *wins, 1) });
    }
    t
}

#[test]
fn new_node_is_fresh() {
    let n: Node<u32> = Node::new();
    assert_eq!((n.visits, n.wins, n.virtual_losses, n.depth), (0, 0, 0, 0));
    assert!(n.children.is_empty());
    assert_eq!(n.count_subtree_nodes(), 1);
}

#[test]
fn expand_keeps_one_child_per_distinct_move() {
    let mut n: Node<u32> = Node::new();
    let added = n.expand(vec![3, 1, 3, 2], 1);
    assert_eq!(added, 4);
    assert_eq!(n.children.len(), 3);
    for m in [1u32, 2, 3] {
        let i = n.find_child(&m).expect("child for each move");
        assert_eq!(n.children[i].node.depth, 1);
        assert_eq!(n.children[i].node.visits, 0);
    }
    assert_eq!(n.find_child(&9), None);
    // an expanded node is left alone
    let again = n.expand(vec![7], 1);
    assert_eq!(again, 0);
    assert_eq!(n.children.len(), 3);
    assert_eq!(n.count_subtree_nodes(), 4);
    assert_eq!(n.count_descendants(), 3);
}

#[test]
fn record_result_rewards() {
    let mut n: Node<u32> = Node::new();
    n.virtual_losses = 1;
    n.record_result(Some(1), 1);
    assert_eq!((n.visits, n.wins, n.virtual_losses), (1, 2, 0));
    n.record_result(Some(-1), 1);
    assert_eq!((n.visits, n.wins, n.virtual_losses), (2, 2, -1));
    n.record_result(None, 1);
    assert_eq!((n.visits, n.wins), (3, 3));
}

#[test]
fn backpropagate_credits_each_mover() {
    let mut t: SearchTree<u32> = SearchTree::new(100);
    t.ensure_root_expanded(false, vec![10, 20]);
    let path = vec![0usize];
    t.expand_leaf(&path, vec![30]);
    let deep = vec![0usize, 0];
    t.apply_virtual_loss(&path);
    t.apply_virtual_loss(&deep);
    // root: player 1 to move; child made by 1; grandchild made by -1
    t.backpropagate(&deep, &vec![1, 1, -1], Some(-1));
    assert_eq!((t.root.visits, t.root.wins, t.root.virtual_losses), (1, 0, -1));
    let c = &t.root.children[0].node;
    assert_eq!((c.visits, c.wins, c.virtual_losses), (1, 0, 0));
    let g = &c.children[0].node;
    assert_eq!((g.visits, g.wins, g.virtual_losses), (1, 2, 0));
    assert_eq!(g.depth, 2);
    assert_eq!(t.root.children[1].node.visits, 0);
}

#[test]
fn virtual_loss_applied_then_released() {
    let mut t: SearchTree<u32> = SearchTree::new(100);
    t.ensure_root_expanded(false, vec![1, 2]);
    let path = vec![1usize];
    t.apply_virtual_loss(&path);
    assert_eq!(t.root.children[1].node.virtual_losses, 1);
    assert_eq!(t.root.virtual_losses, 0);
    t.release_virtual_losses(&path);
    assert_eq!(t.root.children[1].node.virtual_losses, 0);
    assert_eq!(t.root.virtual_losses, -1);
    assert_eq!(t.root.children[1].node.visits, 0);
}

#[test]
fn best_move_by_visits_and_by_rate() {
    let mut t = tree_with_children(&[(7, 10, 18), (8, 20, 20), (9, 0, 0)]);
    assert_eq!(t.select_best_move(), 1);
    t.set_move_selection_strategy(MoveSelectionStrategy::MaxQ);
    assert_eq!(t.get_move_selection_strategy(), MoveSelectionStrategy::MaxQ);
    assert_eq!(t.select_best_move(), 0);
    assert_eq!(best_child_index(&t.root, MoveSelectionStrategy::MaxVisits), 1);
    assert_eq!(MoveSelectionStrategy::default(), MoveSelectionStrategy::MaxVisits);
}

#[test]
fn root_statistics() {
    let mut t = tree_with_children(&[(1, 4, 3), (2, 6, 9)]);
    t.root.visits = 10;
    t.root.wins = 12;
    assert_eq!(t.get_root_stats(), (12, 10));
    assert_eq!(t.get_root_children_stats(), vec![(3, 4), (9, 6)]);
    assert_eq!(t.root_max_child_visits(), 6);
    assert_eq!(t.get_max_nodes(), 1000);
}

#[test]
fn advance_root_keeps_the_chosen_subtree() {
    let mut t: SearchTree<u32> = SearchTree::new(100);
    t.ensure_root_expanded(false, vec![1, 2, 3]);
    assert_eq!(t.node_count, 4);
    let i = t.root.find_child(&2).unwrap();
    t.root.children[i].node.visits = 5;
    t.expand_leaf(&vec![i], vec![4, 5]);
    t.advance_root(&2);
    assert_eq!(t.root.visits, 5);
    assert_eq!(t.root.children.len(), 2);
    // one more than the nodes of the kept subtree
    assert_eq!(t.node_count, 4);
    t.advance_root(&99);
    assert_eq!(t.root.visits, 0);
    assert!(t.root.children.is_empty());
    assert_eq!(t.node_count, 1);
}

#[test]
fn ensure_root_expanded_only_once_and_not_when_over() {
    let mut t: SearchTree<u32> = SearchTree::new(100);
    t.ensure_root_expanded(true, vec![1, 2]);
    assert!(t.root.children.is_empty());
    assert_eq!(t.node_count, 1);
    t.ensure_root_expanded(false, vec![1, 2]);
    assert_eq!(t.root.children.len(), 2);
    assert_eq!(t.node_count, 3);
    t.ensure_root_expanded(false, vec![5, 6, 7]);
    assert_eq!(t.root.children.len(), 2);
    assert_eq!(t.node_count, 3);
}

#[test]
fn prune_drops_weak_subtrees() {
    let mut t: SearchTree<u32> = SearchTree::new(100);
    t.ensure_root_expanded(false, vec![1, 2]);
    t.root.children[0].node.visits = 1;
    t.root.children[1].node.visits = 50;
    t.expand_leaf(&vec![0], vec![3, 4]);
    t.expand_leaf(&vec![1], vec![5]);
    let before = t.node_count;
    t.prune_tree(10);
    assert!(t.root.children[0].node.children.is_empty());
    assert_eq!(t.root.children[0].node.visits, 1);
    // the strong child's own child has 0 visits and loses nothing below it
    assert_eq!(t.root.children[1].node.children.len(), 1);
    assert_eq!(t.node_count, before - 2);
    assert_eq!(t.root.count_subtree_nodes(), 4);
}

#[test]
fn prune_weak_children_counts_removed_nodes() {
    let mut n: Node<u32> = Node::new();
    n.expand(vec![1, 2], 1);
    n.children[0].node.expand(vec![3, 4, 5], 2);
    let removed = n.prune_weak_children(1);
    assert_eq!(removed, 3);
    assert_eq!(n.count_subtree_nodes(), 3);
}

#[test]
fn auto_prune_threshold_is_a_thousandth() {
    let mut t: SearchTree<u32> = SearchTree::new(100);
    t.root.visits = 5000;
    assert_eq!(t.auto_prune_threshold(), 5);
    t.root.visits = 100;
    assert_eq!(t.auto_prune_threshold(), 1);
}

fn prunable_tree() -> SearchTree<u32> {
    let mut t: SearchTree<u32> = SearchTree::new(100);
    t.ensure_root_expanded(false, vec![1, 2, 3]);
    t.root.visits = 7000;
    t.root.children[0].node.visits = 3;
    t.root.children[1].node.visits = 7;
    t.root.children[2].node.visits = 20;
    t.expand_leaf(&vec![0], vec![4, 5]);
    t.expand_leaf(&vec![1], vec![6]);
    t.expand_leaf(&vec![2], vec![7, 8]);
    t
}

fn shape_of(n: &Node<u32>) -> Vec<(u32, i32, usize)> {
    let mut out = vec![(0, n.visits, n.children.len())];
    for c in &n.children {
        out.push((c.mv, c.node.visits, c.node.children.len()));
        out.extend(shape_of(&c.node));
    }
    out
}

#[test]
fn auto_prune_equals_pruning_at_its_threshold() {
    let mut a = prunable_tree();
    let mut b = prunable_tree();
    let t = a.auto_prune_threshold();
    assert_eq!(t, 7);
    a.auto_prune();
    b.prune_tree(t);
    assert_eq!(shape_of(&a.root), shape_of(&b.root));
    assert_eq!(a.node_count, b.node_count);
    assert!(a.root.children[0].node.children.is_empty());
    assert_eq!(a.root.children[1].node.children.len(), 1);
}

#[test]
fn overhead_measured_in_one_search_of_eight() {
    for k in [1i32, 8, 9, 17, 40] {
        let measured = (0..k).filter(|c| should_measure_overhead(*c)).count() as i32;
        assert_eq!(measured, (k + 7) / 8);
    }
}

#[test]
fn simulation_keeps_points_within_twice_the_visits() {
    let mut t: SearchTree<u32> = SearchTree::new(100);
    t.ensure_root_expanded(false, vec![1, 2]);
    t.expand_leaf(&vec![1], vec![3]);
    for winner in [Some(1), Some(2), None, Some(1)] {
        t.apply_virtual_loss(&vec![1, 0]);
        t.backpropagate(&vec![1, 0], &vec![2, 1, 2], winner);
    }
    let mut stack = vec![&t.root];
    while let Some(n) = stack.pop() {
        assert!(0 <= n.wins && n.wins <= 2 * n.visits);
        for c in &n.children {
            stack.push(&c.node);
        }
    }
    assert_eq!(t.root.visits, 4);
}

#[test]
fn pruning_root_children_by_threshold() {
    let mut t = tree_with_children(&[(1, 10, 0), (2, 1, 0), (3, 5, 0)]);
    t.prune_root_children_below(5);
    let kept: Vec<u32> = t.root.children.iter().map(|c| c.mv).collect();
    assert_eq!(kept, vec![1, 3]);
    let mut single = tree_with_children(&[(1, 0, 0)]);
    single.prune_root_children_below(5);
    assert_eq!(single.root.children.len(), 1);
    let mut unvisited = tree_with_children(&[(1, 0, 0), (2, 0, 0)]);
    unvisited.prune_root_children_below(5);
    assert_eq!(unvisited.root.children.len(), 2);
}

#[test]
fn memory_pressure_above_ninety_percent() {
    let mut t: SearchTree<u32> = SearchTree::new(10);
    t.node_count = 9;
    assert!(!t.memory_pressure());
    t.node_count = 10;
    assert!(t.memory_pressure());
}

#[test]
fn expansion_gate_cases() {
    let mut t: SearchTree<u32> = SearchTree::new(10);
    assert_eq!(t.expansion_gate(&vec![]), ExpansionGate::Always);
    t.ensure_root_expanded(false, vec![1, 2]);
    assert_eq!(t.expansion_gate(&vec![]), ExpansionGate::AlreadyExpanded);
    t.root.children[1].node.visits = 3;
    t.root.children[1].node.virtual_losses = 2;
    assert_eq!(
        t.expansion_gate(&vec![1]),
        ExpansionGate::ByChance { depth: 1, visits: 3, virtual_losses: 2 }
    );
    t.node_count = 10;
    assert_eq!(t.expansion_gate(&vec![1]), ExpansionGate::TreeFull);
}

#[test]
fn immediate_move_cases() {
    let t = tree_with_children(&[(4, 0, 0)]);
    assert_eq!(t.immediate_move(1), ImmediateMove::OnlyMove);
    assert_eq!(t.immediate_move(0), ImmediateMove::RootChild(0));
    assert_eq!(t.immediate_move(3), ImmediateMove::Search);
    let empty: SearchTree<u32> = SearchTree::new(10);
    assert_eq!(empty.immediate_move(0), ImmediateMove::Stuck);
}

#[test]
fn prune_schedule_splits_iterations() {
    assert_eq!(prune_schedule(10, 3), PruneSchedule { chunks: 3, chunk_size: 3, remainder: 1 });
    assert_eq!(prune_schedule(10, 0), PruneSchedule { chunks: 0, chunk_size: 0, remainder: 10 });
    assert_eq!(prune_schedule(3, 5), PruneSchedule { chunks: 0, chunk_size: 0, remainder: 3 });
    assert_eq!(prune_schedule(9, 3), PruneSchedule { chunks: 3, chunk_size: 3, remainder: 0 });
}

#[test]
fn overhead_measured_every_eighth_search() {
    assert!(should_measure_overhead(0));
    assert!(!should_measure_overhead(5));
    assert!(should_measure_overhead(8));
    assert!(should_measure_overhead(16));
}

#[test]
fn prepare_batch_caps_and_prunes_under_pressure() {
    let mut t: SearchTree<u32> = SearchTree::new(1000);
    assert_eq!(t.prepare_batch(7000), (5000, false));
    assert_eq!(t.prepare_batch(12), (12, false));
    let mut full = tree_with_children(&[(1, 0, 0), (2, 50, 0)]);
    full.max_nodes = 2;
    full.node_count = 2;
    full.root.visits = 50;
    assert_eq!(full.prepare_batch(100), (100, true));
    assert_eq!(full.root.children.len(), 2);
}

#[test]
fn final_move_choice() {
    let mut rng = MoveRng::new();
    let t = tree_with_children(&[(1, 3, 0), (2, 8, 0)]);
    assert_eq!(t.choose_final_move(&mut rng, 2), FinalMove::Child(1));
    let empty: SearchTree<u32> = SearchTree::new(10);
    match empty.choose_final_move(&mut rng, 3) {
        FinalMove::Possible(i) => assert!(i < 3),
        other => panic!("unexpected {:?}", other),
    }
    assert_eq!(empty.choose_final_move(&mut rng, 0), FinalMove::NoMoves);
}

#[test]
fn grid_stats_place_children_by_coordinates() {
    let t = tree_with_children(&[(1, 4, 6), (2, 7, 1), (3, 9, 9)]);
    let texts = vec![
        "Gomoku(GomokuMove(0, 1))".to_string(),
        "Gomoku(GomokuMove(1, 0))".to_string(),
        "Pass".to_string(),
    ];
    let (visits, wins) = t.get_grid_stats(2, &texts);
    assert_eq!(visits, vec![vec![0, 4], vec![7, 0]]);
    assert_eq!(wins, vec![vec![0, 6], vec![1, 0]]);
    let texts_out = vec![
        "Gomoku(GomokuMove(5, 5))".to_string(),
        "Othello(OthelloMove(1, 1))".to_string(),
        "Gomoku(GomokuMove(1, 1))".to_string(),
    ];
    let (v2, _) = t.get_grid_stats(2, &texts_out);
    // the last child naming a cell wins
    assert_eq!(v2, vec![vec![0, 0], vec![0, 9]]);
}

#[test]
fn top_children_by_visits_in_order() {
    let t = tree_with_children(&[(1, 5, 0), (2, 9, 0), (3, 9, 0), (4, 1, 0)]);
    assert_eq!(t.top_children_by_visits(2), vec![1, 2]);
    assert_eq!(t.top_children_by_visits(10), vec![1, 2, 0, 3]);
    assert_eq!(t.top_children_by_visits(0), Vec::<usize>::new());
}

#[derive(Clone)]
struct Nim {
    stones: u32,
    player: i32,
}

impl GameState for Nim {
    type Move = u32;
    fn get_board(&self) -> Vec<Vec<i32>> {
        vec![vec![self.stones as i32]]
    }
    fn get_num_players(&self) -> i32 {
        2
    }
    fn get_possible_moves(&self) -> Vec<u32> {
        (1..=self.stones.min(2)).collect()
    }
    fn make_move(&mut self, mv: &u32) {
        self.stones -= mv;
        self.player = -self.player;
    }
    fn is_terminal(&self) -> bool {
        self.stones == 0
    }
    fn get_winner(&self) -> Option<i32> {
        if self.stones == 0 { Some(-self.player) } else { None }
    }
    fn get_current_player(&self) -> i32 {
        self.player
    }
}

#[test]
fn root_expanded_from_a_game_state() {
    let mut t: SearchTree<u32> = SearchTree::new(100);
    t.ensure_root_expanded_for(&Nim { stones: 5, player: 1 });
    assert_eq!(t.root.children.len(), 2);
    assert_eq!(t.node_count, 3);
    let mut over: SearchTree<u32> = SearchTree::new(100);
    over.ensure_root_expanded_for(&Nim { stones: 0, player: 1 });
    assert!(over.root.children.is_empty());
    assert_eq!(over.node_count, 1);
}

#[test]
fn expansion_only_when_allowed() {
    let mut t: SearchTree<u32> = SearchTree::new(100);
    // the root expands whatever the draw
    assert_eq!(t.expand_if_allowed(&vec![], vec![1, 2], false), 2);
    assert_eq!(t.node_count, 3);
    // below the root the draw decides
    assert_eq!(t.expand_if_allowed(&vec![0], vec![3], false), 0);
    assert!(t.root.children[0].node.children.is_empty());
    assert_eq!(t.expand_if_allowed(&vec![0], vec![3], true), 1);
    assert_eq!(t.root.children[0].node.children.len(), 1);
    // an expanded node is not expanded again, and no moves means no expansion
    assert_eq!(t.expand_if_allowed(&vec![0], vec![4], true), 0);
    assert_eq!(t.expand_if_allowed(&vec![1], vec![], true), 0);
    // a full tree expands nothing
    let mut full: SearchTree<u32> = SearchTree::new(1);
    assert_eq!(full.expand_if_allowed(&vec![], vec![1], true), 0);
    assert!(full.root.children.is_empty());
}

#[test]
fn finishing_a_simulation() {
    let mut t: SearchTree<u32> = SearchTree::new(100);
    t.expand_if_allowed(&vec![], vec![1, 2], true);
    t.apply_virtual_loss(&vec![1]);
    t.finish_simulation(&vec![1], &vec![1, 2], Some(2), false);
    assert_eq!(t.root.visits, 1);
    assert_eq!(t.root.children[1].node.visits, 1);
    assert_eq!(t.root.children[1].node.wins, 2);
    assert_eq!(t.root.children[1].node.virtual_losses, 0);
    t.apply_virtual_loss(&vec![0]);
    t.finish_simulation(&vec![0], &vec![1, 2], None, true);
    assert_eq!(t.root.visits, 1);
    assert_eq!(t.root.children[0].node.visits, 0);
    assert_eq!(t.root.children[0].node.virtual_losses, 0);
}
