//! The engine's search state: the tree, its approximate node count and node
//! limit, the move-selection strategy, and the decisions the search makes on
//! them.
use vstd::prelude::*;
use crate::game::GameState;
use crate::rng::MoveRng;
use crate::ranking::{is_top_of, top_indices_desc};
use crate::text::{extract_move_coordinates, move_coordinates};
use crate::laws::{wins_within, visits_below, law_simulation_keeps_win_bound};
use crate::shape::{well_formed, lemma_same_children_at_end, lemma_pruned_well_formed, lemma_filter_well_formed,
    lemma_child_well_formed, lemma_fresh_children_well_formed, lemma_change_at_end, lemma_well_formed_along, lemma_modified_along_well_formed};
use crate::tree::{Node, Child, subtree_size, children_size, saturate_usize, valid_path, node_at, modified_along, backprop_step, release_step, virtual_loss_step, expand_step, is_fresh, is_pruned, children_for_moves};

verus! {

/// How the best move is chosen once a search is over.
#[derive(Clone, Copy, Debug, PartialEq, Eq, Structural)]
pub enum MoveSelectionStrategy {
    /// The most visited move (the default, most robust).
    MaxVisits,
    /// The move with the highest win rate (wins / visits).
    MaxQ,
}

impl Default for MoveSelectionStrategy {
    fn default() -> (s: Self)
        ensures
            s == MoveSelectionStrategy::MaxVisits,
    {
        MoveSelectionStrategy::MaxVisits
    }
}

/// `a`'s win rate is at least `b`'s, where a node without (positive) visits
/// has the lowest possible win rate.
pub open spec fn q_at_least<M>(a: Node<M>, b: Node<M>) -> bool {
    if b.visits <= 0 {
        true
    } else if a.visits <= 0 {
        false
    } else {
        a.wins * b.visits >= b.wins * a.visits
    }
}

/// `a` is at least as good as `b` under `strategy`.
pub open spec fn ranks_at_least<M>(strategy: MoveSelectionStrategy, a: Node<M>, b: Node<M>) -> bool {
    match strategy {
        MoveSelectionStrategy::MaxVisits => a.visits >= b.visits,
        MoveSelectionStrategy::MaxQ => q_at_least(a, b),
    }
}

/// Child `i` is a best child of `n` under `strategy`.
pub open spec fn is_best_child<M>(n: Node<M>, strategy: MoveSelectionStrategy, i: int) -> bool {
    &&& 0 <= i < n.children@.len()
    &&& forall|j: int| 0 <= j < n.children@.len() ==> ranks_at_least(strategy, n.children@[i].node, #[trigger] n.children@[j].node)
}

proof fn lemma_i32_product_fits(x: i32, y: i32)
    ensures
        i64::MIN <= (x as int) * (y as int) <= i64::MAX,
{
    assert(-0x8000_0000 <= x <= 0x7fff_ffff);
    assert((x as int) * (y as int) <= 0x4000_0000_0000_0000) by (nonlinear_arith)
        requires -0x8000_0000 <= x <= 0x7fff_ffff, -0x8000_0000 <= y <= 0x7fff_ffff;
    assert((x as int) * (y as int) >= -0x4000_0000_0000_0000) by (nonlinear_arith)
        requires -0x8000_0000 <= x <= 0x7fff_ffff, -0x8000_0000 <= y <= 0x7fff_ffff;
}

/// `a`'s win rate is at least `b`'s (see `q_at_least`).
fn q_ge<M>(a: &Node<M>, b: &Node<M>) -> (r: bool)
    ensures
        r == q_at_least(*a, *b),
{
    if b.visits <= 0 {
        true
    } else if a.visits <= 0 {
        false
    } else {
        proof {
            lemma_i32_product_fits(a.wins, b.visits);
            lemma_i32_product_fits(b.wins, a.visits);
        }
        let lhs: i64 = (a.wins as i64) * (b.visits as i64);
        let rhs: i64 = (b.wins as i64) * (a.visits as i64);
        lhs >= rhs
    }
}

/// The position of a best child of `n` under `strategy`.
pub fn best_child_index<M>(n: &Node<M>, strategy: MoveSelectionStrategy) -> (i: usize)
    requires
        n.children@.len() > 0,
    ensures
        is_best_child(*n, strategy, i as int),
{
    let mut best: usize = 0;
    let mut j: usize = 1;
    while j < n.children.len()
        invariant
            n.children@.len() > 0,
            best < n.children@.len(),
            1 <= j <= n.children@.len(),
            forall|k: int| 0 <= k < j ==> ranks_at_least(strategy, n.children@[best as int].node, #[trigger] n.children@[k].node),
        decreases n.children@.len() - j,
    {
        let better = match strategy {
            MoveSelectionStrategy::MaxVisits => n.children[j].node.visits > n.children[best].node.visits,
            MoveSelectionStrategy::MaxQ => !q_ge(&n.children[best].node, &n.children[j].node),
        };
        if better {
            proof {
                assert forall|k: int| 0 <= k < j + 1 implies
                    ranks_at_least(strategy, n.children@[j as int].node, #[trigger] n.children@[k].node) by {
                    if k < j {
                        let a = n.children@[j as int].node;
                        let b = n.children@[best as int].node;
                        let c = n.children@[k].node;
                        assert(ranks_at_least(strategy, b, c));
                        if strategy == MoveSelectionStrategy::MaxQ {
                            if c.visits > 0 {
                                assert(b.visits > 0);
                                assert(a.visits > 0);
                                assert(a.wins * b.visits > b.wins * a.visits);
                                assert(b.wins * c.visits >= c.wins * b.visits);
                                assert(a.wins * c.visits >= c.wins * a.visits) by (nonlinear_arith)
                                    requires
                                        a.visits > 0, b.visits > 0, c.visits > 0,
                                        a.wins * b.visits > b.wins * a.visits,
                                        b.wins * c.visits >= c.wins * b.visits;
                            }
                        }
                    }
                }
            }
            best = j;
        }
        j = j + 1;
    }
    best
}


/// What the expansion step may do at a leaf the search has reached.
#[derive(Clone, Copy, Debug, PartialEq, Eq, Structural)]
pub enum ExpansionGate {
    /// The tree holds `max_nodes` nodes or more: no expansion.
    TreeFull,
    /// Another search thread expanded the node already.
    AlreadyExpanded,
    /// The node is a root (depth 0): always expand.
    Always,
    /// Expand with a probability that falls with depth and grows with the
    /// node's visits plus virtual losses.
    ByChance { depth: u32, visits: i32, virtual_losses: i32 },
}

/// The search state of the engine: the tree, the approximate number of nodes
/// in it, the node limit, and the strategy that picks the final move.
pub struct SearchTree<M> {
    pub root: Node<M>,
    /// Approximate number of nodes: grows by the moves handed to each
    /// expansion, shrinks by what pruning removes, and is reset when the root
    /// advances.
    pub node_count: i32,
    pub max_nodes: usize,
    pub move_selection_strategy: MoveSelectionStrategy,
}

impl<M> SearchTree<M> {
    /// A tree with a single fresh root, counted as one node.
    pub fn new(max_nodes: usize) -> (t: Self)
        ensures
            is_fresh(t.root, 0),
            well_formed(t.root),
            t.node_count == 1,
            t.max_nodes == max_nodes,
            t.move_selection_strategy == MoveSelectionStrategy::MaxVisits,
    {
        SearchTree { root: Node::new(), node_count: 1, max_nodes, move_selection_strategy: MoveSelectionStrategy::MaxVisits }
    }

    /// The node limit.
    pub fn get_max_nodes(&self) -> (m: usize)
        ensures
            m == self.max_nodes,
    {
        self.max_nodes
    }

    /// Sets the strategy that picks the final move.
    pub fn set_move_selection_strategy(&mut self, strategy: MoveSelectionStrategy)
        ensures
            final(self).move_selection_strategy == strategy,
            final(self).root == old(self).root,
            final(self).node_count == old(self).node_count,
            final(self).max_nodes == old(self).max_nodes,
    {
        self.move_selection_strategy = strategy;
    }

    /// The strategy that picks the final move.
    pub fn get_move_selection_strategy(&self) -> (s: MoveSelectionStrategy)
        ensures
            s == self.move_selection_strategy,
    {
        self.move_selection_strategy
    }

    /// The root's (wins, visits).
    pub fn get_root_stats(&self) -> (r: (i32, i32))
        ensures
            r == (self.root.wins, self.root.visits),
    {
        (self.root.wins, self.root.visits)
    }

    /// (wins, visits) of each child of the root, in the order of the children.
    pub fn get_root_children_stats(&self) -> (r: Vec<(i32, i32)>)
        ensures
            r@.len() == self.root.children@.len(),
            forall|i: int| 0 <= i < r@.len() ==> #[trigger] r@[i] == (self.root.children@[i].node.wins, self.root.children@[i].node.visits),
    {
        let mut r: Vec<(i32, i32)> = Vec::new();
        let mut i: usize = 0;
        while i < self.root.children.len()
            invariant
                i <= self.root.children@.len(),
                r@.len() == i,
                forall|k: int| 0 <= k < i ==> #[trigger] r@[k] == (self.root.children@[k].node.wins, self.root.children@[k].node.visits),
            decreases self.root.children@.len() - i,
        {
            r.push((self.root.children[i].node.wins, self.root.children[i].node.visits));
            i = i + 1;
        }
        r
    }

    /// The position, among the root's children, of the move to play under
    /// the configured strategy.
    pub fn select_best_move(&self) -> (i: usize)
        requires
            self.root.children@.len() > 0,
        ensures
            is_best_child(self.root, self.move_selection_strategy, i as int),
    {
        best_child_index(&self.root, self.move_selection_strategy)
    }

    /// Whether the tree is close to its node limit (more than 90% of it).
    pub fn memory_pressure(&self) -> (b: bool)
        requires
            self.max_nodes <= usize::MAX / 9,
        ensures
            b == ((self.node_count as usize) > self.max_nodes * 9 / 10),
    {
        (self.node_count as usize) > self.max_nodes * 9 / 10
    }

    /// Decides whether the leaf at the end of `path` may be expanded.
    pub fn expansion_gate(&self, path: &Vec<usize>) -> (g: ExpansionGate)
        requires
            valid_path(self.root, path@, 0),
        ensures
            ({
                let n = node_at(self.root, path@, 0);
                g == if !((self.node_count as usize) < self.max_nodes) {
                    ExpansionGate::TreeFull
                } else if n.children@.len() != 0 {
                    ExpansionGate::AlreadyExpanded
                } else if n.depth == 0 {
                    ExpansionGate::Always
                } else {
                    ExpansionGate::ByChance { depth: n.depth, visits: n.visits, virtual_losses: n.virtual_losses }
                }
            }),
    {
        if !((self.node_count as usize) < self.max_nodes) {
            return ExpansionGate::TreeFull;
        }
        let n = Self::node_ref(&self.root, path, 0);
        if n.children.len() != 0 {
            ExpansionGate::AlreadyExpanded
        } else if n.depth == 0 {
            ExpansionGate::Always
        } else {
            ExpansionGate::ByChance { depth: n.depth, visits: n.visits, virtual_losses: n.virtual_losses }
        }
    }

    /// The node at the end of `path` (from position `k`).
    pub fn node_ref<'a>(n: &'a Node<M>, path: &Vec<usize>, k: usize) -> (r: &'a Node<M>)
        requires
            k <= path@.len(),
            valid_path(*n, path@, k as nat),
        ensures
            *r == node_at(*n, path@, k as nat),
        decreases path@.len() - k,
    {
        if k < path.len() {
            Self::node_ref(&n.children[path[k]].node, path, k + 1)
        } else {
            n
        }
    }

    /// Records a finished simulation along `path`: every node on it gets one
    /// more visit, the reward for the player who moved into it, and loses one
    /// virtual loss.
    pub fn backpropagate(&mut self, path: &Vec<usize>, players: &Vec<i32>, winner: Option<i32>)
        requires
            players@.len() == path@.len() + 1,
            valid_path(old(self).root, path@, 0),
        ensures
            modified_along(old(self).root, final(self).root, path@, 0, backprop_step(path@.len(), players@, winner)),
            well_formed(old(self).root) ==> well_formed(final(self).root),
            subtree_size(final(self).root) == subtree_size(old(self).root),
            final(self).node_count == old(self).node_count,
            final(self).max_nodes == old(self).max_nodes,
            final(self).move_selection_strategy == old(self).move_selection_strategy,
    {
        self.root.backpropagate(path, 0, players, winner);
        proof {
            crate::tree::lemma_modified_along_keeps_size(old(self).root, self.root, path@, 0,
                backprop_step(path@.len(), players@, winner));
            if well_formed(old(self).root) {
                lemma_same_children_at_end(old(self).root, self.root, path@, backprop_step(path@.len(), players@, winner));
            }
        }
    }

    /// Removes the virtual losses of a simulation that was stopped before
    /// it finished; visits and wins are left as they are.
    pub fn release_virtual_losses(&mut self, path: &Vec<usize>)
        requires
            valid_path(old(self).root, path@, 0),
        ensures
            modified_along(old(self).root, final(self).root, path@, 0, release_step(path@.len())),
            well_formed(old(self).root) ==> well_formed(final(self).root),
            subtree_size(final(self).root) == subtree_size(old(self).root),
            final(self).node_count == old(self).node_count,
            final(self).max_nodes == old(self).max_nodes,
            final(self).move_selection_strategy == old(self).move_selection_strategy,
    {
        self.root.release_virtual_losses(path, 0);
        proof {
            crate::tree::lemma_modified_along_keeps_size(old(self).root, self.root, path@, 0, release_step(path@.len()));
            if well_formed(old(self).root) {
                lemma_same_children_at_end(old(self).root, self.root, path@, release_step(path@.len()));
            }
        }
    }

    /// Adds a virtual loss to the node at the end of `path`, the node just
    /// selected, to steer other search threads elsewhere.
    pub fn apply_virtual_loss(&mut self, path: &Vec<usize>)
        requires
            valid_path(old(self).root, path@, 0),
        ensures
            modified_along(old(self).root, final(self).root, path@, 0, virtual_loss_step(path@.len())),
            well_formed(old(self).root) ==> well_formed(final(self).root),
            subtree_size(final(self).root) == subtree_size(old(self).root),
            final(self).node_count == old(self).node_count,
            final(self).max_nodes == old(self).max_nodes,
            final(self).move_selection_strategy == old(self).move_selection_strategy,
    {
        self.root.apply_virtual_loss_at(path, 0);
        proof {
            crate::tree::lemma_modified_along_keeps_size(old(self).root, self.root, path@, 0, virtual_loss_step(path@.len()));
            if well_formed(old(self).root) {
                lemma_same_children_at_end(old(self).root, self.root, path@, virtual_loss_step(path@.len()));
            }
        }
    }

    /// Prunes the tree with threshold `min_visits_threshold` (see
    /// `is_pruned`) and takes the removed nodes off the node count.
    pub fn prune_tree(&mut self, min_visits_threshold: i32)
        ensures
            is_pruned(old(self).root, final(self).root, min_visits_threshold),
            well_formed(old(self).root) ==> well_formed(final(self).root),
            subtree_size(final(self).root) <= subtree_size(old(self).root),
            final(self).node_count == old(self).node_count.wrapping_sub(
                saturate_usize((subtree_size(old(self).root) - subtree_size(final(self).root)) as nat) as i32),
            final(self).max_nodes == old(self).max_nodes,
            final(self).move_selection_strategy == old(self).move_selection_strategy,
    {
        let removed = self.root.prune_weak_children(min_visits_threshold);
        proof {
            if well_formed(old(self).root) {
                lemma_pruned_well_formed(old(self).root, self.root, min_visits_threshold);
            }
        }
        if removed > 0 {
            self.node_count = self.node_count.wrapping_sub(removed as i32);
        }
    }

    /// The threshold `auto_prune` uses: 0.1% of the root's visits, at least 1.
    pub fn auto_prune_threshold(&self) -> (t: i32)
        ensures
            t == (if self.root.visits / 1000 > 1 { self.root.visits / 1000 } else { 1 }),
    {
        let v = self.root.visits;
        let q: i32 = if v >= 0 { v / 1000 } else { 0 };
        if q > 1 { q } else { 1 }
    }

    /// Prunes the children with less than 0.1% of the root's visits (and at
    /// least one visit) below them.
    pub fn auto_prune(&mut self)
        ensures
            ({
                let t = if old(self).root.visits / 1000 > 1 { old(self).root.visits / 1000 } else { 1 };
                &&& is_pruned(old(self).root, final(self).root, t as i32)
                &&& final(self).node_count == old(self).node_count.wrapping_sub(
                    saturate_usize((subtree_size(old(self).root) - subtree_size(final(self).root)) as nat) as i32)
            }),
            well_formed(old(self).root) ==> well_formed(final(self).root),
            subtree_size(final(self).root) <= subtree_size(old(self).root),
            final(self).max_nodes == old(self).max_nodes,
            final(self).move_selection_strategy == old(self).move_selection_strategy,
    {
        let t = self.auto_prune_threshold();
        self.prune_tree(t);
    }
}


/// The largest visit count among `cs` (0 for no children).
pub open spec fn max_child_visits<M>(cs: Seq<Child<M>>) -> i32
    decreases cs.len(),
{
    if cs.len() == 0 {
        0
    } else if cs.len() == 1 {
        cs[0].node.visits
    } else {
        let m = max_child_visits(cs.drop_last());
        if cs.last().node.visits > m { cs.last().node.visits } else { m }
    }
}

/// Children whose visit count is at least `threshold`.
pub open spec fn kept_children<M>(cs: Seq<Child<M>>, threshold: i32) -> Seq<Child<M>> {
    cs.filter(|c: Child<M>| c.node.visits >= threshold)
}

impl<M> SearchTree<M> {
    /// The largest visit count among the root's children (0 for none).
    pub fn root_max_child_visits(&self) -> (m: i32)
        ensures
            m == max_child_visits(self.root.children@),
    {
        let cs = &self.root.children;
        if cs.len() == 0 {
            return 0;
        }
        let mut m = cs[0].node.visits;
        let mut i: usize = 1;
        while i < cs.len()
            invariant
                1 <= i <= cs@.len(),
                m == max_child_visits(cs@.subrange(0, i as int)),
            decreases cs@.len() - i,
        {
            let ghost pre = cs@.subrange(0, i as int);
            assert(cs@.subrange(0, i + 1).drop_last() =~= pre);
            if cs[i].node.visits > m {
                m = cs[i].node.visits;
            }
            i = i + 1;
        }
        assert(cs@.subrange(0, cs@.len() as int) =~= cs@);
        m
    }

    /// Drops the root's children with fewer than `threshold` visits, unless
    /// the root has at most one child or no child has been visited (largest
    /// visit count 0).  The node count is left as it is.
    pub fn prune_root_children_below(&mut self, threshold: i32)
        ensures
            final(self).root.children@ == (if old(self).root.children@.len() <= 1
                || max_child_visits(old(self).root.children@) == 0 {
                old(self).root.children@
            } else {
                kept_children(old(self).root.children@, threshold)
            }),
            final(self).root.visits == old(self).root.visits,
            final(self).root.wins == old(self).root.wins,
            final(self).root.virtual_losses == old(self).root.virtual_losses,
            final(self).root.depth == old(self).root.depth,
            well_formed(old(self).root) ==> well_formed(final(self).root),
            final(self).node_count == old(self).node_count,
            final(self).max_nodes == old(self).max_nodes,
            final(self).move_selection_strategy == old(self).move_selection_strategy,
    {
        if self.root.children.len() <= 1 {
            return;
        }
        if self.root_max_child_visits() == 0 {
            return;
        }
        let ghost orig = self.root.children@;
        let ghost keep = |c: Child<M>| c.node.visits >= threshold;
        let mut i: usize = 0;
        let ghost mut j: int = 0;
        while i < self.root.children.len()
            invariant
                0 <= i <= j <= orig.len(),
                i <= self.root.children@.len(),
                self.root.children@.len() - i == orig.len() - j,
                self.root.children@.subrange(0, i as int) == orig.subrange(0, j).filter(keep),
                self.root.children@.subrange(i as int, self.root.children@.len() as int) == orig.subrange(j, orig.len() as int),
                self.root.visits == old(self).root.visits,
                self.root.wins == old(self).root.wins,
                self.root.virtual_losses == old(self).root.virtual_losses,
                self.root.depth == old(self).root.depth,
                self.node_count == old(self).node_count,
                self.max_nodes == old(self).max_nodes,
                self.move_selection_strategy == old(self).move_selection_strategy,
                keep == (|c: Child<M>| c.node.visits >= threshold),
            decreases self.root.children@.len() - i,
        {
            let ghost before = self.root.children@;
            assert(before[i as int] == orig[j]) by {
                assert(before.subrange(i as int, before.len() as int)[0] == orig.subrange(j, orig.len() as int)[0]);
            }
            assert(orig.subrange(0, j + 1) =~= orig.subrange(0, j).push(orig[j]));
            proof {
                orig.subrange(0, j).lemma_filter_push(orig[j], keep);
            }
            if self.root.children[i].node.visits < threshold {
                let _ = self.root.children.remove(i);
                assert(self.root.children@.subrange(0, i as int) =~= before.subrange(0, i as int));
                assert forall|k: int| 0 <= k < self.root.children@.len() - i implies
                    #[trigger] self.root.children@.subrange(i as int, self.root.children@.len() as int)[k]
                        == orig.subrange(j + 1, orig.len() as int)[k] by {
                    assert(before.subrange(i as int, before.len() as int)[k + 1] == orig.subrange(j, orig.len() as int)[k + 1]);
                }
                assert(self.root.children@.subrange(i as int, self.root.children@.len() as int)
                    =~= orig.subrange(j + 1, orig.len() as int));
            } else {
                assert(self.root.children@.subrange(0, i + 1) =~= before.subrange(0, i as int).push(before[i as int]));
                assert forall|k: int| 0 <= k < self.root.children@.len() - i - 1 implies
                    #[trigger] self.root.children@.subrange(i + 1, self.root.children@.len() as int)[k]
                        == orig.subrange(j + 1, orig.len() as int)[k] by {
                    assert(before.subrange(i as int, before.len() as int)[k + 1] == orig.subrange(j, orig.len() as int)[k + 1]);
                }
                assert(self.root.children@.subrange(i + 1, self.root.children@.len() as int)
                    =~= orig.subrange(j + 1, orig.len() as int));
                i = i + 1;
            }
            proof {
                j = j + 1;
            }
        }
        assert(orig.subrange(0, orig.len() as int) =~= orig);
        assert(self.root.children@.subrange(0, i as int) =~= self.root.children@);
        proof {
            if well_formed(old(self).root) {
                lemma_filter_well_formed(old(self).root, self.root, keep);
            }
        }
    }

    /// Makes sure the root is expanded before a search: a root without
    /// children in a position that is not over gets one child at depth 1 per
    /// distinct move, and the node count grows by the number of moves.
    pub fn ensure_root_expanded(&mut self, is_terminal: bool, moves: Vec<M>)
        where M: PartialEq,
        requires
            vstd::laws_eq::obeys_concrete_eq::<M>(),
        ensures
            final(self).root.visits == old(self).root.visits,
            final(self).root.wins == old(self).root.wins,
            final(self).root.virtual_losses == old(self).root.virtual_losses,
            final(self).root.depth == old(self).root.depth,
            (old(self).root.children@.len() == 0 && !is_terminal) ==> {
                &&& children_for_moves(final(self).root.children@, moves@, 1)
                &&& final(self).node_count == old(self).node_count.wrapping_add(moves@.len() as i32)
            },
            !(old(self).root.children@.len() == 0 && !is_terminal) ==> {
                &&& final(self).root.children@ == old(self).root.children@
                &&& final(self).node_count == old(self).node_count
            },
            well_formed(old(self).root) && old(self).root.depth == 0 ==> well_formed(final(self).root),
            final(self).max_nodes == old(self).max_nodes,
            final(self).move_selection_strategy == old(self).move_selection_strategy,
    {
        if self.root.children.len() == 0 && !is_terminal {
            let added = self.root.expand(moves, 1);
            self.node_count = self.node_count.wrapping_add(added as i32);
            proof {
                if old(self).root.depth == 0 {
                    lemma_fresh_children_well_formed(self.root, 1);
                }
            }
        }
    }

    /// Expands the leaf at the end of `path` (one level deeper than it) and
    /// counts the moves handed in as new nodes.
    pub fn expand_leaf(&mut self, path: &Vec<usize>, moves: Vec<M>) -> (added: usize)
        where M: PartialEq,
        requires
            vstd::laws_eq::obeys_concrete_eq::<M>(),
            valid_path(old(self).root, path@, 0),
            node_at(old(self).root, path@, 0).depth < u32::MAX,
        ensures
            modified_along(old(self).root, final(self).root, path@, 0,
                expand_step(path@.len(), moves@, (node_at(old(self).root, path@, 0).depth + 1) as u32)),
            added == (if node_at(old(self).root, path@, 0).children@.len() == 0 { moves@.len() } else { 0 }),
            well_formed(old(self).root) ==> well_formed(final(self).root),
            final(self).node_count == old(self).node_count.wrapping_add(added as i32),
            final(self).max_nodes == old(self).max_nodes,
            final(self).move_selection_strategy == old(self).move_selection_strategy,
    {
        let added = self.root.expand_at(path, 0, moves);
        self.node_count = self.node_count.wrapping_add(added as i32);
        proof {
            if well_formed(old(self).root) {
                let ghost step = expand_step(path@.len(), moves@, (node_at(old(self).root, path@, 0).depth + 1) as u32);
                lemma_change_at_end(old(self).root, self.root, path@, 0, step);
                lemma_well_formed_along(old(self).root, path@, 0);
                let ghost a = node_at(old(self).root, path@, 0);
                let ghost b = node_at(self.root, path@, 0);
                if a.children@.len() == 0 {
                    assert(forall|i: int| 0 <= i < b.children@.len() ==> #[trigger] is_fresh(b.children@[i].node, (a.depth + 1) as u32));
                    lemma_fresh_children_well_formed(b, (a.depth + 1) as u32);
                } else {
                    crate::shape::lemma_same_shape(a, b);
                }
                lemma_modified_along_well_formed(old(self).root, self.root, path@, 0, step);
            }
        }
        added
    }

    /// The expansion step of a simulation: the leaf at the end of `path`
    /// gets one child per distinct move of `moves` when the tree holds fewer
    /// than `max_nodes` nodes, the leaf has no children yet, there are moves,
    /// and the leaf is the root or `chance_passed` (the draw that decides
    /// expansion below the root came out in favour).  Otherwise nothing
    /// changes.  Returns the number of moves added to the node count.
    pub fn expand_if_allowed(&mut self, path: &Vec<usize>, moves: Vec<M>, chance_passed: bool) -> (added: usize)
        where M: PartialEq,
        requires
            vstd::laws_eq::obeys_concrete_eq::<M>(),
            valid_path(old(self).root, path@, 0),
            node_at(old(self).root, path@, 0).depth < u32::MAX,
        ensures
            ({
                let n = node_at(old(self).root, path@, 0);
                let expands = (old(self).node_count as usize) < old(self).max_nodes && n.children@.len() == 0
                    && moves@.len() > 0 && (n.depth == 0 || chance_passed);
                &&& expands ==> {
                    &&& modified_along(old(self).root, final(self).root, path@, 0,
                        expand_step(path@.len(), moves@, (n.depth + 1) as u32))
                    &&& added == moves@.len()
                    &&& final(self).node_count == old(self).node_count.wrapping_add(added as i32)
                }
                &&& !expands ==> {
                    &&& final(self).root == old(self).root
                    &&& final(self).node_count == old(self).node_count
                    &&& added == 0
                }
            }),
            well_formed(old(self).root) ==> well_formed(final(self).root),
            final(self).max_nodes == old(self).max_nodes,
            final(self).move_selection_strategy == old(self).move_selection_strategy,
    {
        let allowed = match self.expansion_gate(path) {
            ExpansionGate::Always => true,
            ExpansionGate::ByChance { .. } => chance_passed,
            _ => false,
        };
        if allowed && moves.len() > 0 {
            self.expand_leaf(path, moves)
        } else {
            0
        }
    }

    /// The end of a simulation along `path`: a simulation that was stopped
    /// only takes its virtual losses off the path; a finished one records
    /// its result (`winner`) on every node of the path.  A finished
    /// simulation gives the root one more visit and keeps every node of the
    /// tree between 0 and twice its visits in points, while no visit count
    /// is near overflowing.
    pub fn finish_simulation(&mut self, path: &Vec<usize>, players: &Vec<i32>, winner: Option<i32>, stopped: bool)
        requires
            players@.len() == path@.len() + 1,
            valid_path(old(self).root, path@, 0),
        ensures
            stopped ==> modified_along(old(self).root, final(self).root, path@, 0, release_step(path@.len())),
            stopped ==> final(self).root.visits == old(self).root.visits,
            !stopped ==> modified_along(old(self).root, final(self).root, path@, 0,
                backprop_step(path@.len(), players@, winner)),
            !stopped && wins_within(old(self).root) && visits_below(old(self).root, i32::MAX / 2) ==> {
                &&& wins_within(final(self).root)
                &&& final(self).root.visits == old(self).root.visits + 1
            },
            well_formed(old(self).root) ==> well_formed(final(self).root),
            subtree_size(final(self).root) == subtree_size(old(self).root),
            final(self).node_count == old(self).node_count,
            final(self).max_nodes == old(self).max_nodes,
            final(self).move_selection_strategy == old(self).move_selection_strategy,
    {
        if stopped {
            self.release_virtual_losses(path);
        } else {
            self.backpropagate(path, players, winner);
            proof {
                if wins_within(old(self).root) && visits_below(old(self).root, i32::MAX / 2) {
                    law_simulation_keeps_win_bound(old(self).root, self.root, path@, players@, winner);
                }
            }
        }
    }

    /// Moves the root to the child reached by `mv`, keeping that subtree and
    /// dropping the rest; when no child has that move the tree restarts from
    /// a fresh root.  The node count becomes one more than the size of the
    /// kept subtree, or 1 for a fresh root.
    pub fn advance_root(&mut self, mv: &M)
        where M: PartialEq,
        requires
            vstd::laws_eq::obeys_concrete_eq::<M>(),
        ensures
            (exists|i: int| 0 <= i < old(self).root.children@.len() && old(self).root.children@[i].mv == *mv) ==> {
                &&& exists|i: int|
                    0 <= i < old(self).root.children@.len() && old(self).root.children@[i].mv == *mv
                    && final(self).root == old(self).root.children@[i].node
                &&& final(self).node_count == saturate_usize(1 + subtree_size(final(self).root)) as i32
            },
            (forall|i: int| 0 <= i < old(self).root.children@.len() ==> old(self).root.children@[i].mv != *mv) ==> {
                &&& is_fresh(final(self).root, 0)
                &&& final(self).node_count == 1
            },
            well_formed(old(self).root) ==> well_formed(final(self).root),
            final(self).max_nodes == old(self).max_nodes,
            final(self).move_selection_strategy == old(self).move_selection_strategy,
    {
        match self.root.find_child(mv) {
            Some(i) => {
                proof {
                    if well_formed(old(self).root) {
                        lemma_child_well_formed(old(self).root, i as int);
                    }
                }
                let child = self.root.children.remove(i);
                self.root = child.node;
                let count = self.root.count_subtree_nodes();
                self.node_count = count.saturating_add(1) as i32;
                proof {
                    crate::tree::lemma_saturate_add(subtree_size(self.root), 1);
                }
            },
            None => {
                self.root = Node::new();
                self.node_count = 1;
            },
        }
    }
}


/// What a search does before running any simulation.
#[derive(Clone, Copy, Debug, PartialEq, Eq, Structural)]
pub enum ImmediateMove {
    /// There is one possible move: play it.
    OnlyMove,
    /// No possible move, but the root has a single child (a pass): play it.
    RootChild(usize),
    /// No possible move and no single child: the game logic is broken.
    Stuck,
    /// Search.
    Search,
}

/// How a search of `iterations` simulations with pruning every
/// `prune_interval` simulations is run: `chunks` runs of `chunk_size`, each
/// followed by an automatic pruning, then `remainder` simulations.
#[derive(Clone, Copy, Debug, PartialEq, Eq, Structural)]
pub struct PruneSchedule {
    pub chunks: i32,
    pub chunk_size: i32,
    pub remainder: i32,
}

/// Simulations run between two checks of the tree's size.
pub const BATCH_SIZE: i32 = 5000;

/// The schedule: chunks of `prune_interval` when it is positive and smaller
/// than `iterations`, else one run of everything.
pub open spec fn schedule_spec(iterations: i32, prune_interval: i32) -> PruneSchedule {
    if prune_interval > 0 && iterations > prune_interval {
        PruneSchedule {
            chunks: (iterations / prune_interval) as i32,
            chunk_size: prune_interval,
            remainder: (iterations % prune_interval) as i32,
        }
    } else {
        PruneSchedule { chunks: 0, chunk_size: 0, remainder: iterations }
    }
}

pub fn prune_schedule(iterations: i32, prune_interval: i32) -> (s: PruneSchedule)
    ensures
        s == schedule_spec(iterations, prune_interval),
        s.chunks * s.chunk_size + s.remainder == iterations,
        s.remainder < prune_interval || s.chunks == 0,
{
    if prune_interval > 0 && iterations > prune_interval {
        let chunks = iterations / prune_interval;
        let remainder = iterations % prune_interval;
        proof {
            assert(chunks * prune_interval + remainder == iterations) by (nonlinear_arith)
                requires
                    prune_interval > 0,
                    iterations > 0,
                    chunks == iterations / prune_interval,
                    remainder == iterations % prune_interval,
            ;
        }
        PruneSchedule { chunks, chunk_size: prune_interval, remainder }
    } else {
        PruneSchedule { chunks: 0, chunk_size: 0, remainder: iterations }
    }
}

/// Whether the overhead of a search is measured, given how many searches
/// came before it: every eighth one, starting with the first.
pub fn should_measure_overhead(searches_count: i32) -> (b: bool)
    ensures
        b == (searches_count % 8 == 0),
{
    searches_count % 8 == 0
}

/// The move a finished search plays.
#[derive(Clone, Copy, Debug, PartialEq, Eq, Structural)]
pub enum FinalMove {
    /// The root child at this position.
    Child(usize),
    /// No child: the possible move at this position, drawn at random.
    Possible(usize),
    /// No child and no possible move.
    NoMoves,
}

/// What the node count means for pruning: more than 90% of the limit.
pub open spec fn under_pressure<M>(t: SearchTree<M>) -> bool {
    (t.node_count as usize) > t.max_nodes * 9 / 10
}

/// Visits of the root's children placed on a board grid by their moves'
/// coordinates: each cell holds the statistic of the last child whose move
/// names it, 0 where none does.
pub open spec fn last_naming(coords: Seq<Option<(usize, usize)>>, r: usize, c: usize, k: int) -> int
    decreases k,
{
    if k <= 0 {
        -1
    } else if coords[k - 1] == Some((r, c)) {
        k - 1
    } else {
        last_naming(coords, r, c, k - 1)
    }
}

/// The coordinates named by each move description.
pub open spec fn coords_of(texts: Seq<String>) -> Seq<Option<(usize, usize)>> {
    Seq::new(texts.len(), |i: int| move_coordinates(texts[i]@))
}

pub open spec fn grid_value<M>(cs: Seq<Child<M>>, coords: Seq<Option<(usize, usize)>>, r: usize, c: usize, wins: bool) -> i32 {
    let k = last_naming(coords, r, c, coords.len() as int);
    if k < 0 { 0 } else if wins { cs[k].node.wins } else { cs[k].node.visits }
}

impl<M> SearchTree<M> {
    /// What to do before searching, given the number of possible moves.
    pub fn immediate_move(&self, possible_moves: usize) -> (d: ImmediateMove)
        ensures
            d == (if possible_moves == 1 {
                ImmediateMove::OnlyMove
            } else if possible_moves == 0 {
                if self.root.children@.len() == 1 { ImmediateMove::RootChild(0) } else { ImmediateMove::Stuck }
            } else {
                ImmediateMove::Search
            }),
    {
        if possible_moves == 1 {
            ImmediateMove::OnlyMove
        } else if possible_moves == 0 {
            if self.root.children.len() == 1 { ImmediateMove::RootChild(0) } else { ImmediateMove::Stuck }
        } else {
            ImmediateMove::Search
        }
    }

    /// Before a batch of simulations: prunes automatically when the tree is
    /// over 90% of its limit, and gives the batch size (at most
    /// `BATCH_SIZE`) with whether pruning happened.
    pub fn prepare_batch(&mut self, iterations_remaining: i32) -> (r: (i32, bool))
        requires
            old(self).max_nodes <= usize::MAX / 9,
        ensures
            r.0 == (if iterations_remaining < BATCH_SIZE { iterations_remaining } else { BATCH_SIZE }),
            r.1 == under_pressure(*old(self)),
            r.1 ==> ({
                let t = if old(self).root.visits / 1000 > 1 { old(self).root.visits / 1000 } else { 1 };
                &&& is_pruned(old(self).root, final(self).root, t as i32)
                &&& final(self).node_count == old(self).node_count.wrapping_sub(
                    saturate_usize((subtree_size(old(self).root) - subtree_size(final(self).root)) as nat) as i32)
            }),
            !r.1 ==> final(self).root == old(self).root && final(self).node_count == old(self).node_count,
            well_formed(old(self).root) ==> well_formed(final(self).root),
            final(self).max_nodes == old(self).max_nodes,
            final(self).move_selection_strategy == old(self).move_selection_strategy,
    {
        let pressure = self.memory_pressure();
        if pressure {
            self.auto_prune();
        }
        let batch = if iterations_remaining < BATCH_SIZE { iterations_remaining } else { BATCH_SIZE };
        (batch, pressure)
    }

    /// The move a finished search plays: the best root child under the
    /// strategy; without children, one of the `possible_moves` at random.
    pub fn choose_final_move(&self, rng: &mut MoveRng, possible_moves: usize) -> (f: FinalMove)
        ensures
            self.root.children@.len() > 0 ==> (f matches FinalMove::Child(i)
                && is_best_child(self.root, self.move_selection_strategy, i as int)),
            self.root.children@.len() == 0 && possible_moves > 0 ==> (f matches FinalMove::Possible(i) && i < possible_moves),
            self.root.children@.len() == 0 && possible_moves == 0 ==> f == FinalMove::NoMoves,
    {
        if self.root.children.len() > 0 {
            FinalMove::Child(self.select_best_move())
        } else if possible_moves > 0 {
            FinalMove::Possible(rng.random_range(0, possible_moves))
        } else {
            FinalMove::NoMoves
        }
    }

    /// Visit and win counts of the root's children on a `board_size` square
    /// grid, `move_texts` describing the children's moves in order (see
    /// `move_coordinates`); cells named by no child hold 0.
    pub fn get_grid_stats(&self, board_size: usize, move_texts: &Vec<String>) -> (g: (Vec<Vec<i32>>, Vec<Vec<i32>>))
        requires
            move_texts@.len() == self.root.children@.len(),
        ensures
            g.0@.len() == board_size,
            g.1@.len() == board_size,
            forall|r: int| 0 <= r < board_size ==> (#[trigger] g.0@[r])@.len() == board_size,
            forall|r: int| 0 <= r < board_size ==> (#[trigger] g.1@[r])@.len() == board_size,
            forall|r: int, c: int| 0 <= r < board_size && 0 <= c < board_size ==>
                #[trigger] g.0@[r]@[c] == grid_value(self.root.children@, coords_of(move_texts@), r as usize, c as usize, false),
            forall|r: int, c: int| 0 <= r < board_size && 0 <= c < board_size ==>
                #[trigger] g.1@[r]@[c] == grid_value(self.root.children@, coords_of(move_texts@), r as usize, c as usize, true),
    {
        let ghost cs = self.root.children@;
        let ghost coords = coords_of(move_texts@);
        let mut visits_grid: Vec<Vec<i32>> = Vec::new();
        let mut wins_grid: Vec<Vec<i32>> = Vec::new();
        let mut r: usize = 0;
        while r < board_size
            invariant
                r <= board_size,
                visits_grid@.len() == r,
                wins_grid@.len() == r,
                forall|q: int| 0 <= q < r ==> (#[trigger] visits_grid@[q])@ == Seq::new(board_size as nat, |c: int| 0i32),
                forall|q: int| 0 <= q < r ==> (#[trigger] wins_grid@[q])@ == Seq::new(board_size as nat, |c: int| 0i32),
            decreases board_size - r,
        {
            let mut line: Vec<i32> = Vec::new();
            let mut c: usize = 0;
            while c < board_size
                invariant
                    c <= board_size,
                    line@ == Seq::new(c as nat, |k: int| 0i32),
                decreases board_size - c,
            {
                line.push(0);
                c = c + 1;
                proof {
                    assert(line@ =~= Seq::new(c as nat, |k: int| 0i32));
                }
            }
            let copy = line.clone();
            proof {
                assert(copy@ =~= line@);
            }
            visits_grid.push(line);
            wins_grid.push(copy);
            r = r + 1;
        }
        let mut i: usize = 0;
        while i < self.root.children.len()
            invariant
                cs == self.root.children@,
                coords == coords_of(move_texts@),
                move_texts@.len() == cs.len(),
                i <= cs.len(),
                visits_grid@.len() == board_size,
                wins_grid@.len() == board_size,
                forall|q: int| 0 <= q < board_size ==> (#[trigger] visits_grid@[q])@.len() == board_size,
                forall|q: int| 0 <= q < board_size ==> (#[trigger] wins_grid@[q])@.len() == board_size,
                forall|q: int, c: int| 0 <= q < board_size && 0 <= c < board_size ==>
                    #[trigger] visits_grid@[q]@[c] == {
                        let k = last_naming(coords, q as usize, c as usize, i as int);
                        if k < 0 { 0i32 } else { cs[k].node.visits }
                    },
                forall|q: int, c: int| 0 <= q < board_size && 0 <= c < board_size ==>
                    #[trigger] wins_grid@[q]@[c] == {
                        let k = last_naming(coords, q as usize, c as usize, i as int);
                        if k < 0 { 0i32 } else { cs[k].node.wins }
                    },
            decreases cs.len() - i,
        {
            let named = extract_move_coordinates(move_texts[i].as_str());
            proof {
                assert(named == coords[i as int]);
            }
            let visits = self.root.children[i].node.visits;
            let wins = self.root.children[i].node.wins;
            match named {
                Some((r, c)) => {
                    if r < board_size && c < board_size {
                        let ghost vb = visits_grid@;
                        let ghost wb = wins_grid@;
                        let mut vline = visits_grid[r].clone();
                        let mut wline = wins_grid[r].clone();
                        proof {
                            assert(vline@ =~= vb[r as int]@);
                            assert(wline@ =~= wb[r as int]@);
                        }
                        vline.set(c, visits);
                        wline.set(c, wins);
                        visits_grid.set(r, vline);
                        wins_grid.set(r, wline);
                        proof {
                            assert forall|q: int| 0 <= q < board_size implies (#[trigger] visits_grid@[q])@.len() == board_size by {
                                if q != r {
                                    assert(visits_grid@[q] == vb[q]);
                                }
                            }
                            assert forall|q: int| 0 <= q < board_size implies (#[trigger] wins_grid@[q])@.len() == board_size by {
                                if q != r {
                                    assert(wins_grid@[q] == wb[q]);
                                }
                            }
                            assert forall|q: int, cc: int| 0 <= q < board_size && 0 <= cc < board_size implies
                                #[trigger] visits_grid@[q]@[cc] == {
                                    let k = last_naming(coords, q as usize, cc as usize, i + 1);
                                    if k < 0 { 0i32 } else { cs[k].node.visits }
                                } by {
                                if q != r {
                                    assert(visits_grid@[q] == vb[q]);
                                }
                            }
                            assert forall|q: int, cc: int| 0 <= q < board_size && 0 <= cc < board_size implies
                                #[trigger] wins_grid@[q]@[cc] == {
                                    let k = last_naming(coords, q as usize, cc as usize, i + 1);
                                    if k < 0 { 0i32 } else { cs[k].node.wins }
                                } by {
                                if q != r {
                                    assert(wins_grid@[q] == wb[q]);
                                }
                            }
                        }
                    }
                },
                None => {},
            }
            i = i + 1;
        }
        (visits_grid, wins_grid)
    }

    /// Expands the root before a search when it has no children and the
    /// position is not over: one child per distinct possible move.
    pub fn ensure_root_expanded_for<S: GameState<Move = M>>(&mut self, state: &S)
        where M: PartialEq,
        requires
            vstd::laws_eq::obeys_concrete_eq::<M>(),
        ensures
            final(self).root.visits == old(self).root.visits,
            final(self).root.wins == old(self).root.wins,
            final(self).root.virtual_losses == old(self).root.virtual_losses,
            final(self).root.depth == old(self).root.depth,
            old(self).root.children@.len() > 0 ==> final(self).root.children@ == old(self).root.children@
                && final(self).node_count == old(self).node_count,
            old(self).root.children@.len() == 0 ==> (final(self).root.children@ == old(self).root.children@
                && final(self).node_count == old(self).node_count) || exists|moves: Seq<M>| {
                &&& children_for_moves(final(self).root.children@, moves, 1)
                &&& final(self).node_count == old(self).node_count.wrapping_add(moves.len() as i32)
            },
            well_formed(old(self).root) && old(self).root.depth == 0 ==> well_formed(final(self).root),
            final(self).max_nodes == old(self).max_nodes,
            final(self).move_selection_strategy == old(self).move_selection_strategy,
    {
        if self.root.children.len() == 0 && !state.is_terminal() {
            let moves = state.get_possible_moves();
            let ghost ms = moves@;
            self.ensure_root_expanded(false, moves);
            proof {
                assert(children_for_moves(self.root.children@, ms, 1));
            }
        }
    }
}

/// The visit counts of `cs`, in order.
pub open spec fn child_visits<M>(cs: Seq<Child<M>>) -> Seq<i32> {
    Seq::new(cs.len(), |i: int| cs[i].node.visits)
}

impl<M> SearchTree<M> {
    /// The positions of the (at most) `k` most visited children of the
    /// root, most visited first, ties in the order of the children.
    pub fn top_children_by_visits(&self, k: usize) -> (r: Vec<usize>)
        ensures
            r@.len() == (if k < self.root.children@.len() { k as int } else { self.root.children@.len() as int }),
            is_top_of(child_visits(self.root.children@), r@),
    {
        let mut visits: Vec<i32> = Vec::new();
        let mut i: usize = 0;
        while i < self.root.children.len()
            invariant
                i <= self.root.children@.len(),
                visits@ == child_visits(self.root.children@).subrange(0, i as int),
            decreases self.root.children@.len() - i,
        {
            visits.push(self.root.children[i].node.visits);
            i = i + 1;
            proof {
                assert(visits@ =~= child_visits(self.root.children@).subrange(0, i as int));
            }
        }
        proof {
            assert(visits@ =~= child_visits(self.root.children@));
        }
        top_indices_desc(&visits, k)
    }
}

} // verus!
