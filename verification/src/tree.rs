//! The search tree: nodes with integer visit/win statistics, owned children
//! keyed by moves, and the operations the search performs on it.
use vstd::prelude::*;

verus! {

/// A node of the search tree.
///
/// `wins` counts rewards from the perspective of the player who made the
/// move leading to this node: 2 for a win, 1 for a draw, 0 for a loss.
pub struct Node<M> {
    pub visits: i32,
    pub wins: i32,
    pub virtual_losses: i32,
    pub depth: u32,
    pub children: Vec<Child<M>>,
}

/// An edge of the tree: the move and the node it leads to.
pub struct Child<M> {
    pub mv: M,
    pub node: Node<M>,
}

/// Number of nodes in the subtree rooted at `n`, `n` included.
pub open spec fn subtree_size<M>(n: Node<M>) -> nat
    decreases n, 0nat,
{
    1 + children_size(n.children@, n.children@.len())
}

/// Number of nodes in the subtrees of the first `k` children in `cs`.
pub open spec fn children_size<M>(cs: Seq<Child<M>>, k: nat) -> nat
    decreases cs, k,
{
    if k == 0 || k > cs.len() {
        0
    } else {
        children_size(cs, (k - 1) as nat) + subtree_size(cs[k - 1].node)
    }
}

/// A node with no statistics and no children at the given depth.
pub open spec fn is_fresh<M>(n: Node<M>, depth: u32) -> bool {
    &&& n.visits == 0
    &&& n.wins == 0
    &&& n.virtual_losses == 0
    &&& n.depth == depth
    &&& n.children@.len() == 0
}

pub open spec fn saturate_usize(x: nat) -> usize {
    if x <= usize::MAX {
        x as usize
    } else {
        usize::MAX
    }
}

impl<M> Node<M> {
    /// A fresh node at the given depth.
    pub fn new_at_depth(depth: u32) -> (n: Self)
        ensures
            is_fresh(n, depth),
    {
        Node { visits: 0, wins: 0, virtual_losses: 0, depth, children: Vec::new() }
    }

    /// A fresh root node (depth 0).
    pub fn new() -> (n: Self)
        ensures
            is_fresh(n, 0),
    {
        Self::new_at_depth(0)
    }

    /// Counts the nodes of the subtree rooted here, this node included
    /// (saturating at `usize::MAX`).
    pub fn count_subtree_nodes(&self) -> (count: usize)
        ensures
            count == saturate_usize(subtree_size(*self)),
        decreases *self,
    {
        let mut total: usize = 1;
        let mut i: usize = 0;
        while i < self.children.len()
            invariant
                i <= self.children@.len(),
                total == saturate_usize(1 + children_size(self.children@, i as nat)),
            decreases self.children@.len() - i,
        {
            assert(decreases_to!(*self => self.children@[i as int].node));
            let c = self.children[i].node.count_subtree_nodes();
            total = total.saturating_add(c);
            i = i + 1;
        }
        total
    }
}


/// `path` (from position `k` on) names, by child position, a chain of
/// existing nodes below `n`.
pub open spec fn valid_path<M>(n: Node<M>, path: Seq<usize>, k: nat) -> bool
    decreases path.len() - k,
{
    if k >= path.len() {
        true
    } else {
        &&& path[k as int] < n.children@.len()
        &&& valid_path(n.children@[path[k as int] as int].node, path, k + 1)
    }
}

/// The node reached from `n` by following `path` from position `k` on.
pub open spec fn node_at<M>(n: Node<M>, path: Seq<usize>, k: nat) -> Node<M>
    decreases path.len() - k,
{
    if k >= path.len() {
        n
    } else {
        node_at(n.children@[path[k as int] as int].node, path, k + 1)
    }
}

/// `new` is `old` with only the nodes on `path` (from position `k` on)
/// changed: the node at position `j` of the path satisfies `at(j, old_j, new_j)`,
/// keeps its depth, and keeps every child off the path.  The last node of the
/// path is related by `at` alone, children included.
pub open spec fn modified_along<M>(
    old: Node<M>,
    new: Node<M>,
    path: Seq<usize>,
    k: nat,
    at: spec_fn(nat, Node<M>, Node<M>) -> bool,
) -> bool
    decreases path.len() - k,
{
    &&& at(k, old, new)
    &&& new.depth == old.depth
    &&& (k < path.len() ==> {
        let p = path[k as int] as int;
        &&& new.children@.len() == old.children@.len()
        &&& forall|i: int|
            0 <= i < old.children@.len() && i != p ==> new.children@[i] == old.children@[i]
        &&& new.children@[p].mv == old.children@[p].mv
        &&& modified_along(old.children@[p].node, new.children@[p].node, path, k + 1, at)
    })
}

/// The reward credited to a node whose move was made by `player`:
/// 2 when that player won, 0 when another player won, 1 for a draw.
pub open spec fn reward(winner: Option<i32>, player: i32) -> i32 {
    match winner {
        Some(w) => if w == player { 2 } else { 0 },
        None => 1,
    }
}

/// What backpropagation does to the `j`-th node of a path of length `len`:
/// one more visit, the reward for `players[j]`, one virtual loss removed
/// (each counter wraps around as an atomic counter does).
pub open spec fn backprop_step<M>(
    len: nat,
    players: Seq<i32>,
    winner: Option<i32>,
) -> spec_fn(nat, Node<M>, Node<M>) -> bool {
    |j: nat, o: Node<M>, n: Node<M>|
        {
            &&& n.visits == o.visits.wrapping_add(1)
            &&& n.wins == o.wins.wrapping_add(reward(winner, players[j as int]))
            &&& n.virtual_losses == o.virtual_losses.wrapping_sub(1)
            &&& (j >= len ==> n.children@ == o.children@)
        }
}

/// What releasing a stopped simulation does to each node of a path:
/// one virtual loss removed, nothing else changed.
pub open spec fn release_step<M>(len: nat) -> spec_fn(nat, Node<M>, Node<M>) -> bool {
    |j: nat, o: Node<M>, n: Node<M>|
        {
            &&& n.visits == o.visits
            &&& n.wins == o.wins
            &&& n.virtual_losses == o.virtual_losses.wrapping_sub(1)
            &&& (j >= len ==> n.children@ == o.children@)
        }
}

/// Only the last node of the path gets one more virtual loss.
pub open spec fn virtual_loss_step<M>(len: nat) -> spec_fn(nat, Node<M>, Node<M>) -> bool {
    |j: nat, o: Node<M>, n: Node<M>|
        {
            &&& n.visits == o.visits
            &&& n.wins == o.wins
            &&& n.virtual_losses == (if j >= len {
                o.virtual_losses.wrapping_add(1)
            } else {
                o.virtual_losses
            })
            &&& (j >= len ==> n.children@ == o.children@)
        }
}

impl<M> Node<M> {
    /// Records one finished simulation on this node: one more visit, the
    /// reward for `player`, and one virtual loss removed.
    pub fn record_result(&mut self, winner: Option<i32>, player: i32)
        ensures
            final(self).visits == old(self).visits.wrapping_add(1),
            final(self).wins == old(self).wins.wrapping_add(reward(winner, player)),
            final(self).virtual_losses == old(self).virtual_losses.wrapping_sub(1),
            final(self).depth == old(self).depth,
            final(self).children@ == old(self).children@,
    {
        self.virtual_losses = self.virtual_losses.wrapping_sub(1);
        self.visits = self.visits.wrapping_add(1);
        let r: i32 = match winner {
            Some(w) => if w == player { 2 } else { 0 },
            None => 1,
        };
        self.wins = self.wins.wrapping_add(r);
    }

    /// Backpropagates a simulation result along `path` (from position `k`):
    /// every node on the path records the result for the player who made the
    /// move leading to it (`players[j]` for the `j`-th node, the root first).
    pub fn backpropagate(&mut self, path: &Vec<usize>, k: usize, players: &Vec<i32>, winner: Option<i32>)
        requires
            k <= path@.len(),
            players@.len() == path@.len() + 1,
            valid_path(*old(self), path@, k as nat),
        ensures
            modified_along(*old(self), *final(self), path@, k as nat, backprop_step(path@.len(), players@, winner)),
        decreases path@.len() - k,
    {
        self.record_result(winner, players[k]);
        if k < path.len() {
            let p = path[k];
            self.children[p].node.backpropagate(path, k + 1, players, winner);
        }
    }
}


/// `cs` holds exactly one fresh child at `depth` for each distinct move of
/// `moves`, and nothing else.
pub open spec fn children_for_moves<M>(cs: Seq<Child<M>>, moves: Seq<M>, depth: u32) -> bool {
    &&& forall|i: int| 0 <= i < cs.len() ==> #[trigger] is_fresh(cs[i].node, depth)
    &&& forall|i: int, j: int| 0 <= i < j < cs.len() ==> cs[i].mv != cs[j].mv
    &&& forall|m: M| moves.contains(m) <==> exists|i: int| 0 <= i < cs.len() && cs[i].mv == m
    &&& cs.len() <= moves.len()
}

/// What expanding the last node of a path does: statistics unchanged; a
/// leaf gets one fresh child at `depth` per distinct move, a node that
/// already has children is left as it is.
pub open spec fn expand_step<M>(len: nat, moves: Seq<M>, depth: u32) -> spec_fn(nat, Node<M>, Node<M>) -> bool {
    |j: nat, o: Node<M>, n: Node<M>|
        {
            &&& n.visits == o.visits
            &&& n.wins == o.wins
            &&& n.virtual_losses == o.virtual_losses
            &&& (j >= len ==> if o.children@.len() == 0 {
                children_for_moves(n.children@, moves, depth)
            } else {
                n.children@ == o.children@
            })
        }
}

impl<M> Node<M> {
    /// Removes one virtual loss from every node on `path` (from position `k`),
    /// leaving visits and wins as they are: what a stopped simulation does.
    pub fn release_virtual_losses(&mut self, path: &Vec<usize>, k: usize)
        requires
            k <= path@.len(),
            valid_path(*old(self), path@, k as nat),
        ensures
            modified_along(*old(self), *final(self), path@, k as nat, release_step(path@.len())),
        decreases path@.len() - k,
    {
        self.virtual_losses = self.virtual_losses.wrapping_sub(1);
        if k < path.len() {
            let p = path[k];
            self.children[p].node.release_virtual_losses(path, k + 1);
        }
    }

    /// Adds one virtual loss to the node at the end of `path` (from position
    /// `k`), the node a search thread has just selected.
    pub fn apply_virtual_loss_at(&mut self, path: &Vec<usize>, k: usize)
        requires
            k <= path@.len(),
            valid_path(*old(self), path@, k as nat),
        ensures
            modified_along(*old(self), *final(self), path@, k as nat, virtual_loss_step(path@.len())),
        decreases path@.len() - k,
    {
        if k < path.len() {
            let p = path[k];
            self.children[p].node.apply_virtual_loss_at(path, k + 1);
        } else {
            self.virtual_losses = self.virtual_losses.wrapping_add(1);
        }
    }
}

impl<M: PartialEq> Node<M> {
    /// Position of the child reached by `mv`, if any.
    pub fn find_child(&self, mv: &M) -> (pos: Option<usize>)
        requires
            vstd::laws_eq::obeys_concrete_eq::<M>(),
        ensures
            match pos {
                Some(i) => i < self.children@.len() && self.children@[i as int].mv == *mv,
                None => forall|i: int| 0 <= i < self.children@.len() ==> self.children@[i].mv != *mv,
            },
    {
        proof {
            reveal(vstd::laws_eq::obeys_concrete_eq);
        }
        let mut i: usize = 0;
        while i < self.children.len()
            invariant
                i <= self.children@.len(),
                vstd::laws_eq::obeys_concrete_eq::<M>(),
                forall|j: int| 0 <= j < i ==> self.children@[j].mv != *mv,
            decreases self.children@.len() - i,
        {
            proof {
                reveal(vstd::laws_eq::obeys_concrete_eq);
            }
            if self.children[i].mv == *mv {
                return Some(i);
            }
            i = i + 1;
        }
        None
    }

    /// Expands a leaf: one fresh child at `depth` for each distinct move
    /// (a repeated move keeps a single child).  A node that already has
    /// children is left unchanged.  Returns the number of moves handed in
    /// when the node was a leaf, 0 otherwise.
    pub fn expand(&mut self, moves: Vec<M>, depth: u32) -> (added: usize)
        requires
            vstd::laws_eq::obeys_concrete_eq::<M>(),
        ensures
            final(self).visits == old(self).visits,
            final(self).wins == old(self).wins,
            final(self).virtual_losses == old(self).virtual_losses,
            final(self).depth == old(self).depth,
            old(self).children@.len() == 0 ==> children_for_moves(final(self).children@, moves@, depth),
            old(self).children@.len() != 0 ==> final(self).children@ == old(self).children@,
            added == (if old(self).children@.len() == 0 { moves@.len() } else { 0 }),
    {
        if self.children.len() != 0 {
            return 0;
        }
        let n = moves.len();
        let ghost all = moves@;
        let mut rest = moves;
        while rest.len() > 0
            invariant
                vstd::laws_eq::obeys_concrete_eq::<M>(),
                self.visits == old(self).visits,
                self.wins == old(self).wins,
                self.virtual_losses == old(self).virtual_losses,
                self.depth == old(self).depth,
                rest@.len() <= all.len(),
                rest@ == all.subrange(0, rest@.len() as int),
                self.children@.len() <= all.len() - rest@.len(),
                forall|i: int| 0 <= i < self.children@.len() ==> #[trigger] is_fresh(self.children@[i].node, depth),
                forall|i: int, j: int| 0 <= i < j < self.children@.len() ==> self.children@[i].mv != self.children@[j].mv,
                forall|m: M| all.subrange(rest@.len() as int, all.len() as int).contains(m) <==>
                    exists|i: int| 0 <= i < self.children@.len() && self.children@[i].mv == m,
            decreases rest@.len(),
        {
            let ghost before = self.children@;
            let ghost rlen = rest@.len();
            let m = rest.pop().unwrap();
            assert(all.subrange(rest@.len() as int, all.len() as int) =~= seq![m] + all.subrange(rlen as int, all.len() as int));
            let ghost suffix = all.subrange(rlen as int, all.len() as int);
            match self.find_child(&m) {
                Some(pos) => {
                    assert forall|x: M| all.subrange(rest@.len() as int, all.len() as int).contains(x) <==>
                        exists|i: int| 0 <= i < self.children@.len() && self.children@[i].mv == x by {
                        if x == m {
                            assert(self.children@[pos as int].mv == x);
                            assert(all.subrange(rest@.len() as int, all.len() as int)[0] == x);
                        } else if all.subrange(rest@.len() as int, all.len() as int).contains(x) {
                            let k = choose|k: int| 0 <= k < all.subrange(rest@.len() as int, all.len() as int).len()
                                && all.subrange(rest@.len() as int, all.len() as int)[k] == x;
                            assert(k > 0);
                            assert(suffix[k - 1] == x);
                            assert(suffix.contains(x));
                        } else if exists|i: int| 0 <= i < self.children@.len() && self.children@[i].mv == x {
                            assert(suffix.contains(x));
                            let k = choose|k: int| 0 <= k < suffix.len() && suffix[k] == x;
                            assert(all.subrange(rest@.len() as int, all.len() as int)[k + 1] == x);
                        }
                    }
                },
                None => {
                    self.children.push(Child { mv: m, node: Node::new_at_depth(depth) });
                    assert forall|x: M| all.subrange(rest@.len() as int, all.len() as int).contains(x) <==>
                        exists|i: int| 0 <= i < self.children@.len() && self.children@[i].mv == x by {
                        if x == m {
                            assert(self.children@[before.len() as int].mv == x);
                            assert(all.subrange(rest@.len() as int, all.len() as int)[0] == x);
                        } else if all.subrange(rest@.len() as int, all.len() as int).contains(x) {
                            let k = choose|k: int| 0 <= k < all.subrange(rest@.len() as int, all.len() as int).len()
                                && all.subrange(rest@.len() as int, all.len() as int)[k] == x;
                            assert(k > 0);
                            assert(suffix[k - 1] == x);
                            assert(suffix.contains(x));
                            let i = choose|i: int| 0 <= i < before.len() && before[i].mv == x;
                            assert(self.children@[i] == before[i]);
                        } else if exists|i: int| 0 <= i < self.children@.len() && self.children@[i].mv == x {
                            let i = choose|i: int| 0 <= i < self.children@.len() && self.children@[i].mv == x;
                            assert(i < before.len());
                            assert(before[i].mv == x);
                            assert(suffix.contains(x));
                            let k = choose|k: int| 0 <= k < suffix.len() && suffix[k] == x;
                            assert(all.subrange(rest@.len() as int, all.len() as int)[k + 1] == x);
                        }
                    }
                },
            }
        }
        assert(all.subrange(0, all.len() as int) =~= all);
        n
    }
}


impl<M: PartialEq> Node<M> {
    /// Expands the node at the end of `path` (from position `k`): when it is
    /// a leaf it gets one fresh child, one level deeper, per distinct move.
    /// Returns the number of moves handed in when it was a leaf, 0 otherwise.
    pub fn expand_at(&mut self, path: &Vec<usize>, k: usize, moves: Vec<M>) -> (added: usize)
        requires
            vstd::laws_eq::obeys_concrete_eq::<M>(),
            k <= path@.len(),
            valid_path(*old(self), path@, k as nat),
            node_at(*old(self), path@, k as nat).depth < u32::MAX,
        ensures
            modified_along(*old(self), *final(self), path@, k as nat,
                expand_step(path@.len(), moves@, (node_at(*old(self), path@, k as nat).depth + 1) as u32)),
            added == (if node_at(*old(self), path@, k as nat).children@.len() == 0 { moves@.len() } else { 0 }),
        decreases path@.len() - k,
    {
        if k < path.len() {
            let p = path[k];
            self.children[p].node.expand_at(path, k + 1, moves)
        } else {
            let d = self.depth + 1;
            self.expand(moves, d)
        }
    }
}


/// `new` is `old` after pruning with threshold `t`: statistics and depth are
/// kept, and every child keeps its move and is pruned as `child_pruned` says.
pub open spec fn is_pruned<M>(old: Node<M>, new: Node<M>, t: i32) -> bool
    decreases old, 0nat,
{
    &&& new.visits == old.visits
    &&& new.wins == old.wins
    &&& new.virtual_losses == old.virtual_losses
    &&& new.depth == old.depth
    &&& new.children@.len() == old.children@.len()
    &&& forall|i: int| #![trigger new.children@[i]]
        0 <= i < old.children@.len() ==> {
            &&& new.children@[i].mv == old.children@[i].mv
            &&& child_pruned(old.children@[i].node, new.children@[i].node, t)
        }
}

/// A child with fewer than `t` visits keeps its statistics but loses its
/// whole subtree; a child with more than `t` visits is pruned in turn; a
/// child with exactly `t` visits is left as it is.
pub open spec fn child_pruned<M>(old: Node<M>, new: Node<M>, t: i32) -> bool
    decreases old, 1nat,
{
    if old.visits < t {
        &&& new.visits == old.visits
        &&& new.wins == old.wins
        &&& new.virtual_losses == old.virtual_losses
        &&& new.depth == old.depth
        &&& new.children@.len() == 0
    } else if old.visits > t {
        is_pruned(old, new, t)
    } else {
        new == old
    }
}

/// Saturating addition of two counts is the count of the sum, saturated.
pub proof fn lemma_saturate_add(a: nat, b: nat)
    ensures
        (if saturate_usize(a) + saturate_usize(b) <= usize::MAX {
            (saturate_usize(a) + saturate_usize(b)) as usize
        } else {
            usize::MAX
        }) == saturate_usize(a + b),
{
}

/// The size of the first `k` children depends on those children only.
pub proof fn lemma_children_size_prefix<M>(a: Seq<Child<M>>, b: Seq<Child<M>>, k: nat)
    requires
        k <= a.len(),
        k <= b.len(),
        forall|j: int| 0 <= j < k ==> a[j] == b[j],
    ensures
        children_size(a, k) == children_size(b, k),
    decreases k,
{
    if k > 0 {
        lemma_children_size_prefix(a, b, (k - 1) as nat);
    }
}

/// Pruning never adds nodes.
pub proof fn lemma_pruned_size<M>(old: Node<M>, new: Node<M>, t: i32)
    requires
        child_pruned(old, new, t),
    ensures
        subtree_size(new) <= subtree_size(old),
    decreases old,
{
    if old.visits > t {
        lemma_pruned_children_size(old, new, t, old.children@.len());
    }
}

proof fn lemma_pruned_children_size<M>(old: Node<M>, new: Node<M>, t: i32, k: nat)
    requires
        is_pruned(old, new, t),
        k <= old.children@.len(),
    ensures
        children_size(new.children@, k) <= children_size(old.children@, k),
    decreases old, k,
{
    if k > 0 {
        lemma_pruned_children_size(old, new, t, (k - 1) as nat);
        let j = k - 1;
        assert(new.children@[j].mv == old.children@[j].mv);
        assert(decreases_to!(old => old.children@[j].node));
        lemma_pruned_size(old.children@[j].node, new.children@[j].node, t);
    }
}

impl<M> Node<M> {
    /// Counts the nodes below this one (saturating at `usize::MAX`).
    pub fn count_descendants(&self) -> (count: usize)
        ensures
            count == saturate_usize(children_size(self.children@, self.children@.len())),
    {
        let mut total: usize = 0;
        let mut i: usize = 0;
        while i < self.children.len()
            invariant
                i <= self.children@.len(),
                total == saturate_usize(children_size(self.children@, i as nat)),
            decreases self.children@.len() - i,
        {
            let c = self.children[i].node.count_subtree_nodes();
            proof {
                lemma_saturate_add(children_size(self.children@, i as nat), subtree_size(self.children@[i as int].node));
            }
            total = total.saturating_add(c);
            i = i + 1;
        }
        total
    }

    /// Prunes weak subtrees below this node with threshold `min_visits`
    /// (see `is_pruned`).  Returns the number of nodes removed (saturating).
    pub fn prune_weak_children(&mut self, min_visits: i32) -> (removed: usize)
        ensures
            is_pruned(*old(self), *final(self), min_visits),
            subtree_size(*final(self)) <= subtree_size(*old(self)),
            removed == saturate_usize((subtree_size(*old(self)) - subtree_size(*final(self))) as nat),
        decreases *old(self),
    {
        let ghost old_children = self.children@;
        let mut total: usize = 0;
        let mut i: usize = 0;
        while i < self.children.len()
            invariant
                i <= self.children@.len(),
                self.children@.len() == old_children.len(),
                self.visits == old(self).visits,
                self.wins == old(self).wins,
                self.virtual_losses == old(self).virtual_losses,
                self.depth == old(self).depth,
                old_children == old(self).children@,
                forall|j: int| i <= j < old_children.len() ==> self.children@[j] == old_children[j],
                forall|j: int| #![trigger self.children@[j]]
                    0 <= j < i ==> {
                        &&& self.children@[j].mv == old_children[j].mv
                        &&& child_pruned(old_children[j].node, self.children@[j].node, min_visits)
                    },
                children_size(self.children@, i as nat) <= children_size(old_children, i as nat),
                total == saturate_usize((children_size(old_children, i as nat) - children_size(self.children@, i as nat)) as nat),
            decreases old_children.len() - i,
        {
            let ghost before = self.children@;
            let v = self.children[i].node.visits;
            let ghost oc = old_children[i as int].node;
            assert(decreases_to!(*old(self) => oc));
            if v < min_visits {
                let c = self.children[i].node.count_descendants();
                self.children[i].node.children = Vec::new();
                proof {
                    lemma_saturate_add(
                        (children_size(old_children, i as nat) - children_size(before, i as nat)) as nat,
                        children_size(oc.children@, oc.children@.len()),
                    );
                }
                total = total.saturating_add(c);
            } else if v > min_visits {
                let c = self.children[i].node.prune_weak_children(min_visits);
                proof {
                    lemma_saturate_add(
                        (children_size(old_children, i as nat) - children_size(before, i as nat)) as nat,
                        (subtree_size(oc) - subtree_size(self.children@[i as int].node)) as nat,
                    );
                }
                total = total.saturating_add(c);
            }
            proof {
                lemma_children_size_prefix(before, self.children@, i as nat);
                assert(child_pruned(oc, self.children@[i as int].node, min_visits));
                lemma_pruned_size(oc, self.children@[i as int].node, min_visits);
                assert forall|j: int| #![trigger self.children@[j]] 0 <= j < i + 1 implies {
                    &&& self.children@[j].mv == old_children[j].mv
                    &&& child_pruned(old_children[j].node, self.children@[j].node, min_visits)
                } by {
                    if j < i {
                        assert(self.children@[j] == before[j]);
                    }
                }
            }
            i = i + 1;
        }
        total
    }
}


/// Children with the same subtree sizes have the same total size.
pub proof fn lemma_children_size_same_sizes<M>(a: Seq<Child<M>>, b: Seq<Child<M>>, k: nat)
    requires
        k <= a.len(),
        k <= b.len(),
        forall|j: int| 0 <= j < k ==> subtree_size(a[j].node) == subtree_size(b[j].node),
    ensures
        children_size(a, k) == children_size(b, k),
    decreases k,
{
    if k > 0 {
        lemma_children_size_same_sizes(a, b, (k - 1) as nat);
    }
}

/// A change along a path that leaves the children of the last node alone
/// keeps the number of nodes.
pub proof fn lemma_modified_along_keeps_size<M>(
    old: Node<M>,
    new: Node<M>,
    path: Seq<usize>,
    k: nat,
    at: spec_fn(nat, Node<M>, Node<M>) -> bool,
)
    requires
        k <= path.len(),
        valid_path(old, path, k),
        modified_along(old, new, path, k, at),
        forall|j: nat, o: Node<M>, n: Node<M>| j >= path.len() && #[trigger] at(j, o, n) ==> n.children@ == o.children@,
    ensures
        subtree_size(new) == subtree_size(old),
    decreases path.len() - k,
{
    if k < path.len() {
        let p = path[k as int] as int;
        lemma_modified_along_keeps_size(old.children@[p].node, new.children@[p].node, path, k + 1, at);
        assert forall|j: int| 0 <= j < old.children@.len() implies
            subtree_size(old.children@[j].node) == subtree_size(new.children@[j].node) by {
            if j != p {
                assert(new.children@[j] == old.children@[j]);
            }
        }
        lemma_children_size_same_sizes(old.children@, new.children@, old.children@.len());
    } else {
        assert(at(k, old, new));
        assert(new.children@ == old.children@);
    }
}

} // verus!
