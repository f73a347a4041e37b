//! The shape every search tree keeps: the children of a node are reached by
//! different moves and lie one level deeper than it.
use vstd::prelude::*;
use crate::tree::{Node, Child, valid_path, node_at, modified_along, is_pruned, child_pruned, is_fresh};

verus! {

/// The children in `cs` are reached by different moves.
pub open spec fn distinct_moves<M>(cs: Seq<Child<M>>) -> bool {
    forall|i: int, j: int| 0 <= i < j < cs.len() ==> cs[i].mv != cs[j].mv
}

/// Below `n`, siblings have different moves and every child's depth is one
/// more than its parent's.
pub open spec fn well_formed<M>(n: Node<M>) -> bool
    decreases n, 0nat,
{
    &&& distinct_moves(n.children@)
    &&& children_well_formed(n.children@, n.depth, n.children@.len())
}

/// The first `k` children in `cs` lie at `depth + 1` and are well formed.
pub open spec fn children_well_formed<M>(cs: Seq<Child<M>>, depth: u32, k: nat) -> bool
    decreases cs, k,
{
    if k == 0 || k > cs.len() {
        true
    } else {
        &&& children_well_formed(cs, depth, (k - 1) as nat)
        &&& cs[k - 1].node.depth == depth + 1
        &&& well_formed(cs[k - 1].node)
    }
}

pub proof fn lemma_children_well_formed<M>(cs: Seq<Child<M>>, depth: u32, k: nat)
    requires
        k <= cs.len(),
    ensures
        children_well_formed(cs, depth, k) <==> forall|i: int| 0 <= i < k ==> {
            &&& (#[trigger] cs[i]).node.depth == depth + 1
            &&& well_formed(cs[i].node)
        },
    decreases k,
{
    if k > 0 {
        lemma_children_well_formed(cs, depth, (k - 1) as nat);
    }
}

/// The well-formedness of a node depends on its depth and children only.
pub proof fn lemma_same_shape<M>(o: Node<M>, n: Node<M>)
    requires
        well_formed(o),
        n.depth == o.depth,
        n.children@ == o.children@,
    ensures
        well_formed(n),
{
    lemma_children_well_formed(o.children@, o.depth, o.children@.len());
    lemma_children_well_formed(n.children@, n.depth, n.children@.len());
}

/// A node without children is well formed.
pub proof fn lemma_leaf_well_formed<M>(n: Node<M>)
    requires
        n.children@.len() == 0,
    ensures
        well_formed(n),
{
}

/// Every node on a valid path below a well-formed node is well formed.
pub proof fn lemma_well_formed_along<M>(n: Node<M>, path: Seq<usize>, k: nat)
    requires
        k <= path.len(),
        valid_path(n, path, k),
        well_formed(n),
    ensures
        well_formed(node_at(n, path, k)),
    decreases path.len() - k,
{
    if k < path.len() {
        let p = path[k as int] as int;
        lemma_children_well_formed(n.children@, n.depth, n.children@.len());
        assert(n.children@[p].node.depth == n.depth + 1);
        lemma_well_formed_along(n.children@[p].node, path, k + 1);
    }
}

/// A change along a path keeps a tree well formed when the node at the
/// path's end ends up well formed.
pub proof fn lemma_modified_along_well_formed<M>(
    old: Node<M>,
    new: Node<M>,
    path: Seq<usize>,
    k: nat,
    at: spec_fn(nat, Node<M>, Node<M>) -> bool,
)
    requires
        k <= path.len(),
        valid_path(old, path, k),
        modified_along(old, new, path, k, at),
        well_formed(old),
        well_formed(node_at(new, path, k)),
    ensures
        well_formed(new),
    decreases path.len() - k,
{
    if k < path.len() {
        let p = path[k as int] as int;
        lemma_children_well_formed(old.children@, old.depth, old.children@.len());
        lemma_modified_along_well_formed(old.children@[p].node, new.children@[p].node, path, k + 1, at);
        reveal_with_fuel(modified_along, 2);
        assert(new.children@[p].node.depth == old.children@[p].node.depth);
        assert forall|i: int| 0 <= i < new.children@.len() implies {
            &&& (#[trigger] new.children@[i]).node.depth == new.depth + 1
            &&& well_formed(new.children@[i].node)
        } by {
            if i != p {
                assert(new.children@[i] == old.children@[i]);
            }
        }
        assert forall|i: int, j: int| 0 <= i < j < new.children@.len() implies new.children@[i].mv != new.children@[j].mv by {
            if i != p {
                assert(new.children@[i] == old.children@[i]);
            }
            if j != p {
                assert(new.children@[j] == old.children@[j]);
            }
        }
        lemma_children_well_formed(new.children@, new.depth, new.children@.len());
    }
}

/// The node at the end of a changed path, related as the change prescribes.
pub proof fn lemma_change_at_end<M>(
    old: Node<M>,
    new: Node<M>,
    path: Seq<usize>,
    k: nat,
    at: spec_fn(nat, Node<M>, Node<M>) -> bool,
)
    requires
        k <= path.len(),
        valid_path(old, path, k),
        modified_along(old, new, path, k, at),
    ensures
        valid_path(new, path, k),
        at(path.len(), node_at(old, path, k), node_at(new, path, k)),
        node_at(new, path, k).depth == node_at(old, path, k).depth,
    decreases path.len() - k,
{
    if k < path.len() {
        let p = path[k as int] as int;
        lemma_change_at_end(old.children@[p].node, new.children@[p].node, path, k + 1, at);
    }
}

/// Pruning keeps a tree well formed.
pub proof fn lemma_pruned_well_formed<M>(a: Node<M>, b: Node<M>, t: i32)
    requires
        is_pruned(a, b, t),
        well_formed(a),
    ensures
        well_formed(b),
    decreases a,
{
    lemma_children_well_formed(a.children@, a.depth, a.children@.len());
    assert forall|i: int| 0 <= i < b.children@.len() implies {
        &&& (#[trigger] b.children@[i]).node.depth == b.depth + 1
        &&& well_formed(b.children@[i].node)
    } by {
        let oc = a.children@[i].node;
        let bc = b.children@[i].node;
        assert(child_pruned(oc, bc, t));
        if oc.visits > t {
            assert(is_pruned(oc, bc, t));
            lemma_pruned_well_formed(oc, bc, t);
        } else if oc.visits < t {
            lemma_leaf_well_formed(bc);
        }
    }
    assert forall|i: int, j: int| 0 <= i < j < b.children@.len() implies b.children@[i].mv != b.children@[j].mv by {
        assert(b.children@[i].mv == a.children@[i].mv);
        assert(b.children@[j].mv == a.children@[j].mv);
    }
    lemma_children_well_formed(b.children@, b.depth, b.children@.len());
}

/// Fresh children, one per distinct move, one level below a node of depth
/// `depth`, make it well formed.
pub proof fn lemma_fresh_children_well_formed<M>(n: Node<M>, depth: u32)
    requires
        n.depth + 1 == depth,
        forall|i: int| 0 <= i < n.children@.len() ==> #[trigger] is_fresh(n.children@[i].node, depth),
        distinct_moves(n.children@),
    ensures
        well_formed(n),
{
    assert forall|i: int| 0 <= i < n.children@.len() implies {
        &&& (#[trigger] n.children@[i]).node.depth == n.depth + 1
        &&& well_formed(n.children@[i].node)
    } by {
        assert(is_fresh(n.children@[i].node, depth));
        lemma_leaf_well_formed(n.children@[i].node);
    }
    lemma_children_well_formed(n.children@, n.depth, n.children@.len());
}

/// Every child kept by a filter was a child before.
pub proof fn lemma_filter_from<A>(s: Seq<A>, f: spec_fn(A) -> bool)
    ensures
        forall|i: int| 0 <= i < s.filter(f).len() ==> exists|j: int| 0 <= j < s.len() && s[j] == #[trigger] s.filter(f)[i],
    decreases s.len(),
{
    reveal(Seq::filter);
    if s.len() > 0 {
        lemma_filter_from(s.drop_last(), f);
        let t = s.drop_last().filter(f);
        assert forall|i: int| 0 <= i < s.filter(f).len() implies exists|j: int| 0 <= j < s.len() && s[j] == #[trigger] s.filter(f)[i] by {
            if i < t.len() {
                assert(s.filter(f)[i] == t[i]);
                let j = choose|j: int| 0 <= j < s.drop_last().len() && s.drop_last()[j] == t[i];
                assert(s[j] == s.drop_last()[j]);
            } else {
                assert(s.filter(f)[i] == s.last());
                assert(s[s.len() - 1] == s.last());
            }
        }
    }
}

/// Filtering keeps siblings' moves different, and positions in order.
pub proof fn lemma_filter_distinct<M>(cs: Seq<Child<M>>, f: spec_fn(Child<M>) -> bool)
    requires
        distinct_moves(cs),
    ensures
        distinct_moves(cs.filter(f)),
    decreases cs.len(),
{
    reveal(Seq::filter);
    if cs.len() > 0 {
        let d = cs.drop_last();
        assert(distinct_moves(d)) by {
            assert forall|i: int, j: int| 0 <= i < j < d.len() implies d[i].mv != d[j].mv by {
                assert(d[i] == cs[i] && d[j] == cs[j]);
            }
        }
        lemma_filter_distinct(d, f);
        lemma_filter_from(d, f);
        let t = d.filter(f);
        if f(cs.last()) {
            assert(cs.filter(f) == t.push(cs.last()));
            assert forall|i: int, j: int| 0 <= i < j < t.push(cs.last()).len() implies
                t.push(cs.last())[i].mv != t.push(cs.last())[j].mv by {
                if j == t.len() {
                    assert(t.push(cs.last())[i] == t[i]);
                    let q = choose|q: int| 0 <= q < d.len() && d[q] == #[trigger] t[i];
                    assert(d[q] == cs[q]);
                    assert(cs[cs.len() - 1] == cs.last());
                } else {
                    assert(t.push(cs.last())[i] == t[i] && t.push(cs.last())[j] == t[j]);
                }
            }
        }
    }
}

/// A change along a path that leaves the children of the path's last node
/// as they were keeps a tree well formed.
pub proof fn lemma_same_children_at_end<M>(
    old: Node<M>,
    new: Node<M>,
    path: Seq<usize>,
    at: spec_fn(nat, Node<M>, Node<M>) -> bool,
)
    requires
        valid_path(old, path, 0),
        modified_along(old, new, path, 0, at),
        well_formed(old),
        forall|o: Node<M>, n: Node<M>| #[trigger] at(path.len(), o, n) ==> n.children@ == o.children@,
    ensures
        well_formed(new),
{
    lemma_change_at_end(old, new, path, 0, at);
    lemma_well_formed_along(old, path, 0);
    lemma_same_shape(node_at(old, path, 0), node_at(new, path, 0));
    lemma_modified_along_well_formed(old, new, path, 0, at);
}

/// A node that keeps some of a well-formed node's children, in order, at
/// the same depth, is well formed.
pub proof fn lemma_filter_well_formed<M>(n: Node<M>, b: Node<M>, f: spec_fn(Child<M>) -> bool)
    requires
        well_formed(n),
        b.depth == n.depth,
        b.children@ == n.children@.filter(f),
    ensures
        well_formed(b),
{
    lemma_children_well_formed(n.children@, n.depth, n.children@.len());
    lemma_filter_distinct(n.children@, f);
    lemma_filter_from(n.children@, f);
    assert forall|i: int| 0 <= i < b.children@.len() implies {
        &&& (#[trigger] b.children@[i]).node.depth == b.depth + 1
        &&& well_formed(b.children@[i].node)
    } by {
        let j = choose|j: int| 0 <= j < n.children@.len() && n.children@[j] == #[trigger] n.children@.filter(f)[i];
        assert(n.children@[j] == b.children@[i]);
    }
    lemma_children_well_formed(b.children@, b.depth, b.children@.len());
}

/// Every child of a well-formed node is well formed.
pub proof fn lemma_child_well_formed<M>(n: Node<M>, i: int)
    requires
        well_formed(n),
        0 <= i < n.children@.len(),
    ensures
        well_formed(n.children@[i].node),
        n.children@[i].node.depth == n.depth + 1,
{
    lemma_children_well_formed(n.children@, n.depth, n.children@.len());
}

} // verus!
