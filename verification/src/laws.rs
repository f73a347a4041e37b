//! Properties that hold across operations of the library.
use vstd::prelude::*;
use crate::tree::{Node, subtree_size, children_size, valid_path, node_at, modified_along, reward, release_step, virtual_loss_step, backprop_step, is_pruned, child_pruned};
use crate::engine::kept_children;
use crate::shape::lemma_change_at_end;
use crate::gui::{GuiMode, GameStatus, after_move_model, GuiSettings, adjusted, adjust_in_range, UiModel, GameType, PlayerType, toggled, toggle_tab_model, redrawn, scroll_debug_down_model,
    scroll_debug_up_model, scroll_history_down_model, scroll_history_up_model};
use crate::layout::{signed_step, Area};
use crate::mouse::{board_click_spec, BoardClick};
use crate::config::{sizes_for_game, lowercased};
use crate::text::{decimal, digit_char, digits_value, is_digit, parse_usize_spec, unsigned_part, all_digits,
    parse_pair, two_fields, is_separator_at, move_coordinates, contains_text, occurs_at, first_index, last_index,
    lemma_first_index, lemma_last_index};

verus! {

/// Virtual losses balance: a virtual loss put on the node that a search
/// thread selected is taken off again when the thread releases its path,
/// so that node ends with the virtual losses it had.
pub proof fn law_virtual_loss_released<M>(a: Node<M>, b: Node<M>, c: Node<M>, path: Seq<usize>)
    requires
        valid_path(a, path, 0),
        modified_along(a, b, path, 0, virtual_loss_step(path.len())),
        modified_along(b, c, path, 0, release_step(path.len())),
    ensures
        node_at(c, path, 0).virtual_losses == node_at(a, path, 0).virtual_losses,
        node_at(c, path, 0).visits == node_at(a, path, 0).visits,
        node_at(c, path, 0).wins == node_at(a, path, 0).wins,
{
    lemma_change_at_end(a, b, path, 0, virtual_loss_step(path.len()));
    lemma_change_at_end(b, c, path, 0, release_step(path.len()));
    let x = node_at(a, path, 0).virtual_losses;
    assert(x.wrapping_add(1).wrapping_sub(1) == x) by (bit_vector);
}

/// A finished simulation takes off the virtual loss it put on the node it
/// selected, and counts one more visit there with the reward of the player
/// who moved into it.
pub proof fn law_virtual_loss_settled_by_backprop<M>(
    a: Node<M>,
    b: Node<M>,
    c: Node<M>,
    path: Seq<usize>,
    players: Seq<i32>,
    winner: Option<i32>,
)
    requires
        valid_path(a, path, 0),
        modified_along(a, b, path, 0, virtual_loss_step(path.len())),
        modified_along(b, c, path, 0, backprop_step(path.len(), players, winner)),
    ensures
        node_at(c, path, 0).virtual_losses == node_at(a, path, 0).virtual_losses,
        node_at(c, path, 0).visits == node_at(a, path, 0).visits.wrapping_add(1),
        node_at(c, path, 0).wins == node_at(a, path, 0).wins.wrapping_add(reward(winner, players[path.len() as int])),
{
    lemma_change_at_end(a, b, path, 0, virtual_loss_step(path.len()));
    lemma_change_at_end(b, c, path, 0, backprop_step(path.len(), players, winner));
    let x = node_at(a, path, 0).virtual_losses;
    assert(x.wrapping_add(1).wrapping_sub(1) == x) by (bit_vector);
}

/// A simulation credits the node of each move 0, 1 or 2 points.
pub proof fn law_reward_range(winner: Option<i32>, player: i32)
    ensures
        0 <= reward(winner, player) <= 2,
        winner == Some(player) ==> reward(winner, player) == 2,
        winner is None ==> reward(winner, player) == 1,
{
}

/// Recording a result keeps a node's points between 0 and twice its visits
/// (while the counters do not wrap around).
pub proof fn law_record_keeps_win_bound<M>(old: Node<M>, new: Node<M>, winner: Option<i32>, player: i32)
    requires
        0 <= old.wins <= 2 * old.visits,
        2 * (old.visits + 1) <= i32::MAX,
        new.visits == old.visits.wrapping_add(1),
        new.wins == old.wins.wrapping_add(reward(winner, player)),
    ensures
        0 <= new.wins <= 2 * new.visits,
{
    law_reward_range(winner, player);
    assert(new.visits == old.visits + 1);
    assert(new.wins == old.wins + reward(winner, player));
}

/// Pruning twice with the same threshold changes nothing more: a pruned
/// tree is its own pruning.
pub proof fn law_prune_fixed_point<M>(a: Node<M>, b: Node<M>, t: i32)
    requires
        is_pruned(a, b, t),
    ensures
        is_pruned(b, b, t),
    decreases a,
{
    assert forall|i: int| #![trigger b.children@[i]] 0 <= i < b.children@.len() implies
        child_pruned(b.children@[i].node, b.children@[i].node, t) by {
        let oc = a.children@[i].node;
        let bc = b.children@[i].node;
        assert(a.children@[i].mv == b.children@[i].mv);
        assert(child_pruned(oc, bc, t));
        if oc.visits > t {
            assert(is_pruned(oc, bc, t));
            law_prune_fixed_point(oc, bc, t);
            assert(bc.visits == oc.visits);
            assert(child_pruned(bc, bc, t));
        } else if oc.visits < t {
            assert(bc.visits < t && bc.children@.len() == 0);
            assert(child_pruned(bc, bc, t));
        } else {
            assert(bc == oc);
            assert(child_pruned(bc, bc, t));
        }
    }
}

/// Dropping the root's weak children twice with the same threshold is the
/// same as dropping them once.
pub proof fn law_kept_children_idempotent<M>(cs: Seq<crate::tree::Child<M>>, t: i32)
    ensures
        kept_children(kept_children(cs, t), t) == kept_children(cs, t),
{
    let k = kept_children(cs, t);
    assert forall|i: int| 0 <= i < k.len() implies #[trigger] k[i].node.visits >= t by {
        cs.lemma_filter_pred(|c: crate::tree::Child<M>| c.node.visits >= t, i);
    }
    assert(k.filter(|c: crate::tree::Child<M>| c.node.visits >= t) =~= k) by {
        lemma_filter_all_kept(k, t);
    }
}

proof fn lemma_filter_all_kept<M>(k: Seq<crate::tree::Child<M>>, t: i32)
    requires
        forall|i: int| 0 <= i < k.len() ==> #[trigger] k[i].node.visits >= t,
    ensures
        k.filter(|c: crate::tree::Child<M>| c.node.visits >= t) == k,
    decreases k.len(),
{
    reveal(Seq::filter);
    if k.len() > 0 {
        lemma_filter_all_kept(k.drop_last(), t);
        assert(k.drop_last().push(k.last()) =~= k);
    } else {
        assert(k.filter(|c: crate::tree::Child<M>| c.node.visits >= t) =~= k);
    }
}

/// Switching the information tab twice shows the first tab again.
pub proof fn law_toggle_tab_twice(m: UiModel)
    ensures
        toggle_tab_model(toggle_tab_model(m)) == redrawn(m),
{
    assert(toggle_tab_model(toggle_tab_model(m)).nav =~= redrawn(m).nav);
}

/// Scrolling down then up returns to the same place (short of the largest
/// offset).
pub proof fn law_scroll_down_up(m: UiModel)
    requires
        0 <= m.nav.debug_scroll < i32::MAX,
        0 <= m.nav.history_scroll < i32::MAX,
    ensures
        scroll_debug_up_model(scroll_debug_down_model(m)) == redrawn(m),
        scroll_history_up_model(scroll_history_down_model(m)) == redrawn(m),
{
}

/// Toggling a player's controller cycles: from a human, three toggles come
/// back to a human, four in Othello (which adds the graphics-card search).
pub proof fn law_player_toggle_cycles(game: GameType)
    ensures
        game != GameType::Othello ==> toggled(toggled(toggled(PlayerType::Human, game), game), game) == PlayerType::Human,
        game == GameType::Othello ==> toggled(toggled(toggled(toggled(PlayerType::Human, game), game), game), game)
            == PlayerType::Human,
{
}

/// The steps reported by two successive drag updates add up to the step
/// from the first position to the last.
pub proof fn law_drag_steps_add_up(p0: u16, p1: u16, p2: u16)
    ensures
        signed_step(p1, p0) + signed_step(p2, p1) == signed_step(p2, p0),
{
}

/// Turning a Blokus piece forward and then back restores its orientation.
pub proof fn law_rotate_back_undoes_rotate(i: int, t: int)
    requires
        0 <= i < t,
        t > 1,
    ensures
        ((i + 1) % t + t - 1) % t == i,
{
    assert(((i + 1) % t + t - 1) % t == i) by (nonlinear_arith)
        requires
            0 <= i < t,
            t > 1,
    ;
}

/// The decimal text of a number reads back as that number.
pub proof fn law_decimal_reads_back(n: nat)
    requires
        n <= usize::MAX,
    ensures
        parse_usize_spec(decimal(n)) == Some(n as usize),
{
    lemma_decimal_digits(n);
    assert(unsigned_part(decimal(n)) == decimal(n));
}

proof fn lemma_decimal_digits(n: nat)
    ensures
        decimal(n).len() > 0,
        decimal(n)[0] != '+',
        all_digits(decimal(n)),
        digits_value(decimal(n)) == n,
    decreases n,
{
    if n >= 10 {
        lemma_decimal_digits(n / 10);
        let s = decimal(n);
        assert(s.drop_last() == decimal(n / 10));
        assert(s[0] == decimal(n / 10)[0]);
        assert forall|i: int| 0 <= i < s.len() implies #[trigger] is_digit(s[i]) by {
            if i < s.len() - 1 {
                assert(s[i] == decimal(n / 10)[i]);
            }
        }
        assert(s.last() == digit_char((n % 10) as nat));
        assert((digit_char((n % 10) as nat) as u32 - '0' as u32) == n % 10);
        assert(digits_value(s) == digits_value(s.drop_last()) * 10 + ((s.last() as u32 - '0' as u32) as nat));
        assert(n / 10 * 10 + n % 10 == n);
    } else {
        let s = decimal(n);
        assert((digit_char(n) as u32 - '0' as u32) == n);
        assert(s.drop_last().len() == 0);
        assert(digits_value(s.drop_last()) == 0);
        assert(digits_value(s) == digits_value(s.drop_last()) * 10 + ((s.last() as u32 - '0' as u32) as nat));
    }
}

/// Two trees with the same statistics, depths and moves everywhere.
pub open spec fn same_tree<M>(a: Node<M>, b: Node<M>) -> bool
    decreases a,
{
    &&& a.visits == b.visits
    &&& a.wins == b.wins
    &&& a.virtual_losses == b.virtual_losses
    &&& a.depth == b.depth
    &&& a.children@.len() == b.children@.len()
    &&& forall|i: int| #![trigger a.children@[i]]
        0 <= i < a.children@.len() ==> {
            &&& a.children@[i].mv == b.children@[i].mv
            &&& same_tree(a.children@[i].node, b.children@[i].node)
        }
}

proof fn lemma_same_tree_refl<M>(a: Node<M>)
    ensures
        same_tree(a, a),
    decreases a,
{
    assert forall|i: int| #![trigger a.children@[i]] 0 <= i < a.children@.len() implies
        same_tree(a.children@[i].node, a.children@[i].node) by {
        lemma_same_tree_refl(a.children@[i].node);
    }
}

proof fn lemma_same_tree_size<M>(a: Node<M>, b: Node<M>)
    requires
        same_tree(a, b),
    ensures
        subtree_size(a) == subtree_size(b),
    decreases a, 1nat, 0nat,
{
    lemma_same_children_size(a, b, a.children@.len());
}

proof fn lemma_same_children_size<M>(a: Node<M>, b: Node<M>, k: nat)
    requires
        same_tree(a, b),
        k <= a.children@.len(),
    ensures
        children_size(a.children@, k) == children_size(b.children@, k),
    decreases a, 0nat, k,
{
    if k > 0 {
        lemma_same_children_size(a, b, (k - 1) as nat);
        let i = k - 1;
        assert(same_tree(a.children@[i].node, b.children@[i].node));
        lemma_same_tree_size(a.children@[i].node, b.children@[i].node);
    }
}

/// Pruning is determined by the tree and the threshold: two prunings of the
/// same tree at the same threshold agree everywhere and have the same size.
/// So automatic pruning, which prunes at 0.1% of the root's visits (at
/// least 1), leaves the tree that `prune_tree` leaves at that threshold,
/// with the same node count.
pub proof fn law_pruning_is_determined<M>(a: Node<M>, b: Node<M>, c: Node<M>, t: i32)
    requires
        is_pruned(a, b, t),
        is_pruned(a, c, t),
    ensures
        same_tree(b, c),
        subtree_size(b) == subtree_size(c),
    decreases a,
{
    assert forall|i: int| #![trigger b.children@[i]] 0 <= i < b.children@.len() implies {
        &&& b.children@[i].mv == c.children@[i].mv
        &&& same_tree(b.children@[i].node, c.children@[i].node)
    } by {
        let oc = a.children@[i].node;
        let bc = b.children@[i].node;
        let cc = c.children@[i].node;
        assert(child_pruned(oc, bc, t) && child_pruned(oc, cc, t));
        if oc.visits > t {
            law_pruning_is_determined(oc, bc, cc, t);
        } else if oc.visits < t {
            assert(same_tree(bc, cc));
        } else {
            lemma_same_tree_refl(bc);
        }
    }
    lemma_same_tree_size(b, c);
}

/// Every node of the tree has between 0 and twice its visits in points.
pub open spec fn wins_within<M>(n: Node<M>) -> bool
    decreases n,
{
    &&& 0 <= n.wins <= 2 * n.visits
    &&& forall|i: int| #![trigger n.children@[i]]
        0 <= i < n.children@.len() ==> wins_within(n.children@[i].node)
}

/// Every node of the tree has fewer than `cap` visits.
pub open spec fn visits_below<M>(n: Node<M>, cap: int) -> bool
    decreases n,
{
    &&& n.visits < cap
    &&& forall|i: int| #![trigger n.children@[i]]
        0 <= i < n.children@.len() ==> visits_below(n.children@[i].node, cap)
}

/// A finished simulation keeps every node of the tree between 0 and twice
/// its visits in points, while no visit counter is near overflowing; the
/// root gets one more visit.
pub proof fn law_simulation_keeps_win_bound<M>(
    a: Node<M>,
    b: Node<M>,
    path: Seq<usize>,
    players: Seq<i32>,
    winner: Option<i32>,
)
    requires
        players.len() == path.len() + 1,
        valid_path(a, path, 0),
        modified_along(a, b, path, 0, backprop_step(path.len(), players, winner)),
        wins_within(a),
        visits_below(a, i32::MAX / 2),
    ensures
        wins_within(b),
        b.visits == a.visits + 1,
{
    lemma_backprop_keeps_win_bound(a, b, path, 0, players, winner);
}

proof fn lemma_backprop_keeps_win_bound<M>(
    a: Node<M>,
    b: Node<M>,
    path: Seq<usize>,
    k: nat,
    players: Seq<i32>,
    winner: Option<i32>,
)
    requires
        k <= path.len(),
        players.len() == path.len() + 1,
        valid_path(a, path, k),
        modified_along(a, b, path, k, backprop_step(path.len(), players, winner)),
        wins_within(a),
        visits_below(a, i32::MAX / 2),
    ensures
        wins_within(b),
        b.visits == a.visits + 1,
    decreases path.len() - k,
{
    law_record_keeps_win_bound(a, b, winner, players[k as int]);
    if k < path.len() {
        let p = path[k as int] as int;
        lemma_backprop_keeps_win_bound(a.children@[p].node, b.children@[p].node, path, k + 1, players, winner);
        assert forall|i: int| #![trigger b.children@[i]] 0 <= i < b.children@.len() implies
            wins_within(b.children@[i].node) by {
            if i != p {
                assert(b.children@[i] == a.children@[i]);
                assert(wins_within(a.children@[i].node));
            }
        }
    } else {
        assert forall|i: int| #![trigger b.children@[i]] 0 <= i < b.children@.len() implies
            wins_within(b.children@[i].node) by {
            assert(b.children@[i] == a.children@[i]);
            assert(wins_within(a.children@[i].node));
        }
    }
}

/// How many of the first `k` timed searches (numbered from 0) measure
/// their overhead, by `should_measure_overhead`.
pub open spec fn measured_searches(k: nat) -> nat
    decreases k,
{
    if k == 0 {
        0
    } else {
        measured_searches((k - 1) as nat) + (if ((k - 1) as int) % 8 == 0 { 1nat } else { 0nat })
    }
}

/// Overhead is measured once every eight timed searches, starting with the
/// first: of the first `k` searches, exactly `k / 8` rounded up measure it.
pub proof fn law_overhead_measured_once_in_eight(k: nat)
    ensures
        measured_searches(k) == (k + 7) / 8,
    decreases k,
{
    if k > 0 {
        law_overhead_measured_once_in_eight((k - 1) as nat);
        assert(((k - 1) as int) % 8 == 0 ==> (k + 7) / 8 == (k + 6) / 8 + 1);
        assert(((k - 1) as int) % 8 != 0 ==> (k + 7) / 8 == (k + 6) / 8);
    }
}

/// The text "r, c" of two numbers reads back as the pair (r, c).
pub proof fn law_pair_text_reads_back(r: nat, c: nat)
    requires
        r <= usize::MAX,
        c <= usize::MAX,
    ensures
        parse_pair(decimal(r) + ", "@ + decimal(c)) == Some((r as usize, c as usize)),
{
    reveal_strlit(", ");
    lemma_decimal_digits(r);
    lemma_decimal_digits(c);
    let a = decimal(r);
    let b = decimal(c);
    let s = a + ", "@ + b;
    let i = a.len() as int;
    assert(s[i] == ',' && s[i + 1] == ' ');
    assert(is_separator_at(s, i));
    assert forall|j: int| #[trigger] is_separator_at(s, j) implies j == i by {
        if j < i {
            assert(s[j] == a[j]);
            assert(is_digit(a[j]));
        } else if j > i + 1 {
            assert(s[j] == b[j - i - 2]);
            assert(is_digit(b[j - i - 2]));
        } else if j == i + 1 {
            assert(s[j] == ' ');
        }
    }
    assert(s.subrange(0, i) =~= a);
    assert(s.subrange(i + 2, s.len() as int) =~= b);
    assert(two_fields(s) == Some((a, b)));
    law_decimal_reads_back(r);
    law_decimal_reads_back(c);
}

/// The coordinates read from a wrapped move text `prefix` + "r, c" + "))".
proof fn lemma_wrapped_coordinates(prefix: Seq<char>, r: nat, c: nat)
    requires
        r <= usize::MAX,
        c <= usize::MAX,
        prefix.len() > 0,
        prefix.last() == '(',
        contains_text(prefix + decimal(r) + ", "@ + decimal(c) + "))"@, "Gomoku(GomokuMove("@)
            || contains_text(prefix + decimal(r) + ", "@ + decimal(c) + "))"@, "Othello(OthelloMove("@),
    ensures
        move_coordinates(prefix + decimal(r) + ", "@ + decimal(c) + "))"@) == Some((r as usize, c as usize)),
{
    reveal_strlit(", ");
    reveal_strlit("))");
    lemma_decimal_digits(r);
    lemma_decimal_digits(c);
    let pair = decimal(r) + ", "@ + decimal(c);
    let s = prefix + decimal(r) + ", "@ + decimal(c) + "))"@;
    assert(s =~= prefix + pair + "))"@);
    let p = prefix.len() as int;
    let start = p - 1;
    // no bracket inside the pair
    assert forall|k: int| 0 <= k < pair.len() implies pair[k] != '(' && pair[k] != ')' by {
        let la = decimal(r).len() as int;
        if k < la {
            assert(pair[k] == decimal(r)[k]);
            assert(is_digit(decimal(r)[k]));
        } else if k >= la + 2 {
            assert(pair[k] == decimal(c)[k - la - 2]);
            assert(is_digit(decimal(c)[k - la - 2]));
        }
    }
    // the last '(' ends the prefix
    lemma_last_index(s, '(');
    assert(s[start] == '(');
    assert forall|j: int| start < j < s.len() implies s[j] != '(' by {
        if j < p + pair.len() {
            assert(s[j] == pair[j - p]);
        }
    }
    assert(last_index(s, '(') == start);
    // the first ')' after it ends the pair
    let rest = s.subrange(start, s.len() as int);
    let end = pair.len() as int + 1;
    lemma_first_index(rest, ')');
    assert(rest[end] == ')');
    assert forall|j: int| 0 <= j < end implies rest[j] != ')' by {
        if j > 0 {
            assert(rest[j] == pair[j - 1]);
        }
    }
    assert(first_index(rest, ')') == end);
    assert(s.subrange(start + 1, start + end) =~= pair);
    law_pair_text_reads_back(r, c);
}

/// The board coordinates of a Gomoku or Othello move are read back from its
/// description: "Gomoku(GomokuMove(r, c))" and "Othello(OthelloMove(r, c))"
/// give (r, c), whatever the numbers.
pub proof fn law_move_text_gives_its_cell(r: usize, c: usize)
    ensures
        move_coordinates("Gomoku(GomokuMove("@ + decimal(r as nat) + ", "@ + decimal(c as nat) + "))"@) == Some((r, c)),
        move_coordinates("Othello(OthelloMove("@ + decimal(r as nat) + ", "@ + decimal(c as nat) + "))"@) == Some((r, c)),
{
    reveal_strlit("Gomoku(GomokuMove(");
    reveal_strlit("Othello(OthelloMove(");
    let g = "Gomoku(GomokuMove("@;
    let o = "Othello(OthelloMove("@;
    let tail = decimal(r as nat) + ", "@ + decimal(c as nat) + "))"@;
    let sg = g + decimal(r as nat) + ", "@ + decimal(c as nat) + "))"@;
    let so = o + decimal(r as nat) + ", "@ + decimal(c as nat) + "))"@;
    assert(sg.subrange(0, g.len() as int) =~= g);
    assert(occurs_at(sg, g, 0));
    assert(so.subrange(0, o.len() as int) =~= o);
    assert(occurs_at(so, o, 0));
    lemma_wrapped_coordinates(g, r as nat, c as nat);
    lemma_wrapped_coordinates(o, r as nat, c as nat);
}

/// The numeric settings of the settings screen, by row.
pub open spec fn is_numeric_setting(index: usize) -> bool {
    index <= 4 || index == 8 || index == 9 || index == 12 || index == 13
}

/// The value of the numeric setting at `index`.
pub open spec fn setting_value(s: GuiSettings, index: usize) -> int {
    if index == 0 {
        s.board_size as int
    } else if index == 1 {
        s.line_size as int
    } else if index == 2 {
        s.ai_threads as int
    } else if index == 3 {
        s.max_nodes as int
    } else if index == 4 {
        s.search_iterations as int
    } else if index == 8 {
        s.timeout_secs as int
    } else if index == 9 {
        s.stats_interval_secs as int
    } else if index == 12 {
        s.gpu_threads as int
    } else {
        s.gpu_native_batch_size as int
    }
}

/// The least value a numeric setting takes.
pub open spec fn setting_min(index: usize) -> int {
    if index == 0 { 5 } else if index == 1 { 3 } else if index == 2 { 1 } else if index == 3 { 100000 }
    else if index == 4 { 10000 } else if index == 8 || index == 9 { 1 } else if index == 12 { 256 } else { 1024 }
}

/// The greatest value a numeric setting takes.
pub open spec fn setting_max(index: usize) -> int {
    if index == 0 { 25 } else if index == 1 { 10 } else if index == 2 { 64 } else if index == 3 { 50000000 }
    else if index == 4 { 100000000 } else if index == 8 { 600 } else if index == 9 { 120 } else if index == 12 { 16384 }
    else { 32768 }
}

/// How far one adjustment moves a numeric setting: a fixed step for the
/// node limit and iterations (100000), graphics-card threads (256) and batch
/// size (1024), the size of `delta` for the others.
pub open spec fn setting_step(index: usize, delta: i32) -> int {
    if index == 3 || index == 4 {
        100000
    } else if index == 12 {
        256
    } else if index == 13 {
        1024
    } else if delta >= 0 {
        delta as int
    } else {
        -delta
    }
}

/// Adjusting a numeric setting moves it in the direction of `delta` and
/// never out of its range: a positive `delta` never lowers it, a negative
/// one never raises it; away from the range's ends it moves by exactly one
/// step (so Search Iterations goes up by 100000 for Right and down by 100000
/// for Left); every other numeric setting keeps its value.
pub proof fn law_adjust_moves_toward_delta(s: GuiSettings, index: usize, delta: i32)
    requires
        is_numeric_setting(index),
        forall|j: usize| is_numeric_setting(j) ==> setting_min(j) <= #[trigger] setting_value(s, j) <= setting_max(j),
        adjust_in_range(s, index, delta),
    ensures
        ({
            let v = setting_value(s, index);
            let w = setting_value(adjusted(s, index, delta), index);
            &&& setting_min(index) <= w <= setting_max(index)
            &&& delta > 0 ==> v <= w
            &&& delta < 0 ==> w <= v
            &&& delta > 0 && v + setting_step(index, delta) <= setting_max(index) ==> w == v + setting_step(index, delta)
            &&& delta < 0 && v - setting_step(index, delta) >= setting_min(index) ==> w == v - setting_step(index, delta)
        }),
        forall|j: usize| is_numeric_setting(j) && j != index ==>
            #[trigger] setting_value(adjusted(s, index, delta), j) == setting_value(s, j),
{
    assert(setting_min(index) <= setting_value(s, index) <= setting_max(index));
}

/// A move that ends the game brings up the game-over screen, whatever the
/// result: the winner's win, or a draw when there is no winner.  A move that
/// does not end it leaves the screen and the result as they were.  Either
/// way no AI is thinking any more.
pub proof fn law_game_end_shows_result(m: UiModel, game_over: bool, winner: Option<i32>)
    ensures
        game_over ==> after_move_model(m, game_over, winner).nav.mode == GuiMode::GameOver,
        game_over && winner is Some ==> after_move_model(m, game_over, winner).nav.game_status
            == GameStatus::Win(winner->0),
        game_over && winner is None ==> after_move_model(m, game_over, winner).nav.game_status == GameStatus::Draw,
        !game_over ==> after_move_model(m, game_over, winner).nav.mode == m.nav.mode,
        !game_over ==> after_move_model(m, game_over, winner).nav.game_status == m.nav.game_status,
        !after_move_model(m, game_over, winner).nav.ai_thinking,
        after_move_model(m, game_over, winner).settings == m.settings,
        after_move_model(m, game_over, winner).players == m.players,
{
}

/// Each board cell (r, c) is drawn two terminal columns wide, after the
/// border and the two-column row label, and one row below the label row:
/// a click on either of its two columns lands on that cell, and a click that
/// lands on a cell was made on one of that cell's two columns.
pub proof fn law_click_lands_on_drawn_cell(a: Area, height: int, width: int, r: int, c: int, k: int)
    requires
        0 <= r < height,
        0 <= c < width,
        0 <= k <= 1,
        3 + 2 * c + k < a.width - 1,
        r + 2 < a.height - 1,
        a.x + a.width <= u16::MAX,
        a.y + a.height <= u16::MAX,
    ensures
        board_click_spec(a, (a.x + 3 + 2 * c + k) as u16, (a.y + 2 + r) as u16, false, height, width)
            == BoardClick::Cell(r as usize, c as usize),
{
}

/// A click lands on cell (r, c) only on one of the two columns drawn for it,
/// in the row drawn for it.
pub proof fn law_cell_click_comes_from_its_columns(a: Area, col: u16, row: u16, height: int, width: int, r: usize, c: usize)
    requires
        board_click_spec(a, col, row, false, height, width) == BoardClick::Cell(r, c),
    ensures
        col == a.x + 3 + 2 * c || col == a.x + 4 + 2 * c,
        row == a.y + 2 + r,
        r < height,
        c < width,
{
}

/// In Connect Four each column label is two terminal columns wide, on the
/// row below the border: a click on either of them picks that column.
pub proof fn law_click_picks_drawn_column(a: Area, height: int, width: int, c: int, k: int)
    requires
        0 <= c < width,
        0 <= k <= 1,
        1 + 2 * c + k < a.width - 1,
        1 < a.height - 1,
        a.x + a.width <= u16::MAX,
        a.y + a.height <= u16::MAX,
    ensures
        board_click_spec(a, (a.x + 1 + 2 * c + k) as u16, (a.y + 1) as u16, true, height, width)
            == BoardClick::Column(c as usize),
{
}

/// Game defaults touch each size on its own: the line size given back does
/// not depend on the board size handed in, nor the board size on the line
/// size; a size other than the default (board 15, line 5) is always kept.
pub proof fn law_game_defaults_apply_per_size(game: Option<Seq<char>>, b1: usize, b2: usize, l1: usize, l2: usize)
    ensures
        sizes_for_game(game, b1, l1).1 == sizes_for_game(game, b2, l1).1,
        sizes_for_game(game, b1, l1).0 == sizes_for_game(game, b1, l2).0,
        b1 != 15 ==> sizes_for_game(game, b1, l1).0 == b1,
        l1 != 5 ==> sizes_for_game(game, b1, l1).1 == l1,
{
}

/// Connect Four (named in any case) plays four in a row on a 7-wide board
/// when the default sizes are given: a default line size of 5 becomes 4
/// whatever the board size, and a default board of 15 becomes 7 whatever the
/// line size.  Othello turns the default board into 8 and keeps the line
/// size.
pub proof fn law_connect4_and_othello_defaults(g: Seq<char>, b: usize, l: usize)
    ensures
        lowercased(g) == "connect4"@ && l == 5 ==> sizes_for_game(Some(g), b, l).1 == 4,
        lowercased(g) == "connect4"@ && b == 15 ==> sizes_for_game(Some(g), b, l).0 == 7,
        lowercased(g) == "othello"@ && b == 15 ==> sizes_for_game(Some(g), b, l).0 == 8,
        lowercased(g) == "othello"@ ==> sizes_for_game(Some(g), b, l).1 == l,
{
    reveal_strlit("connect4");
    reveal_strlit("othello");
    if lowercased(g) == "othello"@ {
        assert(lowercased(g) != "connect4"@) by {
            assert(lowercased(g)[0] != "connect4"@[0]);
        }
    }
}

} // verus!
