//! Legal moves of Othello on an 8x8 board held row by row in 64 cells.
use vstd::prelude::*;

verus! {

/// Cells per side.
pub open spec fn side() -> int {
    8
}

pub open spec fn on_board(x: int, y: int) -> bool {
    0 <= x < 8 && 0 <= y < 8
}

/// The content of column `x`, row `y`.
pub open spec fn cell_at(board: Seq<i32>, x: int, y: int) -> i32 {
    board[y * 8 + x]
}

/// The eight directions, clockwise from up.
pub open spec fn direction(d: int) -> (int, int) {
    if d == 0 {
        (0, -1)
    } else if d == 1 {
        (1, -1)
    } else if d == 2 {
        (1, 0)
    } else if d == 3 {
        (1, 1)
    } else if d == 4 {
        (0, 1)
    } else if d == 5 {
        (-1, 1)
    } else if d == 6 {
        (-1, 0)
    } else {
        (-1, -1)
    }
}

/// The directions as stored by the search, in the same order.
pub open spec fn direction_table() -> Seq<(i32, i32)> {
    seq![(0i32, -1i32), (1i32, -1i32), (1i32, 0i32), (1i32, 1i32), (0i32, 1i32), (-1i32, 1i32), (-1i32, 0i32), (-1i32, -1i32)]
}

pub open spec fn unit_step(dx: int, dy: int) -> bool {
    -1 <= dx <= 1 && -1 <= dy <= 1 && !(dx == 0 && dy == 0)
}

/// How far a walk from (`x`, `y`) in direction (`dx`, `dy`) can still go
/// before leaving the board.
pub open spec fn steps_left(x: int, y: int, dx: int, dy: int) -> int {
    (if dx > 0 { 8 - x } else if dx < 0 { x + 1 } else { 0 }) + (if dy > 0 { 8 - y } else if dy < 0 { y + 1 } else { 0 })
}

/// Walking from (`x`, `y`) in direction (`dx`, `dy`) over opponent pieces,
/// the first other cell holds a piece of `player`, and at least one
/// opponent piece was passed (`seen` counts those before the start).
pub open spec fn closes_line(board: Seq<i32>, player: i32, x: int, y: int, dx: int, dy: int, seen: bool) -> bool
    decreases steps_left(x, y, dx, dy),
{
    if !on_board(x, y) || !unit_step(dx, dy) {
        false
    } else if cell_at(board, x, y) == -player {
        closes_line(board, player, x + dx, y + dy, dx, dy, true)
    } else {
        cell_at(board, x, y) == player && seen
    }
}

/// Whether `player` may play at (`x`, `y`): the cell is empty and some
/// direction closes a line of opponent pieces.
pub open spec fn legal_at(board: Seq<i32>, player: i32, x: int, y: int) -> bool {
    &&& cell_at(board, x, y) == 0
    &&& exists|d: int| 0 <= d < 8 && #[trigger] closes_line(board, player, x + direction(d).0, y + direction(d).1,
        direction(d).0, direction(d).1, false)
}

/// The legal moves among the first `n` cells, row by row, each given as
/// (column, row).
pub open spec fn legal_moves_upto(board: Seq<i32>, player: i32, n: nat) -> Seq<(usize, usize)>
    decreases n,
{
    if n == 0 {
        seq![]
    } else {
        let prev = legal_moves_upto(board, player, (n - 1) as nat);
        let i = n - 1;
        if legal_at(board, player, i % 8, i / 8) {
            prev.push(((i % 8) as usize, (i / 8) as usize))
        } else {
            prev
        }
    }
}

/// The legal moves of `player`, row by row, each given as (column, row).
pub open spec fn othello_legal_moves(board: Seq<i32>, player: i32) -> Seq<(usize, usize)> {
    legal_moves_upto(board, player, 64)
}

fn closes_line_exec(board: &[i32; 64], player: i32, x: i32, y: i32, dx: i32, dy: i32) -> (b: bool)
    requires
        player != i32::MIN,
        0 <= x < 8,
        0 <= y < 8,
        unit_step(dx as int, dy as int),
    ensures
        b == closes_line(board@, player, x + dx, y + dy, dx as int, dy as int, false),
{
    let mut cx = x + dx;
    let mut cy = y + dy;
    let mut seen_opponent = false;
    let mut valid = false;
    while cx >= 0 && cx < 8 && cy >= 0 && cy < 8
        invariant_except_break
            -1 <= cx <= 8,
            -1 <= cy <= 8,
            closes_line(board@, player, x + dx, y + dy, dx as int, dy as int, false)
                == closes_line(board@, player, cx as int, cy as int, dx as int, dy as int, seen_opponent),
            !valid,
        invariant
            player != i32::MIN,
            unit_step(dx as int, dy as int),
        ensures
            valid == closes_line(board@, player, x + dx, y + dy, dx as int, dy as int, false),
        decreases steps_left(cx as int, cy as int, dx as int, dy as int),
    {
        let cell = board[(cy * 8 + cx) as usize];
        if cell == -player {
            seen_opponent = true;
            cx = cx + dx;
            cy = cy + dy;
            continue;
        }
        if cell == player && seen_opponent {
            valid = true;
        }
        break;
    }
    valid
}

/// Computes `othello_legal_moves` for `player` (1 or -1) on `board`.
pub fn compute_othello_legal_moves(board: &[i32; 64], player: i32) -> (moves: Vec<(usize, usize)>)
    requires
        player != i32::MIN,
    ensures
        moves@ == othello_legal_moves(board@, player),
{
    let dirs: [(i32, i32); 8] = [(0, -1), (1, -1), (1, 0), (1, 1), (0, 1), (-1, 1), (-1, 0), (-1, -1)];
    let mut moves: Vec<(usize, usize)> = Vec::new();
    let mut y: i32 = 0;
    while y < 8
        invariant
            0 <= y <= 8,
            player != i32::MIN,
            dirs@ == direction_table(),
            moves@ == legal_moves_upto(board@, player, (y * 8) as nat),
        decreases 8 - y,
    {
        let mut x: i32 = 0;
        while x < 8
            invariant
                0 <= x <= 8,
                0 <= y < 8,
                player != i32::MIN,
                dirs@ == direction_table(),
                moves@ == legal_moves_upto(board@, player, (y * 8 + x) as nat),
            decreases 8 - x,
        {
            let i: usize = (y * 8 + x) as usize;
            proof {
                assert(i as int % 8 == x && i as int / 8 == y);
            }
            if board[i] != 0 {
                x = x + 1;
                continue;
            }
            let mut valid = false;
            let mut d: usize = 0;
            while d < 8
                invariant_except_break
                    !valid,
                    forall|e: int| 0 <= e < d ==> !#[trigger] closes_line(board@, player, x + direction(e).0,
                        y + direction(e).1, direction(e).0, direction(e).1, false),
                invariant
                    0 <= x < 8,
                    0 <= y < 8,
                    d <= 8,
                    player != i32::MIN,
                    dirs@ == direction_table(),
                ensures
                    valid == exists|e: int| 0 <= e < 8 && #[trigger] closes_line(board@, player, x + direction(e).0,
                        y + direction(e).1, direction(e).0, direction(e).1, false),
                decreases 8 - d,
            {
                let (dx, dy) = dirs[d];
                proof {
                    assert(dirs@[d as int] == (direction(d as int).0 as i32, direction(d as int).1 as i32));
                }
                if closes_line_exec(board, player, x, y, dx, dy) {
                    valid = true;
                    break;
                }
                d = d + 1;
            }
            if valid {
                moves.push((x as usize, y as usize));
            }
            x = x + 1;
        }
        y = y + 1;
    }
    moves
}


/// Cell `a` comes no later than cell `b`: by first coordinate, then by second.
pub open spec fn cell_le(a: (usize, usize), b: (usize, usize)) -> bool {
    a.0 < b.0 || (a.0 == b.0 && a.1 <= b.1)
}

pub open spec fn sorted_cells(s: Seq<(usize, usize)>) -> bool {
    forall|i: int, j: int| 0 <= i < j < s.len() ==> cell_le(#[trigger] s[i], #[trigger] s[j])
}

fn cell_le_exec(a: (usize, usize), b: (usize, usize)) -> (r: bool)
    ensures
        r == cell_le(a, b),
{
    a.0 < b.0 || (a.0 == b.0 && a.1 <= b.1)
}

/// The cells of `v` in increasing order (see `cell_le`).
pub fn sort_cells(v: &Vec<(usize, usize)>) -> (r: Vec<(usize, usize)>)
    ensures
        sorted_cells(r@),
        r@.to_multiset() == v@.to_multiset(),
{
    let mut r: Vec<(usize, usize)> = Vec::new();
    let mut i: usize = 0;
    proof {
        assert(v@.subrange(0, 0) =~= Seq::<(usize, usize)>::empty());
        assert(r@ =~= Seq::<(usize, usize)>::empty());
    }
    while i < v.len()
        invariant
            i <= v@.len(),
            sorted_cells(r@),
            r@.to_multiset() == v@.subrange(0, i as int).to_multiset(),
        decreases v@.len() - i,
    {
        let x = v[i];
        let mut p: usize = 0;
        while p < r.len() && cell_le_exec(r[p], x)
            invariant
                p <= r@.len(),
                forall|q: int| 0 <= q < p ==> cell_le(#[trigger] r@[q], x),
            decreases r@.len() - p,
        {
            p = p + 1;
        }
        let ghost before = r@;
        r.insert(p, x);
        proof {
            assert forall|a: int, b: int| 0 <= a < b < r@.len() implies cell_le(#[trigger] r@[a], #[trigger] r@[b]) by {
                if b < p {
                    assert(r@[a] == before[a] && r@[b] == before[b]);
                } else if b == p {
                    assert(r@[a] == before[a] && r@[b] == x);
                } else if a == p {
                    assert(r@[b] == before[b - 1]);
                    assert(!cell_le(before[p as int], x));
                    if b - 1 > p {
                        assert(cell_le(before[p as int], before[b - 1]));
                    }
                } else if a < p {
                    assert(r@[a] == before[a] && r@[b] == before[b - 1]);
                } else {
                    assert(r@[a] == before[a - 1] && r@[b] == before[b - 1]);
                }
            }
            vstd::seq_lib::to_multiset_insert(before, p as int, x);
            vstd::seq_lib::to_multiset_build(v@.subrange(0, i as int), x);
            assert(v@.subrange(0, i + 1) =~= v@.subrange(0, i as int).push(x));
        }
        i = i + 1;
    }
    proof {
        assert(v@.subrange(0, v@.len() as int) =~= v@);
    }
    r
}

fn same_cells(a: &Vec<(usize, usize)>, b: &Vec<(usize, usize)>) -> (r: bool)
    ensures
        r == (a@ == b@),
{
    if a.len() != b.len() {
        return false;
    }
    let mut i: usize = 0;
    while i < a.len()
        invariant
            a@.len() == b@.len(),
            i <= a@.len(),
            forall|j: int| 0 <= j < i ==> a@[j] == b@[j],
        decreases a@.len() - i,
    {
        if a[i].0 != b[i].0 || a[i].1 != b[i].1 {
            return false;
        }
        i = i + 1;
    }
    assert(a@ =~= b@);
    true
}

/// The legal moves used by the graphics-card search: the moves handed in
/// and those computed from the board, both sorted; when they differ, the
/// computed ones. The flag tells whether they differed.
pub fn reconcile_legal_moves(provided: &Vec<(usize, usize)>, board: &[i32; 64], player: i32) -> (r: (Vec<(usize, usize)>, bool))
    requires
        player != i32::MIN,
    ensures
        sorted_cells(r.0@),
        r.0@.to_multiset() == othello_legal_moves(board@, player).to_multiset(),
        r.1 == (sort_spec_differs(provided@, othello_legal_moves(board@, player))),
{
    let computed = compute_othello_legal_moves(board, player);
    let sorted_provided = sort_cells(provided);
    let sorted_computed = sort_cells(&computed);
    if same_cells(&sorted_provided, &sorted_computed) {
        proof {
            lemma_sorted_unique(sorted_provided@, sorted_computed@);
        }
        (sorted_provided, false)
    } else {
        proof {
            if provided@.to_multiset() == computed@.to_multiset() {
                lemma_sorted_unique(sorted_provided@, sorted_computed@);
            }
        }
        (sorted_computed, true)
    }
}

/// Whether two lists of cells differ once sorted, that is, as multisets.
pub open spec fn sort_spec_differs(a: Seq<(usize, usize)>, b: Seq<(usize, usize)>) -> bool {
    a.to_multiset() != b.to_multiset()
}

/// Two sorted lists with the same elements are equal.
proof fn lemma_sorted_unique(a: Seq<(usize, usize)>, b: Seq<(usize, usize)>)
    requires
        sorted_cells(a),
        sorted_cells(b),
    ensures
        a.to_multiset() == b.to_multiset() <==> a == b,
    decreases a.len(),
{
    if a.to_multiset() == b.to_multiset() {
        vstd::seq_lib::to_multiset_len(a);
        vstd::seq_lib::to_multiset_len(b);
        if a.len() > 0 {
            assert(b.len() > 0);
            // the first elements are the least of both
            let x = a[0];
            let y = b[0];
            vstd::seq_lib::to_multiset_contains(a, y);
            vstd::seq_lib::to_multiset_contains(b, x);
            vstd::seq_lib::to_multiset_contains(b, y);
            vstd::seq_lib::to_multiset_contains(a, x);
            assert(b.to_multiset().count(y) > 0) by {
                vstd::seq_lib::to_multiset_contains(b, y);
                assert(b[0] == y);
            }
            assert(a.contains(y));
            assert(b.contains(x)) by {
                vstd::seq_lib::to_multiset_contains(a, x);
                assert(a[0] == x);
            }
            let iy = choose|k: int| 0 <= k < a.len() && a[k] == y;
            let ix = choose|k: int| 0 <= k < b.len() && b[k] == x;
            if iy > 0 {
                assert(cell_le(a[0], a[iy]));
            }
            if ix > 0 {
                assert(cell_le(b[0], b[ix]));
            }
            assert(x == y);
            vstd::seq_lib::to_multiset_remove(a, 0);
            vstd::seq_lib::to_multiset_remove(b, 0);
            assert(a.remove(0) =~= a.drop_first());
            assert(b.remove(0) =~= b.drop_first());
            assert(sorted_cells(a.drop_first())) by {
                assert forall|i: int, j: int| 0 <= i < j < a.drop_first().len() implies
                    cell_le(#[trigger] a.drop_first()[i], #[trigger] a.drop_first()[j]) by {
                    assert(a.drop_first()[i] == a[i + 1] && a.drop_first()[j] == a[j + 1]);
                }
            }
            assert(sorted_cells(b.drop_first())) by {
                assert forall|i: int, j: int| 0 <= i < j < b.drop_first().len() implies
                    cell_le(#[trigger] b.drop_first()[i], #[trigger] b.drop_first()[j]) by {
                    assert(b.drop_first()[i] == b[i + 1] && b.drop_first()[j] == b[j + 1]);
                }
            }
            lemma_sorted_unique(a.drop_first(), b.drop_first());
            assert(a =~= seq![x] + a.drop_first());
            assert(b =~= seq![y] + b.drop_first());
        } else {
            assert(b.len() == 0);
            assert(a =~= b);
        }
    }
}
} // verus!
