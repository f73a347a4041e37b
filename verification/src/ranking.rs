//! The highest values of a list or a grid, best first: what the statistics
//! panels highlight.
use vstd::prelude::*;

verus! {

/// Entry `a` of `vals` ranks above entry `b`: a larger value, or the same
/// value and an earlier position.
pub open spec fn ranks_above(vals: Seq<i32>, a: int, b: int) -> bool {
    vals[a] > vals[b] || (vals[a] == vals[b] && a < b)
}

/// `r` lists the `r.len()` highest-ranked positions of `vals`, best first.
pub open spec fn is_top_of(vals: Seq<i32>, r: Seq<usize>) -> bool {
    &&& forall|j: int| 0 <= j < r.len() ==> #[trigger] r[j] < vals.len()
    &&& forall|j: int, l: int| 0 <= j < l < r.len() ==> ranks_above(vals, #[trigger] r[j] as int, #[trigger] r[l] as int)
    &&& forall|m: int, j: int| 0 <= m < vals.len() && !r.contains(m as usize) && 0 <= j < r.len()
        ==> #[trigger] ranks_above(vals, r[j] as int, m)
}

/// A list that contains every position below `n` has at least `n` entries.
proof fn lemma_listing_covers(r: Seq<usize>, n: int)
    requires
        0 <= n <= usize::MAX,
        forall|q: usize| q < n ==> #[trigger] r.contains(q),
    ensures
        r.len() >= n,
    decreases n,
{
    if n > 0 {
        assert(r.contains((n - 1) as usize));
        let p = choose|j: int| 0 <= j < r.len() && r[j] == (n - 1) as usize;
        let rest = r.subrange(0, p) + r.subrange(p + 1, r.len() as int);
        assert forall|q: usize| q < n - 1 implies #[trigger] rest.contains(q) by {
            assert(r.contains(q));
            let j = choose|j: int| 0 <= j < r.len() && r[j] == q;
            if j < p {
                assert(rest[j] == q);
            } else {
                assert(j != p);
                assert(r.subrange(p + 1, r.len() as int)[j - 1 - p] == r[j]);
                assert(rest[j - 1] == q);
            }
        }
        lemma_listing_covers(rest, n - 1);
    }
}

/// The positions of the (at most) `k` largest values, largest first, equal
/// values in the order of their positions.
pub fn top_indices_desc(vals: &Vec<i32>, k: usize) -> (r: Vec<usize>)
    ensures
        r@.len() == (if k < vals@.len() { k as int } else { vals@.len() as int }),
        is_top_of(vals@, r@),
{
    let ghost vs = vals@;
    let n = vals.len();
    let count = if k < n { k } else { n };
    let mut chosen: Vec<bool> = Vec::new();
    let mut i: usize = 0;
    while i < n
        invariant
            i <= n,
            chosen@.len() == i,
            forall|j: int| 0 <= j < i ==> !#[trigger] chosen@[j],
        decreases n - i,
    {
        chosen.push(false);
        i = i + 1;
    }
    let mut r: Vec<usize> = Vec::new();
    while r.len() < count
        invariant
            vs == vals@,
            n == vs.len(),
            count <= n,
            r@.len() <= count,
            chosen@.len() == n,
            forall|m: int| 0 <= m < n ==> (#[trigger] chosen@[m] <==> r@.contains(m as usize)),
            is_top_of(vs, r@),
        decreases count - r@.len(),
    {
        let mut best: usize = n;
        let mut m: usize = 0;
        while m < n
            invariant
                vs == vals@,
                n == vs.len(),
                m <= n,
                chosen@.len() == n,
                best == n || (best < m && !chosen@[best as int]),
                best == n ==> forall|q: int| 0 <= q < m ==> #[trigger] chosen@[q],
                best < n ==> forall|q: int| 0 <= q < m && !chosen@[q] && q != best ==> ranks_above(vs, best as int, q),
            decreases n - m,
        {
            if !chosen[m] {
                if best == n || vals[m] > vals[best] {
                    best = m;
                }
            }
            m = m + 1;
        }
        proof {
            if best == n {
                // every position is chosen, yet fewer than `count` are listed
                assert forall|q: usize| q < n implies #[trigger] r@.contains(q) by {
                    assert(chosen@[q as int]);
                }
                lemma_listing_covers(r@, n as int);
                assert(false);
            }
        }
        let ghost old_r = r@;
        r.push(best);
        chosen.set(best, true);
        proof {
            assert(!old_r.contains(best));
            assert forall|q: int| 0 <= q < n implies (#[trigger] chosen@[q] <==> r@.contains(q as usize)) by {
                if q != best {
                    if r@.contains(q as usize) {
                        let j = choose|j: int| 0 <= j < r@.len() && r@[j] == q as usize;
                        assert(j < old_r.len());
                        assert(old_r[j] == q as usize);
                    }
                    if old_r.contains(q as usize) {
                        let j = choose|j: int| 0 <= j < old_r.len() && old_r[j] == q as usize;
                        assert(r@[j] == q as usize);
                    }
                } else {
                    assert(r@[r@.len() - 1] == best);
                }
            }
            assert forall|j: int, l: int| 0 <= j < l < r@.len() implies ranks_above(vs, #[trigger] r@[j] as int, #[trigger] r@[l] as int) by {
                if l == r@.len() - 1 {
                    assert(old_r[j] == r@[j]);
                } else {
                    assert(old_r[j] == r@[j] && old_r[l] == r@[l]);
                }
            }
            assert forall|q: int, j: int| 0 <= q < vs.len() && !r@.contains(q as usize) && 0 <= j < r@.len()
                implies #[trigger] ranks_above(vs, r@[j] as int, q) by {
                assert(r@[r@.len() - 1] == best);
                assert(q != best);
                assert(!old_r.contains(q as usize)) by {
                    if old_r.contains(q as usize) {
                        let t = choose|t: int| 0 <= t < old_r.len() && old_r[t] == q as usize;
                        assert(r@[t] == q as usize);
                    }
                }
                if j < old_r.len() {
                    assert(old_r[j] == r@[j]);
                } else {
                    assert(!chosen@[q] || q == best);
                }
            }
        }
    }
    r
}

/// The values of an `n` by `n` grid, row by row.
pub open spec fn grid_values(grid: Seq<Vec<i32>>, n: int) -> Seq<i32> {
    Seq::new((n * n) as nat, |i: int| grid[i / n]@[i % n])
}

/// The cells of the (at most) `k` largest values of the square grid `grid`
/// (as many rows as columns used), largest first, equal values in row
/// order, as (row, column).
pub fn top_grid_cells(grid: &Vec<Vec<i32>>, k: usize) -> (cells: Vec<(usize, usize)>)
    requires
        grid@.len() * grid@.len() <= usize::MAX,
        forall|r: int| 0 <= r < grid@.len() ==> (#[trigger] grid@[r])@.len() >= grid@.len(),
    ensures
        ({
            let n = grid@.len() as int;
            &&& cells@.len() == (if k < n * n { k as int } else { n * n })
            &&& forall|j: int| 0 <= j < cells@.len() ==> #[trigger] cells@[j].0 < n && cells@[j].1 < n
            &&& is_top_of(grid_values(grid@, n), Seq::new(cells@.len(), |j: int| (cells@[j].0 * n + cells@[j].1) as usize))
        }),
{
    let n = grid.len();
    let ghost gv = grid_values(grid@, n as int);
    proof {
        assert(0 <= n * n);
    }
    let total: usize = n * n;
    let mut vals: Vec<i32> = Vec::new();
    let mut r: usize = 0;
    while r < n
        invariant
            n == grid@.len(),
            total == n * n,
            gv == grid_values(grid@, n as int),
            forall|q: int| 0 <= q < grid@.len() ==> (#[trigger] grid@[q])@.len() >= grid@.len(),
            r <= n,
            vals@.len() == r * n,
            forall|i: int| 0 <= i < r * n ==> #[trigger] vals@[i] == gv[i],
        decreases n - r,
    {
        let mut c: usize = 0;
        while c < n
            invariant
                n == grid@.len(),
                total == n * n,
                gv == grid_values(grid@, n as int),
                forall|q: int| 0 <= q < grid@.len() ==> (#[trigger] grid@[q])@.len() >= grid@.len(),
                r < n,
                c <= n,
                vals@.len() == r * n + c,
                forall|i: int| 0 <= i < r * n + c ==> #[trigger] vals@[i] == gv[i],
            decreases n - c,
        {
            proof {
                let i = r * n + c;
                assert(i < n * n) by (nonlinear_arith)
                    requires
                        r < n,
                        c < n,
                        i == r * n + c,
                ;
                assert(i / (n as int) == r && i % (n as int) == c) by (nonlinear_arith)
                    requires
                        0 <= c < n,
                        0 <= r,
                        i == r * n + c,
                ;
            }
            vals.push(grid[r][c]);
            c = c + 1;
        }
        proof {
            assert((r + 1) * n == r * n + n) by (nonlinear_arith);
        }
        r = r + 1;
    }
    proof {
        assert(vals@ =~= gv);
    }
    let idx = top_indices_desc(&vals, k);
    let mut cells: Vec<(usize, usize)> = Vec::new();
    let mut j: usize = 0;
    while j < idx.len()
        invariant
            n == grid@.len(),
            n > 0 || idx@.len() == 0,
            total == n * n,
            vals@.len() == total,
            forall|t: int| 0 <= t < idx@.len() ==> #[trigger] idx@[t] < vals@.len(),
            j <= idx@.len(),
            cells@.len() == j,
            forall|t: int| 0 <= t < j ==> #[trigger] cells@[t].0 < n && cells@[t].1 < n
                && (cells@[t].0 * n + cells@[t].1) as usize == idx@[t],
        decreases idx@.len() - j,
    {
        let p = idx[j];
        let row = p / n;
        let col = p % n;
        proof {
            assert(row * n + col == p && row < n && col < n) by (nonlinear_arith)
                requires
                    n > 0,
                    p < n * n,
                    row == p / n,
                    col == p % n,
            ;
        }
        cells.push((row, col));
        j = j + 1;
    }
    proof {
        assert(Seq::new(cells@.len(), |t: int| (cells@[t].0 * (n as int) + cells@[t].1) as usize) =~= idx@);
    }
    cells
}

} // verus!
