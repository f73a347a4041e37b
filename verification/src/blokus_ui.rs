//! Blokus controls of the terminal interface: which player lists are open,
//! the selected piece and its orientation, the drawing of a piece shape, the
//! cells that a piece would cover, and what a click in the piece panel picks.
use vstd::prelude::*;
use crate::text::string_of;

verus! {

/// How the Blokus piece panel is shown.
#[derive(Clone, Copy, Debug)]
pub struct BlokusUIConfig {
    /// Whether each player's piece list is open.
    pub players_expanded: [bool; 4],
    /// The selected piece.
    pub selected_piece_idx: Option<usize>,
    /// The orientation of the selected piece.
    pub selected_transformation_idx: usize,
    /// Scroll offset within the current player's pieces.
    pub piece_selection_scroll: usize,
    /// Scroll offset of the whole panel.
    pub panel_scroll_offset: usize,
}

/// `x - 1`, or 0.
pub open spec fn dec_sat(x: usize) -> usize {
    if x > 0 { (x - 1) as usize } else { 0 }
}

/// `x + 1`, or the largest value.
pub open spec fn inc_sat(x: usize) -> usize {
    if x < usize::MAX { (x + 1) as usize } else { usize::MAX }
}

impl Default for BlokusUIConfig {
    fn default() -> (c: Self)
        ensures
            c.players_expanded@ == seq![true, true, true, true],
            c.selected_piece_idx is None,
            c.selected_transformation_idx == 0,
            c.piece_selection_scroll == 0,
            c.panel_scroll_offset == 0,
    {
        BlokusUIConfig {
            players_expanded: [true, true, true, true],
            selected_piece_idx: None,
            selected_transformation_idx: 0,
            piece_selection_scroll: 0,
            panel_scroll_offset: 0,
        }
    }
}

impl BlokusUIConfig {
    /// Opens or closes the list of player `player_idx` (0 to 3); other
    /// indices change nothing.
    pub fn toggle_player_expand(&mut self, player_idx: usize)
        ensures
            player_idx < 4 ==> final(self).players_expanded@
                == old(self).players_expanded@.update(player_idx as int, !old(self).players_expanded@[player_idx as int]),
            player_idx >= 4 ==> final(self).players_expanded@ == old(self).players_expanded@,
            final(self).selected_piece_idx == old(self).selected_piece_idx,
            final(self).selected_transformation_idx == old(self).selected_transformation_idx,
            final(self).piece_selection_scroll == old(self).piece_selection_scroll,
            final(self).panel_scroll_offset == old(self).panel_scroll_offset,
    {
        if player_idx < 4 {
            let open = self.players_expanded[player_idx];
            self.players_expanded[player_idx] = !open;
        }
    }

    /// Opens every list.
    pub fn expand_all(&mut self)
        ensures
            final(self).players_expanded@ == seq![true, true, true, true],
            final(self).selected_piece_idx == old(self).selected_piece_idx,
            final(self).selected_transformation_idx == old(self).selected_transformation_idx,
            final(self).piece_selection_scroll == old(self).piece_selection_scroll,
            final(self).panel_scroll_offset == old(self).panel_scroll_offset,
    {
        self.players_expanded = [true, true, true, true];
        proof {
            assert(self.players_expanded@ =~= seq![true, true, true, true]);
        }
    }

    /// Closes every list.
    pub fn collapse_all(&mut self)
        ensures
            final(self).players_expanded@ == seq![false, false, false, false],
            final(self).selected_piece_idx == old(self).selected_piece_idx,
            final(self).selected_transformation_idx == old(self).selected_transformation_idx,
            final(self).piece_selection_scroll == old(self).piece_selection_scroll,
            final(self).panel_scroll_offset == old(self).panel_scroll_offset,
    {
        self.players_expanded = [false, false, false, false];
        proof {
            assert(self.players_expanded@ =~= seq![false, false, false, false]);
        }
    }

    pub fn scroll_panel_up(&mut self)
        ensures
            *final(self) == (BlokusUIConfig { panel_scroll_offset: dec_sat(old(self).panel_scroll_offset), ..*old(self) }),
    {
        self.panel_scroll_offset = self.panel_scroll_offset.saturating_sub(1);
    }

    pub fn scroll_panel_down(&mut self)
        ensures
            *final(self) == (BlokusUIConfig { panel_scroll_offset: inc_sat(old(self).panel_scroll_offset), ..*old(self) }),
    {
        self.panel_scroll_offset = self.panel_scroll_offset.saturating_add(1);
    }

    pub fn scroll_pieces_up(&mut self)
        ensures
            *final(self) == (BlokusUIConfig { piece_selection_scroll: dec_sat(old(self).piece_selection_scroll), ..*old(self) }),
    {
        self.piece_selection_scroll = self.piece_selection_scroll.saturating_sub(1);
    }

    pub fn scroll_pieces_down(&mut self)
        ensures
            *final(self) == (BlokusUIConfig { piece_selection_scroll: inc_sat(old(self).piece_selection_scroll), ..*old(self) }),
    {
        self.piece_selection_scroll = self.piece_selection_scroll.saturating_add(1);
    }

    /// Selects a piece in its first orientation.
    pub fn select_piece(&mut self, piece_idx: usize)
        ensures
            *final(self) == (BlokusUIConfig {
                selected_piece_idx: Some(piece_idx),
                selected_transformation_idx: 0,
                ..*old(self)
            }),
    {
        self.selected_piece_idx = Some(piece_idx);
        self.selected_transformation_idx = 0;
    }

    /// Turns to the next of `total_transformations` orientations, cyclically;
    /// with none, nothing changes.
    pub fn rotate_piece(&mut self, total_transformations: usize)
        requires
            total_transformations > 0 ==> old(self).selected_transformation_idx < usize::MAX,
        ensures
            total_transformations > 0 ==> *final(self) == (BlokusUIConfig {
                selected_transformation_idx: ((old(self).selected_transformation_idx + 1) % (total_transformations as int)) as usize,
                ..*old(self)
            }),
            total_transformations == 0 ==> *final(self) == *old(self),
    {
        if total_transformations > 0 {
            self.selected_transformation_idx = (self.selected_transformation_idx + 1) % total_transformations;
        }
    }

    /// Turns back to the previous of `total_transformations` orientations,
    /// by turning forward all the way round but one step (with a single
    /// orientation, nothing turns).
    pub fn rotate_piece_back(&mut self, total_transformations: usize)
        requires
            total_transformations > 0,
            total_transformations > 1 ==> old(self).selected_transformation_idx < usize::MAX,
        ensures
            total_transformations == 1 ==> *final(self) == *old(self),
            total_transformations > 1 ==> *final(self) == (BlokusUIConfig {
                selected_transformation_idx: ((old(self).selected_transformation_idx + total_transformations - 1)
                    % (total_transformations as int)) as usize,
                ..*old(self)
            }),
    {
        let mut k: usize = 0;
        while k < total_transformations - 1
            invariant
                0 < total_transformations,
                k <= total_transformations - 1,
                total_transformations > 1 ==> old(self).selected_transformation_idx < usize::MAX,
                k == 0 ==> *self == *old(self),
                k > 0 ==> self.selected_transformation_idx < total_transformations
                    && self.selected_transformation_idx == (old(self).selected_transformation_idx + k) % (total_transformations as int),
                *self == (BlokusUIConfig { selected_transformation_idx: self.selected_transformation_idx, ..*old(self) }),
            decreases total_transformations - 1 - k,
        {
            let ghost before = self.selected_transformation_idx;
            self.rotate_piece(total_transformations);
            proof {
                let t = total_transformations as int;
                let o = old(self).selected_transformation_idx as int;
                if k > 0 {
                    assert((before + 1) % t == (o + k + 1) % t) by (nonlinear_arith)
                        requires
                            t > 0,
                            before == (o + k) % t,
                    ;
                }
                assert(self.selected_transformation_idx < t) by (nonlinear_arith)
                    requires
                        t > 0,
                        self.selected_transformation_idx == (before + 1) % t,
                ;
            }
            k = k + 1;
        }
    }

    /// The selected piece with its orientation.
    pub fn get_selected_piece_info(&self) -> (r: Option<(usize, usize)>)
        ensures
            r == (match self.selected_piece_idx {
                Some(p) => Some((p, self.selected_transformation_idx)),
                None => None,
            }),
    {
        match self.selected_piece_idx {
            Some(p) => Some((p, self.selected_transformation_idx)),
            None => None,
        }
    }
}

// ---------------------------------------------------------------------------
// Drawing a piece shape

/// The square drawn for each block of a piece.
pub open spec fn block_char() -> char {
    '\u{25A2}'
}

pub open spec fn min_row(s: Seq<(i32, i32)>) -> i32
    decreases s.len(),
{
    if s.len() <= 1 {
        s[0].0
    } else {
        let m = min_row(s.drop_last());
        if s.last().0 < m { s.last().0 } else { m }
    }
}

pub open spec fn max_row(s: Seq<(i32, i32)>) -> i32
    decreases s.len(),
{
    if s.len() <= 1 {
        s[0].0
    } else {
        let m = max_row(s.drop_last());
        if s.last().0 > m { s.last().0 } else { m }
    }
}

pub open spec fn min_col(s: Seq<(i32, i32)>) -> i32
    decreases s.len(),
{
    if s.len() <= 1 {
        s[0].1
    } else {
        let m = min_col(s.drop_last());
        if s.last().1 < m { s.last().1 } else { m }
    }
}

pub open spec fn max_col(s: Seq<(i32, i32)>) -> i32
    decreases s.len(),
{
    if s.len() <= 1 {
        s[0].1
    } else {
        let m = max_col(s.drop_last());
        if s.last().1 > m { s.last().1 } else { m }
    }
}

/// The character at (`r`, `c`) of the drawing of `s`: a block where `s`
/// has a cell (counted from the smallest row and column), else a space.
pub open spec fn shape_char(s: Seq<(i32, i32)>, r: int, c: int) -> char {
    if exists|k: int| 0 <= k < s.len() && s[k].0 == min_row(s) + r && s[k].1 == min_col(s) + c {
        block_char()
    } else {
        ' '
    }
}

/// The drawing of a piece, one string per row: the bounding box of its
/// cells, with a block on each cell; a single block for an empty shape, and
/// a single-cell piece padded with a space on each side to a minimum width.
pub open spec fn visual_shape(s: Seq<(i32, i32)>) -> Seq<Seq<char>> {
    if s.len() == 0 {
        seq![seq![block_char()]]
    } else if max_row(s) == min_row(s) && max_col(s) == min_col(s) {
        seq![seq![' ', block_char(), ' ']]
    } else {
        Seq::new(
            (max_row(s) - min_row(s) + 1) as nat,
            |r: int| Seq::new((max_col(s) - min_col(s) + 1) as nat, |c: int| shape_char(s, r, c)),
        )
    }
}

proof fn lemma_bounds(s: Seq<(i32, i32)>, k: int)
    requires
        0 <= k < s.len(),
    ensures
        min_row(s) <= s[k].0 <= max_row(s),
        min_col(s) <= s[k].1 <= max_col(s),
    decreases s.len(),
{
    if s.len() > 1 && k < s.len() - 1 {
        lemma_bounds(s.drop_last(), k);
    }
}

proof fn lemma_extremes_attained(s: Seq<(i32, i32)>)
    requires
        s.len() > 0,
    ensures
        exists|k: int| 0 <= k < s.len() && s[k].0 == min_row(s),
        exists|k: int| 0 <= k < s.len() && s[k].0 == max_row(s),
        exists|k: int| 0 <= k < s.len() && s[k].1 == min_col(s),
        exists|k: int| 0 <= k < s.len() && s[k].1 == max_col(s),
    decreases s.len(),
{
    if s.len() > 1 {
        let t = s.drop_last();
        let n = s.len() - 1;
        lemma_extremes_attained(t);
        let a = choose|k: int| 0 <= k < t.len() && t[k].0 == min_row(t);
        let b = choose|k: int| 0 <= k < t.len() && t[k].0 == max_row(t);
        let c = choose|k: int| 0 <= k < t.len() && t[k].1 == min_col(t);
        let d = choose|k: int| 0 <= k < t.len() && t[k].1 == max_col(t);
        assert(t[a] == s[a] && t[b] == s[b] && t[c] == s[c] && t[d] == s[d]);
        assert(s.last() == s[n]);
        if s[n].0 < min_row(t) { assert(s[n].0 == min_row(s)); } else { assert(s[a].0 == min_row(s)); }
        if s[n].0 > max_row(t) { assert(s[n].0 == max_row(s)); } else { assert(s[b].0 == max_row(s)); }
        if s[n].1 < min_col(t) { assert(s[n].1 == min_col(s)); } else { assert(s[c].1 == min_col(s)); }
        if s[n].1 > max_col(t) { assert(s[n].1 == max_col(s)); } else { assert(s[d].1 == max_col(s)); }
    } else {
        assert(s[0].0 == min_row(s) && s[0].0 == max_row(s) && s[0].1 == min_col(s) && s[0].1 == max_col(s));
    }
}

/// Computes `visual_shape` for the drawing of a piece.
pub fn create_visual_piece_shape(piece_shape: &[(i32, i32)]) -> (rows: Vec<String>)
    requires
        piece_shape@.len() > 0 ==> max_row(piece_shape@) - min_row(piece_shape@) + 1 <= i32::MAX,
        piece_shape@.len() > 0 ==> max_col(piece_shape@) - min_col(piece_shape@) + 1 <= i32::MAX,
    ensures
        rows@.len() == visual_shape(piece_shape@).len(),
        forall|i: int| 0 <= i < rows@.len() ==> #[trigger] rows@[i]@ == visual_shape(piece_shape@)[i],
{
    let s = Ghost(piece_shape@);
    if piece_shape.len() == 0 {
        let mut one: Vec<char> = Vec::new();
        one.push('\u{25A2}');
        let mut rows: Vec<String> = Vec::new();
        rows.push(string_of(&one));
        proof {
            assert(one@ == seq![block_char()]);
        }
        return rows;
    }
    let mut min_r = piece_shape[0].0;
    let mut max_r = piece_shape[0].0;
    let mut min_c = piece_shape[0].1;
    let mut max_c = piece_shape[0].1;
    let mut i: usize = 1;
    while i < piece_shape.len()
        invariant
            s@ == piece_shape@,
            1 <= i <= piece_shape@.len(),
            min_r == min_row(s@.subrange(0, i as int)),
            max_r == max_row(s@.subrange(0, i as int)),
            min_c == min_col(s@.subrange(0, i as int)),
            max_c == max_col(s@.subrange(0, i as int)),
        decreases piece_shape@.len() - i,
    {
        let (r, c) = piece_shape[i];
        proof {
            assert(s@.subrange(0, i + 1).drop_last() =~= s@.subrange(0, i as int));
        }
        if r < min_r {
            min_r = r;
        }
        if r > max_r {
            max_r = r;
        }
        if c < min_c {
            min_c = c;
        }
        if c > max_c {
            max_c = c;
        }
        i = i + 1;
    }
    proof {
        assert(s@.subrange(0, s@.len() as int) =~= s@);
        lemma_extremes_attained(s@);
        let k0 = choose|k: int| 0 <= k < s@.len() && s@[k].0 == min_row(s@);
        let k1 = choose|k: int| 0 <= k < s@.len() && s@[k].1 == min_col(s@);
        lemma_bounds(s@, k0);
        lemma_bounds(s@, k1);
    }
    if min_r == max_r && min_c == max_c {
        let mut one: Vec<char> = Vec::new();
        one.push(' ');
        one.push('\u{25A2}');
        one.push(' ');
        let mut rows: Vec<String> = Vec::new();
        rows.push(string_of(&one));
        proof {
            assert(one@ == seq![' ', block_char(), ' ']);
        }
        return rows;
    }
    let height: usize = (max_r - min_r + 1) as usize;
    let width: usize = (max_c - min_c + 1) as usize;
    let mut grid: Vec<Vec<char>> = Vec::new();
    let mut r: usize = 0;
    while r < height
        invariant
            r <= height,
            grid@.len() == r,
            forall|j: int| 0 <= j < r ==> #[trigger] grid@[j]@ == Seq::new(width as nat, |c: int| ' '),
        decreases height - r,
    {
        let mut line: Vec<char> = Vec::new();
        let mut c: usize = 0;
        while c < width
            invariant
                c <= width,
                line@ == Seq::new(c as nat, |k: int| ' '),
            decreases width - c,
        {
            line.push(' ');
            c = c + 1;
            proof {
                assert(line@ =~= Seq::new(c as nat, |k: int| ' '));
            }
        }
        grid.push(line);
        r = r + 1;
    }
    let mut k: usize = 0;
    while k < piece_shape.len()
        invariant
            s@ == piece_shape@,
            s@.len() > 0,
            k <= s@.len(),
            min_r == min_row(s@),
            max_r == max_row(s@),
            min_c == min_col(s@),
            max_c == max_col(s@),
            height == max_row(s@) - min_row(s@) + 1,
            width == max_col(s@) - min_col(s@) + 1,
            max_row(s@) - min_row(s@) + 1 <= i32::MAX,
            max_col(s@) - min_col(s@) + 1 <= i32::MAX,
            grid@.len() == height,
            forall|j: int| 0 <= j < height ==> (#[trigger] grid@[j])@.len() == width,
            forall|j: int, c: int| 0 <= j < height && 0 <= c < width ==>
                (#[trigger] grid@[j]@[c] == block_char() <==> exists|q: int| 0 <= q < k && s@[q].0 == min_r + j
                    && s@[q].1 == min_c + c),
            forall|j: int, c: int| 0 <= j < height && 0 <= c < width ==>
                #[trigger] grid@[j]@[c] == block_char() || grid@[j]@[c] == ' ',
        decreases s@.len() - k,
    {
        let (pr, pc) = piece_shape[k];
        proof {
            lemma_bounds(s@, k as int);
        }
        let gr: usize = (pr - min_r) as usize;
        let gc: usize = (pc - min_c) as usize;
        let mut line = grid[gr].clone();
        proof {
            assert(line@ == grid@[gr as int]@);
        }
        line.set(gc, '\u{25A2}');
        let ghost before = grid@;
        grid.set(gr, line);
        proof {
            assert forall|j: int, c: int| 0 <= j < height && 0 <= c < width implies
                (#[trigger] grid@[j]@[c] == block_char() <==> exists|q: int| 0 <= q < k + 1 && s@[q].0 == min_r + j
                    && s@[q].1 == min_c + c) by {
                if j == gr && c == gc {
                    assert(s@[k as int].0 == min_r + j && s@[k as int].1 == min_c + c);
                } else {
                    assert(grid@[j]@[c] == before[j]@[c]);
                    if exists|q: int| 0 <= q < k + 1 && s@[q].0 == min_r + j && s@[q].1 == min_c + c {
                        let q = choose|q: int| 0 <= q < k + 1 && s@[q].0 == min_r + j && s@[q].1 == min_c + c;
                        assert(q != k);
                    }
                }
            }
            assert forall|j: int| 0 <= j < height implies (#[trigger] grid@[j])@.len() == width by {
                if j != gr {
                    assert(grid@[j] == before[j]);
                }
            }
            assert forall|j: int, c: int| 0 <= j < height && 0 <= c < width implies
                #[trigger] grid@[j]@[c] == block_char() || grid@[j]@[c] == ' ' by {
                if j != gr {
                    assert(grid@[j] == before[j]);
                }
            }
        }
        k = k + 1;
    }
    let mut rows: Vec<String> = Vec::new();
    let mut j: usize = 0;
    while j < height
        invariant
            s@ == piece_shape@,
            s@.len() > 0,
            j <= height,
            min_r == min_row(s@),
            min_c == min_col(s@),
            height == max_row(s@) - min_row(s@) + 1,
            width == max_col(s@) - min_col(s@) + 1,
            !(max_row(s@) == min_row(s@) && max_col(s@) == min_col(s@)),
            grid@.len() == height,
            forall|q: int| 0 <= q < height ==> (#[trigger] grid@[q])@.len() == width,
            forall|q: int, c: int| 0 <= q < height && 0 <= c < width ==>
                (#[trigger] grid@[q]@[c] == block_char() <==> exists|p: int| 0 <= p < s@.len() && s@[p].0 == min_r + q
                    && s@[p].1 == min_c + c),
            forall|q: int, c: int| 0 <= q < height && 0 <= c < width ==>
                #[trigger] grid@[q]@[c] == block_char() || grid@[q]@[c] == ' ',
            rows@.len() == j,
            forall|q: int| 0 <= q < j ==> #[trigger] rows@[q]@ == visual_shape(s@)[q],
        decreases height - j,
    {
        let text = string_of(&grid[j]);
        proof {
            assert(text@ =~= visual_shape(s@)[j as int]) by {
                assert forall|c: int| 0 <= c < width implies text@[c] == shape_char(s@, j as int, c) by {
                    assert(grid@[j as int]@[c] == block_char() || grid@[j as int]@[c] == ' ');
                }
            }
        }
        rows.push(text);
        j = j + 1;
    }
    rows
}

// ---------------------------------------------------------------------------
// Ghost piece

/// The board cell under block `k` of `shape` placed at (`row`, `col`).
pub open spec fn anchored(shape: Seq<(i32, i32)>, row: usize, col: usize, k: int) -> (int, int) {
    ((row as i32) + shape[k].0, (col as i32) + shape[k].1)
}

/// The width of a board: the length of its first row.
pub open spec fn board_width(board: Seq<Vec<i32>>) -> int {
    if board.len() > 0 { board[0]@.len() as int } else { 0 }
}

pub open spec fn on_board(board: Seq<Vec<i32>>, cell: (int, int)) -> bool {
    0 <= cell.0 < board.len() && 0 <= cell.1 < board_width(board)
}

/// Whether the first `k` blocks of the placed piece lie on the board.
pub open spec fn fits_upto(board: Seq<Vec<i32>>, shape: Seq<(i32, i32)>, row: usize, col: usize, k: int) -> bool {
    forall|q: int| 0 <= q < k ==> #[trigger] on_board(board, anchored(shape, row, col, q))
}

/// The empty cells among the first `k` blocks of the placed piece, in order.
pub open spec fn empty_cells_upto(board: Seq<Vec<i32>>, shape: Seq<(i32, i32)>, row: usize, col: usize, k: nat) -> Seq<(usize, usize)>
    decreases k,
{
    if k == 0 {
        seq![]
    } else {
        let prev = empty_cells_upto(board, shape, row, col, (k - 1) as nat);
        let cell = anchored(shape, row, col, k - 1);
        if board[cell.0]@[cell.1] == 0 {
            prev.push((cell.0 as usize, cell.1 as usize))
        } else {
            prev
        }
    }
}

/// The cells shown as a ghost of `shape` placed at (`row`, `col`): when all
/// its blocks lie on the board, those of them that are empty; else none.
pub open spec fn ghost_cells(board: Seq<Vec<i32>>, shape: Seq<(i32, i32)>, row: usize, col: usize) -> Seq<(usize, usize)> {
    if fits_upto(board, shape, row, col, shape.len() as int) {
        empty_cells_upto(board, shape, row, col, shape.len())
    } else {
        seq![]
    }
}

/// Computes `ghost_cells` for a piece of the given shape placed at (`row`, `col`).
pub fn ghost_piece_cells(board: &Vec<Vec<i32>>, piece_shape: &[(i32, i32)], row: usize, col: usize) -> (cells: Vec<(usize, usize)>)
    requires
        forall|k: int| #![trigger anchored(piece_shape@, row, col, k)] 0 <= k < piece_shape@.len()
            ==> i32::MIN <= anchored(piece_shape@, row, col, k).0 <= i32::MAX
            && i32::MIN <= anchored(piece_shape@, row, col, k).1 <= i32::MAX,
        forall|k: int| 0 <= k < piece_shape@.len() && on_board(board@, #[trigger] anchored(piece_shape@, row, col, k)) ==>
            anchored(piece_shape@, row, col, k).1 < board@[anchored(piece_shape@, row, col, k).0]@.len(),
    ensures
        cells@ == ghost_cells(board@, piece_shape@, row, col),
{
    let board_height = board.len();
    let width: usize = if board_height > 0 { board[0].len() } else { 0 };
    let mut all_valid = true;
    let mut valid: Vec<(usize, usize)> = Vec::new();
    let mut k: usize = 0;
    while k < piece_shape.len()
        invariant_except_break
            k <= piece_shape@.len(),
            all_valid,
            fits_upto(board@, piece_shape@, row, col, k as int),
            valid@.len() == k,
            forall|q: int| 0 <= q < k ==> (#[trigger] valid@[q]).0 == anchored(piece_shape@, row, col, q).0
                && valid@[q].1 == anchored(piece_shape@, row, col, q).1,
        invariant
            board_height == board@.len(),
            width == board_width(board@),
            forall|k: int| #![trigger anchored(piece_shape@, row, col, k)] 0 <= k < piece_shape@.len()
                ==> i32::MIN <= anchored(piece_shape@, row, col, k).0 <= i32::MAX
                && i32::MIN <= anchored(piece_shape@, row, col, k).1 <= i32::MAX,
        ensures
            all_valid ==> fits_upto(board@, piece_shape@, row, col, piece_shape@.len() as int)
                && valid@.len() == piece_shape@.len()
                && forall|q: int| 0 <= q < piece_shape@.len() ==> (#[trigger] valid@[q]).0 == anchored(piece_shape@, row, col, q).0
                    && valid@[q].1 == anchored(piece_shape@, row, col, q).1,
            !all_valid ==> !fits_upto(board@, piece_shape@, row, col, piece_shape@.len() as int),
        decreases piece_shape@.len() - k,
    {
        let (dr, dc) = piece_shape[k];
        proof {
            assert(anchored(piece_shape@, row, col, k as int) == ((row as i32) + dr, (col as i32) + dc));
        }
        let board_r: i32 = row as i32 + dr;
        let board_c: i32 = col as i32 + dc;
        if board_r >= 0 && (board_r as usize) < board_height && board_c >= 0 && (board_c as usize) < width {
            valid.push((board_r as usize, board_c as usize));
        } else {
            all_valid = false;
            proof {
                assert(!on_board(board@, anchored(piece_shape@, row, col, k as int)));
            }
            break;
        }
        k = k + 1;
    }
    let mut cells: Vec<(usize, usize)> = Vec::new();
    if all_valid {
        let mut q: usize = 0;
        while q < valid.len()
            invariant
                all_valid,
                q <= valid@.len(),
                valid@.len() == piece_shape@.len(),
                fits_upto(board@, piece_shape@, row, col, piece_shape@.len() as int),
                forall|p: int| 0 <= p < piece_shape@.len() ==> (#[trigger] valid@[p]).0 == anchored(piece_shape@, row, col, p).0
                    && valid@[p].1 == anchored(piece_shape@, row, col, p).1,
                forall|k: int| 0 <= k < piece_shape@.len() && on_board(board@, #[trigger] anchored(piece_shape@, row, col, k)) ==>
                    anchored(piece_shape@, row, col, k).1 < board@[anchored(piece_shape@, row, col, k).0]@.len(),
                cells@ == empty_cells_upto(board@, piece_shape@, row, col, q as nat),
            decreases valid@.len() - q,
        {
            let (br, bc) = valid[q];
            proof {
                assert(on_board(board@, anchored(piece_shape@, row, col, q as int)));
            }
            if board[br][bc] == 0 {
                cells.push((br, bc));
            }
            q = q + 1;
        }
    }
    cells
}

// ---------------------------------------------------------------------------
// Clicks in the piece panel

/// The index of the current player's list: player `p` (1 to 4) has list
/// `p - 1`; other players have none.
pub open spec fn current_list(current_player: i32) -> int {
    if 1 <= current_player <= 4 { current_player - 1 } else { -1 }
}

/// The rows taken by a list of `n` pieces: five pieces to a row of three
/// lines (in 16 bits).
pub open spec fn list_rows(n: nat) -> int {
    (((n + 4) / 5 * 3) as u16) as int
}

/// The panel row reached before list `k`: a header for each list, and the
/// pieces of each open list that is not the current player's.
pub open spec fn rows_before(expanded: Seq<bool>, lens: Seq<nat>, k: int) -> int
    decreases k,
{
    if k <= 0 {
        0
    } else {
        rows_before(expanded, lens, k - 1) + 1 + (if expanded[k - 1] { list_rows(lens[k - 1]) } else { 0 })
    }
}

/// The lists walked before the click is resolved: up to the current
/// player's list when it is open, else all four.
pub open spec fn lists_walked(expanded: Seq<bool>, current_player: i32) -> int {
    let c = current_list(current_player);
    if 0 <= c < 4 && expanded[c] { c } else { 4 }
}

/// The lengths of the piece lists.
pub open spec fn list_lens(available: Seq<Vec<usize>>) -> Seq<nat> {
    Seq::new(available.len(), |i: int| available[i]@.len())
}

/// The piece index under a click at (`col`, `row`) of the current player's
/// open list that starts at row `start`.
pub open spec fn clicked_piece_index(col: u16, row: u16, start: int) -> int {
    (row - start) / 3 * 5 + (col - 6) / 8
}

/// The piece that a click at (`col`, `row`) right of the toggles selects, if any.
pub open spec fn piece_selection(expanded: Seq<bool>, available: Seq<Vec<usize>>, current_player: i32, col: u16, row: u16) -> Option<usize> {
    let c = lists_walked(expanded, current_player);
    if c < 4 {
        let start = rows_before(expanded, list_lens(available), c) + 1;
        if row >= start && clicked_piece_index(col, row, start) < available[c]@.len() {
            Some(available[c]@[clicked_piece_index(col, row, start)])
        } else {
            None
        }
    } else {
        None
    }
}

/// Whether the arithmetic of a click at (`col`, `row`) right of the toggles
/// stays within 16 bits and the player number can be lowered by one.
pub open spec fn piece_click_in_range(expanded: Seq<bool>, available: Seq<Vec<usize>>, current_player: i32, col: u16, row: u16) -> bool {
    let c = lists_walked(expanded, current_player);
    let lens = list_lens(available);
    &&& (expanded[0] || expanded[1] || expanded[2] || expanded[3]) ==> current_player > i32::MIN
    &&& forall|k: int| 0 <= k < c ==> #[trigger] rows_before(expanded, lens, k + 1) <= u16::MAX
    &&& c < 4 ==> rows_before(expanded, lens, c) + 1 <= u16::MAX
    &&& c < 4 && row >= rows_before(expanded, lens, c) + 1 ==>
        clicked_piece_index(col, row, rows_before(expanded, lens, c) + 1) <= u16::MAX
}

/// Handles a click at (`col`, `row`) of the piece panel, `available` holding
/// the pieces left to each of the four players. Within the five leftmost
/// columns, a click on the first 44 rows opens or closes the list of player
/// `row / 11 + 1`. Further right, a click on a piece of the current player's
/// open list selects it.
pub fn handle_blokus_piece_selection_click(
    config: &mut BlokusUIConfig,
    current_player: i32,
    available: &Vec<Vec<usize>>,
    col: u16,
    row: u16,
)
    requires
        available@.len() == 4,
        forall|i: int| 0 <= i < 4 ==> #[trigger] available@[i]@.len() + 4 <= usize::MAX,
        col > 5 ==> piece_click_in_range(old(config).players_expanded@, available@, current_player, col, row),
    ensures
        col <= 5 && row <= 43 ==> final(config).players_expanded@ == old(config).players_expanded@.update(
            row as int / 11,
            !old(config).players_expanded@[row as int / 11],
        ) && final(config).selected_piece_idx == old(config).selected_piece_idx
            && final(config).selected_transformation_idx == old(config).selected_transformation_idx
            && final(config).piece_selection_scroll == old(config).piece_selection_scroll
            && final(config).panel_scroll_offset == old(config).panel_scroll_offset,
        col <= 5 && row > 43 ==> *final(config) == *old(config),
        col > 5 ==> match piece_selection(old(config).players_expanded@, available@, current_player, col, row) {
            Some(p) => *final(config) == (BlokusUIConfig {
                selected_piece_idx: Some(p),
                selected_transformation_idx: 0,
                ..*old(config)
            }),
            None => *final(config) == *old(config),
        },
{
    if col <= 5 {
        let estimated_player: usize = if row <= 10 {
            1
        } else if row <= 21 {
            2
        } else if row <= 32 {
            3
        } else if row <= 43 {
            4
        } else {
            return;
        };
        config.toggle_player_expand(estimated_player - 1);
        return;
    }
    let ghost expanded = config.players_expanded@;
    let ghost lens = list_lens(available@);
    let ghost walked = lists_walked(expanded, current_player);
    let mut piece_row: u16 = 0;
    let mut player_idx: usize = 0;
    while player_idx < 4
        invariant_except_break
            player_idx <= walked,
            piece_row == rows_before(expanded, lens, player_idx as int),
        invariant
            config.players_expanded@ == expanded,
            expanded.len() == 4,
            available@.len() == 4,
            forall|i: int| 0 <= i < 4 ==> #[trigger] available@[i]@.len() + 4 <= usize::MAX,
            lens == list_lens(available@),
            walked == lists_walked(expanded, current_player),
            piece_click_in_range(expanded, available@, current_player, col, row),
            col > 5,
            *config == *old(config),
        ensures
            *config == *old(config) ==> piece_selection(expanded, available@, current_player, col, row) is None,
        decreases 4 - player_idx,
    {
        if !config.players_expanded[player_idx] {
            proof {
                assert(player_idx < walked);
                assert(rows_before(expanded, lens, player_idx + 1) <= u16::MAX);
            }
            piece_row = piece_row + 1;
            player_idx = player_idx + 1;
            continue;
        }
        if player_idx as i64 == current_player as i64 - 1 {
            proof {
                assert(walked == player_idx);
            }
            piece_row = piece_row + 1;
            if row >= piece_row {
                let relative_row = row - piece_row;
                let piece_col = (col - 6) / 8;
                let piece_row_in_section = relative_row / 3;
                proof {
                    assert(clicked_piece_index(col, row, piece_row as int) <= u16::MAX);
                }
                let piece_index = (piece_row_in_section * 5 + piece_col) as usize;
                if piece_index < available[player_idx].len() {
                    let piece_id = available[player_idx][piece_index];
                    config.select_piece(piece_id);
                    return;
                }
            }
            break;
        } else {
            proof {
                assert(player_idx < walked);
                assert(rows_before(expanded, lens, player_idx + 1) <= u16::MAX);
            }
            piece_row = piece_row + 1;
            let n = available[player_idx].len();
            let extra: u16 = ((n + 4) / 5 * 3) as u16;
            piece_row = piece_row + extra;
        }
        player_idx = player_idx + 1;
    }
}

} // verus!
