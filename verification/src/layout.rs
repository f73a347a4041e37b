//! Panel layout of the terminal interface: how the screen is divided between
//! the board and the other panels, where the draggable boundaries lie, and
//! how dragging them resizes the panels.
use vstd::prelude::*;
use ratatui::layout::{Constraint, Direction, Layout, Rect};

verus! {

/// A rectangle of terminal cells.
#[derive(Clone, Copy, Debug, PartialEq, Eq, Structural)]
pub struct Area {
    pub x: u16,
    pub y: u16,
    pub width: u16,
    pub height: u16,
}

/// The axis along which an area is divided.
#[derive(Clone, Copy, Debug, PartialEq, Eq, Structural)]
pub enum SplitAxis {
    Horizontal,
    Vertical,
}

/// The sum of `lengths`.
pub open spec fn lengths_total(lengths: Seq<u16>) -> int
    decreases lengths.len(),
{
    if lengths.len() == 0 {
        0
    } else {
        lengths_total(lengths.drop_last()) + lengths.last()
    }
}

/// Where `area` starts along `axis`.
pub open spec fn axis_start(area: Area, axis: SplitAxis) -> int {
    match axis {
        SplitAxis::Horizontal => area.x as int,
        SplitAxis::Vertical => area.y as int,
    }
}

/// How long `area` is along `axis`.
pub open spec fn axis_extent(area: Area, axis: SplitAxis) -> int {
    match axis {
        SplitAxis::Horizontal => area.width as int,
        SplitAxis::Vertical => area.height as int,
    }
}

/// The lengths add up to the area's extent along the axis, and the area
/// ends within the coordinate range: every length can then be met at once.
pub open spec fn lengths_fill(area: Area, axis: SplitAxis, lengths: Seq<u16>) -> bool {
    &&& lengths_total(lengths) == axis_extent(area, axis)
    &&& axis_start(area, axis) + axis_extent(area, axis) <= u16::MAX
}

/// The `i`-th part of `area` cut along `axis` into consecutive pieces of
/// the given lengths, the first at the area's start.
pub open spec fn tile(area: Area, axis: SplitAxis, lengths: Seq<u16>, i: int) -> Area {
    let offset = (axis_start(area, axis) + lengths_total(lengths.take(i))) as u16;
    match axis {
        SplitAxis::Horizontal => Area { x: offset, y: area.y, width: lengths[i], height: area.height },
        SplitAxis::Vertical => Area { x: area.x, y: offset, width: area.width, height: lengths[i] },
    }
}

/// `area` cut along `axis` into consecutive pieces of the given lengths.
pub open spec fn tiling(area: Area, axis: SplitAxis, lengths: Seq<u16>) -> Seq<Area> {
    Seq::new(lengths.len(), |i: int| tile(area, axis, lengths, i))
}

/// Calls `ratatui::layout::Layout::split` on a layout with the given
/// direction and one `Constraint::Length` per entry of `lengths` (no margin,
/// no spacing, the default flex).
/// Trusted: one area per constraint; and when the lengths fill the area
/// exactly, the areas are the area cut into consecutive pieces of exactly
/// those lengths, the only solution that meets every length.  Where the
/// lengths do not fill the area, which of several equally good solutions the
/// solver picks is left unsaid: it depends on the order in which its hash
/// maps are walked.
#[verifier::external_body]
fn split_lengths(area: Area, axis: SplitAxis, lengths: &Vec<u16>) -> (parts: Vec<Area>)
    ensures
        parts@.len() == lengths@.len(),
        lengths_fill(area, axis, lengths@) ==> parts@ == tiling(area, axis, lengths@),
{
    let direction = match axis {
        SplitAxis::Horizontal => Direction::Horizontal,
        SplitAxis::Vertical => Direction::Vertical,
    };
    let rect = Rect { x: area.x, y: area.y, width: area.width, height: area.height };
    let constraints: Vec<Constraint> = lengths.iter().map(|l| Constraint::Length(*l)).collect();
    let rects = Layout::default().direction(direction).constraints(constraints).split(rect);
    rects.iter().map(|r| Area { x: r.x, y: r.y, width: r.width, height: r.height }).collect()
}

/// A boundary between panels that can be dragged.
#[derive(Clone, Copy, Debug, PartialEq, Eq, Structural)]
pub enum DragBoundary {
    /// Between the board and the bottom panel.
    BoardBottom,
    /// Left edge of the Blokus piece panel.
    BlokusPieceSelectionLeft,
    /// Right edge of the Blokus piece panel.
    BlokusPieceSelectionRight,
}

/// Panel sizes chosen by the user.
#[derive(Clone, Copy, Debug, PartialEq, Eq, Structural)]
pub struct LayoutConfig {
    /// Share of the height given to the board, in percent.
    pub board_height_percent: u8,
    /// Width of the Blokus piece panel, in cells.
    pub blokus_piece_selection_width: u16,
}

/// Width of the Blokus player status panel.
pub const PLAYER_STATUS_WIDTH: u16 = 20;

/// The rows given to the board: `percent` percent of `height`, rounded down
/// and capped at the largest row count.
pub open spec fn board_rows(height: u16, percent: u8) -> u16 {
    let rows = height as int * percent as int / 100;
    if rows > u16::MAX { u16::MAX } else { rows as u16 }
}

/// `a - b`, or 0 when `b > a`.
pub open spec fn sat_sub(a: u16, b: u16) -> u16 {
    if a >= b { (a - b) as u16 } else { 0 }
}

pub open spec fn abs_diff(a: u16, b: u16) -> int {
    if a >= b { a - b } else { b - a }
}

/// The width of the Blokus board panel: what the two other panels leave,
/// but at least 40.
pub open spec fn blokus_board_width(width: u16, piece_width: u16) -> u16 {
    let rest = sat_sub(width, (piece_width + PLAYER_STATUS_WIDTH) as u16);
    if rest >= 40 { rest } else { 40 }
}

pub open spec fn clamp_i16(x: int, lo: int, hi: int) -> int {
    if x < lo { lo } else if x > hi { hi } else { x }
}

impl Default for LayoutConfig {
    fn default() -> (c: Self)
        ensures
            c.board_height_percent == 65,
            c.blokus_piece_selection_width == 50,
    {
        LayoutConfig { board_height_percent: 65, blokus_piece_selection_width: 50 }
    }
}

fn abs_diff_exec(a: u16, b: u16) -> (d: u16)
    ensures
        d == abs_diff(a, b),
{
    if a >= b { a - b } else { b - a }
}

fn board_rows_exec(height: u16, percent: u8) -> (r: u16)
    ensures
        r == board_rows(height, percent),
{
    proof {
        assert((height as int) * (percent as int) <= 65535 * 255) by (nonlinear_arith)
            requires
                0 <= height <= 65535,
                0 <= percent <= 255,
        ;
    }
    let rows: u32 = height as u32 * percent as u32 / 100;
    if rows > 65535 { 65535 } else { rows as u16 }
}

fn blokus_board_width_exec(width: u16, piece_width: u16) -> (r: u16)
    requires
        piece_width + PLAYER_STATUS_WIDTH <= u16::MAX,
    ensures
        r == blokus_board_width(width, piece_width),
{
    let rest = width.saturating_sub(piece_width + PLAYER_STATUS_WIDTH);
    if rest >= 40 { rest } else { 40 }
}

impl LayoutConfig {
    /// The board area above and the bottom panel below: the board gets
    /// `board_rows` of the height, the bottom panel the rest.  When the
    /// board's share is at most the whole height (a percentage of at most
    /// 100) and the area ends within the coordinate range, the board is the
    /// top `board_rows` rows and the bottom panel the rows below them.
    pub fn get_main_layout(&self, area: Area) -> (r: (Area, Area))
        ensures
            ({
                let board = board_rows(area.height, self.board_height_percent);
                (board <= area.height && area.y + area.height <= u16::MAX) ==> r == (
                    Area { x: area.x, y: area.y, width: area.width, height: board },
                    Area { x: area.x, y: (area.y + board) as u16, width: area.width, height: (area.height - board) as u16 },
                )
            }),
    {
        let board_height = board_rows_exec(area.height, self.board_height_percent);
        let bottom_height = area.height.saturating_sub(board_height);
        let lengths = vec![board_height, bottom_height];
        let chunks = split_lengths(area, SplitAxis::Vertical, &lengths);
        proof {
            let ls = seq![board_height, bottom_height];
            assert(lengths@ == ls);
            reveal_with_fuel(lengths_total, 3);
            assert(ls.take(0) =~= Seq::<u16>::empty());
            assert(ls.take(1) =~= seq![board_height]);
            assert(ls.take(1).drop_last() =~= Seq::<u16>::empty());
            assert(ls.drop_last() =~= seq![board_height]);
            assert(ls.drop_last().drop_last() =~= Seq::<u16>::empty());
            assert(lengths_total(ls.take(0)) == 0);
            assert(lengths_total(ls.take(1)) == board_height);
            assert(lengths_total(ls) == board_height + bottom_height);
        }
        (chunks[0], chunks[1])
    }

    /// The Blokus board, piece panel and player status panel, side by side.
    /// When the area is wide enough for a board of 40 columns beside the two
    /// panels (and ends within the coordinate range), the board takes what
    /// the panels leave, then come the piece panel and the status panel.
    pub fn get_blokus_layout(&self, area: Area) -> (r: (Area, Area, Area))
        requires
            self.blokus_piece_selection_width + PLAYER_STATUS_WIDTH <= u16::MAX,
        ensures
            ({
                let pw = self.blokus_piece_selection_width;
                let board = (area.width - pw - PLAYER_STATUS_WIDTH) as u16;
                (area.width >= pw + PLAYER_STATUS_WIDTH + 40 && area.x + area.width <= u16::MAX) ==> r == (
                    Area { x: area.x, y: area.y, width: board, height: area.height },
                    Area { x: (area.x + board) as u16, y: area.y, width: pw, height: area.height },
                    Area { x: (area.x + board + pw) as u16, y: area.y, width: PLAYER_STATUS_WIDTH, height: area.height },
                )
            }),
    {
        let board_width = blokus_board_width_exec(area.width, self.blokus_piece_selection_width);
        let lengths = vec![board_width, self.blokus_piece_selection_width, PLAYER_STATUS_WIDTH];
        let chunks = split_lengths(area, SplitAxis::Horizontal, &lengths);
        proof {
            let pw = self.blokus_piece_selection_width;
            let ls = seq![board_width, pw, PLAYER_STATUS_WIDTH];
            assert(lengths@ == ls);
            reveal_with_fuel(lengths_total, 4);
            assert(ls.take(0) =~= Seq::<u16>::empty());
            assert(ls.take(1) =~= seq![board_width]);
            assert(ls.take(1).drop_last() =~= Seq::<u16>::empty());
            assert(ls.take(2) =~= seq![board_width, pw]);
            assert(ls.take(2).drop_last() =~= seq![board_width]);
            assert(seq![board_width].drop_last() =~= Seq::<u16>::empty());
            assert(ls.drop_last() =~= seq![board_width, pw]);
            assert(lengths_total(ls.take(0)) == 0);
            assert(lengths_total(seq![board_width]) == board_width);
            assert(lengths_total(ls.take(1)) == board_width);
            assert(lengths_total(ls.take(2)) == board_width + pw);
            assert(lengths_total(ls) == board_width + pw + PLAYER_STATUS_WIDTH);
        }
        (chunks[0], chunks[1], chunks[2])
    }

    /// The draggable boundaries of the standard layout, each with its column
    /// and row: the line below the board.
    pub fn get_drag_boundaries(&self, terminal_size: Area) -> (b: Vec<(DragBoundary, u16, u16)>)
        ensures
            b@ == seq![(DragBoundary::BoardBottom, 0u16, board_rows(terminal_size.height, self.board_height_percent))],
    {
        let mut boundaries = Vec::new();
        let board_height = board_rows_exec(terminal_size.height, self.board_height_percent);
        boundaries.push((DragBoundary::BoardBottom, 0u16, board_height));
        boundaries
    }

    /// The boundary that a click at (`col`, `row`) grabs: in Blokus, within
    /// two columns of either edge of the piece panel; otherwise within one
    /// row of the line below the board.
    pub fn detect_boundary_click(&self, col: u16, row: u16, terminal_size: Area, is_blokus: bool) -> (d: Option<DragBoundary>)
        requires
            is_blokus ==> self.blokus_piece_selection_width + PLAYER_STATUS_WIDTH <= u16::MAX,
            is_blokus ==> blokus_board_width(terminal_size.width, self.blokus_piece_selection_width)
                + self.blokus_piece_selection_width <= u16::MAX,
        ensures
            d == (if is_blokus && abs_diff(col, blokus_board_width(terminal_size.width, self.blokus_piece_selection_width)) <= 2 {
                Some(DragBoundary::BlokusPieceSelectionLeft)
            } else if is_blokus && abs_diff(
                col,
                (blokus_board_width(terminal_size.width, self.blokus_piece_selection_width)
                    + self.blokus_piece_selection_width) as u16,
            ) <= 2 {
                Some(DragBoundary::BlokusPieceSelectionRight)
            } else if abs_diff(row, board_rows(terminal_size.height, self.board_height_percent)) <= 1 {
                Some(DragBoundary::BoardBottom)
            } else {
                None
            }),
    {
        if is_blokus {
            let board_width = blokus_board_width_exec(terminal_size.width, self.blokus_piece_selection_width);
            let left_boundary = board_width;
            let right_boundary = board_width + self.blokus_piece_selection_width;
            if abs_diff_exec(col, left_boundary) <= 2 {
                return Some(DragBoundary::BlokusPieceSelectionLeft);
            }
            if abs_diff_exec(col, right_boundary) <= 2 {
                return Some(DragBoundary::BlokusPieceSelectionRight);
            }
        }
        let boundaries = self.get_drag_boundaries(terminal_size);
        let mut i: usize = 0;
        while i < boundaries.len()
            invariant
                i <= boundaries@.len(),
                boundaries@ == seq![(DragBoundary::BoardBottom, 0u16, board_rows(terminal_size.height, self.board_height_percent))],
                i == 1 ==> abs_diff(row, board_rows(terminal_size.height, self.board_height_percent)) > 1,
                is_blokus ==> abs_diff(col, blokus_board_width(terminal_size.width, self.blokus_piece_selection_width)) > 2,
                is_blokus ==> abs_diff(
                    col,
                    (blokus_board_width(terminal_size.width, self.blokus_piece_selection_width)
                        + self.blokus_piece_selection_width) as u16,
                ) > 2,
            decreases boundaries@.len() - i,
        {
            let (boundary_type, _boundary_col, boundary_row) = boundaries[i];
            match boundary_type {
                DragBoundary::BoardBottom => {
                    if abs_diff_exec(row, boundary_row) <= 1 {
                        return Some(boundary_type);
                    }
                },
                _ => {},
            }
            i = i + 1;
        }
        None
    }

    /// Moves a boundary by `delta`: the board share stays within 20 and 80
    /// percent, the piece panel within 30 and 80 cells (the right edge moves
    /// the panel's width the other way).
    pub fn handle_drag(&mut self, boundary: DragBoundary, delta: i16, _terminal_size: Area)
        requires
            boundary == DragBoundary::BoardBottom ==> old(self).board_height_percent + delta <= i16::MAX,
            boundary == DragBoundary::BlokusPieceSelectionLeft ==>
                i16::MIN <= (old(self).blokus_piece_selection_width as i16) + delta <= i16::MAX,
            boundary == DragBoundary::BlokusPieceSelectionRight ==>
                i16::MIN <= (old(self).blokus_piece_selection_width as i16) - delta <= i16::MAX,
        ensures
            ({
                let o = *old(self);
                let f = *final(self);
                match boundary {
                    DragBoundary::BoardBottom => f.blokus_piece_selection_width == o.blokus_piece_selection_width
                        && f.board_height_percent == clamp_i16(o.board_height_percent + delta, 20, 80),
                    DragBoundary::BlokusPieceSelectionLeft => f.board_height_percent == o.board_height_percent
                        && f.blokus_piece_selection_width
                            == clamp_i16((o.blokus_piece_selection_width as i16) + delta, 30, 80),
                    DragBoundary::BlokusPieceSelectionRight => f.board_height_percent == o.board_height_percent
                        && f.blokus_piece_selection_width
                            == clamp_i16((o.blokus_piece_selection_width as i16) - delta, 30, 80),
                }
            }),
    {
        match boundary {
            DragBoundary::BoardBottom => {
                let sum: i16 = self.board_height_percent as i16 + delta;
                let clamped: i16 = if sum < 20 { 20 } else if sum > 80 { 80 } else { sum };
                self.board_height_percent = clamped as u8;
            },
            DragBoundary::BlokusPieceSelectionLeft => {
                let sum: i16 = self.blokus_piece_selection_width as i16 + delta;
                let clamped: i16 = if sum < 30 { 30 } else if sum > 80 { 80 } else { sum };
                self.blokus_piece_selection_width = clamped as u16;
            },
            DragBoundary::BlokusPieceSelectionRight => {
                let diff: i16 = self.blokus_piece_selection_width as i16 - delta;
                let clamped: i16 = if diff < 30 { 30 } else if diff > 80 { 80 } else { diff };
                self.blokus_piece_selection_width = clamped as u16;
            },
        }
    }
}

/// The state of a boundary drag.
#[derive(Clone, Copy, Debug)]
pub struct DragState {
    pub is_dragging: bool,
    pub drag_boundary: Option<DragBoundary>,
    /// Where the drag began.
    pub drag_start: Option<(u16, u16)>,
    /// Where the pointer was last seen during the drag.
    pub last_drag_pos: Option<(u16, u16)>,
}

/// The signed step from `from` to `to`, each read as a 16-bit signed number.
pub open spec fn signed_step(to: u16, from: u16) -> int {
    (to as i16) - (from as i16)
}

impl Default for DragState {
    fn default() -> (s: Self)
        ensures
            !s.is_dragging,
            s.drag_boundary is None,
            s.drag_start is None,
            s.last_drag_pos is None,
    {
        DragState { is_dragging: false, drag_boundary: None, drag_start: None, last_drag_pos: None }
    }
}

impl DragState {
    /// Begins dragging `boundary` at (`col`, `row`).
    pub fn start_drag(&mut self, boundary: DragBoundary, col: u16, row: u16)
        ensures
            final(self).is_dragging,
            final(self).drag_boundary == Some(boundary),
            final(self).drag_start == Some((col, row)),
            final(self).last_drag_pos == Some((col, row)),
    {
        self.is_dragging = true;
        self.drag_boundary = Some(boundary);
        self.drag_start = Some((col, row));
        self.last_drag_pos = Some((col, row));
    }

    /// Moves the drag to (`col`, `row`) and gives the step from the last
    /// position; nothing when no drag is under way, or when none was seen
    /// yet (then this position is recorded).
    pub fn update_drag(&mut self, col: u16, row: u16) -> (d: Option<(i16, i16)>)
        requires
            old(self).is_dragging && old(self).last_drag_pos is Some ==> {
                let (lc, lr) = old(self).last_drag_pos->0;
                &&& i16::MIN <= signed_step(col, lc) <= i16::MAX
                &&& i16::MIN <= signed_step(row, lr) <= i16::MAX
            },
        ensures
            !old(self).is_dragging ==> d is None && *final(self) == *old(self),
            old(self).is_dragging ==> {
                &&& final(self).last_drag_pos == Some((col, row))
                &&& final(self).is_dragging == old(self).is_dragging
                &&& final(self).drag_boundary == old(self).drag_boundary
                &&& final(self).drag_start == old(self).drag_start
                &&& d == (match old(self).last_drag_pos {
                    Some((lc, lr)) => Some((signed_step(col, lc) as i16, signed_step(row, lr) as i16)),
                    None => None,
                })
            },
    {
        if !self.is_dragging {
            return None;
        }
        match self.last_drag_pos {
            Some((last_col, last_row)) => {
                let delta_col: i16 = col as i16 - last_col as i16;
                let delta_row: i16 = row as i16 - last_row as i16;
                self.last_drag_pos = Some((col, row));
                Some((delta_col, delta_row))
            },
            None => {
                self.last_drag_pos = Some((col, row));
                None
            },
        }
    }

    /// Ends the drag.
    pub fn stop_drag(&mut self)
        ensures
            *final(self) == DragState::default_value(),
    {
        self.is_dragging = false;
        self.drag_boundary = None;
        self.drag_start = None;
        self.last_drag_pos = None;
    }

    /// The state with no drag.
    pub open spec fn default_value() -> DragState {
        DragState { is_dragging: false, drag_boundary: None, drag_start: None, last_drag_pos: None }
    }
}

} // verus!
