//! The state that the windowed board views keep between events, and what
//! an event on them asks for.
use vstd::prelude::*;

verus! {

/// What a board view asks for after an event.
#[derive(Debug, PartialEq, Eq)]
pub enum InputResult<M> {
    /// Nothing to do.
    Nothing,
    /// A move was chosen.
    Move(M),
    /// The view changed and must be drawn again.
    Redraw,
}

/// The view of an Othello board.
#[derive(Clone, Copy, Debug)]
pub struct OthelloRenderer {
    hover_cell: Option<(usize, usize)>,
}

impl OthelloRenderer {
    pub fn new() -> (r: Self)
        ensures
            r.hover() is None,
    {
        OthelloRenderer { hover_cell: None }
    }

    /// The cell under the pointer.
    pub closed spec fn hover(&self) -> Option<(usize, usize)> {
        self.hover_cell
    }

    pub fn hover_cell(&self) -> (h: Option<(usize, usize)>)
        ensures
            h == self.hover(),
    {
        self.hover_cell
    }

    /// The pointer moved to `new_hover` (a cell, or off the board).
    pub fn handle_hover<M>(&mut self, new_hover: Option<(usize, usize)>) -> (r: InputResult<M>)
        ensures
            final(self).hover() == new_hover,
            r == (if new_hover != old(self).hover() { InputResult::<M>::Redraw } else { InputResult::<M>::Nothing }),
    {
        let changed = match (new_hover, self.hover_cell) {
            (Some((a, b)), Some((c, d))) => a != c || b != d,
            (None, None) => false,
            _ => true,
        };
        self.hover_cell = new_hover;
        if changed { InputResult::Redraw } else { InputResult::Nothing }
    }

    pub fn reset(&mut self)
        ensures
            final(self).hover() is None,
    {
        self.hover_cell = None;
    }
}

/// The view of a Blokus board.
#[derive(Clone, Copy, Debug)]
pub struct BlokusRenderer {
    hover_cell: Option<(usize, usize)>,
    selected_piece: Option<usize>,
    selected_transform: usize,
}

impl BlokusRenderer {
    pub fn new() -> (r: Self)
        ensures
            r.hover() is None,
            r.selected_piece() is None,
            r.selected_transform() == 0,
    {
        BlokusRenderer { hover_cell: None, selected_piece: None, selected_transform: 0 }
    }

    pub closed spec fn hover(&self) -> Option<(usize, usize)> {
        self.hover_cell
    }

    pub closed spec fn selected_piece(&self) -> Option<usize> {
        self.selected_piece
    }

    pub closed spec fn selected_transform(&self) -> usize {
        self.selected_transform
    }

    pub fn hover_cell(&self) -> (h: Option<(usize, usize)>)
        ensures
            h == self.hover(),
    {
        self.hover_cell
    }

    /// The pointer moved to `new_hover` (a cell, or off the board).
    pub fn handle_hover<M>(&mut self, new_hover: Option<(usize, usize)>) -> (r: InputResult<M>)
        ensures
            final(self).hover() == new_hover,
            final(self).selected_piece() == old(self).selected_piece(),
            final(self).selected_transform() == old(self).selected_transform(),
            r == (if new_hover != old(self).hover() { InputResult::<M>::Redraw } else { InputResult::<M>::Nothing }),
    {
        let changed = match (new_hover, self.hover_cell) {
            (Some((a, b)), Some((c, d))) => a != c || b != d,
            (None, None) => false,
            _ => true,
        };
        self.hover_cell = new_hover;
        if changed { InputResult::Redraw } else { InputResult::Nothing }
    }

    pub fn reset(&mut self)
        ensures
            final(self).hover() is None,
            final(self).selected_piece() is None,
            final(self).selected_transform() == 0,
    {
        self.hover_cell = None;
        self.selected_piece = None;
        self.selected_transform = 0;
    }
}

/// The column under the pointer of a Connect Four board, kept only when
/// its top cell is empty.
pub fn open_column(column: Option<usize>, top_row: &Vec<i32>) -> (c: Option<usize>)
    requires
        column matches Some(col) ==> col < top_row@.len(),
    ensures
        c == (match column {
            Some(col) => if top_row@[col as int] == 0 { Some(col) } else { None },
            None => None,
        }),
{
    match column {
        Some(col) => if top_row[col] == 0 { Some(col) } else { None },
        None => None,
    }
}

} // verus!
