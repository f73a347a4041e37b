//! The interface that a game implements to be searched and played.
use vstd::prelude::*;

verus! {

/// A game position. Implemented by each game; the search and the
/// interfaces only read positions through these methods.
pub trait GameState: Sized {
    /// A move of the game.
    type Move;

    /// The board, one row per line, each cell holding a player id or 0.
    fn get_board(&self) -> Vec<Vec<i32>>;

    /// The cells changed by the last move, where the game has such cells.
    /// A game that does not track them keeps this default, which gives none.
    fn get_last_move(&self) -> (cells: Option<Vec<(usize, usize)>>)
        default_ensures
            cells is None,
    {
        None
    }

    /// The number of players.
    fn get_num_players(&self) -> i32;

    /// The moves open to the player to move.
    fn get_possible_moves(&self) -> Vec<Self::Move>;

    /// Plays a move and passes the turn.
    fn make_move(&mut self, mv: &Self::Move);

    /// Whether the game is over.
    fn is_terminal(&self) -> bool;

    /// The winner, if the game is over and not drawn.
    fn get_winner(&self) -> Option<i32>;

    /// The player to move.
    fn get_current_player(&self) -> i32;
}

} // verus!
