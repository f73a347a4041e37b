//! What the pointer does in the terminal interface: which menu entry, board
//! cell or column a click lands on, whose turn it is, and what playing a
//! move records.
use vstd::prelude::*;
use crate::layout::Area;
use crate::gui::{GameStatus, GameType, PlayerType};
use crate::game::GameState;

verus! {

// ---------------------------------------------------------------------------
// Players

/// The interface's number for a game's player id: two-player games use 1 and
/// -1, shown as players 1 and 2; Blokus numbers its players itself.
pub open spec fn ui_player(is_blokus: bool, id: i32) -> i32 {
    if is_blokus {
        id
    } else if id == 1 {
        1
    } else if id == -1 {
        2
    } else {
        id
    }
}

/// Whether `options` lists player `id` as human.
pub open spec fn listed_human(options: Seq<(i32, PlayerType)>, id: i32) -> bool {
    exists|i: int| 0 <= i < options.len() && options[i].0 == id && options[i].1 == PlayerType::Human
}

/// Whether the player to move is human.
pub fn is_current_player_human(is_blokus: bool, game_player_id: i32, player_options: &Vec<(i32, PlayerType)>) -> (b: bool)
    ensures
        b == listed_human(player_options@, ui_player(is_blokus, game_player_id)),
{
    let ui_player_id: i32 = if is_blokus {
        game_player_id
    } else if game_player_id == 1 {
        1
    } else if game_player_id == -1 {
        2
    } else {
        game_player_id
    };
    let mut i: usize = 0;
    while i < player_options.len()
        invariant
            i <= player_options@.len(),
            ui_player_id == ui_player(is_blokus, game_player_id),
            forall|j: int| 0 <= j < i ==> !(player_options@[j].0 == ui_player_id && player_options@[j].1 == PlayerType::Human),
        decreases player_options@.len() - i,
    {
        let (id, p) = player_options[i];
        if id == ui_player_id && p == PlayerType::Human {
            return true;
        }
        i = i + 1;
    }
    false
}

// ---------------------------------------------------------------------------
// Connect Four cursor

/// Whether row `r` of column `col` is empty and every row below it is full.
pub open spec fn lowest_empty(board: Seq<Vec<i32>>, col: int, r: int) -> bool {
    &&& 0 <= r < board.len()
    &&& 0 <= col < board[r]@.len()
    &&& board[r]@[col] == 0
    &&& forall|q: int| r < q < board.len() ==> #[trigger] board[q]@[col] != 0
}

/// Moves the cursor of a Connect Four board to the lowest empty row of its
/// column; a full column, or a column past the first row's end, leaves it.
pub fn update_connect4_cursor_row(board: &Vec<Vec<i32>>, cursor: &mut (u16, u16))
    requires
        board@.len() > 0,
        (old(cursor).1 as int) < board@[0]@.len() ==> forall|r: int|
            0 <= r < board@.len() && (forall|q: int| r < q < board@.len() ==> #[trigger] board@[q]@[old(cursor).1 as int] != 0)
                ==> (old(cursor).1 as int) < #[trigger] board@[r]@.len(),
    ensures
        final(cursor).1 == old(cursor).1,
        (old(cursor).1 as int) < board@[0]@.len() ==> forall|r: int|
            lowest_empty(board@, old(cursor).1 as int, r) ==> final(cursor).0 == r as u16,
        (old(cursor).1 as int) < board@[0]@.len() && (forall|r: int| !lowest_empty(board@, old(cursor).1 as int, r))
            ==> final(cursor).0 == old(cursor).0,
        (old(cursor).1 as int) >= board@[0]@.len() ==> *final(cursor) == *old(cursor),
{
    let col = cursor.1 as usize;
    if col < board[0].len() {
        let mut row = board.len();
        while row > 0
            invariant
                row <= board@.len(),
                col == old(cursor).1 as int,
                *cursor == *old(cursor),
                (col as int) < board@[0]@.len(),
                forall|r: int|
                    0 <= r < board@.len() && (forall|q: int| r < q < board@.len() ==> #[trigger] board@[q]@[col as int] != 0)
                        ==> (col as int) < #[trigger] board@[r]@.len(),
                forall|q: int| row <= q < board@.len() ==> #[trigger] board@[q]@[col as int] != 0,
            decreases row,
        {
            row = row - 1;
            if board[row][col] == 0 {
                proof {
                    assert(lowest_empty(board@, col as int, row as int));
                    assert forall|r: int| lowest_empty(board@, col as int, r) implies r == row by {
                        if r < row {
                            assert(board@[row as int]@[col as int] != 0);
                        }
                    }
                }
                cursor.0 = row as u16;
                return;
            }
        }
        proof {
            assert forall|r: int| !lowest_empty(board@, col as int, r) by {
                if 0 <= r < board@.len() {
                    assert(board@[r]@[col as int] != 0);
                }
            }
        }
    }
}

// ---------------------------------------------------------------------------
// Clicks

/// What a click on the board panel of a two-player game lands on.
#[derive(Clone, Copy, Debug, PartialEq, Eq, Structural)]
pub enum BoardClick {
    Ignored,
    /// A Connect Four column label.
    Column(usize),
    /// A board cell, by row and column.
    Cell(usize, usize),
}

pub open spec fn inside(a: Area, col: u16, row: u16) -> bool {
    row >= a.y && row < a.y + a.height && col >= a.x && col < a.x + a.width
}

/// Where a click at (`col`, `row`) lands on the board panel `a`, drawn with a
/// border, a label row above the cells, and (except in Connect Four) a
/// two-column label left of them, each cell two columns wide.
pub open spec fn board_click_spec(a: Area, col: u16, row: u16, is_connect4: bool, height: int, width: int) -> BoardClick {
    if !inside(a, col, row) {
        BoardClick::Ignored
    } else {
        let rc = col - a.x;
        let rr = row - a.y;
        if rc == 0 || rr == 0 || rc >= a.width - 1 || rr >= a.height - 1 {
            BoardClick::Ignored
        } else {
            let ic = rc - 1;
            let ir = rr - 1;
            if is_connect4 {
                if ir == 0 && ic / 2 < width {
                    BoardClick::Column((ic / 2) as usize)
                } else {
                    BoardClick::Ignored
                }
            } else if ir == 0 || ic < 2 {
                BoardClick::Ignored
            } else if ir - 1 < height && (ic - 2) / 2 < width {
                BoardClick::Cell((ir - 1) as usize, ((ic - 2) / 2) as usize)
            } else {
                BoardClick::Ignored
            }
        }
    }
}

/// Where a click at (`col`, `row`) lands on the board panel `board_area`,
/// for a board of `board_height` rows and `board_width` columns.
pub fn board_click(board_area: Area, col: u16, row: u16, is_connect4: bool, board_height: usize, board_width: usize) -> (c: BoardClick)
    requires
        row >= board_area.y ==> board_area.y + board_area.height <= u16::MAX,
        row >= board_area.y && row < board_area.y + board_area.height && col >= board_area.x
            ==> board_area.x + board_area.width <= u16::MAX,
    ensures
        c == board_click_spec(board_area, col, row, is_connect4, board_height as int, board_width as int),
{
    if !(row >= board_area.y && row < board_area.y + board_area.height && col >= board_area.x
        && col < board_area.x + board_area.width) {
        return BoardClick::Ignored;
    }
    let relative_col = col - board_area.x;
    let relative_row = row - board_area.y;
    if relative_col == 0 || relative_row == 0 || relative_col >= board_area.width - 1
        || relative_row >= board_area.height - 1 {
        return BoardClick::Ignored;
    }
    let inner_col = relative_col - 1;
    let inner_row = relative_row - 1;
    if is_connect4 {
        if inner_row == 0 {
            let board_col = (inner_col / 2) as usize;
            if board_col < board_width {
                return BoardClick::Column(board_col);
            }
        }
        return BoardClick::Ignored;
    }
    if inner_row == 0 {
        return BoardClick::Ignored;
    }
    if inner_col >= 2 && inner_row >= 1 {
        let board_col = ((inner_col - 2) / 2) as usize;
        let board_row = (inner_row - 1) as usize;
        if board_row < board_height && board_col < board_width {
            return BoardClick::Cell(board_row, board_col);
        }
    }
    BoardClick::Ignored
}

/// Whether a click on cell (`r`, `c`) proposes a move: in Gomoku on an
/// empty cell, in Othello on any cell; other games place pieces otherwise.
pub open spec fn cell_proposes_move(game: GameType, board: Seq<Vec<i32>>, r: int, c: int) -> bool {
    match game {
        GameType::Gomoku => board[r]@[c] == 0,
        GameType::Othello => true,
        _ => false,
    }
}

pub fn cell_click_proposes_move(game: GameType, board: &Vec<Vec<i32>>, r: usize, c: usize) -> (b: bool)
    requires
        game == GameType::Gomoku ==> r < board@.len() && c < board@[r as int]@.len(),
    ensures
        b == cell_proposes_move(game, board@, r as int, c as int),
{
    match game {
        GameType::Gomoku => board[r][c] == 0,
        GameType::Othello => true,
        _ => false,
    }
}

/// What a click in the game menu chooses.
#[derive(Clone, Copy, Debug, PartialEq, Eq, Structural)]
pub enum MenuClick {
    Nothing,
    Game(usize),
    Settings,
    Quit,
}

/// The menu lists the games from the third row, then Settings and Quit.
pub open spec fn menu_click_spec(row: u16, board_height: u16, games: int) -> MenuClick {
    if row < board_height && row >= 2 {
        let item = row - 2;
        if item < games {
            MenuClick::Game(item as usize)
        } else if item == games {
            MenuClick::Settings
        } else if item == games + 1 {
            MenuClick::Quit
        } else {
            MenuClick::Nothing
        }
    } else {
        MenuClick::Nothing
    }
}

/// The menu entry under row `row` of a menu panel `board_height` rows high
/// listing `games_len` games.
pub fn handle_menu_click(row: u16, board_height: u16, games_len: usize) -> (m: MenuClick)
    requires
        row < board_height && row >= 2 ==> games_len + 2 <= usize::MAX,
    ensures
        m == menu_click_spec(row, board_height, games_len as int),
{
    if row < board_height {
        let menu_start_row: u16 = 2;
        if row >= menu_start_row {
            let clicked_item = (row - menu_start_row) as usize;
            let total_items = games_len + 2;
            if clicked_item < total_items {
                if clicked_item < games_len {
                    return MenuClick::Game(clicked_item);
                } else if clicked_item == games_len {
                    return MenuClick::Settings;
                } else {
                    return MenuClick::Quit;
                }
            }
        }
    }
    MenuClick::Nothing
}

/// The settings entry under row `row` (the entries start below the top
/// border; there are eleven, the last one leading back).
pub fn handle_settings_click(row: u16, board_height: u16) -> (s: Option<usize>)
    ensures
        s == (if row < board_height && row >= 1 && row - 1 < 11 { Some((row - 1) as usize) } else { None::<usize> }),
{
    if row < board_height {
        if row >= 1 {
            let clicked_index = (row - 1) as usize;
            if clicked_index < 11 {
                return Some(clicked_index);
            }
        }
    }
    None
}

/// The Blokus cell under a click at (`col`, `row`) relative to the board
/// panel: the panel's inside is shared evenly among the cells (at least one
/// column and row each).
pub open spec fn blokus_cell_spec(col: u16, row: u16, panel: Area, board_height: int, board_width: int) -> Option<(usize, usize)> {
    if col >= 1 && row >= 1 && board_height > 0 && board_width > 0 {
        let cw = (if panel.width >= 2 { panel.width - 2 } else { 0 }) / board_width;
        let ch = (if panel.height >= 2 { panel.height - 2 } else { 0 }) / board_height;
        let c = (col - 1) / (if cw >= 1 { cw } else { 1 });
        let r = (row - 1) / (if ch >= 1 { ch } else { 1 });
        if r < board_height && c < board_width {
            Some((r as usize, c as usize))
        } else {
            None
        }
    } else {
        None
    }
}

pub fn blokus_board_cell(col: u16, row: u16, board_area: Area, board_height: usize, board_width: usize) -> (cell: Option<(usize, usize)>)
    ensures
        cell == blokus_cell_spec(col, row, board_area, board_height as int, board_width as int),
{
    if col >= 1 && row >= 1 && board_height > 0 && board_width > 0 {
        let available_width = board_area.width.saturating_sub(2);
        let available_height = board_area.height.saturating_sub(2);
        let cell_width: usize = available_width as usize / board_width;
        let cell_height: usize = available_height as usize / board_height;
        let cw: usize = if cell_width >= 1 { cell_width } else { 1 };
        let ch: usize = if cell_height >= 1 { cell_height } else { 1 };
        let board_col: usize = (col - 1) as usize / cw;
        let board_row: usize = (row - 1) as usize / ch;
        if board_row < board_height && board_col < board_width {
            return Some((board_row, board_col));
        }
    }
    None
}

// ---------------------------------------------------------------------------
// Playing a move

/// The state of the game after a move: over with its winner or drawn, or
/// nothing when play goes on.
pub open spec fn outcome_spec(terminal: bool, winner: Option<i32>) -> Option<GameStatus> {
    if terminal {
        match winner {
            Some(w) => Some(GameStatus::Win(w)),
            None => Some(GameStatus::Draw),
        }
    } else {
        None
    }
}

pub fn game_outcome(terminal: bool, winner: Option<i32>) -> (s: Option<GameStatus>)
    ensures
        s == outcome_spec(terminal, winner),
{
    if terminal {
        match winner {
            Some(w) => Some(GameStatus::Win(w)),
            None => Some(GameStatus::Draw),
        }
    } else {
        None
    }
}

/// Plays `player_move`, recording it with the player who made it, and gives
/// the end of the game if it came.
pub fn make_move_with_move<S: GameState>(game: &mut S, history: &mut Vec<(i32, S::Move)>, player_move: S::Move) -> (s: Option<GameStatus>)
    ensures
        final(history)@.len() == old(history)@.len() + 1,
        final(history)@.drop_last() == old(history)@,
        final(history)@.last().1 == player_move,
        s is None || s == Some(GameStatus::Draw) || s matches Some(GameStatus::Win(_)),
{
    let current_player = game.get_current_player();
    game.make_move(&player_move);
    history.push((current_player, player_move));
    let terminal = game.is_terminal();
    let winner = if terminal { game.get_winner() } else { None };
    game_outcome(terminal, winner)
}


/// Where a click in the Blokus screen lands.
#[derive(Clone, Copy, Debug, PartialEq, Eq, Structural)]
pub enum BlokusClick {
    /// On the board, at this column and row within its panel.
    Board(u16, u16),
    /// On the piece panel, at this column and row within it.
    Pieces(u16, u16),
    /// Elsewhere.
    Outside,
}

/// The Blokus panel under a click at (`col`, `row`): the board panel first,
/// then the piece panel.
pub open spec fn blokus_click_spec(col: u16, row: u16, board: Area, pieces: Area) -> BlokusClick {
    if inside(board, col, row) {
        BlokusClick::Board((col - board.x) as u16, (row - board.y) as u16)
    } else if inside(pieces, col, row) {
        BlokusClick::Pieces((col - pieces.x) as u16, (row - pieces.y) as u16)
    } else {
        BlokusClick::Outside
    }
}

pub fn blokus_click_target(col: u16, row: u16, board_area: Area, piece_area: Area) -> (c: BlokusClick)
    requires
        board_area.x + board_area.width <= u16::MAX,
        board_area.y + board_area.height <= u16::MAX,
        piece_area.x + piece_area.width <= u16::MAX,
        piece_area.y + piece_area.height <= u16::MAX,
    ensures
        c == blokus_click_spec(col, row, board_area, piece_area),
{
    if col >= board_area.x && col < board_area.x + board_area.width && row >= board_area.y
        && row < board_area.y + board_area.height {
        BlokusClick::Board(col - board_area.x, row - board_area.y)
    } else if col >= piece_area.x && col < piece_area.x + piece_area.width && row >= piece_area.y
        && row < piece_area.y + piece_area.height {
        BlokusClick::Pieces(col - piece_area.x, row - piece_area.y)
    } else {
        BlokusClick::Outside
    }
}

/// What a wheel notch does in the Blokus screen.
#[derive(Clone, Copy, Debug, PartialEq, Eq, Structural)]
pub enum BlokusScroll {
    /// Over the piece panel: scroll it.
    ScrollPanel,
    /// Over the board with a piece selected: turn it.
    RotatePiece,
    /// Over the board without a selected piece: nothing.
    Nothing,
    /// Elsewhere: the usual scrolling of the statistics area.
    Default,
}

/// The effect of a wheel notch at (`col`, `row`) in the Blokus screen.
pub fn blokus_scroll_target(col: u16, row: u16, board_area: Area, piece_area: Area, piece_selected: bool) -> (s: BlokusScroll)
    requires
        board_area.x + board_area.width <= u16::MAX,
        board_area.y + board_area.height <= u16::MAX,
        piece_area.x + piece_area.width <= u16::MAX,
        piece_area.y + piece_area.height <= u16::MAX,
    ensures
        s == (if inside(piece_area, col, row) {
            BlokusScroll::ScrollPanel
        } else if inside(board_area, col, row) {
            if piece_selected { BlokusScroll::RotatePiece } else { BlokusScroll::Nothing }
        } else {
            BlokusScroll::Default
        }),
{
    if col >= piece_area.x && col < piece_area.x + piece_area.width && row >= piece_area.y
        && row < piece_area.y + piece_area.height {
        BlokusScroll::ScrollPanel
    } else if col >= board_area.x && col < board_area.x + board_area.width && row >= board_area.y
        && row < board_area.y + board_area.height {
        if piece_selected { BlokusScroll::RotatePiece } else { BlokusScroll::Nothing }
    } else {
        BlokusScroll::Default
    }
}
} // verus!
