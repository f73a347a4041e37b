//! How board cells and the move-history window look in the terminal.
use vstd::prelude::*;
use crate::gui::GameType;
use crate::text::{decimal, u64_to_text};

verus! {

/// The colour role of a drawn cell.
#[derive(Clone, Copy, Debug, PartialEq, Eq, Structural)]
pub enum CellStyle {
    /// The first player's colour.
    FirstPlayer,
    /// The second player's colour.
    SecondPlayer,
    /// The highlighted cursor.
    Cursor,
    /// A dimmed empty cell.
    Empty,
}

/// The symbol and style of a Connect Four cell: red and yellow discs for
/// players 1 and -1, a dot otherwise.
pub fn connect4_cell(cell: i32) -> (r: (&'static str, CellStyle))
    ensures
        r.0@ == (if cell == 1 { "\u{1F534}"@ } else if cell == -1 { "\u{1F7E1}"@ } else { "\u{00B7}"@ }),
        r.1 == (if cell == 1 { CellStyle::FirstPlayer } else if cell == -1 { CellStyle::SecondPlayer } else { CellStyle::Empty }),
{
    if cell == 1 {
        ("\u{1F534}", CellStyle::FirstPlayer)
    } else if cell == -1 {
        ("\u{1F7E1}", CellStyle::SecondPlayer)
    } else {
        ("\u{00B7}", CellStyle::Empty)
    }
}

/// The symbol and style of an Othello cell: black and white discs for
/// players 1 and -1; an empty cell shows a block under the cursor, a dot
/// elsewhere.
pub fn othello_cell(cell: i32, is_cursor: bool) -> (r: (&'static str, CellStyle))
    ensures
        r.0@ == (if cell == 1 {
            "\u{26AB}"@
        } else if cell == -1 {
            "\u{26AA}"@
        } else if is_cursor {
            "\u{2593}"@
        } else {
            "\u{00B7}"@
        }),
        r.1 == (if cell == 1 {
            CellStyle::FirstPlayer
        } else if cell == -1 {
            CellStyle::SecondPlayer
        } else if is_cursor {
            CellStyle::Cursor
        } else {
            CellStyle::Empty
        }),
{
    if cell == 1 {
        ("\u{26AB}", CellStyle::FirstPlayer)
    } else if cell == -1 {
        ("\u{26AA}", CellStyle::SecondPlayer)
    } else if is_cursor {
        ("\u{2593}", CellStyle::Cursor)
    } else {
        ("\u{00B7}", CellStyle::Empty)
    }
}

/// The part of the move history shown in a panel.
#[derive(Clone, Copy, Debug)]
pub struct HistoryWindow {
    /// Lines that fit: the panel's height less its border, at most 20.
    pub visible_height: usize,
    /// The largest scroll offset.
    pub max_scroll: usize,
    /// The scroll offset used: the one asked for, at most `max_scroll`.
    pub scroll_offset: usize,
    /// The first and last line shown (counted from 1), when scrolling is
    /// possible.
    pub shown: Option<(usize, usize)>,
}

pub open spec fn history_window_spec(content_height: usize, area_height: u16, requested_offset: usize) -> HistoryWindow {
    let inner: int = if area_height >= 2 { area_height - 2 } else { 0 };
    let visible: int = if inner < 20 { inner } else { 20 };
    let max_scroll: int = if content_height >= visible { content_height - visible } else { 0 };
    let offset: int = if requested_offset < max_scroll { requested_offset as int } else { max_scroll };
    let last: int = if offset + visible < content_height { offset + visible } else { content_height as int };
    HistoryWindow {
        visible_height: visible as usize,
        max_scroll: max_scroll as usize,
        scroll_offset: offset as usize,
        shown: if max_scroll > 0 && content_height > visible { Some(((offset + 1) as usize, last as usize)) } else { None },
    }
}

/// The window of a history of `content_height` lines in a panel
/// `area_height` rows high, scrolled by `requested_offset`.
pub fn history_window(content_height: usize, area_height: u16, requested_offset: usize) -> (w: HistoryWindow)
    requires
        content_height + 20 <= usize::MAX,
    ensures
        w == history_window_spec(content_height, area_height, requested_offset),
{
    let inner = area_height.saturating_sub(2) as usize;
    let visible_height = if inner < 20 { inner } else { 20 };
    let max_scroll = content_height.saturating_sub(visible_height);
    let scroll_offset = if requested_offset < max_scroll { requested_offset } else { max_scroll };
    let shown = if max_scroll > 0 && content_height > visible_height {
        let end = scroll_offset + visible_height;
        let last = if end < content_height { end } else { content_height };
        Some((scroll_offset + 1, last))
    } else {
        None
    };
    HistoryWindow { visible_height, max_scroll, scroll_offset, shown }
}

/// A terminal colour.
#[derive(Clone, Copy, Debug, PartialEq, Eq, Structural)]
pub enum TermColor {
    Red,
    Blue,
    Green,
    Yellow,
    White,
    Black,
    Cyan,
    DarkGray,
}

/// How one board cell is drawn: its symbol, its foreground colour and its
/// background colour, if any.
#[derive(Clone, Copy, Debug)]
pub struct CellView {
    pub symbol: &'static str,
    pub fg: TermColor,
    pub bg: Option<TermColor>,
}

/// The colour of a Blokus player (1 to 4), white for any other.
pub open spec fn blokus_color(player: i32) -> TermColor {
    if player == 1 {
        TermColor::Red
    } else if player == 2 {
        TermColor::Blue
    } else if player == 3 {
        TermColor::Green
    } else if player == 4 {
        TermColor::Yellow
    } else {
        TermColor::White
    }
}

/// The symbol, foreground and background of a cell holding `cell`, by game:
/// X and O in Gomoku, discs in Othello and Connect Four, the player's number
/// on the player's colour in Blokus, and a dot for an empty cell.
pub open spec fn base_cell(game: GameType, cell: i32) -> (Seq<char>, TermColor, Option<TermColor>) {
    match game {
        GameType::Gomoku => if cell == 1 {
            ("X"@, TermColor::Red, None)
        } else if cell == -1 {
            ("O"@, TermColor::Blue, None)
        } else {
            ("."@, TermColor::White, None)
        },
        GameType::Othello => if cell == 1 {
            ("\u{26AB}"@, TermColor::White, None)
        } else if cell == -1 {
            ("\u{26AA}"@, TermColor::White, None)
        } else {
            ("\u{00B7}"@, TermColor::DarkGray, None)
        },
        GameType::Connect4 => if cell == 1 {
            ("\u{1F534}"@, TermColor::Red, None)
        } else if cell == -1 {
            ("\u{1F7E1}"@, TermColor::Yellow, None)
        } else {
            ("\u{00B7}"@, TermColor::DarkGray, None)
        },
        _ => if cell == 1 {
            ("1"@, TermColor::Black, Some(TermColor::Red))
        } else if cell == 2 {
            ("2"@, TermColor::Black, Some(TermColor::Blue))
        } else if cell == 3 {
            ("3"@, TermColor::Black, Some(TermColor::Green))
        } else if cell == 4 {
            ("4"@, TermColor::Black, Some(TermColor::Yellow))
        } else {
            ("\u{00B7}"@, TermColor::DarkGray, None)
        },
    }
}

/// How a board cell is drawn.  The cell's own look, on a cyan background
/// when the last move changed it; in Blokus, an empty cell under the piece
/// preview shows a hollow square in the current player's colour; the cursor
/// cell on a human's turn (where no preview is shown) shows a hollow square,
/// white (in Blokus the player's colour) when a move there is legal and
/// dark grey when it is not.
pub open spec fn board_cell_view_spec(
    game: GameType,
    cell: i32,
    is_last_move: bool,
    in_preview: bool,
    current_player: i32,
    is_cursor: bool,
    human_turn: bool,
    cursor_legal: bool,
) -> (Seq<char>, TermColor, Option<TermColor>) {
    let (sym, fg, bg) = base_cell(game, cell);
    let bg = if is_last_move { Some(TermColor::Cyan) } else { bg };
    let previewed = game == GameType::Blokus && in_preview && cell == 0;
    let (sym, fg, bg) = if previewed { ("\u{25A2}"@, blokus_color(current_player), None) } else { (sym, fg, bg) };
    if is_cursor && human_turn && !previewed {
        if !cursor_legal {
            ("\u{25A2}"@, TermColor::DarkGray, None)
        } else if game == GameType::Blokus {
            ("\u{25A2}"@, blokus_color(current_player), None)
        } else {
            ("\u{25A2}"@, TermColor::White, None)
        }
    } else {
        (sym, fg, bg)
    }
}

fn blokus_color_exec(player: i32) -> (c: TermColor)
    ensures
        c == blokus_color(player),
{
    if player == 1 {
        TermColor::Red
    } else if player == 2 {
        TermColor::Blue
    } else if player == 3 {
        TermColor::Green
    } else if player == 4 {
        TermColor::Yellow
    } else {
        TermColor::White
    }
}

fn base_cell_exec(game: GameType, cell: i32) -> (v: CellView)
    ensures
        (v.symbol@, v.fg, v.bg) == base_cell(game, cell),
{
    match game {
        GameType::Gomoku => if cell == 1 {
            CellView { symbol: "X", fg: TermColor::Red, bg: None }
        } else if cell == -1 {
            CellView { symbol: "O", fg: TermColor::Blue, bg: None }
        } else {
            CellView { symbol: ".", fg: TermColor::White, bg: None }
        },
        GameType::Othello => if cell == 1 {
            CellView { symbol: "\u{26AB}", fg: TermColor::White, bg: None }
        } else if cell == -1 {
            CellView { symbol: "\u{26AA}", fg: TermColor::White, bg: None }
        } else {
            CellView { symbol: "\u{00B7}", fg: TermColor::DarkGray, bg: None }
        },
        GameType::Connect4 => if cell == 1 {
            CellView { symbol: "\u{1F534}", fg: TermColor::Red, bg: None }
        } else if cell == -1 {
            CellView { symbol: "\u{1F7E1}", fg: TermColor::Yellow, bg: None }
        } else {
            CellView { symbol: "\u{00B7}", fg: TermColor::DarkGray, bg: None }
        },
        _ => if cell == 1 {
            CellView { symbol: "1", fg: TermColor::Black, bg: Some(TermColor::Red) }
        } else if cell == 2 {
            CellView { symbol: "2", fg: TermColor::Black, bg: Some(TermColor::Blue) }
        } else if cell == 3 {
            CellView { symbol: "3", fg: TermColor::Black, bg: Some(TermColor::Green) }
        } else if cell == 4 {
            CellView { symbol: "4", fg: TermColor::Black, bg: Some(TermColor::Yellow) }
        } else {
            CellView { symbol: "\u{00B7}", fg: TermColor::DarkGray, bg: None }
        },
    }
}

/// How the terminal draws a board cell (see `board_cell_view_spec`); the
/// terminal board shows the four games other than Hive.
pub fn board_cell_view(
    game: GameType,
    cell: i32,
    is_last_move: bool,
    in_preview: bool,
    current_player: i32,
    is_cursor: bool,
    human_turn: bool,
    cursor_legal: bool,
) -> (v: CellView)
    requires
        game != GameType::Hive,
    ensures
        (v.symbol@, v.fg, v.bg) == board_cell_view_spec(game, cell, is_last_move, in_preview, current_player,
            is_cursor, human_turn, cursor_legal),
{
    let mut v = base_cell_exec(game, cell);
    if is_last_move {
        v.bg = Some(TermColor::Cyan);
    }
    let previewed = game == GameType::Blokus && in_preview && cell == 0;
    if previewed {
        v = CellView { symbol: "\u{25A2}", fg: blokus_color_exec(current_player), bg: None };
    }
    if is_cursor && human_turn && !previewed {
        if !cursor_legal {
            v = CellView { symbol: "\u{25A2}", fg: TermColor::DarkGray, bg: None };
        } else if game == GameType::Blokus {
            v = CellView { symbol: "\u{25A2}", fg: blokus_color_exec(current_player), bg: None };
        } else {
            v = CellView { symbol: "\u{25A2}", fg: TermColor::White, bg: None };
        }
    }
    v
}

/// The width of a board column: two thirds of the screen width (at least
/// 20) shared among the columns, at least 1 and at most 5, 4, 3 or 2 cells
/// for boards of up to 10, 15, 25 or more columns; 4 for an empty board.
/// The share is computed with the column count cut to 16 bits.
pub open spec fn column_width_spec(board_width: usize, screen_width: u16) -> u16 {
    let third: int = screen_width as int * 2 / 3;
    let max_board: int = if third > 20 { third } else { 20 };
    if board_width == 0 {
        4
    } else {
        let share: int = max_board / ((board_width as u16) as int);
        let calc: int = if share > 1 { share } else { 1 };
        let cap: int = if board_width <= 10 { 5 } else if board_width <= 15 { 4 } else if board_width <= 25 { 3 } else { 2 };
        (if calc < cap { calc } else { cap }) as u16
    }
}

/// The width of each board column on a screen `screen_width` cells wide.
pub fn board_column_width(board_width: usize, screen_width: u16) -> (w: u16)
    requires
        screen_width * 2 <= u16::MAX,
        board_width > 0 ==> (board_width as u16) != 0,
    ensures
        w == column_width_spec(board_width, screen_width),
{
    let third: u16 = screen_width * 2 / 3;
    let max_board: u16 = if third > 20 { third } else { 20 };
    if board_width == 0 {
        return 4;
    }
    let cols: u16 = board_width as u16;
    let share: u16 = max_board / cols;
    let calc: u16 = if share > 1 { share } else { 1 };
    let cap: u16 = if board_width <= 10 { 5 } else if board_width <= 15 { 4 } else if board_width <= 25 { 3 } else { 2 };
    if calc < cap { calc } else { cap }
}

/// The number shown above column `c`: its last digit when columns are at
/// most 2 cells wide and `c` is 10 or more; otherwise `c + 1` in Connect
/// Four and `c` in the other games.
pub open spec fn column_label_spec(game: GameType, c: usize, col_width: u16) -> Seq<char> {
    if col_width <= 2 && c >= 10 {
        decimal((c % 10) as nat)
    } else if game == GameType::Connect4 {
        decimal((c + 1) as nat)
    } else {
        decimal(c as nat)
    }
}

/// The label above board column `c`.
pub fn column_label(game: GameType, c: usize, col_width: u16) -> (s: String)
    requires
        c < usize::MAX,
    ensures
        s@ == column_label_spec(game, c, col_width),
{
    if col_width <= 2 && c >= 10 {
        u64_to_text((c % 10) as u64)
    } else if game == GameType::Connect4 {
        u64_to_text((c + 1) as u64)
    } else {
        u64_to_text(c as u64)
    }
}

/// Whether the label of column `c` is highlighted: the Connect Four column
/// under the cursor on a human's turn.
pub fn column_label_highlighted(game: GameType, c: usize, cursor_col: usize, human_turn: bool) -> (b: bool)
    ensures
        b == (game == GameType::Connect4 && c == cursor_col && human_turn),
{
    game == GameType::Connect4 && c == cursor_col && human_turn
}

/// Whether rows are labelled: in every game but Connect Four.
pub fn shows_row_labels(game: GameType) -> (b: bool)
    ensures
        b == (game != GameType::Connect4),
{
    game != GameType::Connect4
}

/// The label beside row `r`: its last digit from row 10 on, else the
/// number right-aligned in two cells.
pub open spec fn row_label_spec(r: usize) -> Seq<char> {
    if r >= 10 { decimal((r % 10) as nat) } else { seq![' '] + decimal(r as nat) }
}

/// The label beside board row `r`.
pub fn row_label(r: usize) -> (s: String)
    ensures
        s@ == row_label_spec(r),
{
    if r >= 10 {
        u64_to_text((r % 10) as u64)
    } else {
        let digits = u64_to_text(r as u64);
        proof {
            reveal_strlit(" ");
        }
        crate::text::concat_text(" ", &digits)
    }
}

} // verus!
