use mcts::cells::{
    board_cell_view, board_column_width, column_label, column_label_highlighted, connect4_cell, history_window,
    othello_cell, row_label, shows_row_labels, CellStyle, TermColor,
};
use mcts::blokus_ui::{create_visual_piece_shape, ghost_piece_cells, handle_blokus_piece_selection_click, BlokusUIConfig};
use mcts::game::GameState;
use mcts::gui::{GameStatus, GameType, PlayerType};
use mcts::layout::{Area, DragBoundary, DragState, LayoutConfig};
use mcts::mouse::{
    blokus_board_cell, board_click, cell_click_proposes_move, game_outcome, handle_menu_click, handle_settings_click,
    is_current_player_human, make_move_with_move, update_connect4_cursor_row, BoardClick, MenuClick,
    blokus_click_target, blokus_scroll_target, BlokusClick, BlokusScroll,
};
use mcts::renderers::{open_column, BlokusRenderer, InputResult, OthelloRenderer};

fn area(x: u16, y: u16, width: u16, height: u16) -> Area {
    Area { x, y, width, height }
}

#[test]
fn main_layout_splits_board_and_bottom_panel() {
    let c = LayoutConfig::default();
    assert_eq!(c.board_height_percent, 65);
    let (board, bottom) = c.get_main_layout(area(0, 0, 80, 40));
    assert_eq!(board, area(0, 0, 80, 26));
    assert_eq!(bottom, area(0, 26, 80, 14));
}

#[test]
fn blokus_layout_has_three_panels() {
    let c = LayoutConfig::default();
    let (board, pieces, status) = c.get_blokus_layout(area(0, 0, 120, 40));
    assert_eq!(board, area(0, 0, 50, 40));
    assert_eq!(pieces, area(50, 0, 50, 40));
    assert_eq!(status, area(100, 0, 20, 40));
}

#[test]
fn layouts_tile_an_offset_area() {
    let c = LayoutConfig { board_height_percent: 50, blokus_piece_selection_width: 30 };
    let (board, bottom) = c.get_main_layout(area(3, 5, 60, 21));
    assert_eq!(board, area(3, 5, 60, 10));
    assert_eq!(bottom, area(3, 15, 60, 11));
    let (board, pieces, status) = c.get_blokus_layout(area(7, 2, 95, 30));
    assert_eq!(board, area(7, 2, 45, 30));
    assert_eq!(pieces, area(52, 2, 30, 30));
    assert_eq!(status, area(82, 2, 20, 30));
}

#[test]
fn drag_boundaries_and_clicks() {
    let c = LayoutConfig::default();
    let screen = area(0, 0, 120, 40);
    assert_eq!(c.get_drag_boundaries(screen), vec![(DragBoundary::BoardBottom, 0, 26)]);
    assert_eq!(c.detect_boundary_click(51, 5, screen, true), Some(DragBoundary::BlokusPieceSelectionLeft));
    assert_eq!(c.detect_boundary_click(99, 5, screen, true), Some(DragBoundary::BlokusPieceSelectionRight));
    assert_eq!(c.detect_boundary_click(10, 25, screen, false), Some(DragBoundary::BoardBottom));
    assert_eq!(c.detect_boundary_click(10, 30, screen, false), None);
}

#[test]
fn dragging_resizes_within_limits() {
    let mut c = LayoutConfig::default();
    let screen = area(0, 0, 120, 40);
    c.handle_drag(DragBoundary::BoardBottom, 10, screen);
    assert_eq!(c.board_height_percent, 75);
    c.handle_drag(DragBoundary::BoardBottom, 30, screen);
    assert_eq!(c.board_height_percent, 80);
    c.handle_drag(DragBoundary::BlokusPieceSelectionLeft, -30, screen);
    assert_eq!(c.blokus_piece_selection_width, 30);
    c.handle_drag(DragBoundary::BlokusPieceSelectionRight, -5, screen);
    assert_eq!(c.blokus_piece_selection_width, 35);
    assert_eq!(c.board_height_percent, 80);
}

#[test]
fn drag_state_reports_steps() {
    let mut d = DragState::default();
    assert_eq!(d.update_drag(3, 3), None);
    d.start_drag(DragBoundary::BoardBottom, 10, 5);
    assert!(d.is_dragging);
    assert_eq!(d.drag_start, Some((10, 5)));
    assert_eq!(d.update_drag(12, 3), Some((2, -2)));
    assert_eq!(d.update_drag(12, 3), Some((0, 0)));
    assert_eq!(d.last_drag_pos, Some((12, 3)));
    d.stop_drag();
    assert!(!d.is_dragging);
    assert_eq!(d.drag_boundary, None);
    assert_eq!(d.last_drag_pos, None);
}

#[test]
fn blokus_config_controls() {
    let mut c = BlokusUIConfig::default();
    assert_eq!(c.players_expanded, [true; 4]);
    c.toggle_player_expand(2);
    assert_eq!(c.players_expanded, [true, true, false, true]);
    c.toggle_player_expand(5);
    assert_eq!(c.players_expanded, [true, true, false, true]);
    c.collapse_all();
    assert_eq!(c.players_expanded, [false; 4]);
    c.expand_all();
    assert_eq!(c.players_expanded, [true; 4]);
    assert_eq!(c.get_selected_piece_info(), None);
    c.select_piece(7);
    assert_eq!(c.get_selected_piece_info(), Some((7, 0)));
    c.rotate_piece(4);
    c.rotate_piece(4);
    c.rotate_piece(4);
    assert_eq!(c.selected_transformation_idx, 3);
    c.rotate_piece(4);
    assert_eq!(c.selected_transformation_idx, 0);
    c.rotate_piece(0);
    assert_eq!(c.selected_transformation_idx, 0);
    c.scroll_panel_up();
    assert_eq!(c.panel_scroll_offset, 0);
    c.scroll_panel_down();
    assert_eq!(c.panel_scroll_offset, 1);
    c.scroll_pieces_down();
    c.scroll_pieces_up();
    assert_eq!(c.piece_selection_scroll, 0);
}

#[test]
fn piece_shapes_are_drawn() {
    assert_eq!(create_visual_piece_shape(&[]), vec!["\u{25A2}".to_string()]);
    assert_eq!(
        create_visual_piece_shape(&[(0, 0), (0, 1), (1, 1)]),
        vec!["\u{25A2}\u{25A2}".to_string(), " \u{25A2}".to_string()]
    );
    assert_eq!(create_visual_piece_shape(&[(2, 5)]), vec![" \u{25A2} ".to_string()]);
    assert_eq!(create_visual_piece_shape(&[(2, 5), (2, 5)]), vec![" \u{25A2} ".to_string()]);
    assert_eq!(
        create_visual_piece_shape(&[(0, 0), (2, 0)]),
        vec!["\u{25A2}".to_string(), " ".to_string(), "\u{25A2}".to_string()]
    );
    assert_eq!(
        create_visual_piece_shape(&[(-1, -1), (0, 1)]),
        vec!["\u{25A2}  ".to_string(), "  \u{25A2}".to_string()]
    );
}

#[test]
fn ghost_cells_only_when_the_piece_fits() {
    let board = vec![vec![0, 0, 0], vec![0, 1, 0], vec![0, 0, 0]];
    let shape = [(0, 0), (0, 1), (1, 0)];
    assert_eq!(ghost_piece_cells(&board, &shape, 1, 0), vec![(1, 0), (2, 0)]);
    assert_eq!(ghost_piece_cells(&board, &shape, 2, 2), Vec::<(usize, usize)>::new());
    assert_eq!(ghost_piece_cells(&board, &[(-1, 0)], 0, 0), Vec::<(usize, usize)>::new());
}

#[test]
fn piece_panel_clicks() {
    let available = vec![(0..21).collect::<Vec<usize>>(), vec![3, 5, 8, 9, 10, 11], vec![1], vec![]];
    let mut c = BlokusUIConfig::default();
    // toggles in the five leftmost columns
    handle_blokus_piece_selection_click(&mut c, 2, &available, 5, 12);
    assert_eq!(c.players_expanded, [true, false, true, true]);
    handle_blokus_piece_selection_click(&mut c, 2, &available, 5, 50);
    assert_eq!(c.players_expanded, [true, false, true, true]);
    c.expand_all();
    // player 1's list takes 1 + 15 rows, player 2's header one more
    handle_blokus_piece_selection_click(&mut c, 2, &available, 14, 17);
    assert_eq!(c.selected_piece_idx, Some(5));
    handle_blokus_piece_selection_click(&mut c, 2, &available, 6, 20);
    assert_eq!(c.selected_piece_idx, Some(11));
    handle_blokus_piece_selection_click(&mut c, 2, &available, 14, 20);
    assert_eq!(c.selected_piece_idx, Some(11));
    // with player 1's list closed, player 2's pieces start at row 2
    c.toggle_player_expand(0);
    handle_blokus_piece_selection_click(&mut c, 2, &available, 6, 2);
    assert_eq!(c.selected_piece_idx, Some(3));
}

#[test]
fn human_to_move() {
    let options = vec![(1, PlayerType::Human), (2, PlayerType::AiCpu)];
    assert!(is_current_player_human(false, 1, &options));
    assert!(!is_current_player_human(false, -1, &options));
    assert!(!is_current_player_human(true, 3, &options));
    assert!(is_current_player_human(true, 3, &vec![(3, PlayerType::Human)]));
}

#[test]
fn connect4_cursor_drops_to_lowest_empty_row() {
    let board = vec![vec![0, 0], vec![0, 1], vec![1, 1]];
    let mut cursor = (0u16, 0u16);
    update_connect4_cursor_row(&board, &mut cursor);
    assert_eq!(cursor, (1, 0));
    let mut cursor = (5u16, 1u16);
    update_connect4_cursor_row(&board, &mut cursor);
    assert_eq!(cursor, (0, 1));
    let full = vec![vec![1], vec![1]];
    let mut cursor = (7u16, 0u16);
    update_connect4_cursor_row(&full, &mut cursor);
    assert_eq!(cursor, (7, 0));
    let mut cursor = (0u16, 5u16);
    update_connect4_cursor_row(&board, &mut cursor);
    assert_eq!(cursor, (0, 5));
}

#[test]
fn board_clicks_land_on_cells_and_columns() {
    let panel = area(0, 0, 20, 10);
    assert_eq!(board_click(panel, 5, 3, false, 8, 8), BoardClick::Cell(1, 1));
    assert_eq!(board_click(panel, 0, 3, false, 8, 8), BoardClick::Ignored);
    assert_eq!(board_click(panel, 5, 2, false, 8, 8), BoardClick::Cell(0, 1));
    assert_eq!(board_click(panel, 5, 1, false, 8, 8), BoardClick::Ignored);
    assert_eq!(board_click(panel, 5, 1, true, 6, 7), BoardClick::Column(2));
    assert_eq!(board_click(panel, 5, 3, true, 6, 7), BoardClick::Ignored);
    assert_eq!(board_click(panel, 30, 3, false, 8, 8), BoardClick::Ignored);
    let board = vec![vec![0, 1], vec![0, 0]];
    assert!(cell_click_proposes_move(GameType::Gomoku, &board, 0, 0));
    assert!(!cell_click_proposes_move(GameType::Gomoku, &board, 0, 1));
    assert!(cell_click_proposes_move(GameType::Othello, &board, 0, 1));
    assert!(!cell_click_proposes_move(GameType::Blokus, &board, 0, 0));
}

#[test]
fn menu_and_settings_clicks() {
    assert_eq!(handle_menu_click(2, 30, 5), MenuClick::Game(0));
    assert_eq!(handle_menu_click(7, 30, 5), MenuClick::Settings);
    assert_eq!(handle_menu_click(8, 30, 5), MenuClick::Quit);
    assert_eq!(handle_menu_click(9, 30, 5), MenuClick::Nothing);
    assert_eq!(handle_menu_click(1, 30, 5), MenuClick::Nothing);
    assert_eq!(handle_menu_click(8, 8, 5), MenuClick::Nothing);
    assert_eq!(handle_settings_click(1, 30), Some(0));
    assert_eq!(handle_settings_click(11, 30), Some(10));
    assert_eq!(handle_settings_click(12, 30), None);
    assert_eq!(handle_settings_click(0, 30), None);
}

#[test]
fn blokus_board_cells() {
    assert_eq!(blokus_board_cell(5, 3, area(0, 0, 42, 22), 20, 20), Some((2, 2)));
    assert_eq!(blokus_board_cell(0, 3, area(0, 0, 42, 22), 20, 20), None);
    assert_eq!(blokus_board_cell(41, 21, area(0, 0, 42, 22), 20, 20), None);
    assert_eq!(blokus_board_cell(5, 3, area(0, 0, 10, 10), 20, 20), Some((2, 4)));
    assert_eq!(blokus_board_cell(5, 3, area(0, 0, 10, 10), 0, 0), None);
}

#[test]
fn outcome_after_a_move() {
    assert_eq!(game_outcome(true, Some(2)), Some(GameStatus::Win(2)));
    assert_eq!(game_outcome(true, None), Some(GameStatus::Draw));
    assert_eq!(game_outcome(false, Some(1)), None);
}

#[derive(Clone)]
struct Race {
    score: u32,
    player: i32,
}

impl GameState for Race {
    type Move = u32;
    fn get_board(&self) -> Vec<Vec<i32>> {
        vec![vec![self.score as i32]]
    }
    fn get_num_players(&self) -> i32 {
        2
    }
    fn get_possible_moves(&self) -> Vec<u32> {
        vec![1, 2]
    }
    fn make_move(&mut self, mv: &u32) {
        self.score += mv;
        self.player = -self.player;
    }
    fn is_terminal(&self) -> bool {
        self.score >= 3
    }
    fn get_winner(&self) -> Option<i32> {
        if self.score == 3 { Some(-self.player) } else { None }
    }
    fn get_current_player(&self) -> i32 {
        self.player
    }
}

#[test]
fn playing_a_move_records_it() {
    let mut game = Race { score: 0, player: 1 };
    let mut history: Vec<(i32, u32)> = Vec::new();
    assert_eq!(make_move_with_move(&mut game, &mut history, 2), None);
    assert_eq!(make_move_with_move(&mut game, &mut history, 1), Some(GameStatus::Win(-1)));
    assert_eq!(history, vec![(1, 2), (-1, 1)]);
    let mut drawn = Race { score: 2, player: 1 };
    let mut h2: Vec<(i32, u32)> = Vec::new();
    assert_eq!(make_move_with_move(&mut drawn, &mut h2, 2), Some(GameStatus::Draw));
}

#[test]
fn board_views_track_hover() {
    let mut o = OthelloRenderer::new();
    assert_eq!(o.hover_cell(), None);
    assert_eq!(o.handle_hover::<u8>(Some((1, 2))), InputResult::Redraw);
    assert_eq!(o.handle_hover::<u8>(Some((1, 2))), InputResult::Nothing);
    assert_eq!(o.hover_cell(), Some((1, 2)));
    o.reset();
    assert_eq!(o.hover_cell(), None);
    let mut b = BlokusRenderer::new();
    assert_eq!(b.handle_hover::<u8>(None), InputResult::Nothing);
    assert_eq!(b.handle_hover::<u8>(Some((0, 0))), InputResult::Redraw);
    b.reset();
    assert_eq!(b.hover_cell(), None);
    assert_eq!(open_column(Some(1), &vec![0, 1, 0]), None);
    assert_eq!(open_column(Some(2), &vec![0, 1, 0]), Some(2));
    assert_eq!(open_column(None, &vec![0]), None);
}

#[test]
fn blokus_clicks_and_wheel() {
    let board = area(0, 0, 50, 40);
    let pieces = area(50, 0, 50, 40);
    assert_eq!(blokus_click_target(10, 5, board, pieces), BlokusClick::Board(10, 5));
    assert_eq!(blokus_click_target(55, 7, board, pieces), BlokusClick::Pieces(5, 7));
    assert_eq!(blokus_click_target(110, 7, board, pieces), BlokusClick::Outside);
    assert_eq!(blokus_scroll_target(55, 7, board, pieces, true), BlokusScroll::ScrollPanel);
    assert_eq!(blokus_scroll_target(10, 7, board, pieces, true), BlokusScroll::RotatePiece);
    assert_eq!(blokus_scroll_target(10, 7, board, pieces, false), BlokusScroll::Nothing);
    assert_eq!(blokus_scroll_target(110, 7, board, pieces, true), BlokusScroll::Default);
    let mut c = BlokusUIConfig::default();
    c.select_piece(3);
    c.rotate_piece_back(8);
    assert_eq!(c.selected_transformation_idx, 7);
    c.rotate_piece_back(8);
    assert_eq!(c.selected_transformation_idx, 6);
    c.rotate_piece_back(1);
    assert_eq!(c.selected_transformation_idx, 6);
}

#[test]
fn terminal_cells_and_history_window() {
    assert_eq!(connect4_cell(1), ("\u{1F534}", CellStyle::FirstPlayer));
    assert_eq!(connect4_cell(-1), ("\u{1F7E1}", CellStyle::SecondPlayer));
    assert_eq!(connect4_cell(0), ("\u{00B7}", CellStyle::Empty));
    assert_eq!(othello_cell(1, true), ("\u{26AB}", CellStyle::FirstPlayer));
    assert_eq!(othello_cell(0, true), ("\u{2593}", CellStyle::Cursor));
    assert_eq!(othello_cell(0, false), ("\u{00B7}", CellStyle::Empty));
    let w = history_window(30, 12, 100);
    assert_eq!((w.visible_height, w.max_scroll, w.scroll_offset, w.shown), (10, 20, 20, Some((21, 30))));
    let w = history_window(5, 40, 3);
    assert_eq!((w.visible_height, w.max_scroll, w.scroll_offset, w.shown), (20, 0, 0, None));
    let w = history_window(25, 30, 2);
    assert_eq!((w.visible_height, w.max_scroll, w.scroll_offset, w.shown), (20, 5, 2, Some((3, 22))));
}

#[test]
fn board_cells_by_game_and_state() {
    let v = board_cell_view(GameType::Gomoku, 1, false, false, 1, false, true, true);
    assert_eq!((v.symbol, v.fg, v.bg), ("X", TermColor::Red, None));
    let v = board_cell_view(GameType::Gomoku, -1, true, false, 1, false, true, true);
    assert_eq!((v.symbol, v.fg, v.bg), ("O", TermColor::Blue, Some(TermColor::Cyan)));
    let v = board_cell_view(GameType::Blokus, 3, false, false, 1, false, false, true);
    assert_eq!((v.symbol, v.fg, v.bg), ("3", TermColor::Black, Some(TermColor::Green)));
    // an empty Blokus cell under the piece preview, player 2 to move
    let v = board_cell_view(GameType::Blokus, 0, false, true, 2, true, true, true);
    assert_eq!((v.symbol, v.fg, v.bg), ("\u{25A2}", TermColor::Blue, None));
    // the preview does not cover an occupied cell
    let v = board_cell_view(GameType::Blokus, 1, false, true, 2, false, true, true);
    assert_eq!((v.symbol, v.fg, v.bg), ("1", TermColor::Black, Some(TermColor::Red)));
    // the cursor on a human's turn, legal and illegal
    let v = board_cell_view(GameType::Othello, 0, false, false, 1, true, true, true);
    assert_eq!((v.symbol, v.fg, v.bg), ("\u{25A2}", TermColor::White, None));
    let v = board_cell_view(GameType::Othello, 1, false, false, 1, true, true, false);
    assert_eq!((v.symbol, v.fg, v.bg), ("\u{25A2}", TermColor::DarkGray, None));
    // no cursor on the AI's turn
    let v = board_cell_view(GameType::Connect4, -1, false, false, 1, true, false, true);
    assert_eq!((v.symbol, v.fg, v.bg), ("\u{1F7E1}", TermColor::Yellow, None));
}

#[test]
fn board_columns_and_labels() {
    assert_eq!(board_column_width(15, 120), 4);
    assert_eq!(board_column_width(7, 120), 5);
    assert_eq!(board_column_width(20, 120), 3);
    assert_eq!(board_column_width(20, 30), 1);
    assert_eq!(board_column_width(0, 120), 4);
    assert_eq!(column_label(GameType::Connect4, 3, 5), "4");
    assert_eq!(column_label(GameType::Gomoku, 3, 4), "3");
    assert_eq!(column_label(GameType::Gomoku, 12, 4), "12");
    assert_eq!(column_label(GameType::Blokus, 12, 2), "2");
    assert!(column_label_highlighted(GameType::Connect4, 3, 3, true));
    assert!(!column_label_highlighted(GameType::Connect4, 3, 3, false));
    assert!(!column_label_highlighted(GameType::Gomoku, 3, 3, true));
    assert!(shows_row_labels(GameType::Gomoku));
    assert!(!shows_row_labels(GameType::Connect4));
    assert_eq!(row_label(4), " 4");
    assert_eq!(row_label(13), "3");
}
