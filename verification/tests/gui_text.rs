use mcts::gui::{
    MoveEntry,
    ActiveTab, GameStatus, GameType, GuiAction, GuiMode, GuiSettings, GuiState, PlayerType, WheelOutcome, VK_DOWN,
    VK_ESCAPE, VK_RETURN, VK_RIGHT, VK_TAB, VK_UP,
};
use mcts::text::{
    clean_move_string, extract_move_coordinates, get_formatted_history, get_game_instructions, i64_to_text,
    parse_usize, player_name, shorten_move_string, u64_to_text, wide_string,
};

fn settings() -> GuiSettings {
    GuiSettings {
        board_size: 15,
        line_size: 5,
        timeout_secs: 60,
        ai_threads: 8,
        gpu_threads: 1024,
        max_nodes: 1_000_000,
        search_iterations: 1_000_000,
        stats_interval_secs: 20,
        ai_only: false,
        shared_tree: true,
        gpu_use_heuristic: true,
        cpu_select_by_q: false,
        gpu_select_by_q: false,
        gpu_native_batch_size: 256,
        gpu_max_nodes: None,
    }
}

fn chars(s: &str) -> Vec<char> {
    s.chars().collect()
}

#[test]
fn active_tab_alternates() {
    assert_eq!(ActiveTab::DebugStats.next(), ActiveTab::MoveHistory);
    assert_eq!(ActiveTab::MoveHistory.next(), ActiveTab::DebugStats);
    assert_eq!(ActiveTab::DebugStats.next().next(), ActiveTab::DebugStats);
}

#[test]
fn game_types_in_menu_order() {
    let all = GameType::all();
    assert_eq!(all.len(), 5);
    assert_eq!(all[0], GameType::Gomoku);
    assert_eq!(all[4], GameType::Hive);
    assert_eq!(GameType::Connect4.name(), "Connect 4");
    assert_eq!(GameType::Othello.name(), "Othello");
    assert_eq!(GameType::Gomoku.description(), "Get five stones in a row to win");
    assert_eq!(GameType::at(3), GameType::Blokus);
}

#[test]
fn start_up_state() {
    let s = GuiState::new(settings());
    assert_eq!(s.nav.mode, GuiMode::GameSelection);
    assert_eq!(s.player_types, vec![(1, PlayerType::Human), (-1, PlayerType::AiCpu)]);
    assert_eq!(s.nav.game_status, GameStatus::InProgress);
}

#[test]
fn menu_navigation_to_player_config_and_start() {
    let mut s = GuiState::new(settings());
    assert_eq!(s.handle_key(VK_DOWN, 800, 1), GuiAction::NoAction);
    assert_eq!(s.nav.selected_game_index, 1);
    assert_eq!(s.handle_key(VK_DOWN, 800, 1), GuiAction::NoAction);
    assert_eq!(s.nav.selected_game_index, 2);
    assert_eq!(s.handle_key(VK_RETURN, 800, 1), GuiAction::NoAction);
    assert_eq!(s.nav.mode, GuiMode::PlayerConfig);
    assert_eq!(s.nav.selected_game_type, GameType::Othello);
    // toggle player 1 to a CPU AI, then move to Start and start
    s.handle_key(VK_RIGHT, 800, 1);
    assert_eq!(s.player_types[0], (1, PlayerType::AiCpu));
    s.handle_key(VK_DOWN, 800, 1);
    s.handle_key(VK_DOWN, 800, 1);
    assert_eq!(s.handle_key(VK_RETURN, 800, 1), GuiAction::StartGame);
    assert_eq!(s.nav.mode, GuiMode::InGame);
    assert!(s.is_current_player_ai(1));
    assert_eq!(s.player_type(-1), PlayerType::AiCpu);
    assert_eq!(s.handle_key(VK_ESCAPE, 800, 1), GuiAction::StopAi);
    assert_eq!(s.nav.mode, GuiMode::GameSelection);
}

#[test]
fn escape_from_menu_quits() {
    let mut s = GuiState::new(settings());
    s.handle_key(VK_UP, 800, 1);
    assert_eq!(s.nav.selected_game_index, 0);
    s.go_back();
    assert!(s.nav.should_quit);
}

#[test]
fn ai_only_starts_at_once() {
    let mut st = settings();
    st.ai_only = true;
    let mut s = GuiState::new(st);
    assert_eq!(s.select_game(1), GuiAction::StartGame);
    assert_eq!(s.nav.mode, GuiMode::InGame);
    assert_eq!(s.player_types, vec![(1, PlayerType::AiCpu), (-1, PlayerType::AiCpu)]);
    assert_eq!(s.select_game(9), GuiAction::NoAction);
}

#[test]
fn toggling_players_cycles_controllers() {
    let mut s = GuiState::new(settings());
    s.select_game(0);
    s.toggle_player(0);
    assert_eq!(s.player_types[0].1, PlayerType::AiCpu);
    s.toggle_player(0);
    assert_eq!(s.player_types[0].1, PlayerType::AiGpu);
    s.toggle_player(0);
    assert_eq!(s.player_types[0].1, PlayerType::Human);
    s.select_game(2);
    for _ in 0..3 {
        s.toggle_player(0);
    }
    assert_eq!(s.player_types[0].1, PlayerType::AiGpuNative);
    s.toggle_player(0);
    assert_eq!(s.player_types[0].1, PlayerType::Human);
}

#[test]
fn in_game_keys_and_scrolling() {
    let mut s = GuiState::new(settings());
    s.select_game(0);
    s.begin_game();
    assert_eq!(s.handle_key(VK_TAB, 800, 1), GuiAction::NoAction);
    assert_eq!(s.nav.active_tab, ActiveTab::MoveHistory);
    assert_eq!(s.handle_key(0x41, 800, 1), GuiAction::ForwardKey(0x41));
    assert_eq!(s.handle_key(0x41, 800, -1), GuiAction::NoAction);
    s.scroll_history_down();
    s.scroll_history_down();
    s.scroll_history_up();
    assert_eq!(s.nav.history_scroll, 1);
    s.scroll_debug_up();
    assert_eq!(s.nav.debug_scroll, 0);
    s.toggle_tab();
    assert_eq!(s.nav.active_tab, ActiveTab::DebugStats);
}

#[test]
fn ai_turn_and_moves() {
    let mut s = GuiState::new(settings());
    s.select_game(0);
    s.begin_game();
    assert_eq!(s.check_ai_turn(1), None);
    assert_eq!(s.check_ai_turn(-1), Some(PlayerType::AiCpu));
    assert!(s.nav.ai_thinking);
    assert_eq!(s.after_move_applied(-1, true, Some(-1)), PlayerType::AiCpu);
    assert_eq!(s.nav.game_status, GameStatus::Win(-1));
    assert_eq!(s.nav.mode, GuiMode::GameOver);
}

#[test]
fn wheel_scrolls_active_tab() {
    let mut s = GuiState::new(settings());
    s.select_game(0);
    s.begin_game();
    assert_eq!(s.handle_wheel(false, true), WheelOutcome::Redraw);
    assert_eq!(s.nav.debug_scroll, 1);
    assert_eq!(s.handle_wheel(true, false), WheelOutcome::ForwardToRenderer);
    assert_eq!(s.nav.debug_scroll, 1);
}

#[test]
fn settings_screen_keys() {
    let mut s = GuiState::new(settings());
    s.nav.mode = GuiMode::Settings;
    s.nav.selected_settings_index = 10;
    let ai_only = s.settings.ai_only;
    s.handle_key(VK_RETURN, 800, 1);
    assert_eq!(s.settings.ai_only, !ai_only);
    s.nav.selected_settings_index = 11;
    let shared = s.settings.shared_tree;
    s.handle_key(VK_RETURN, 800, 1);
    assert_eq!(s.settings.shared_tree, !shared);
    s.nav.selected_settings_index = 9;
    s.handle_key(VK_RETURN, 800, 1);
    assert_eq!(s.settings.stats_interval_secs, 20);
    assert_eq!(s.nav.mode, GuiMode::Settings);
    s.nav.selected_settings_index = 12;
    s.handle_key(VK_RIGHT, 800, 1);
    assert_eq!(s.settings.gpu_threads, 1280);
    s.nav.selected_settings_index = 13;
    s.handle_key(VK_RETURN, 800, 1);
    assert_eq!(s.nav.mode, GuiMode::Settings);
    s.handle_key(VK_DOWN, 800, 1);
    s.handle_key(VK_DOWN, 800, 1);
    assert_eq!(s.nav.selected_settings_index, 15);
    s.handle_key(VK_DOWN, 800, 1);
    assert_eq!(s.nav.selected_settings_index, 15);
    s.handle_key(VK_RETURN, 800, 1);
    assert_eq!(s.nav.mode, GuiMode::GameSelection);
}

#[test]
fn settings_adjustment() {
    let mut s = GuiState::new(settings());
    assert!(s.adjust_setting(0, 1));
    assert_eq!(s.settings.board_size, 16);
    assert!(!s.adjust_setting(5, 1));
}

#[test]
fn settings_items_text() {
    let s = GuiState::new(settings());
    let items = s.get_settings_items("4.00".to_string(), "1.50".to_string(), "1.00".to_string());
    assert_eq!(items.len(), 14);
    assert_eq!(items[0], ("Board Size".to_string(), "15".to_string()));
    assert_eq!(items[3], ("Max Nodes".to_string(), "1000K".to_string()));
    assert_eq!(items[4], ("Search Iterations".to_string(), "1000K".to_string()));
    assert_eq!(items[5], ("CPU Exploration".to_string(), "4.00".to_string()));
    assert_eq!(items[10], ("AI Only Mode".to_string(), "No".to_string()));
    assert_eq!(items[11], ("Shared Tree".to_string(), "Yes".to_string()));
    assert_eq!(items[13], ("GPU-Native Batch".to_string(), "256".to_string()));
}

#[test]
fn shorten_move_string_examples() {
    assert_eq!(shorten_move_string("Gomoku(GomokuMove(3, 3))"), "G(3,3)");
    assert_eq!(shorten_move_string("Connect4(Connect4Move(5))"), "C(5)");
    assert_eq!(shorten_move_string("Othello(Pass)"), "O(Pass)");
    assert_eq!(shorten_move_string("Pass"), "Pass");
    assert_eq!(shorten_move_string("abcdefghijklmnopqrstuvwxyz0123"), "abcdefghijklmnopqrstuv...");
    // Fourteen two-byte characters (28 bytes) are cut at 22 bytes, eleven characters.
    assert_eq!(shorten_move_string("\u{e9}\u{e9}\u{e9}\u{e9}\u{e9}\u{e9}\u{e9}\u{e9}\u{e9}\u{e9}\u{e9}\u{e9}\u{e9}\u{e9}"), "\u{e9}\u{e9}\u{e9}\u{e9}\u{e9}\u{e9}\u{e9}\u{e9}\u{e9}\u{e9}\u{e9}...");
    assert_eq!(shorten_move_string("\u{e9}\u{e9}\u{e9}\u{e9}\u{e9}\u{e9}\u{e9}\u{e9}\u{e9}\u{e9}\u{e9}\u{e9}"), "\u{e9}\u{e9}\u{e9}\u{e9}\u{e9}\u{e9}\u{e9}\u{e9}\u{e9}\u{e9}\u{e9}\u{e9}");
}

#[test]
fn clean_move_string_peels_names() {
    assert_eq!(clean_move_string("Gomoku(GomokuMove(3, 3))"), "3, 3");
    assert_eq!(clean_move_string("(1, 2)"), "(1, 2)");
    assert_eq!(clean_move_string("Pass"), "Pass");
}

#[test]
fn move_coordinates_are_read() {
    assert_eq!(extract_move_coordinates("Gomoku(GomokuMove(3, 4))"), Some((3, 4)));
    assert_eq!(extract_move_coordinates("Othello(OthelloMove(0, 7))"), Some((0, 7)));
    assert_eq!(extract_move_coordinates("OthelloMove(2, 7)"), Some((2, 7)));
    assert_eq!(extract_move_coordinates("GomokuMove(1,2)"), None);
    assert_eq!(extract_move_coordinates("Connect4(Connect4Move(3))"), None);
    assert_eq!(extract_move_coordinates("Gomoku(GomokuMove(+5, 6))"), Some((5, 6)));
    assert_eq!(extract_move_coordinates("Gomoku(GomokuMove(-5, 6))"), None);
}

#[test]
fn numbers_written_and_read() {
    assert_eq!(u64_to_text(0), "0");
    assert_eq!(u64_to_text(1234567), "1234567");
    assert_eq!(i64_to_text(-42), "-42");
    assert_eq!(i64_to_text(i64::MIN), "-9223372036854775808");
    assert_eq!(parse_usize(&chars("42")), Some(42));
    assert_eq!(parse_usize(&chars("+7")), Some(7));
    assert_eq!(parse_usize(&chars("")), None);
    assert_eq!(parse_usize(&chars("+")), None);
    assert_eq!(parse_usize(&chars("4a")), None);
    assert_eq!(parse_usize(&chars("-1")), None);
    assert_eq!(parse_usize(&chars("99999999999999999999999")), None);
    let text = u64_to_text(987654321);
    assert_eq!(parse_usize(&chars(&text)), Some(987654321));
}

#[test]
fn wide_strings_are_null_terminated() {
    assert_eq!(wide_string("Hi"), vec![0x48, 0x69, 0]);
    assert_eq!(wide_string(""), vec![0]);
    assert_eq!(wide_string("\u{e9}"), vec![0xE9, 0]);
    assert_eq!(wide_string("\u{1F600}"), vec![0xD83D, 0xDE00, 0]);
}

#[test]
fn player_names_per_game() {
    assert_eq!(player_name(GameType::Blokus, 3), "Red");
    assert_eq!(player_name(GameType::Othello, -1), "White");
    assert_eq!(player_name(GameType::Connect4, 1), "Red");
    assert_eq!(player_name(GameType::Gomoku, 2), "Player 2");
    assert_eq!(player_name(GameType::Gomoku, 7), "Player 7");
    assert_eq!(player_name(GameType::Connect4, -5), "Player -5");
}

#[test]
fn instructions_per_game() {
    assert!(get_game_instructions(0).starts_with("GOMOKU (Five in a Row)"));
    assert!(!get_game_instructions(3).is_empty());
}

#[test]
fn history_lines() {
    let lines = get_formatted_history(
        GameType::Connect4,
        &vec![(1, "Connect4(3)".to_string()), (-1, "Connect4(4)".to_string())],
    );
    assert_eq!(lines, vec!["1. Red - Connect4(3)".to_string(), "2. Yellow - Connect4(4)".to_string()]);
}

#[test]
fn history_entries_are_stamped() {
    let before = std::time::SystemTime::now();
    let e = MoveEntry::new(-1, "Gomoku(GomokuMove(2, 3))");
    assert_eq!(e.player, -1);
    assert_eq!(e.move_made, "Gomoku(GomokuMove(2, 3))");
    assert!(e.timestamp >= before);
}

#[test]
fn pointer_drags() {
    let mut s = GuiState::new(settings());
    assert!(!s.begin_right_drag());
    assert!(!s.nav.is_right_dragging);
    s.select_game(0);
    s.begin_game();
    assert!(s.begin_right_drag());
    assert!(s.nav.is_right_dragging);
    s.end_right_drag();
    assert!(!s.nav.is_right_dragging);
    assert!(!s.end_splitter_drag());
    s.nav.is_dragging_splitter = true;
    s.nav.needs_redraw = false;
    assert!(s.end_splitter_drag());
    assert!(!s.nav.is_dragging_splitter);
    assert!(s.nav.needs_redraw);
}
