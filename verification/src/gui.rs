//! The state machine behind the windowed interface: screens, menus,
//! settings, player configuration, tabs and scrolling, and the actions it
//! asks the shell to perform.
use vstd::prelude::*;
use std::time::SystemTime;
use crate::text::{decimal, text_of, u64_to_text, chars_of, string_of};

verus! {

/// Who controls a player.
#[derive(Clone, Copy, Debug, PartialEq, Eq, Structural)]
pub enum PlayerType {
    Human,
    AiCpu,
    AiGpu,
    /// Search run entirely on the graphics card (Othello only).
    AiGpuNative,
}

/// The screen shown.
#[derive(Clone, Copy, Debug, PartialEq, Eq, Structural)]
pub enum GuiMode {
    GameSelection,
    Settings,
    PlayerConfig,
    InGame,
    GameOver,
    HowToPlay,
}

/// The state of the game being played.
#[derive(Clone, Copy, Debug, PartialEq, Eq, Structural)]
pub enum GameStatus {
    InProgress,
    Win(i32),
    Draw,
}

/// The tab shown in the information panel.
#[derive(Clone, Copy, Debug, PartialEq, Eq, Structural)]
pub enum ActiveTab {
    DebugStats,
    MoveHistory,
}

impl ActiveTab {
    /// The other tab.
    pub fn next(&self) -> (t: Self)
        ensures
            t == (match *self {
                ActiveTab::DebugStats => ActiveTab::MoveHistory,
                ActiveTab::MoveHistory => ActiveTab::DebugStats,
            }),
    {
        match self {
            ActiveTab::DebugStats => ActiveTab::MoveHistory,
            ActiveTab::MoveHistory => ActiveTab::DebugStats,
        }
    }
}

/// The games on offer.
#[derive(Clone, Copy, Debug, PartialEq, Eq, Structural)]
pub enum GameType {
    Gomoku,
    Connect4,
    Othello,
    Blokus,
    Hive,
}

/// The games in menu order.
pub open spec fn all_games() -> Seq<GameType> {
    seq![GameType::Gomoku, GameType::Connect4, GameType::Othello, GameType::Blokus, GameType::Hive]
}

pub open spec fn game_name(g: GameType) -> Seq<char> {
    match g {
        GameType::Gomoku => "Gomoku"@,
        GameType::Connect4 => "Connect 4"@,
        GameType::Othello => "Othello"@,
        GameType::Blokus => "Blokus"@,
        GameType::Hive => "Hive"@,
    }
}

pub open spec fn game_description(g: GameType) -> Seq<char> {
    match g {
        GameType::Gomoku => "Get five stones in a row to win"@,
        GameType::Connect4 => "Drop pieces to connect four"@,
        GameType::Othello => "Flip opponent's pieces by surrounding"@,
        GameType::Blokus => "Place polyomino pieces strategically"@,
        GameType::Hive => "Surround the opponent's Queen Bee"@,
    }
}

impl GameType {
    /// The display name.
    pub fn name(&self) -> (s: &'static str)
        ensures
            s@ == game_name(*self),
    {
        match self {
            GameType::Gomoku => "Gomoku",
            GameType::Connect4 => "Connect 4",
            GameType::Othello => "Othello",
            GameType::Blokus => "Blokus",
            GameType::Hive => "Hive",
        }
    }

    /// A one-line description.
    pub fn description(&self) -> (s: &'static str)
        ensures
            s@ == game_description(*self),
    {
        match self {
            GameType::Gomoku => "Get five stones in a row to win",
            GameType::Connect4 => "Drop pieces to connect four",
            GameType::Othello => "Flip opponent's pieces by surrounding",
            GameType::Blokus => "Place polyomino pieces strategically",
            GameType::Hive => "Surround the opponent's Queen Bee",
        }
    }

    /// All games, in menu order.
    pub fn all() -> (games: &'static [GameType])
        ensures
            games@ == all_games(),
    {
        &[GameType::Gomoku, GameType::Connect4, GameType::Othello, GameType::Blokus, GameType::Hive]
    }

    /// The game at a menu position.
    pub fn at(index: usize) -> (g: GameType)
        requires
            index < 5,
        ensures
            g == all_games()[index as int],
    {
        match index {
            0 => GameType::Gomoku,
            1 => GameType::Connect4,
            2 => GameType::Othello,
            3 => GameType::Blokus,
            _ => GameType::Hive,
        }
    }
}


/// Win32 virtual-key codes the interface reacts to.
pub const VK_BACK: u16 = 0x08;
pub const VK_TAB: u16 = 0x09;
pub const VK_RETURN: u16 = 0x0D;
pub const VK_ESCAPE: u16 = 0x1B;
pub const VK_SPACE: u16 = 0x20;
pub const VK_PRIOR: u16 = 0x21;
pub const VK_NEXT: u16 = 0x22;
pub const VK_LEFT: u16 = 0x25;
pub const VK_UP: u16 = 0x26;
pub const VK_RIGHT: u16 = 0x27;
pub const VK_DOWN: u16 = 0x28;
/// The 'C' key (copy the move history).
pub const VK_C: u16 = 0x43;

/// Number of entries in the settings list.
pub const NUM_SETTINGS: usize = 14;

/// The row of the Back button on the settings screen: after the settings
/// and a separator row.
pub const SETTINGS_BACK_ROW: usize = 15;

/// The yes/no settings, which Return toggles: AI Only and Shared Tree.
pub open spec fn is_toggle_setting(index: usize) -> bool {
    index == 10 || index == 11
}

/// Screen, selection, scrolling and game-progress state.
#[derive(Clone, Copy, Debug, PartialEq, Eq, Structural)]
pub struct Navigation {
    pub mode: GuiMode,
    pub should_quit: bool,
    pub selected_game_index: usize,
    pub selected_game_type: GameType,
    pub selected_player_index: usize,
    pub game_status: GameStatus,
    pub ai_thinking: bool,
    pub selected_settings_index: usize,
    pub needs_redraw: bool,
    pub hover_button: Option<usize>,
    pub active_tab: ActiveTab,
    pub debug_scroll: i32,
    pub history_scroll: i32,
    pub how_to_play_scroll: i32,
    pub selected_how_to_play_game: usize,
    pub game_selection_scroll: i32,
    pub settings_scroll: i32,
    pub is_dragging_splitter: bool,
    pub is_right_dragging: bool,
}

/// The integer and boolean settings editable in the settings menu.
#[derive(Clone, Copy, Debug, PartialEq, Eq, Structural)]
pub struct GuiSettings {
    pub board_size: usize,
    pub line_size: usize,
    pub timeout_secs: u64,
    pub ai_threads: usize,
    pub gpu_threads: usize,
    pub max_nodes: usize,
    pub search_iterations: u32,
    pub stats_interval_secs: u64,
    pub ai_only: bool,
    pub shared_tree: bool,
    pub gpu_use_heuristic: bool,
    pub cpu_select_by_q: bool,
    pub gpu_select_by_q: bool,
    pub gpu_native_batch_size: u32,
    pub gpu_max_nodes: Option<u32>,
}

/// The interface state: navigation, settings, and who controls each player
/// (player id, controller).
pub struct GuiState {
    pub nav: Navigation,
    pub settings: GuiSettings,
    pub player_types: Vec<(i32, PlayerType)>,
}

/// What the shell must do after a state change.
#[derive(Clone, Copy, Debug, PartialEq, Eq, Structural)]
pub enum GuiAction {
    NoAction,
    /// Create the selected game, its renderer and a fresh AI worker, clear
    /// the move history, then check whether an AI moves first.
    StartGame,
    /// Stop the AI worker.
    StopAi,
    /// Copy the move history to the clipboard.
    CopyHistory,
    /// Hand the key to the game's renderer.
    ForwardKey(u16),
    /// Adjust the floating-point setting at this index by this direction.
    AdjustFloatSetting(usize, i32),
}

pub open spec fn clamp(x: int, lo: int, hi: int) -> int {
    if x < lo { lo } else if x > hi { hi } else { x }
}

/// Integer arithmetic of `adjust_setting` that stays in range for
/// `index` and `delta` (elsewhere the arithmetic overflows); the
/// large-step settings move by a step in the direction of `delta`.
pub open spec fn adjust_in_range(s: GuiSettings, index: usize, delta: i32) -> bool {
    let sign = if delta > 0 { 1int } else { -1int };
    match index {
        0 => i32::MIN <= (s.board_size as i32) + delta <= i32::MAX,
        1 => i32::MIN <= (s.line_size as i32) + delta <= i32::MAX,
        2 => i32::MIN <= (s.ai_threads as i32) + delta <= i32::MAX,
        3 => i64::MIN <= (s.max_nodes as i64) + 100000 * sign <= i64::MAX,
        8 => i64::MIN <= (s.timeout_secs as i64) + delta <= i64::MAX,
        9 => i64::MIN <= (s.stats_interval_secs as i64) + delta <= i64::MAX,
        12 => i32::MIN <= (s.gpu_threads as i32) + 256 * sign <= i32::MAX,
        13 => i32::MIN <= (s.gpu_native_batch_size as i32) + 1024 * sign <= i32::MAX,
        _ => true,
    }
}

/// The settings after adjusting the integer or boolean setting at `index`
/// by `delta` (a sign for the large-step settings); floating-point settings
/// (indices 5, 6, 7) and unknown indices leave the settings unchanged.
pub open spec fn adjusted(s: GuiSettings, index: usize, delta: i32) -> GuiSettings {
    let step = if delta > 0 { 1int } else { -1int };
    match index {
        0 => GuiSettings { board_size: clamp((s.board_size as i32) + delta, 5, 25) as usize, ..s },
        1 => GuiSettings { line_size: clamp((s.line_size as i32) + delta, 3, 10) as usize, ..s },
        2 => GuiSettings { ai_threads: clamp((s.ai_threads as i32) + delta, 1, 64) as usize, ..s },
        3 => GuiSettings { max_nodes: clamp((s.max_nodes as i64) + 100000 * step, 100000, 50000000) as usize, ..s },
        4 => GuiSettings {
            search_iterations: clamp((s.search_iterations as i64) + 100000 * step, 10000, 100000000) as u32,
            ..s
        },
        8 => GuiSettings { timeout_secs: clamp((s.timeout_secs as i64) + delta, 1, 600) as u64, ..s },
        9 => GuiSettings { stats_interval_secs: clamp((s.stats_interval_secs as i64) + delta, 1, 120) as u64, ..s },
        10 => GuiSettings { ai_only: !s.ai_only, ..s },
        11 => GuiSettings { shared_tree: !s.shared_tree, ..s },
        12 => GuiSettings { gpu_threads: clamp((s.gpu_threads as i32) + 256 * step, 256, 16384) as usize, ..s },
        13 => GuiSettings {
            gpu_native_batch_size: clamp((s.gpu_native_batch_size as i32) + 1024 * step, 1024, 32768) as u32,
            ..s
        },
        _ => s,
    }
}

/// Whether the setting at `index` is a floating-point one (exploration
/// constants and virtual-loss weight), kept by the shell.
pub open spec fn is_float_setting(index: usize) -> bool {
    5 <= index <= 7
}

/// The controller of player `id`: the first entry for it, Human when none.
pub open spec fn player_type_of(players: Seq<(i32, PlayerType)>, id: i32) -> PlayerType
    decreases players.len(),
{
    if players.len() == 0 {
        PlayerType::Human
    } else if players[0].0 == id {
        players[0].1
    } else {
        player_type_of(players.drop_first(), id)
    }
}

/// Whether some entry exists for player `id`.
pub open spec fn has_player(players: Seq<(i32, PlayerType)>, id: i32) -> bool {
    exists|i: int| 0 <= i < players.len() && players[i].0 == id
}

pub open spec fn is_ai(p: PlayerType) -> bool {
    p != PlayerType::Human
}

/// The controller that follows `p` when a player entry is toggled.
pub open spec fn toggled(p: PlayerType, game: GameType) -> PlayerType {
    match p {
        PlayerType::Human => PlayerType::AiCpu,
        PlayerType::AiCpu => PlayerType::AiGpu,
        PlayerType::AiGpu => if game == GameType::Othello { PlayerType::AiGpuNative } else { PlayerType::Human },
        PlayerType::AiGpuNative => PlayerType::Human,
    }
}

/// The default player configuration of a game: player 1 human, the others
/// (2, 3, 4 for Blokus; -1 otherwise) CPU AIs.
pub open spec fn default_players(game: GameType) -> Seq<(i32, PlayerType)> {
    if game == GameType::Blokus {
        seq![(1i32, PlayerType::Human), (2i32, PlayerType::AiCpu), (3i32, PlayerType::AiCpu), (4i32, PlayerType::AiCpu)]
    } else {
        seq![(1i32, PlayerType::Human), (-1i32, PlayerType::AiCpu)]
    }
}

/// Human players replaced by CPU AIs.
pub open spec fn all_ai(players: Seq<(i32, PlayerType)>) -> Seq<(i32, PlayerType)> {
    players.map_values(|e: (i32, PlayerType)| if e.1 == PlayerType::Human { (e.0, PlayerType::AiCpu) } else { e })
}

fn lookup_player(players: &Vec<(i32, PlayerType)>, id: i32) -> (r: Option<PlayerType>)
    ensures
        r is Some <==> has_player(players@, id),
        r is Some ==> r->0 == player_type_of(players@, id),
        r is None ==> player_type_of(players@, id) == PlayerType::Human,
{
    let mut i: usize = 0;
    assert(players@.skip(0) =~= players@);
    while i < players.len()
        invariant
            i <= players@.len(),
            forall|k: int| 0 <= k < i ==> players@[k].0 != id,
            player_type_of(players@, id) == player_type_of(players@.skip(i as int), id),
        decreases players@.len() - i,
    {
        assert(players@.skip(i as int).drop_first() =~= players@.skip(i + 1));
        if players[i].0 == id {
            return Some(players[i].1);
        }
        i = i + 1;
    }
    None
}

impl GuiState {
    /// The state at start-up: game selection, Gomoku selected, player 1
    /// human against a CPU AI, nothing scrolled.
    pub fn new(settings: GuiSettings) -> (s: Self)
        ensures
            s.settings == settings,
            s.player_types@ == default_players(GameType::Gomoku),
            s.nav == (Navigation {
                mode: GuiMode::GameSelection,
                should_quit: false,
                selected_game_index: 0,
                selected_game_type: GameType::Gomoku,
                selected_player_index: 0,
                game_status: GameStatus::InProgress,
                ai_thinking: false,
                selected_settings_index: 0,
                needs_redraw: true,
                hover_button: None,
                active_tab: ActiveTab::DebugStats,
                debug_scroll: 0,
                history_scroll: 0,
                how_to_play_scroll: 0,
                selected_how_to_play_game: 0,
                game_selection_scroll: 0,
                settings_scroll: 0,
                is_dragging_splitter: false,
                is_right_dragging: false,
            }),
    {
        GuiState {
            nav: Navigation {
                mode: GuiMode::GameSelection,
                should_quit: false,
                selected_game_index: 0,
                selected_game_type: GameType::Gomoku,
                selected_player_index: 0,
                game_status: GameStatus::InProgress,
                ai_thinking: false,
                selected_settings_index: 0,
                needs_redraw: true,
                hover_button: None,
                active_tab: ActiveTab::DebugStats,
                debug_scroll: 0,
                history_scroll: 0,
                how_to_play_scroll: 0,
                selected_how_to_play_game: 0,
                game_selection_scroll: 0,
                settings_scroll: 0,
                is_dragging_splitter: false,
                is_right_dragging: false,
            },
            settings,
            player_types: vec![(1i32, PlayerType::Human), (-1i32, PlayerType::AiCpu)],
        }
    }

    /// Adjusts the setting at `index` (see `adjusted`); returns false for the
    /// floating-point settings, which the shell adjusts.
    #[verifier::rlimit(60)]
    #[verifier::spinoff_prover]
    pub fn adjust_setting(&mut self, index: usize, delta: i32) -> (handled: bool)
        requires
            adjust_in_range(old(self).settings, index, delta),
        ensures
            final(self).settings == adjusted(old(self).settings, index, delta),
            final(self).nav == (Navigation { needs_redraw: true, ..old(self).nav }),
            final(self).player_types@ == old(self).player_types@,
            handled == !is_float_setting(index),
    {
        let s = self.settings;
        match index {
            0 => {
                let v: i32 = (s.board_size as i32) + delta;
                self.settings.board_size = (if v < 5 { 5 } else if v > 25 { 25 } else { v }) as usize;
            },
            1 => {
                let v: i32 = (s.line_size as i32) + delta;
                self.settings.line_size = (if v < 3 { 3 } else if v > 10 { 10 } else { v }) as usize;
            },
            2 => {
                let v: i32 = (s.ai_threads as i32) + delta;
                self.settings.ai_threads = (if v < 1 { 1 } else if v > 64 { 64 } else { v }) as usize;
            },
            3 => {
                let step: i64 = if delta > 0 { 100000 } else { -100000 };
                let v: i64 = (s.max_nodes as i64) + step;
                self.settings.max_nodes = (if v < 100000 { 100000 } else if v > 50000000 { 50000000 } else { v }) as usize;
            },
            4 => {
                let step: i64 = if delta > 0 { 100000 } else { -100000 };
                let v: i64 = (s.search_iterations as i64) + step;
                self.settings.search_iterations = (if v < 10000 { 10000 } else if v > 100000000 { 100000000 } else { v }) as u32;
            },
            8 => {
                let v: i64 = (s.timeout_secs as i64) + (delta as i64);
                self.settings.timeout_secs = (if v < 1 { 1 } else if v > 600 { 600 } else { v }) as u64;
            },
            9 => {
                let v: i64 = (s.stats_interval_secs as i64) + (delta as i64);
                self.settings.stats_interval_secs = (if v < 1 { 1 } else if v > 120 { 120 } else { v }) as u64;
            },
            10 => {
                self.settings.ai_only = !s.ai_only;
            },
            11 => {
                self.settings.shared_tree = !s.shared_tree;
            },
            12 => {
                let step: i32 = if delta > 0 { 256 } else { -256 };
                let v: i32 = (s.gpu_threads as i32) + step;
                self.settings.gpu_threads = (if v < 256 { 256 } else if v > 16384 { 16384 } else { v }) as usize;
            },
            13 => {
                let step: i32 = if delta > 0 { 1024 } else { -1024 };
                let v: i32 = (s.gpu_native_batch_size as i32) + step;
                self.settings.gpu_native_batch_size = (if v < 1024 { 1024 } else if v > 32768 { 32768 } else { v }) as u32;
            },
            _ => {},
        }
        self.nav.needs_redraw = true;
        !(5 <= index && index <= 7)
    }
}


/// The interface state as a mathematical value.
pub struct UiModel {
    pub nav: Navigation,
    pub settings: GuiSettings,
    pub players: Seq<(i32, PlayerType)>,
}

impl View for GuiState {
    type V = UiModel;

    open spec fn view(&self) -> UiModel {
        UiModel { nav: self.nav, settings: self.settings, players: self.player_types@ }
    }
}

pub open spec fn redrawn(m: UiModel) -> UiModel {
    UiModel { nav: Navigation { needs_redraw: true, ..m.nav }, ..m }
}

pub open spec fn with_nav(m: UiModel, nav: Navigation) -> UiModel {
    UiModel { nav, ..m }
}

/// Back to the previous screen: from the game selection the application
/// quits; leaving a game stops the AI.
pub open spec fn go_back_model(m: UiModel) -> (UiModel, GuiAction) {
    let n = m.nav;
    let (n2, a) = match n.mode {
        GuiMode::Settings | GuiMode::HowToPlay | GuiMode::PlayerConfig => (Navigation { mode: GuiMode::GameSelection, ..n }, GuiAction::NoAction),
        GuiMode::InGame | GuiMode::GameOver => (Navigation { mode: GuiMode::GameSelection, ..n }, GuiAction::StopAi),
        GuiMode::GameSelection => (Navigation { should_quit: true, ..n }, GuiAction::NoAction),
    };
    (redrawn(with_nav(m, n2)), a)
}

/// A new game starts: in AI-only mode every human becomes a CPU AI; the game
/// is in progress, no AI is thinking, the game screen is shown.
pub open spec fn begin_game_model(m: UiModel) -> UiModel {
    UiModel {
        nav: Navigation {
            game_status: GameStatus::InProgress,
            ai_thinking: false,
            mode: GuiMode::InGame,
            needs_redraw: true,
            ..m.nav
        },
        players: if m.settings.ai_only { all_ai(m.players) } else { m.players },
        ..m
    }
}

/// Choosing game `index`: it becomes the selected game with its default
/// players, then the game starts at once in AI-only mode, otherwise the
/// player configuration opens.  An index past the games changes nothing.
pub open spec fn select_game_model(m: UiModel, index: usize) -> (UiModel, GuiAction) {
    if index < 5 {
        let g = all_games()[index as int];
        let m2 = UiModel {
            nav: Navigation { selected_game_index: index, selected_game_type: g, ..m.nav },
            players: default_players(g),
            ..m
        };
        if m.settings.ai_only {
            (begin_game_model(m2), GuiAction::StartGame)
        } else {
            (redrawn(with_nav(m2, Navigation { mode: GuiMode::PlayerConfig, ..m2.nav })), GuiAction::NoAction)
        }
    } else {
        (m, GuiAction::NoAction)
    }
}

/// Toggling player entry `index` to the next controller (see `toggled`).
pub open spec fn toggle_player_model(m: UiModel, index: usize) -> UiModel {
    if index < m.players.len() {
        let e = m.players[index as int];
        redrawn(UiModel {
            players: m.players.update(index as int, (e.0, toggled(e.1, m.nav.selected_game_type))),
            ..m
        })
    } else {
        m
    }
}

pub open spec fn toggle_tab_model(m: UiModel) -> UiModel {
    redrawn(with_nav(m, Navigation {
        active_tab: match m.nav.active_tab {
            ActiveTab::DebugStats => ActiveTab::MoveHistory,
            ActiveTab::MoveHistory => ActiveTab::DebugStats,
        },
        ..m.nav
    }))
}

/// One step up (towards 0, not below it).
pub open spec fn scroll_up(x: i32) -> i32 {
    if x - 1 < 0 { 0 } else { (x - 1) as i32 }
}

pub open spec fn scroll_debug_up_model(m: UiModel) -> UiModel {
    redrawn(with_nav(m, Navigation { debug_scroll: scroll_up(m.nav.debug_scroll), ..m.nav }))
}

pub open spec fn scroll_debug_down_model(m: UiModel) -> UiModel {
    redrawn(with_nav(m, Navigation { debug_scroll: (m.nav.debug_scroll + 1) as i32, ..m.nav }))
}

pub open spec fn scroll_history_up_model(m: UiModel) -> UiModel {
    redrawn(with_nav(m, Navigation { history_scroll: scroll_up(m.nav.history_scroll), ..m.nav }))
}

pub open spec fn scroll_history_down_model(m: UiModel) -> UiModel {
    redrawn(with_nav(m, Navigation { history_scroll: (m.nav.history_scroll + 1) as i32, ..m.nav }))
}

pub open spec fn scroll_how_to_play_up_model(m: UiModel) -> UiModel {
    redrawn(with_nav(m, Navigation { how_to_play_scroll: scroll_up(m.nav.how_to_play_scroll), ..m.nav }))
}

pub open spec fn scroll_how_to_play_down_model(m: UiModel) -> UiModel {
    redrawn(with_nav(m, Navigation { how_to_play_scroll: (m.nav.how_to_play_scroll + 1) as i32, ..m.nav }))
}

impl GuiState {
    /// Goes back to the previous screen (see `go_back_model`).
    pub fn go_back(&mut self) -> (a: GuiAction)
        ensures
            (final(self)@, a) == go_back_model(old(self)@),
    {
        let a = match self.nav.mode {
            GuiMode::Settings | GuiMode::HowToPlay | GuiMode::PlayerConfig => {
                self.nav.mode = GuiMode::GameSelection;
                GuiAction::NoAction
            },
            GuiMode::InGame | GuiMode::GameOver => {
                self.nav.mode = GuiMode::GameSelection;
                GuiAction::StopAi
            },
            GuiMode::GameSelection => {
                self.nav.should_quit = true;
                GuiAction::NoAction
            },
        };
        self.nav.needs_redraw = true;
        a
    }

    /// Starts a new game (see `begin_game_model`); the shell then builds the
    /// game and the AI worker.
    pub fn begin_game(&mut self)
        ensures
            final(self)@ == begin_game_model(old(self)@),
    {
        if self.settings.ai_only {
            let mut i: usize = 0;
            let ghost orig = self.player_types@;
            while i < self.player_types.len()
                invariant
                    i <= self.player_types@.len(),
                    self.player_types@.len() == orig.len(),
                    forall|k: int| 0 <= k < i ==> #[trigger] self.player_types@[k] == all_ai(orig)[k],
                    forall|k: int| i <= k < orig.len() ==> #[trigger] self.player_types@[k] == orig[k],
                    self.nav == old(self).nav,
                    self.settings == old(self).settings,
                    orig == old(self).player_types@,
                decreases self.player_types@.len() - i,
            {
                let (id, pt) = self.player_types[i];
                if pt == PlayerType::Human {
                    self.player_types.set(i, (id, PlayerType::AiCpu));
                }
                i = i + 1;
            }
            assert(self.player_types@ =~= all_ai(orig));
        }
        self.nav.game_status = GameStatus::InProgress;
        self.nav.ai_thinking = false;
        self.nav.mode = GuiMode::InGame;
        self.nav.needs_redraw = true;
    }

    /// Chooses a game from the menu (see `select_game_model`).
    pub fn select_game(&mut self, index: usize) -> (a: GuiAction)
        ensures
            (final(self)@, a) == select_game_model(old(self)@, index),
    {
        if index < 5 {
            let g = GameType::at(index);
            self.nav.selected_game_index = index;
            self.nav.selected_game_type = g;
            self.player_types = if g == GameType::Blokus {
                vec![(1i32, PlayerType::Human), (2i32, PlayerType::AiCpu), (3i32, PlayerType::AiCpu), (4i32, PlayerType::AiCpu)]
            } else {
                vec![(1i32, PlayerType::Human), (-1i32, PlayerType::AiCpu)]
            };
            assert(self.player_types@ =~= default_players(g));
            if self.settings.ai_only {
                self.begin_game();
                GuiAction::StartGame
            } else {
                self.nav.mode = GuiMode::PlayerConfig;
                self.nav.needs_redraw = true;
                GuiAction::NoAction
            }
        } else {
            GuiAction::NoAction
        }
    }

    /// Moves player entry `index` to the next controller (see `toggled`).
    pub fn toggle_player(&mut self, index: usize)
        ensures
            final(self)@ == toggle_player_model(old(self)@, index),
    {
        if index < self.player_types.len() {
            let (id, pt) = self.player_types[index];
            let next = match pt {
                PlayerType::Human => PlayerType::AiCpu,
                PlayerType::AiCpu => PlayerType::AiGpu,
                PlayerType::AiGpu => if self.nav.selected_game_type == GameType::Othello {
                    PlayerType::AiGpuNative
                } else {
                    PlayerType::Human
                },
                PlayerType::AiGpuNative => PlayerType::Human,
            };
            self.player_types.set(index, (id, next));
            self.nav.needs_redraw = true;
        }
    }

    /// Switches the information panel's tab.
    pub fn toggle_tab(&mut self)
        ensures
            final(self)@ == toggle_tab_model(old(self)@),
    {
        self.nav.active_tab = self.nav.active_tab.next();
        self.nav.needs_redraw = true;
    }

    pub fn scroll_debug_up(&mut self)
        requires
            old(self).nav.debug_scroll > i32::MIN,
        ensures
            final(self)@ == scroll_debug_up_model(old(self)@),
    {
        let v = self.nav.debug_scroll - 1;
        self.nav.debug_scroll = if v < 0 { 0 } else { v };
        self.nav.needs_redraw = true;
    }

    pub fn scroll_debug_down(&mut self)
        requires
            old(self).nav.debug_scroll < i32::MAX,
        ensures
            final(self)@ == scroll_debug_down_model(old(self)@),
    {
        self.nav.debug_scroll = self.nav.debug_scroll + 1;
        self.nav.needs_redraw = true;
    }

    pub fn scroll_history_up(&mut self)
        requires
            old(self).nav.history_scroll > i32::MIN,
        ensures
            final(self)@ == scroll_history_up_model(old(self)@),
    {
        let v = self.nav.history_scroll - 1;
        self.nav.history_scroll = if v < 0 { 0 } else { v };
        self.nav.needs_redraw = true;
    }

    pub fn scroll_history_down(&mut self)
        requires
            old(self).nav.history_scroll < i32::MAX,
        ensures
            final(self)@ == scroll_history_down_model(old(self)@),
    {
        self.nav.history_scroll = self.nav.history_scroll + 1;
        self.nav.needs_redraw = true;
    }

    pub fn scroll_how_to_play_up(&mut self)
        requires
            old(self).nav.how_to_play_scroll > i32::MIN,
        ensures
            final(self)@ == scroll_how_to_play_up_model(old(self)@),
    {
        let v = self.nav.how_to_play_scroll - 1;
        self.nav.how_to_play_scroll = if v < 0 { 0 } else { v };
        self.nav.needs_redraw = true;
    }

    pub fn scroll_how_to_play_down(&mut self)
        requires
            old(self).nav.how_to_play_scroll < i32::MAX,
        ensures
            final(self)@ == scroll_how_to_play_down_model(old(self)@),
    {
        self.nav.how_to_play_scroll = self.nav.how_to_play_scroll + 1;
        self.nav.needs_redraw = true;
    }

    /// Whether the player to move is controlled by an AI (no entry: no).
    pub fn is_current_player_ai(&self, current_player: i32) -> (b: bool)
        ensures
            b == (has_player(self.player_types@, current_player) && is_ai(player_type_of(self.player_types@, current_player))),
    {
        match lookup_player(&self.player_types, current_player) {
            Some(pt) => pt != PlayerType::Human,
            None => false,
        }
    }

    /// The controller of a player (Human when it has no entry).
    pub fn player_type(&self, player: i32) -> (p: PlayerType)
        ensures
            p == player_type_of(self.player_types@, player),
    {
        match lookup_player(&self.player_types, player) {
            Some(pt) => pt,
            None => PlayerType::Human,
        }
    }
}


/// Before the AI is asked to move: when the game is in progress and the
/// player to move is an AI that is not already thinking, it starts thinking
/// and its controller is returned (the shell starts the search).
pub open spec fn check_ai_turn_model(m: UiModel, current_player: i32) -> (UiModel, Option<PlayerType>) {
    let pt = player_type_of(m.players, current_player);
    if m.nav.game_status != GameStatus::InProgress {
        (m, None)
    } else if is_ai(pt) && !m.nav.ai_thinking {
        (redrawn(with_nav(m, Navigation { ai_thinking: true, ..m.nav })), Some(pt))
    } else {
        (m, None)
    }
}

/// After a move has been applied: the history scrolls to its end, a finished
/// game shows its result, and no AI is thinking any more.
pub open spec fn after_move_model(m: UiModel, game_over: bool, winner: Option<i32>) -> UiModel {
    let n = Navigation { history_scroll: i32::MAX, ..m.nav };
    let n2 = if game_over {
        Navigation {
            game_status: match winner {
                Some(w) => GameStatus::Win(w),
                None => GameStatus::Draw,
            },
            mode: GuiMode::GameOver,
            ..n
        }
    } else {
        n
    };
    redrawn(with_nav(m, Navigation { ai_thinking: false, ..n2 }))
}

/// Adjusting setting `index`: the integer and boolean settings change here,
/// the floating-point ones are left to the shell.
pub open spec fn adjust_model(m: UiModel, index: usize, delta: i32) -> (UiModel, GuiAction) {
    (
        redrawn(UiModel { settings: adjusted(m.settings, index, delta), ..m }),
        if is_float_setting(index) { GuiAction::AdjustFloatSetting(index, delta) } else { GuiAction::NoAction },
    )
}

/// A float-to-integer cast's result for an integer value: clamped to the
/// range of `i32`.
pub open spec fn to_i32_saturating(x: int) -> i32 {
    if x < i32::MIN { i32::MIN } else if x > i32::MAX { i32::MAX } else { x as i32 }
}

/// Scrolling the list so that an item starting at `target_top` is visible
/// above: the scroll offset moves up to it when it lies above.
pub open spec fn reveal_above(scroll: i32, target_top: int) -> i32 {
    if target_top < scroll { target_top as i32 } else { scroll }
}

/// Scrolling so that an item ending at `target_bottom` is visible in a list
/// `list_height` high.
pub open spec fn reveal_below(scroll: i32, target_bottom: int, list_height: int) -> i32 {
    if target_bottom > scroll + list_height { to_i32_saturating(target_bottom - list_height) } else { scroll }
}

/// Keys on the game selection screen (menu items: the games, then
/// Settings, then How To Play; items are 90 pixels apart and the list is
/// the window height less 300 pixels high).
pub open spec fn game_selection_key(m: UiModel, vk: u16, height: i32) -> (UiModel, GuiAction) {
    let n = m.nav;
    if vk == VK_UP {
        if n.selected_game_index > 0 {
            let i = (n.selected_game_index - 1) as usize;
            let scroll = if i < 5 { reveal_above(n.game_selection_scroll, i * 90) } else { n.game_selection_scroll };
            (with_nav(m, Navigation { selected_game_index: i, game_selection_scroll: scroll, ..n }), GuiAction::NoAction)
        } else {
            (m, GuiAction::NoAction)
        }
    } else if vk == VK_DOWN {
        if n.selected_game_index < 6 {
            let i = (n.selected_game_index + 1) as usize;
            let scroll = if i < 5 {
                reveal_below(n.game_selection_scroll, (i + 1) * 90, height - 300)
            } else {
                n.game_selection_scroll
            };
            (with_nav(m, Navigation { selected_game_index: i, game_selection_scroll: scroll, ..n }), GuiAction::NoAction)
        } else {
            (m, GuiAction::NoAction)
        }
    } else if vk == VK_RETURN {
        if n.selected_game_index < 5 {
            select_game_model(m, n.selected_game_index)
        } else if n.selected_game_index == 5 {
            (with_nav(m, Navigation { mode: GuiMode::Settings, selected_settings_index: 0, ..n }), GuiAction::NoAction)
        } else if n.selected_game_index == 6 {
            (with_nav(m, Navigation { mode: GuiMode::HowToPlay, ..n }), GuiAction::NoAction)
        } else {
            (m, GuiAction::NoAction)
        }
    } else {
        (m, GuiAction::NoAction)
    }
}

/// Keys on the settings screen: the 14 settings (rows 0 to 13), a separator
/// row, then Back (row 15).  Left and Right adjust a setting, Return toggles
/// the yes/no settings and leaves by Back; entries are 45 pixels apart and
/// the list is the window height less 200 pixels high.
pub open spec fn settings_key(m: UiModel, vk: u16, height: i32) -> (UiModel, GuiAction) {
    let n = m.nav;
    let sel = n.selected_settings_index;
    if vk == VK_UP {
        if sel > 0 {
            let i = (sel - 1) as usize;
            let scroll = if i < 14 { reveal_above(n.settings_scroll, i * 45) } else { n.settings_scroll };
            (with_nav(m, Navigation { selected_settings_index: i, settings_scroll: scroll, ..n }), GuiAction::NoAction)
        } else {
            (m, GuiAction::NoAction)
        }
    } else if vk == VK_DOWN {
        if sel < SETTINGS_BACK_ROW {
            let i = (sel + 1) as usize;
            let scroll = if i < 14 {
                reveal_below(n.settings_scroll, (i + 1) * 45, height - 200)
            } else {
                n.settings_scroll
            };
            (with_nav(m, Navigation { selected_settings_index: i, settings_scroll: scroll, ..n }), GuiAction::NoAction)
        } else {
            (m, GuiAction::NoAction)
        }
    } else if vk == VK_LEFT {
        if sel < NUM_SETTINGS { adjust_model(m, sel, -1i32) } else { (m, GuiAction::NoAction) }
    } else if vk == VK_RIGHT || vk == VK_SPACE {
        if sel < NUM_SETTINGS { adjust_model(m, sel, 1i32) } else { (m, GuiAction::NoAction) }
    } else if vk == VK_RETURN {
        if sel == SETTINGS_BACK_ROW {
            (with_nav(m, Navigation { mode: GuiMode::GameSelection, ..n }), GuiAction::NoAction)
        } else if is_toggle_setting(sel) {
            adjust_model(m, sel, 1i32)
        } else {
            (m, GuiAction::NoAction)
        }
    } else {
        (m, GuiAction::NoAction)
    }
}

/// Keys on the player configuration screen (the entries, then Start).
pub open spec fn player_config_key(m: UiModel, vk: u16) -> (UiModel, GuiAction) {
    let n = m.nav;
    let sel = n.selected_player_index;
    if vk == VK_UP {
        if sel > 0 {
            (with_nav(m, Navigation { selected_player_index: (sel - 1) as usize, ..n }), GuiAction::NoAction)
        } else {
            (m, GuiAction::NoAction)
        }
    } else if vk == VK_DOWN {
        if sel < m.players.len() {
            (with_nav(m, Navigation { selected_player_index: (sel + 1) as usize, ..n }), GuiAction::NoAction)
        } else {
            (m, GuiAction::NoAction)
        }
    } else if vk == VK_LEFT || vk == VK_RIGHT || vk == VK_SPACE {
        if sel < m.players.len() { (toggle_player_model(m, sel), GuiAction::NoAction) } else { (m, GuiAction::NoAction) }
    } else if vk == VK_RETURN {
        if sel == m.players.len() {
            (begin_game_model(m), GuiAction::StartGame)
        } else {
            (toggle_player_model(m, sel), GuiAction::NoAction)
        }
    } else {
        (m, GuiAction::NoAction)
    }
}

/// Whether the player to move has an entry and it is Human.
pub open spec fn is_human_to_move(m: UiModel, current_player: i32) -> bool {
    has_player(m.players, current_player) && player_type_of(m.players, current_player) == PlayerType::Human
}

/// Keys during a game: Tab switches tabs, C copies the history, Page Up and
/// Page Down scroll the active tab; other keys go to the game's renderer
/// when a human is to move and no AI is thinking.
pub open spec fn in_game_key(m: UiModel, vk: u16, current_player: i32) -> (UiModel, GuiAction) {
    if vk == VK_TAB {
        (toggle_tab_model(m), GuiAction::NoAction)
    } else if vk == VK_C {
        (m, GuiAction::CopyHistory)
    } else if vk == VK_PRIOR {
        match m.nav.active_tab {
            ActiveTab::DebugStats => (scroll_debug_up_model(m), GuiAction::NoAction),
            ActiveTab::MoveHistory => (scroll_history_up_model(m), GuiAction::NoAction),
        }
    } else if vk == VK_NEXT {
        match m.nav.active_tab {
            ActiveTab::DebugStats => (scroll_debug_down_model(m), GuiAction::NoAction),
            ActiveTab::MoveHistory => (scroll_history_down_model(m), GuiAction::NoAction),
        }
    } else if is_human_to_move(m, current_player) && !m.nav.ai_thinking {
        (m, GuiAction::ForwardKey(vk))
    } else {
        (m, GuiAction::NoAction)
    }
}

/// Keys on the how-to-play screen: left and right switch among the five
/// games (resetting the scroll), up and down scroll by one, Page Up and Page
/// Down by five.
pub open spec fn how_to_play_key(m: UiModel, vk: u16) -> UiModel {
    let n = m.nav;
    if vk == VK_LEFT {
        if n.selected_how_to_play_game > 0 {
            with_nav(m, Navigation { selected_how_to_play_game: (n.selected_how_to_play_game - 1) as usize, how_to_play_scroll: 0, ..n })
        } else {
            m
        }
    } else if vk == VK_RIGHT {
        if n.selected_how_to_play_game < 4 {
            with_nav(m, Navigation { selected_how_to_play_game: (n.selected_how_to_play_game + 1) as usize, how_to_play_scroll: 0, ..n })
        } else {
            m
        }
    } else if vk == VK_UP {
        scroll_how_to_play_up_model(m)
    } else if vk == VK_DOWN {
        scroll_how_to_play_down_model(m)
    } else if vk == VK_PRIOR {
        scroll_how_to_play_up_model(scroll_how_to_play_up_model(scroll_how_to_play_up_model(
            scroll_how_to_play_up_model(scroll_how_to_play_up_model(m)))))
    } else if vk == VK_NEXT {
        scroll_how_to_play_down_model(scroll_how_to_play_down_model(scroll_how_to_play_down_model(
            scroll_how_to_play_down_model(scroll_how_to_play_down_model(m)))))
    } else {
        m
    }
}

/// A key press: Escape and Backspace go back; otherwise the screen's keys
/// apply and the window is redrawn.
pub open spec fn key_model(m: UiModel, vk: u16, height: i32, current_player: i32) -> (UiModel, GuiAction) {
    if vk == VK_ESCAPE || vk == VK_BACK {
        go_back_model(m)
    } else {
        let (m2, a) = match m.nav.mode {
            GuiMode::GameSelection => game_selection_key(m, vk, height),
            GuiMode::Settings => settings_key(m, vk, height),
            GuiMode::PlayerConfig => player_config_key(m, vk),
            GuiMode::InGame => in_game_key(m, vk, current_player),
            GuiMode::GameOver => if vk == VK_RETURN || vk == VK_SPACE {
                go_back_model(m)
            } else if vk == VK_C {
                (m, GuiAction::CopyHistory)
            } else {
                (m, GuiAction::NoAction)
            },
            GuiMode::HowToPlay => (how_to_play_key(m, vk), GuiAction::NoAction),
        };
        (redrawn(m2), a)
    }
}

/// The key presses whose counter arithmetic stays in range (on the others
/// the arithmetic overflows).
pub open spec fn key_in_range(m: UiModel, vk: u16) -> bool {
    let n = m.nav;
    if vk == VK_ESCAPE || vk == VK_BACK {
        true
    } else {
        match n.mode {
            GuiMode::Settings => {
                &&& (vk == VK_LEFT && n.selected_settings_index < NUM_SETTINGS ==> adjust_in_range(m.settings, n.selected_settings_index, -1i32))
                &&& ((vk == VK_RIGHT || vk == VK_SPACE) && n.selected_settings_index < NUM_SETTINGS ==> adjust_in_range(m.settings, n.selected_settings_index, 1i32))
            },
            GuiMode::InGame => {
                &&& (vk == VK_PRIOR && n.active_tab == ActiveTab::DebugStats ==> n.debug_scroll > i32::MIN)
                &&& (vk == VK_PRIOR && n.active_tab == ActiveTab::MoveHistory ==> n.history_scroll > i32::MIN)
                &&& (vk == VK_NEXT && n.active_tab == ActiveTab::DebugStats ==> n.debug_scroll < i32::MAX)
                &&& (vk == VK_NEXT && n.active_tab == ActiveTab::MoveHistory ==> n.history_scroll < i32::MAX)
            },
            GuiMode::HowToPlay => {
                &&& ((vk == VK_UP || vk == VK_PRIOR) ==> n.how_to_play_scroll > i32::MIN)
                &&& (vk == VK_DOWN ==> n.how_to_play_scroll < i32::MAX)
                &&& (vk == VK_NEXT ==> n.how_to_play_scroll <= i32::MAX - 5)
            },
            _ => true,
        }
    }
}

fn reveal_below_exec(scroll: i32, target_bottom: i64, list_height: i64) -> (r: i32)
    requires
        -0x1_0000_0000 <= target_bottom <= 0x1_0000_0000,
        -0x1_0000_0000 <= list_height <= 0x1_0000_0000,
    ensures
        r == reveal_below(scroll, target_bottom as int, list_height as int),
{
    if target_bottom > (scroll as i64) + list_height {
        let d: i64 = target_bottom - list_height;
        if d < i32::MIN as i64 {
            i32::MIN
        } else if d > i32::MAX as i64 {
            i32::MAX
        } else {
            d as i32
        }
    } else {
        scroll
    }
}

impl GuiState {
    /// Checks whether an AI is to move (see `check_ai_turn_model`); returns
    /// the controller whose search the shell must start.
    pub fn check_ai_turn(&mut self, current_player: i32) -> (search: Option<PlayerType>)
        ensures
            (final(self)@, search) == check_ai_turn_model(old(self)@, current_player),
    {
        if self.nav.game_status != GameStatus::InProgress {
            return None;
        }
        let pt = self.player_type(current_player);
        if pt != PlayerType::Human && !self.nav.ai_thinking {
            self.nav.ai_thinking = true;
            self.nav.needs_redraw = true;
            Some(pt)
        } else {
            None
        }
    }

    /// Records that a move by `player` was applied (see `after_move_model`);
    /// returns the mover's controller.
    pub fn after_move_applied(&mut self, player: i32, game_over: bool, winner: Option<i32>) -> (mover: PlayerType)
        ensures
            final(self)@ == after_move_model(old(self)@, game_over, winner),
            mover == player_type_of(old(self).player_types@, player),
    {
        let mover = self.player_type(player);
        self.nav.history_scroll = i32::MAX;
        if game_over {
            self.nav.game_status = match winner {
                Some(w) => GameStatus::Win(w),
                None => GameStatus::Draw,
            };
            self.nav.mode = GuiMode::GameOver;
        }
        self.nav.ai_thinking = false;
        self.nav.needs_redraw = true;
        mover
    }

    fn adjust_for_key(&mut self, index: usize, delta: i32) -> (a: GuiAction)
        requires
            adjust_in_range(old(self).settings, index, delta),
        ensures
            (final(self)@, a) == adjust_model(old(self)@, index, delta),
    {
        if self.adjust_setting(index, delta) {
            GuiAction::NoAction
        } else {
            GuiAction::AdjustFloatSetting(index, delta)
        }
    }

    /// Handles a key press (see `key_model`); `window_height` is the client
    /// area's height in pixels and `current_player` the player to move.
    pub fn handle_key(&mut self, vk: u16, window_height: i32, current_player: i32) -> (a: GuiAction)
        requires
            key_in_range(old(self)@, vk),
        ensures
            (final(self)@, a) == key_model(old(self)@, vk, window_height, current_player),
    {
        if vk == VK_ESCAPE || vk == VK_BACK {
            return self.go_back();
        }
        let a = match self.nav.mode {
            GuiMode::GameSelection => self.game_selection_key(vk, window_height),
            GuiMode::Settings => self.settings_key(vk, window_height),
            GuiMode::PlayerConfig => self.player_config_key(vk),
            GuiMode::InGame => self.in_game_key(vk, current_player),
            GuiMode::GameOver => {
                if vk == VK_RETURN || vk == VK_SPACE {
                    self.go_back()
                } else if vk == VK_C {
                    GuiAction::CopyHistory
                } else {
                    GuiAction::NoAction
                }
            },
            GuiMode::HowToPlay => {
                self.how_to_play_key(vk);
                GuiAction::NoAction
            },
        };
        self.nav.needs_redraw = true;
        a
    }

    fn game_selection_key(&mut self, vk: u16, height: i32) -> (a: GuiAction)
        ensures
            (final(self)@, a) == game_selection_key(old(self)@, vk, height),
    {
        if vk == VK_UP {
            if self.nav.selected_game_index > 0 {
                let i = self.nav.selected_game_index - 1;
                self.nav.selected_game_index = i;
                if i < 5 {
                    let target: i64 = (i as i64) * 90;
                    if target < self.nav.game_selection_scroll as i64 {
                        self.nav.game_selection_scroll = target as i32;
                    }
                }
            }
            GuiAction::NoAction
        } else if vk == VK_DOWN {
            if self.nav.selected_game_index < 6 {
                let i = self.nav.selected_game_index + 1;
                self.nav.selected_game_index = i;
                if i < 5 {
                    let lh: i64 = (height as i64) - 300;
                    let target: i64 = ((i + 1) as i64) * 90;
                    self.nav.game_selection_scroll = reveal_below_exec(self.nav.game_selection_scroll, target, lh);
                }
            }
            GuiAction::NoAction
        } else if vk == VK_RETURN {
            let idx = self.nav.selected_game_index;
            if idx < 5 {
                self.select_game(idx)
            } else if idx == 5 {
                self.nav.mode = GuiMode::Settings;
                self.nav.selected_settings_index = 0;
                GuiAction::NoAction
            } else if idx == 6 {
                self.nav.mode = GuiMode::HowToPlay;
                GuiAction::NoAction
            } else {
                GuiAction::NoAction
            }
        } else {
            GuiAction::NoAction
        }
    }

    fn settings_key(&mut self, vk: u16, height: i32) -> (a: GuiAction)
        requires
            old(self).nav.mode == GuiMode::Settings,
            key_in_range(old(self)@, vk),
            vk != VK_ESCAPE && vk != VK_BACK,
        ensures
            (final(self)@, a) == settings_key(old(self)@, vk, height),
    {
        let sel = self.nav.selected_settings_index;
        if vk == VK_UP {
            if sel > 0 {
                let i = sel - 1;
                self.nav.selected_settings_index = i;
                if i < 14 {
                    let target: i64 = (i as i64) * 45;
                    if target < self.nav.settings_scroll as i64 {
                        self.nav.settings_scroll = target as i32;
                    }
                }
            }
            GuiAction::NoAction
        } else if vk == VK_DOWN {
            if sel < SETTINGS_BACK_ROW {
                let i = sel + 1;
                self.nav.selected_settings_index = i;
                if i < 14 {
                    let lh: i64 = (height as i64) - 200;
                    let target: i64 = ((i + 1) as i64) * 45;
                    self.nav.settings_scroll = reveal_below_exec(self.nav.settings_scroll, target, lh);
                }
            }
            GuiAction::NoAction
        } else if vk == VK_LEFT {
            if sel < NUM_SETTINGS { self.adjust_for_key(sel, -1) } else { GuiAction::NoAction }
        } else if vk == VK_RIGHT || vk == VK_SPACE {
            if sel < NUM_SETTINGS { self.adjust_for_key(sel, 1) } else { GuiAction::NoAction }
        } else if vk == VK_RETURN {
            if sel == SETTINGS_BACK_ROW {
                self.nav.mode = GuiMode::GameSelection;
                GuiAction::NoAction
            } else if sel == 10 || sel == 11 {
                self.adjust_for_key(sel, 1)
            } else {
                GuiAction::NoAction
            }
        } else {
            GuiAction::NoAction
        }
    }

    fn player_config_key(&mut self, vk: u16) -> (a: GuiAction)
        ensures
            (final(self)@, a) == player_config_key(old(self)@, vk),
    {
        let sel = self.nav.selected_player_index;
        let len = self.player_types.len();
        if vk == VK_UP {
            if sel > 0 {
                self.nav.selected_player_index = sel - 1;
            }
            GuiAction::NoAction
        } else if vk == VK_DOWN {
            if sel < len {
                self.nav.selected_player_index = sel + 1;
            }
            GuiAction::NoAction
        } else if vk == VK_LEFT || vk == VK_RIGHT || vk == VK_SPACE {
            if sel < len {
                self.toggle_player(sel);
            }
            GuiAction::NoAction
        } else if vk == VK_RETURN {
            if sel == len {
                self.begin_game();
                GuiAction::StartGame
            } else {
                self.toggle_player(sel);
                GuiAction::NoAction
            }
        } else {
            GuiAction::NoAction
        }
    }

    fn in_game_key(&mut self, vk: u16, current_player: i32) -> (a: GuiAction)
        requires
            old(self).nav.mode == GuiMode::InGame,
            key_in_range(old(self)@, vk),
            vk != VK_ESCAPE && vk != VK_BACK,
        ensures
            (final(self)@, a) == in_game_key(old(self)@, vk, current_player),
    {
        if vk == VK_TAB {
            self.toggle_tab();
            GuiAction::NoAction
        } else if vk == VK_C {
            GuiAction::CopyHistory
        } else if vk == VK_PRIOR {
            match self.nav.active_tab {
                ActiveTab::DebugStats => self.scroll_debug_up(),
                ActiveTab::MoveHistory => self.scroll_history_up(),
            }
            GuiAction::NoAction
        } else if vk == VK_NEXT {
            match self.nav.active_tab {
                ActiveTab::DebugStats => self.scroll_debug_down(),
                ActiveTab::MoveHistory => self.scroll_history_down(),
            }
            GuiAction::NoAction
        } else {
            let is_human = match lookup_player(&self.player_types, current_player) {
                Some(pt) => pt == PlayerType::Human,
                None => false,
            };
            if is_human && !self.nav.ai_thinking {
                GuiAction::ForwardKey(vk)
            } else {
                GuiAction::NoAction
            }
        }
    }

    fn how_to_play_key(&mut self, vk: u16)
        requires
            old(self).nav.mode == GuiMode::HowToPlay,
            key_in_range(old(self)@, vk),
            vk != VK_ESCAPE && vk != VK_BACK,
        ensures
            final(self)@ == how_to_play_key(old(self)@, vk),
    {
        if vk == VK_LEFT {
            if self.nav.selected_how_to_play_game > 0 {
                self.nav.selected_how_to_play_game = self.nav.selected_how_to_play_game - 1;
                self.nav.how_to_play_scroll = 0;
            }
        } else if vk == VK_RIGHT {
            if self.nav.selected_how_to_play_game < 4 {
                self.nav.selected_how_to_play_game = self.nav.selected_how_to_play_game + 1;
                self.nav.how_to_play_scroll = 0;
            }
        } else if vk == VK_UP {
            self.scroll_how_to_play_up();
        } else if vk == VK_DOWN {
            self.scroll_how_to_play_down();
        } else if vk == VK_PRIOR {
            let mut k: usize = 0;
            let ghost m0 = self@;
            while k < 5
                invariant
                    k <= 5,
                    self.nav.how_to_play_scroll >= 0 || (k == 0 && self.nav.how_to_play_scroll > i32::MIN),
                    k == 0 ==> self@ == m0,
                    k == 1 ==> self@ == scroll_how_to_play_up_model(m0),
                    k == 2 ==> self@ == scroll_how_to_play_up_model(scroll_how_to_play_up_model(m0)),
                    k == 3 ==> self@ == scroll_how_to_play_up_model(scroll_how_to_play_up_model(scroll_how_to_play_up_model(m0))),
                    k == 4 ==> self@ == scroll_how_to_play_up_model(scroll_how_to_play_up_model(scroll_how_to_play_up_model(
                        scroll_how_to_play_up_model(m0)))),
                    k == 5 ==> self@ == scroll_how_to_play_up_model(scroll_how_to_play_up_model(scroll_how_to_play_up_model(
                        scroll_how_to_play_up_model(scroll_how_to_play_up_model(m0))))),
                decreases 5 - k,
            {
                self.scroll_how_to_play_up();
                k = k + 1;
            }
        } else if vk == VK_NEXT {
            let mut k: usize = 0;
            let ghost m0 = self@;
            while k < 5
                invariant
                    k <= 5,
                    m0.nav.how_to_play_scroll <= i32::MAX - 5,
                    self.nav.how_to_play_scroll == m0.nav.how_to_play_scroll + k,
                    k == 0 ==> self@ == m0,
                    k == 1 ==> self@ == scroll_how_to_play_down_model(m0),
                    k == 2 ==> self@ == scroll_how_to_play_down_model(scroll_how_to_play_down_model(m0)),
                    k == 3 ==> self@ == scroll_how_to_play_down_model(scroll_how_to_play_down_model(scroll_how_to_play_down_model(m0))),
                    k == 4 ==> self@ == scroll_how_to_play_down_model(scroll_how_to_play_down_model(scroll_how_to_play_down_model(
                        scroll_how_to_play_down_model(m0)))),
                    k == 5 ==> self@ == scroll_how_to_play_down_model(scroll_how_to_play_down_model(scroll_how_to_play_down_model(
                        scroll_how_to_play_down_model(scroll_how_to_play_down_model(m0))))),
                decreases 5 - k,
            {
                self.scroll_how_to_play_down();
                k = k + 1;
            }
        }
    }
}


/// What a mouse-wheel notch asks of the shell.
#[derive(Clone, Copy, Debug, PartialEq, Eq, Structural)]
pub enum WheelOutcome {
    /// Nothing changed.
    Ignored,
    /// The state changed: redraw.
    Redraw,
    /// Hand the wheel to the game's renderer (in a game, outside the
    /// information panel).
    ForwardToRenderer,
}

/// A wheel notch (`up` when it turns away from the user): in a game, over
/// the information panel, it scrolls the active tab; on the how-to-play
/// screen it scrolls the text; on the game selection and settings screens it
/// moves the list by 40 pixels.
pub open spec fn wheel_model(m: UiModel, up: bool, over_info_panel: bool) -> (UiModel, WheelOutcome) {
    let n = m.nav;
    match n.mode {
        GuiMode::InGame => if over_info_panel {
            match n.active_tab {
                ActiveTab::DebugStats => (if up { scroll_debug_up_model(m) } else { scroll_debug_down_model(m) }, WheelOutcome::Redraw),
                ActiveTab::MoveHistory => (if up { scroll_history_up_model(m) } else { scroll_history_down_model(m) }, WheelOutcome::Redraw),
            }
        } else {
            (m, WheelOutcome::ForwardToRenderer)
        },
        GuiMode::HowToPlay => (if up { scroll_how_to_play_up_model(m) } else { scroll_how_to_play_down_model(m) }, WheelOutcome::Redraw),
        GuiMode::GameSelection => (with_nav(m, Navigation {
            game_selection_scroll: (if up { n.game_selection_scroll - 40 } else { n.game_selection_scroll + 40 }) as i32,
            ..n
        }), WheelOutcome::Redraw),
        GuiMode::Settings => (with_nav(m, Navigation {
            settings_scroll: (if up { n.settings_scroll - 40 } else { n.settings_scroll + 40 }) as i32,
            ..n
        }), WheelOutcome::Redraw),
        _ => (m, WheelOutcome::Ignored),
    }
}

/// The wheel notches whose counter arithmetic stays in range.
pub open spec fn wheel_in_range(m: UiModel, up: bool, over_info_panel: bool) -> bool {
    let n = m.nav;
    match n.mode {
        GuiMode::InGame => over_info_panel ==> match n.active_tab {
            ActiveTab::DebugStats => if up { n.debug_scroll > i32::MIN } else { n.debug_scroll < i32::MAX },
            ActiveTab::MoveHistory => if up { n.history_scroll > i32::MIN } else { n.history_scroll < i32::MAX },
        },
        GuiMode::HowToPlay => if up { n.how_to_play_scroll > i32::MIN } else { n.how_to_play_scroll < i32::MAX },
        GuiMode::GameSelection => i32::MIN <= n.game_selection_scroll + (if up { -40int } else { 40int }) <= i32::MAX,
        GuiMode::Settings => i32::MIN <= n.settings_scroll + (if up { -40int } else { 40int }) <= i32::MAX,
        _ => true,
    }
}

impl GuiState {
    /// Handles a mouse-wheel notch (see `wheel_model`).
    pub fn handle_wheel(&mut self, up: bool, over_info_panel: bool) -> (o: WheelOutcome)
        requires
            wheel_in_range(old(self)@, up, over_info_panel),
        ensures
            (final(self)@, o) == wheel_model(old(self)@, up, over_info_panel),
    {
        match self.nav.mode {
            GuiMode::InGame => {
                if over_info_panel {
                    match self.nav.active_tab {
                        ActiveTab::DebugStats => if up { self.scroll_debug_up() } else { self.scroll_debug_down() },
                        ActiveTab::MoveHistory => if up { self.scroll_history_up() } else { self.scroll_history_down() },
                    }
                    WheelOutcome::Redraw
                } else {
                    WheelOutcome::ForwardToRenderer
                }
            },
            GuiMode::HowToPlay => {
                if up { self.scroll_how_to_play_up() } else { self.scroll_how_to_play_down() }
                WheelOutcome::Redraw
            },
            GuiMode::GameSelection => {
                if up {
                    self.nav.game_selection_scroll = self.nav.game_selection_scroll - 40;
                } else {
                    self.nav.game_selection_scroll = self.nav.game_selection_scroll + 40;
                }
                WheelOutcome::Redraw
            },
            GuiMode::Settings => {
                if up {
                    self.nav.settings_scroll = self.nav.settings_scroll - 40;
                } else {
                    self.nav.settings_scroll = self.nav.settings_scroll + 40;
                }
                WheelOutcome::Redraw
            },
            _ => WheelOutcome::Ignored,
        }
    }

    /// The left button is released: a splitter drag ends (returns whether
    /// one did, and then the window is redrawn).
    pub fn end_splitter_drag(&mut self) -> (ended: bool)
        ensures
            ended == old(self).nav.is_dragging_splitter,
            final(self)@ == (if ended {
                redrawn(with_nav(old(self)@, Navigation { is_dragging_splitter: false, ..old(self).nav }))
            } else {
                old(self)@
            }),
    {
        if self.nav.is_dragging_splitter {
            self.nav.is_dragging_splitter = false;
            self.nav.needs_redraw = true;
            true
        } else {
            false
        }
    }

    /// The right button is pressed: in a game a tilt drag starts (returns
    /// whether it did).
    pub fn begin_right_drag(&mut self) -> (started: bool)
        ensures
            started == (old(self).nav.mode == GuiMode::InGame),
            final(self)@ == (if started {
                with_nav(old(self)@, Navigation { is_right_dragging: true, ..old(self).nav })
            } else {
                old(self)@
            }),
    {
        if self.nav.mode == GuiMode::InGame {
            self.nav.is_right_dragging = true;
            true
        } else {
            false
        }
    }

    /// The right button is released: the tilt drag ends.
    pub fn end_right_drag(&mut self)
        ensures
            final(self)@ == with_nav(old(self)@, Navigation { is_right_dragging: false, ..old(self).nav }),
    {
        self.nav.is_right_dragging = false;
    }
}


pub open spec fn yes_no(b: bool) -> Seq<char> {
    if b { "Yes"@ } else { "No"@ }
}

/// A count in thousands, as "12K".
pub open spec fn thousands(n: nat) -> Seq<char> {
    decimal(n / 1000) + "K"@
}

/// The settings list as shown: each setting's label and value, the three
/// floating-point settings given as already formatted text.
pub open spec fn settings_items_spec(s: GuiSettings, cpu: Seq<char>, gpu: Seq<char>, virtual_loss: Seq<char>) -> Seq<(Seq<char>, Seq<char>)> {
    seq![
        ("Board Size"@, decimal(s.board_size as nat)),
        ("Line Size"@, decimal(s.line_size as nat)),
        ("AI Threads"@, decimal(s.ai_threads as nat)),
        ("Max Nodes"@, thousands(s.max_nodes as nat)),
        ("Search Iterations"@, thousands(s.search_iterations as nat)),
        ("CPU Exploration"@, cpu),
        ("GPU Exploration"@, gpu),
        ("GPU Virtual Loss"@, virtual_loss),
        ("Timeout (secs)"@, decimal(s.timeout_secs as nat)),
        ("Stats Interval (secs)"@, decimal(s.stats_interval_secs as nat)),
        ("AI Only Mode"@, yes_no(s.ai_only)),
        ("Shared Tree"@, yes_no(s.shared_tree)),
        ("GPU Threads"@, decimal(s.gpu_threads as nat)),
        ("GPU-Native Batch"@, decimal(s.gpu_native_batch_size as nat)),
    ]
}

fn pair_text(label: &str, value: String) -> (p: (String, String))
    ensures
        p.0@ == label@,
        p.1@ == value@,
{
    (text_of(label), value)
}

fn yes_no_text(b: bool) -> (t: String)
    ensures
        t@ == yes_no(b),
{
    if b { text_of("Yes") } else { text_of("No") }
}

fn thousands_text(n: u64) -> (t: String)
    ensures
        t@ == thousands(n as nat),
{
    let d = u64_to_text(n / 1000);
    let mut v = chars_of(d.as_str());
    v.push('K');
    proof {
        reveal_strlit("K");
        assert(v@ =~= decimal(n as nat / 1000) + "K"@);
    }
    string_of(&v)
}

impl GuiState {
    /// The settings list with labels and values (see `settings_items_spec`).
    pub fn get_settings_items(&self, cpu_exploration: String, gpu_exploration: String, gpu_virtual_loss: String)
        -> (items: Vec<(String, String)>)
        ensures
            items@.len() == 14,
            forall|i: int| 0 <= i < 14 ==> (#[trigger] items@[i]).0@ == settings_items_spec(
                self.settings, cpu_exploration@, gpu_exploration@, gpu_virtual_loss@)[i].0
                && items@[i].1@ == settings_items_spec(self.settings, cpu_exploration@, gpu_exploration@, gpu_virtual_loss@)[i].1,
    {
        let s = &self.settings;
        let mut items: Vec<(String, String)> = Vec::new();
        items.push(pair_text("Board Size", u64_to_text(s.board_size as u64)));
        items.push(pair_text("Line Size", u64_to_text(s.line_size as u64)));
        items.push(pair_text("AI Threads", u64_to_text(s.ai_threads as u64)));
        items.push(pair_text("Max Nodes", thousands_text(s.max_nodes as u64)));
        items.push(pair_text("Search Iterations", thousands_text(s.search_iterations as u64)));
        items.push(pair_text("CPU Exploration", cpu_exploration));
        items.push(pair_text("GPU Exploration", gpu_exploration));
        items.push(pair_text("GPU Virtual Loss", gpu_virtual_loss));
        items.push(pair_text("Timeout (secs)", u64_to_text(s.timeout_secs)));
        items.push(pair_text("Stats Interval (secs)", u64_to_text(s.stats_interval_secs)));
        items.push(pair_text("AI Only Mode", yes_no_text(s.ai_only)));
        items.push(pair_text("Shared Tree", yes_no_text(s.shared_tree)));
        items.push(pair_text("GPU Threads", u64_to_text(s.gpu_threads as u64)));
        items.push(pair_text("GPU-Native Batch", u64_to_text(s.gpu_native_batch_size as u64)));
        items
    }
}

#[verifier::external_type_specification]
#[verifier::external_body]
pub struct ExSystemTime(SystemTime);

/// Calls `SystemTime::now`. The clock's reading is not described.
#[verifier::external_body]
fn clock_now() -> SystemTime {
    SystemTime::now()
}

/// A move in the history: when it was played, by whom, and the move.
pub struct MoveEntry<M> {
    pub timestamp: SystemTime,
    pub player: i32,
    pub move_made: M,
}

impl<M> MoveEntry<M> {
    /// The entry for `move_made` played now by `player`.
    pub fn new(player: i32, move_made: M) -> (e: Self)
        ensures
            e.player == player,
            e.move_made == move_made,
    {
        MoveEntry { timestamp: clock_now(), player, move_made }
    }
}
} // verus!
