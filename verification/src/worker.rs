//! The decisions of the background search worker: which search tree serves
//! a request, which engine runs it, and how a board is handed to the
//! graphics-card search.
use vstd::prelude::*;
use crate::gui::PlayerType;
use crate::text::{contains_text, text_contains};

verus! {

/// A request to the search worker.
pub enum AIRequest<S, M> {
    /// Search `state` for at most the given seconds, for the player of the
    /// given type and id.
    Search(S, u64, PlayerType, i32),
    /// A move was played: the move, a note for the log, and the new state.
    AdvanceRoot(M, String, S),
    /// Stop the worker.
    Stop,
}

/// The engine that serves a search request.
#[derive(Clone, Copy, Debug, PartialEq, Eq, Structural)]
pub enum EngineKind {
    /// The threaded search on the processor.
    Cpu,
    /// The search that scores nodes on the graphics card.
    Gpu,
    /// No engine: the player is human.
    NoEngine,
}

/// The search tree a request uses: one shared tree, or one per player.
pub fn tree_key(shared_tree: bool, player_id: i32) -> (k: i32)
    ensures
        k == (if shared_tree { 0 } else { player_id }),
{
    if shared_tree { 0 } else { player_id }
}

/// The engine for a player: processor players use the processor search,
/// graphics-card players the graphics-card search when it is built in and
/// the processor search otherwise; humans none.
pub fn engine_for(player_type: PlayerType, gpu_built: bool) -> (e: EngineKind)
    ensures
        e == (match player_type {
            PlayerType::AiCpu => EngineKind::Cpu,
            PlayerType::AiGpu | PlayerType::AiGpuNative => if gpu_built { EngineKind::Gpu } else { EngineKind::Cpu },
            PlayerType::Human => EngineKind::NoEngine,
        }),
{
    match player_type {
        PlayerType::AiCpu => EngineKind::Cpu,
        PlayerType::AiGpu | PlayerType::AiGpuNative => if gpu_built { EngineKind::Gpu } else { EngineKind::Cpu },
        PlayerType::Human => EngineKind::NoEngine,
    }
}

/// The number of batches of a graphics-card search: the iterations divided
/// by the batch size, at least one.
pub fn gpu_batch_count(search_iterations: u32, batch_size: u32) -> (n: u32)
    requires
        batch_size > 0,
    ensures
        n == (if search_iterations / batch_size >= 1 { search_iterations / batch_size } else { 1 }),
{
    let q = search_iterations / batch_size;
    if q >= 1 { q } else { 1 }
}

/// Whether the graphics-card Othello engine must be built anew: when there
/// is none, or when a node capacity is asked that differs from its own.
pub fn should_recreate_engine(existing_capacity: Option<u32>, requested_capacity: Option<u32>) -> (b: bool)
    ensures
        b == (match existing_capacity {
            None => true,
            Some(cap) => match requested_capacity {
                Some(req) => cap != req,
                None => false,
            },
        }),
{
    match existing_capacity {
        None => true,
        Some(cap) => match requested_capacity {
            Some(req) => cap != req,
            None => false,
        },
    }
}

/// Cell `i` of a board laid out row by row in 64 cells: cell (`r`, `c`)
/// goes to position `r * 8 + c`; positions that no cell reaches hold 0.
pub open spec fn flat_cell(board: Seq<Vec<i32>>, i: int) -> i32 {
    if i / 8 < board.len() && i % 8 < board[i / 8]@.len() { board[i / 8]@[i % 8] } else { 0 }
}

/// The same, counting only the rows before `r` and the first `c` cells of row `r`.
pub open spec fn flat_cell_upto(board: Seq<Vec<i32>>, i: int, r: int, c: int) -> i32 {
    if (i / 8 < r && i % 8 < board[i / 8]@.len()) || (i / 8 == r && i % 8 < c) { board[i / 8]@[i % 8] } else { 0 }
}

/// Lays out a board of up to eight rows of up to eight cells (see `flat_cell`).
pub fn flatten_board(board: &Vec<Vec<i32>>) -> (flat: [i32; 64])
    requires
        board@.len() <= 8,
        forall|r: int| 0 <= r < board@.len() ==> (#[trigger] board@[r])@.len() <= 8,
    ensures
        forall|i: int| 0 <= i < 64 ==> #[trigger] flat@[i] == flat_cell(board@, i),
{
    let mut flat: [i32; 64] = [0i32; 64];
    let mut r: usize = 0;
    while r < board.len()
        invariant
            r <= board@.len(),
            board@.len() <= 8,
            forall|q: int| 0 <= q < board@.len() ==> (#[trigger] board@[q])@.len() <= 8,
            forall|i: int| 0 <= i < 64 ==> #[trigger] flat@[i] == flat_cell_upto(board@, i, r as int, 0),
        decreases board@.len() - r,
    {
        let mut c: usize = 0;
        while c < board[r].len()
            invariant
                r < board@.len(),
                board@.len() <= 8,
                c <= board@[r as int]@.len(),
                forall|q: int| 0 <= q < board@.len() ==> (#[trigger] board@[q])@.len() <= 8,
                forall|i: int| 0 <= i < 64 ==> #[trigger] flat@[i] == flat_cell_upto(board@, i, r as int, c as int),
            decreases board@[r as int]@.len() - c,
        {
            let idx = r * 8 + c;
            flat[idx] = board[r][c];
            proof {
                assert(idx as int / 8 == r && idx as int % 8 == c);
                assert forall|i: int| 0 <= i < 64 implies #[trigger] flat@[i] == flat_cell_upto(board@, i, r as int, c + 1) by {
                    if i != idx {
                        assert(!(i / 8 == r && i % 8 == c));
                    }
                }
            }
            c = c + 1;
        }
        proof {
            assert forall|i: int| 0 <= i < 64 implies #[trigger] flat@[i] == flat_cell_upto(board@, i, r + 1, 0) by {
                if i / 8 == r {
                    assert(i % 8 < board@[r as int]@.len() || !(i % 8 < board@[r as int]@.len()));
                }
            }
        }
        r = r + 1;
    }
    proof {
        assert forall|i: int| 0 <= i < 64 implies #[trigger] flat@[i] == flat_cell(board@, i) by {
            assert(flat@[i] == flat_cell_upto(board@, i, board@.len() as int, 0));
        }
    }
    flat
}

/// Which engine a note on a played move names as its maker.
#[derive(Clone, Copy, Debug, PartialEq, Eq, Structural)]
pub enum MoveSource {
    /// The note names the processor search ("AiCpu").
    Cpu,
    /// The note names the graphics-card-only Othello search ("AiGpuNative").
    GpuNative,
    /// The note names the graphics-card search ("AiGpu").
    Gpu,
    /// A human move, or a note naming no engine.
    Other,
}

pub open spec fn move_source_spec(note: Seq<char>) -> MoveSource {
    if contains_text(note, "AiCpu"@) {
        MoveSource::Cpu
    } else if contains_text(note, "AiGpuNative"@) {
        MoveSource::GpuNative
    } else if contains_text(note, "AiGpu"@) {
        MoveSource::Gpu
    } else {
        MoveSource::Other
    }
}

/// The engine a note on a played move names, tested in this order.
pub fn move_source(note: &str) -> (m: MoveSource)
    ensures
        m == move_source_spec(note@),
{
    if text_contains(note, "AiCpu") {
        MoveSource::Cpu
    } else if text_contains(note, "AiGpuNative") {
        MoveSource::GpuNative
    } else if text_contains(note, "AiGpu") {
        MoveSource::Gpu
    } else {
        MoveSource::Other
    }
}

/// Whether the processor trees and the graphics-card trees record a played
/// move as their own (otherwise as an opponent's move): the trees of the
/// engine that made it record it as their own, the others as an opponent's;
/// after the graphics-card-only search both record it as an opponent's, and
/// a move by no engine both as their own.
pub fn advance_notes(source: MoveSource) -> (own: (bool, bool))
    ensures
        own == (match source {
            MoveSource::Cpu => (true, false),
            MoveSource::GpuNative => (false, false),
            MoveSource::Gpu => (false, true),
            MoveSource::Other => (true, true),
        }),
{
    match source {
        MoveSource::Cpu => (true, false),
        MoveSource::GpuNative => (false, false),
        MoveSource::Gpu => (false, true),
        MoveSource::Other => (true, true),
    }
}

} // verus!
