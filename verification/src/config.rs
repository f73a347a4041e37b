//! Start-up configuration: board and line sizes suited to a game chosen on
//! the command line, and the thread count.
use vstd::prelude::*;
use crate::text::chars_of;

verus! {

/// What `str::to_lowercase` makes of a text (Unicode lower-casing).
pub uninterp spec fn lowercased(s: Seq<char>) -> Seq<char>;

/// Calls `str::to_lowercase`. Trusted: the result is the lower-cased text,
/// a function of the text alone.
#[verifier::external_body]
fn to_lowercase(s: &str) -> (r: String)
    ensures
        r@ == lowercased(s@),
{
    s.to_lowercase()
}

/// The board and line sizes for a game named on the command line (in any
/// case): Connect Four turns the default 15 and 5 into 7 and 4, Othello the
/// default board 15 into 8; other names and explicit sizes are kept.
pub open spec fn sizes_for_game(game: Option<Seq<char>>, board_size: usize, line_size: usize) -> (usize, usize) {
    match game {
        Some(g) => if lowercased(g) == "connect4"@ {
            (if board_size == 15 { 7 } else { board_size }, if line_size == 5 { 4 } else { line_size })
        } else if lowercased(g) == "othello"@ {
            (if board_size == 15 { 8 } else { board_size }, line_size)
        } else {
            (board_size, line_size)
        },
        None => (board_size, line_size),
    }
}

fn same_text(a: &Vec<char>, b: &Vec<char>) -> (r: bool)
    ensures
        r == (a@ == b@),
{
    if a.len() != b.len() {
        return false;
    }
    let mut i: usize = 0;
    while i < a.len()
        invariant
            a@.len() == b@.len(),
            i <= a@.len(),
            forall|j: int| 0 <= j < i ==> a@[j] == b@[j],
        decreases a@.len() - i,
    {
        if a[i] != b[i] {
            return false;
        }
        i = i + 1;
    }
    assert(a@ =~= b@);
    true
}

/// Applies `sizes_for_game` to the command-line sizes.
pub fn apply_game_defaults(game: Option<&str>, board_size: usize, line_size: usize) -> (r: (usize, usize))
    ensures
        r == sizes_for_game(
            match game {
                Some(g) => Some(g@),
                None => None,
            },
            board_size,
            line_size,
        ),
{
    match game {
        Some(g) => {
            let lower = to_lowercase(g);
            let name = chars_of(lower.as_str());
            if same_text(&name, &chars_of("connect4")) {
                (if board_size == 15 { 7 } else { board_size }, if line_size == 5 { 4 } else { line_size })
            } else if same_text(&name, &chars_of("othello")) {
                (if board_size == 15 { 8 } else { board_size }, line_size)
            } else {
                (board_size, line_size)
            }
        },
        None => (board_size, line_size),
    }
}

/// The number of search threads: as asked, or 8 when 0 is asked.
pub fn effective_threads(num_threads: usize) -> (n: usize)
    ensures
        n == (if num_threads > 0 { num_threads } else { 8 }),
{
    if num_threads > 0 { num_threads } else { 8 }
}

} // verus!
