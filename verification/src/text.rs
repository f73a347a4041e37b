//! Text produced and read by the interface: player names, decimal numbers,
//! instructions, UTF-16 strings for the window system, and the compact
//! forms of move descriptions.
use vstd::prelude::*;
use crate::gui::GameType;

verus! {

/// Appends a character to a string (`String::push`).
#[verifier::external_body]
fn push_char(s: &mut String, c: char)
    ensures
        final(s)@ == old(s)@.push(c),
{
    s.push(c);
}

/// The characters of a string.
pub fn chars_of(s: &str) -> (v: Vec<char>)
    ensures
        v@ == s@,
{
    let n = s.unicode_len();
    let mut v: Vec<char> = Vec::new();
    let mut i: usize = 0;
    while i < n
        invariant
            n == s@.len(),
            i <= n,
            v@ == s@.subrange(0, i as int),
        decreases n - i,
    {
        v.push(s.get_char(i));
        i = i + 1;
        assert(v@ =~= s@.subrange(0, i as int));
    }
    assert(s@.subrange(0, n as int) =~= s@);
    v
}

/// A string made of the given characters.
pub fn string_of(v: &Vec<char>) -> (s: String)
    ensures
        s@ == v@,
{
    let mut s = String::new();
    let mut i: usize = 0;
    while i < v.len()
        invariant
            i <= v@.len(),
            s@ == v@.subrange(0, i as int),
        decreases v@.len() - i,
    {
        push_char(&mut s, v[i]);
        i = i + 1;
        assert(s@ =~= v@.subrange(0, i as int));
    }
    assert(v@.subrange(0, v@.len() as int) =~= v@);
    s
}

/// The decimal digit for `d` (0 to 9).
pub open spec fn digit_char(d: nat) -> char {
    if d == 0 { '0' } else if d == 1 { '1' } else if d == 2 { '2' } else if d == 3 { '3' } else if d == 4 { '4' }
    else if d == 5 { '5' } else if d == 6 { '6' } else if d == 7 { '7' } else if d == 8 { '8' } else { '9' }
}

/// The decimal representation of `n`, without leading zeros.
pub open spec fn decimal(n: nat) -> Seq<char>
    decreases n,
{
    if n < 10 {
        seq![digit_char(n)]
    } else {
        decimal(n / 10).push(digit_char(n % 10))
    }
}

/// The decimal representation of `i`, with a minus sign when negative.
pub open spec fn int_text(i: int) -> Seq<char> {
    if i < 0 { seq!['-'] + decimal((-i) as nat) } else { decimal(i as nat) }
}

fn digit(d: u64) -> (c: char)
    requires
        d < 10,
    ensures
        c == digit_char(d as nat),
{
    if d == 0 { '0' } else if d == 1 { '1' } else if d == 2 { '2' } else if d == 3 { '3' } else if d == 4 { '4' }
    else if d == 5 { '5' } else if d == 6 { '6' } else if d == 7 { '7' } else if d == 8 { '8' } else { '9' }
}

/// The decimal digits of `n`.
pub fn decimal_chars(n: u64) -> (v: Vec<char>)
    ensures
        v@ == decimal(n as nat),
    decreases n,
{
    if n < 10 {
        vec![digit(n)]
    } else {
        let mut v = decimal_chars(n / 10);
        v.push(digit(n % 10));
        v
    }
}

/// `n` written in decimal.
pub fn u64_to_text(n: u64) -> (s: String)
    ensures
        s@ == decimal(n as nat),
{
    let v = decimal_chars(n);
    string_of(&v)
}

/// `i` written in decimal, with a minus sign when negative.
pub fn i64_to_text(i: i64) -> (s: String)
    ensures
        s@ == int_text(i as int),
{
    if i < 0 {
        let mag: u64 = if i == i64::MIN { 0x8000_0000_0000_0000u64 } else { (-i) as u64 };
        let mut v = vec!['-'];
        let d = decimal_chars(mag);
        let mut k: usize = 0;
        while k < d.len()
            invariant
                k <= d@.len(),
                v@ == seq!['-'] + d@.subrange(0, k as int),
            decreases d@.len() - k,
        {
            v.push(d[k]);
            k = k + 1;
            assert(v@ =~= seq!['-'] + d@.subrange(0, k as int));
        }
        assert(d@.subrange(0, d@.len() as int) =~= d@);
        string_of(&v)
    } else {
        u64_to_text(i as u64)
    }
}

/// A string holding `s`.
pub fn text_of(s: &str) -> (r: String)
    ensures
        r@ == s@,
{
    string_of(&chars_of(s))
}

/// The text `prefix` followed by `rest`.
pub fn concat_text(prefix: &str, rest: &String) -> (s: String)
    ensures
        s@ == prefix@ + rest@,
{
    let mut v = chars_of(prefix);
    let r = chars_of(rest.as_str());
    let mut k: usize = 0;
    let ghost p = v@;
    while k < r.len()
        invariant
            k <= r@.len(),
            v@ == p + r@.subrange(0, k as int),
        decreases r@.len() - k,
    {
        v.push(r[k]);
        k = k + 1;
        assert(v@ =~= p + r@.subrange(0, k as int));
    }
    assert(r@.subrange(0, r@.len() as int) =~= r@);
    string_of(&v)
}

/// The name a game's board shows for a player.
pub open spec fn player_name_spec(game: GameType, id: i32) -> Seq<char> {
    let generic = "Player "@ + int_text(id as int);
    match game {
        GameType::Othello | GameType::Hive => if id == 1 { "Black"@ } else if id == -1 { "White"@ } else { generic },
        GameType::Connect4 => if id == 1 { "Red"@ } else if id == -1 { "Yellow"@ } else { generic },
        GameType::Blokus => if id == 1 { "Blue"@ } else if id == 2 { "Yellow"@ } else if id == 3 { "Red"@ }
            else if id == 4 { "Green"@ } else { generic },
        GameType::Gomoku => if id == 1 { "Player 1"@ } else if id == -1 || id == 2 { "Player 2"@ }
            else if id == 3 { "Player 3"@ } else if id == 4 { "Player 4"@ } else { generic },
    }
}

/// The name a game's board shows for player `player_id`.
pub fn player_name(game: GameType, player_id: i32) -> (s: String)
    ensures
        s@ == player_name_spec(game, player_id),
{
    let named: Option<&str> = match game {
        GameType::Othello | GameType::Hive => if player_id == 1 { Some("Black") } else if player_id == -1 { Some("White") } else { None },
        GameType::Connect4 => if player_id == 1 { Some("Red") } else if player_id == -1 { Some("Yellow") } else { None },
        GameType::Blokus => if player_id == 1 { Some("Blue") } else if player_id == 2 { Some("Yellow") }
            else if player_id == 3 { Some("Red") } else if player_id == 4 { Some("Green") } else { None },
        GameType::Gomoku => if player_id == 1 { Some("Player 1") } else if player_id == -1 || player_id == 2 { Some("Player 2") }
            else if player_id == 3 { Some("Player 3") } else if player_id == 4 { Some("Player 4") } else { None },
    };
    match named {
        Some(n) => String::from_str(n),
        None => {
            let num = i64_to_text(player_id as i64);
            concat_text("Player ", &num)
        },
    }
}


/// The instructions shown for the game at menu position `game_index`.
pub open spec fn game_instructions(game_index: usize) -> Seq<char> {
    match game_index {
        0 => "GOMOKU (Five in a Row)\n\n\
              Objective: Get exactly 5 of your pieces in a row\n\
              (horizontally, vertically, or diagonally).\n\n\
              Rules:\n\
              • Players take turns placing pieces on the board\n\
              • First player to get 5 in a row wins\n\
              • If the board fills up, it's a draw\n\n\
              Strategy Tips:\n\
              • Build multiple threats at once\n\
              • Block opponent's lines of 3 or more\n\
              • Control the center of the board"@,
        1 => "CONNECT 4\n\n\
              Objective: Connect 4 of your pieces in a row\n\
              (horizontally, vertically, or diagonally).\n\n\
              Rules:\n\
              • Click on a column to drop your piece\n\
              • Pieces fall to the lowest available space\n\
              • First player to connect 4 wins\n\n\
              Strategy Tips:\n\
              • Control the center column\n\
              • Set up multiple winning possibilities\n\
              • Force opponent into defensive moves"@,
        2 => "OTHELLO (Reversi)\n\n\
              Objective: Have the most pieces of your color\n\
              when the game ends.\n\n\
              Rules:\n\
              • Place a piece to surround opponent pieces\n\
              • Surrounded pieces flip to your color\n\
              • Must make a legal capturing move if possible\n\
              • Game ends when neither player can move\n\n\
              Strategy Tips:\n\
              • Corners are very valuable (can't be flipped)\n\
              • Edges are generally strong positions\n\
              • Don't just maximize pieces early on"@,
        3 => "BLOKUS\n\n\
              Objective: Place as many of your pieces as possible.\n\
              Player with fewest remaining squares wins.\n\n\
              Rules:\n\
              • Each player has 21 unique polyomino pieces\n\
              • First piece must cover a corner square\n\
              • Subsequent pieces must touch your own pieces\n\
                by corner only (not edge-to-edge)\n\
              • Pieces cannot overlap\n\n\
              Strategy Tips:\n\
              • Use larger pieces early\n\
              • Block opponent's expansion paths\n\
              • Keep options open in multiple directions"@,
        4 => "HIVE\n\n\
              Objective: Completely surround the opponent's Queen Bee.\n\n\
              Rules:\n\
              • Place tiles adjacent to your own pieces (except first move)\n\
              • Queen Bee must be placed by turn 4\n\
              • Pieces move only after Queen is placed\n\
              • Hive must remain connected at all times\n\n\
              Piece Movements:\n\
              • Queen: 1 space\n\
              • Beetle: 1 space, can climb on top\n\
              • Spider: Exactly 3 spaces\n\
              • Grasshopper: Jumps over pieces\n\
              • Ant: Any number of spaces around edge"@,
        _ => "Select a game to see instructions."@,
    }
}

/// The instructions shown for the game at menu position `game_index`.
pub fn get_game_instructions(game_index: usize) -> (s: String)
    ensures
        s@ == game_instructions(game_index),
{
    let text: &str = match game_index {
        0 => "GOMOKU (Five in a Row)\n\n\
              Objective: Get exactly 5 of your pieces in a row\n\
              (horizontally, vertically, or diagonally).\n\n\
              Rules:\n\
              • Players take turns placing pieces on the board\n\
              • First player to get 5 in a row wins\n\
              • If the board fills up, it's a draw\n\n\
              Strategy Tips:\n\
              • Build multiple threats at once\n\
              • Block opponent's lines of 3 or more\n\
              • Control the center of the board",
        1 => "CONNECT 4\n\n\
              Objective: Connect 4 of your pieces in a row\n\
              (horizontally, vertically, or diagonally).\n\n\
              Rules:\n\
              • Click on a column to drop your piece\n\
              • Pieces fall to the lowest available space\n\
              • First player to connect 4 wins\n\n\
              Strategy Tips:\n\
              • Control the center column\n\
              • Set up multiple winning possibilities\n\
              • Force opponent into defensive moves",
        2 => "OTHELLO (Reversi)\n\n\
              Objective: Have the most pieces of your color\n\
              when the game ends.\n\n\
              Rules:\n\
              • Place a piece to surround opponent pieces\n\
              • Surrounded pieces flip to your color\n\
              • Must make a legal capturing move if possible\n\
              • Game ends when neither player can move\n\n\
              Strategy Tips:\n\
              • Corners are very valuable (can't be flipped)\n\
              • Edges are generally strong positions\n\
              • Don't just maximize pieces early on",
        3 => "BLOKUS\n\n\
              Objective: Place as many of your pieces as possible.\n\
              Player with fewest remaining squares wins.\n\n\
              Rules:\n\
              • Each player has 21 unique polyomino pieces\n\
              • First piece must cover a corner square\n\
              • Subsequent pieces must touch your own pieces\n\
                by corner only (not edge-to-edge)\n\
              • Pieces cannot overlap\n\n\
              Strategy Tips:\n\
              • Use larger pieces early\n\
              • Block opponent's expansion paths\n\
              • Keep options open in multiple directions",
        4 => "HIVE\n\n\
              Objective: Completely surround the opponent's Queen Bee.\n\n\
              Rules:\n\
              • Place tiles adjacent to your own pieces (except first move)\n\
              • Queen Bee must be placed by turn 4\n\
              • Pieces move only after Queen is placed\n\
              • Hive must remain connected at all times\n\n\
              Piece Movements:\n\
              • Queen: 1 space\n\
              • Beetle: 1 space, can climb on top\n\
              • Spider: Exactly 3 spaces\n\
              • Grasshopper: Jumps over pieces\n\
              • Ant: Any number of spaces around edge",
        _ => "Select a game to see instructions.",
    };
    String::from_str(text)
}


/// The UTF-16 code units of one character.
pub open spec fn utf16_of_char(c: char) -> Seq<u16> {
    let v = c as u32;
    if v < 0x10000 {
        seq![v as u16]
    } else {
        let w = v - 0x10000;
        seq![(0xD800 + w / 0x400) as u16, (0xDC00 + w % 0x400) as u16]
    }
}

/// The UTF-16 encoding of a sequence of characters.
pub open spec fn utf16(s: Seq<char>) -> Seq<u16>
    decreases s.len(),
{
    if s.len() == 0 {
        seq![]
    } else {
        utf16(s.drop_last()) + utf16_of_char(s.last())
    }
}

/// The string in UTF-16 with a terminating zero, as the window system
/// expects it.
pub fn wide_string(s: &str) -> (w: Vec<u16>)
    ensures
        w@ == utf16(s@).push(0u16),
{
    let cs = chars_of(s);
    let mut w: Vec<u16> = Vec::new();
    let mut i: usize = 0;
    while i < cs.len()
        invariant
            i <= cs@.len(),
            cs@ == s@,
            w@ == utf16(cs@.subrange(0, i as int)),
        decreases cs@.len() - i,
    {
        let c = cs[i];
        proof {
            vstd::utf8::char_is_scalar(c);
        }
        let v: u32 = c as u32;
        assert(cs@.subrange(0, i + 1).drop_last() =~= cs@.subrange(0, i as int));
        assert(cs@.subrange(0, i + 1).last() == c);
        if v < 0x10000 {
            w.push(v as u16);
        } else {
            let x: u32 = v - 0x10000;
            assert(x < 0x100000);
            w.push((0xD800 + x / 0x400) as u16);
            w.push((0xDC00 + x % 0x400) as u16);
        }
        i = i + 1;
        assert(w@ =~= utf16(cs@.subrange(0, i as int)));
    }
    assert(cs@.subrange(0, cs@.len() as int) =~= cs@);
    w.push(0u16);
    w
}


/// Position of the first `c` in `s`, -1 when there is none.
pub open spec fn first_index(s: Seq<char>, c: char) -> int
    decreases s.len(),
{
    if s.len() == 0 {
        -1
    } else if s[0] == c {
        0
    } else {
        let r = first_index(s.drop_first(), c);
        if r < 0 { -1 } else { r + 1 }
    }
}

/// Position of the last `c` in `s`, -1 when there is none.
pub open spec fn last_index(s: Seq<char>, c: char) -> int
    decreases s.len(),
{
    if s.len() == 0 {
        -1
    } else if s.last() == c {
        s.len() - 1
    } else {
        last_index(s.drop_last(), c)
    }
}

pub proof fn lemma_first_index(s: Seq<char>, c: char)
    ensures
        -1 <= first_index(s, c) < s.len(),
        first_index(s, c) >= 0 ==> s[first_index(s, c)] == c,
        forall|j: int| 0 <= j < s.len() && (first_index(s, c) < 0 || j < first_index(s, c)) ==> s[j] != c,
    decreases s.len(),
{
    if s.len() > 0 && s[0] != c {
        lemma_first_index(s.drop_first(), c);
        assert forall|j: int| 0 <= j < s.len() && (first_index(s, c) < 0 || j < first_index(s, c)) implies s[j] != c by {
            if j > 0 {
                assert(s.drop_first()[j - 1] == s[j]);
            }
        }
    }
}

pub proof fn lemma_last_index(s: Seq<char>, c: char)
    ensures
        -1 <= last_index(s, c) < s.len(),
        last_index(s, c) >= 0 ==> s[last_index(s, c)] == c,
        forall|j: int| 0 <= j < s.len() && j > last_index(s, c) ==> s[j] != c,
    decreases s.len(),
{
    if s.len() > 0 && s.last() != c {
        lemma_last_index(s.drop_last(), c);
        assert forall|j: int| 0 <= j < s.len() && j > last_index(s, c) implies s[j] != c by {
            if j < s.len() - 1 {
                assert(s.drop_last()[j] == s[j]);
            }
        }
    }
}

/// The position of the first `c` in `v`.
pub fn find_first(v: &Vec<char>, c: char) -> (r: Option<usize>)
    ensures
        match r {
            Some(i) => i as int == first_index(v@, c),
            None => first_index(v@, c) == -1,
        },
{
    proof {
        lemma_first_index(v@, c);
    }
    let mut i: usize = 0;
    while i < v.len()
        invariant
            i <= v@.len(),
            forall|j: int| 0 <= j < i ==> v@[j] != c,
        decreases v@.len() - i,
    {
        if v[i] == c {
            proof {
                lemma_first_index(v@, c);
                if first_index(v@, c) >= 0 && first_index(v@, c) < i {
                    assert(v@[first_index(v@, c)] == c);
                }
            }
            return Some(i);
        }
        i = i + 1;
    }
    proof {
        if first_index(v@, c) >= 0 {
            assert(v@[first_index(v@, c)] == c);
        }
    }
    None
}

/// The position of the last `c` in `v`.
pub fn find_last(v: &Vec<char>, c: char) -> (r: Option<usize>)
    ensures
        match r {
            Some(i) => i as int == last_index(v@, c),
            None => last_index(v@, c) == -1,
        },
{
    proof {
        lemma_last_index(v@, c);
    }
    let mut i: usize = v.len();
    while i > 0
        invariant
            i <= v@.len(),
            forall|j: int| i <= j < v@.len() ==> v@[j] != c,
        decreases i,
    {
        if v[i - 1] == c {
            proof {
                lemma_last_index(v@, c);
                if last_index(v@, c) > i - 1 {
                    assert(v@[last_index(v@, c)] == c);
                }
            }
            return Some(i - 1);
        }
        i = i - 1;
    }
    proof {
        if last_index(v@, c) >= 0 {
            assert(v@[last_index(v@, c)] == c);
        }
    }
    None
}

/// The characters of `v` between `from` and `to`.
pub fn slice_chars(v: &Vec<char>, from: usize, to: usize) -> (r: Vec<char>)
    requires
        from <= to <= v@.len(),
    ensures
        r@ == v@.subrange(from as int, to as int),
{
    let mut r: Vec<char> = Vec::new();
    let mut i: usize = from;
    while i < to
        invariant
            from <= i <= to <= v@.len(),
            r@ == v@.subrange(from as int, i as int),
        decreases to - i,
    {
        r.push(v[i]);
        i = i + 1;
        assert(r@ =~= v@.subrange(from as int, i as int));
    }
    r
}

/// `s` without its spaces.
pub open spec fn without_spaces(s: Seq<char>) -> Seq<char> {
    s.filter(|c: char| c != ' ')
}

fn remove_spaces(v: &Vec<char>) -> (r: Vec<char>)
    ensures
        r@ == without_spaces(v@),
{
    let ghost keep = |c: char| c != ' ';
    let mut r: Vec<char> = Vec::new();
    let mut i: usize = 0;
    while i < v.len()
        invariant
            i <= v@.len(),
            r@ == v@.subrange(0, i as int).filter(keep),
            keep == (|c: char| c != ' '),
        decreases v@.len() - i,
    {
        proof {
            assert(v@.subrange(0, i + 1) =~= v@.subrange(0, i as int).push(v@[i as int]));
            v@.subrange(0, i as int).lemma_filter_push(v@[i as int], keep);
        }
        if v[i] != ' ' {
            r.push(v[i]);
        }
        i = i + 1;
    }
    assert(v@.subrange(0, v@.len() as int) =~= v@);
    r
}

/// The number of bytes `c` takes in UTF-8.
pub open spec fn utf8_width(c: char) -> int {
    let u = c as u32;
    if u < 0x80 { 1 } else if u < 0x800 { 2 } else if u < 0x10000 { 3 } else { 4 }
}

/// The number of bytes `s` takes in UTF-8.
pub open spec fn utf8_len(s: Seq<char>) -> int
    decreases s.len(),
{
    if s.len() == 0 {
        0
    } else {
        utf8_len(s.drop_last()) + utf8_width(s.last())
    }
}

/// The number of leading characters of `s` that take exactly `bytes` bytes
/// in UTF-8 (the prefix is unique, see `lemma_utf8_prefix_grows`).
pub open spec fn chars_in_bytes(s: Seq<char>, bytes: int) -> int {
    choose|k: int| 0 <= k <= s.len() && utf8_len(s.take(k)) == bytes
}

/// Some prefix of `s` takes exactly `bytes` bytes: a byte offset that falls
/// on a character boundary.
pub open spec fn on_boundary(s: Seq<char>, bytes: int) -> bool {
    exists|k: int| 0 <= k <= s.len() && utf8_len(s.take(k)) == bytes
}

/// Longer prefixes take more bytes.
pub proof fn lemma_utf8_prefix_grows(s: Seq<char>, i: int, j: int)
    requires
        0 <= i < j <= s.len(),
    ensures
        utf8_len(s.take(i)) < utf8_len(s.take(j)),
    decreases j - i,
{
    assert(s.take(j).drop_last() =~= s.take(j - 1));
    assert(s.take(j).last() == s[j - 1]);
    if i < j - 1 {
        lemma_utf8_prefix_grows(s, i, j - 1);
    }
}

/// The bytes of a prefix one character longer.
proof fn lemma_utf8_take_next(s: Seq<char>, i: int)
    requires
        0 <= i < s.len(),
    ensures
        utf8_len(s.take(i + 1)) == utf8_len(s.take(i)) + utf8_width(s[i]),
{
    assert(s.take(i + 1).drop_last() =~= s.take(i));
    assert(s.take(i + 1).last() == s[i]);
}

fn utf8_width_exec(c: char) -> (w: usize)
    ensures
        w == utf8_width(c),
{
    let u = c as u32;
    if u < 0x80 { 1 } else if u < 0x800 { 2 } else if u < 0x10000 { 3 } else { 4 }
}

/// The compact form of a move description shown in the statistics panel:
/// its first character followed, without spaces, by the innermost
/// parenthesised part (so "Gomoku(GomokuMove(3, 3))" becomes "G(3,3)"),
/// or by the whole outer parenthesised part when nothing is nested in it;
/// a description without parentheses is cut to its first 22 bytes and
/// "..." when it is longer than 25 bytes (in UTF-8).
pub open spec fn shortened_move(s: Seq<char>) -> Seq<char> {
    let st = first_index(s, '(');
    let en = last_index(s, ')');
    if st >= 0 && en >= 0 {
        if en < st {
            seq![s[0]]
        } else {
            let inner = s.subrange(st + 1, en);
            let k = first_index(inner, '(');
            if k > 0 {
                seq![s[0]] + without_spaces(inner.subrange(k, inner.len() as int))
            } else {
                seq![s[0]] + without_spaces(s.subrange(st, en + 1))
            }
        }
    } else if utf8_len(s) > 25 {
        s.take(chars_in_bytes(s, 22)) + "..."@
    } else {
        s
    }
}

/// Descriptions whose last ')' does not stand before their first '(' with
/// characters between them (there slicing would go out of range), and
/// whose cut at 22 bytes, where one is made, falls on a character boundary.
pub open spec fn shortenable(s: Seq<char>) -> bool {
    let st = first_index(s, '(');
    let en = last_index(s, ')');
    &&& st >= 0 && en >= 0 ==> en + 1 >= st
    &&& !(st >= 0 && en >= 0) && utf8_len(s) > 25 ==> on_boundary(s, 22)
}

/// Shortens a move description for the statistics panel (see `shortened_move`).
pub fn shorten_move_string(move_str: &str) -> (r: String)
    requires
        shortenable(move_str@),
    ensures
        r@ == shortened_move(move_str@),
{
    proof {
        reveal_strlit("...");
    }
    let v = chars_of(move_str);
    let n = v.len();
    proof {
        lemma_first_index(v@, '(');
        lemma_last_index(v@, ')');
    }
    match (find_first(&v, '('), find_last(&v, ')')) {
        (Some(st), Some(en)) => {
            let mut out: Vec<char> = vec![v[0]];
            if en < st {
                return string_of(&out);
            }
            let inner = slice_chars(&v, st + 1, en);
            proof {
                lemma_first_index(inner@, '(');
            }
            let tail = match find_first(&inner, '(') {
                Some(k) => {
                    if k > 0 {
                        slice_chars(&inner, k, inner.len())
                    } else {
                        slice_chars(&v, st, en + 1)
                    }
                },
                None => slice_chars(&v, st, en + 1),
            };
            let compact = remove_spaces(&tail);
            let mut i: usize = 0;
            let ghost head = out@;
            while i < compact.len()
                invariant
                    i <= compact@.len(),
                    out@ == head + compact@.subrange(0, i as int),
                decreases compact@.len() - i,
            {
                out.push(compact[i]);
                i = i + 1;
                assert(out@ =~= head + compact@.subrange(0, i as int));
            }
            assert(compact@.subrange(0, compact@.len() as int) =~= compact@);
            string_of(&out)
        },
        _ => {
            let mut total: usize = 0;
            let mut i: usize = 0;
            while i < n && total <= 25
                invariant
                    n == v@.len(),
                    i <= n,
                    total == utf8_len(v@.take(i as int)),
                    total <= 29,
                decreases n - i,
            {
                proof {
                    lemma_utf8_take_next(v@, i as int);
                }
                total = total + utf8_width_exec(v[i]);
                i = i + 1;
            }
            proof {
                assert(v@.take(n as int) =~= v@);
                if i < n {
                    lemma_utf8_prefix_grows(v@, i as int, n as int);
                }
            }
            if total > 25 {
                assert(on_boundary(v@, 22));
                let mut acc: usize = 0;
                let mut k: usize = 0;
                while acc < 22
                    invariant
                        n == v@.len(),
                        k <= n,
                        acc == utf8_len(v@.take(k as int)),
                        utf8_len(v@) > 25,
                        on_boundary(v@, 22),
                        acc <= 22,
                    decreases n - k,
                {
                    proof {
                        if k == n {
                            assert(v@.take(n as int) =~= v@);
                        }
                        lemma_utf8_take_next(v@, k as int);
                    }
                    acc = acc + utf8_width_exec(v[k]);
                    k = k + 1;
                    proof {
                        if acc > 22 {
                            let j = choose|j: int| 0 <= j <= v@.len() && utf8_len(v@.take(j)) == 22;
                            if j < k {
                                if j < k - 1 {
                                    lemma_utf8_prefix_grows(v@, j, k - 1);
                                }
                            } else if j > k {
                                lemma_utf8_prefix_grows(v@, k as int, j);
                            }
                            assert(false);
                        }
                    }
                }
                proof {
                    let c = chars_in_bytes(v@, 22);
                    assert(0 <= c <= v@.len() && utf8_len(v@.take(c)) == 22);
                    if c < k {
                        lemma_utf8_prefix_grows(v@, c, k as int);
                    } else if c > k {
                        lemma_utf8_prefix_grows(v@, k as int, c);
                    }
                    assert(v@.take(k as int) =~= v@.subrange(0, k as int));
                }
                let mut out = slice_chars(&v, 0, k);
                out.push('.');
                out.push('.');
                out.push('.');
                assert(out@ =~= v@.take(k as int) + "..."@);
                string_of(&out)
            } else {
                string_of(&v)
            }
        },
    }
}


/// Whether `char::is_alphanumeric` holds of a character (alphabetic or
/// numeric in the Unicode sense).
pub uninterp spec fn char_is_alphanumeric(c: char) -> bool;

/// `char::is_alphanumeric`.  Its documentation: true for characters that
/// are alphabetic or numeric; so among ASCII characters exactly the letters
/// and digits.
#[verifier::external_body]
fn is_alphanumeric(c: char) -> (b: bool)
    ensures
        b == char_is_alphanumeric(c),
        ('a' <= c <= 'z' || 'A' <= c <= 'Z' || '0' <= c <= '9') ==> b,
        ((c as u32) < 128 && !('a' <= c <= 'z' || 'A' <= c <= 'Z' || '0' <= c <= '9')) ==> !b,
{
    c.is_alphanumeric()
}

/// A non-empty word of alphanumeric characters and underscores.
pub open spec fn is_word(s: Seq<char>) -> bool {
    s.len() > 0 && forall|i: int| 0 <= i < s.len() ==> (char_is_alphanumeric(#[trigger] s[i]) || s[i] == '_')
}

/// A move description with its constructor names peeled off: as long as it
/// reads `Name(...)` with a word before the first '(' and a last ')', only
/// what lies between them is kept ("Gomoku(GomokuMove(3, 3))" becomes
/// "3, 3").
pub open spec fn cleaned_move(s: Seq<char>) -> Seq<char>
    decreases s.len(),
{
    let st = first_index(s, '(');
    let en = last_index(s, ')');
    if st > 0 && en > st && is_word(s.subrange(0, st)) {
        proof {
            lemma_last_index(s, ')');
        }
        cleaned_move(s.subrange(st + 1, en))
    } else {
        s
    }
}

/// Peels the constructor names off a move description (see `cleaned_move`).
pub fn clean_move_string(move_str: &str) -> (r: String)
    ensures
        r@ == cleaned_move(move_str@),
{
    let mut v = chars_of(move_str);
    loop
        invariant
            cleaned_move(v@) == cleaned_move(move_str@),
        ensures
            cleaned_move(v@) == cleaned_move(move_str@),
            cleaned_move(v@) == v@,
        decreases v@.len(),
    {
        proof {
            lemma_first_index(v@, '(');
            lemma_last_index(v@, ')');
        }
        let n = v.len();
        let (st, en) = match (find_first(&v, '('), find_last(&v, ')')) {
            (Some(a), Some(b)) => (a, b),
            _ => break,
        };
        if st == 0 || en <= st {
            break;
        }
        let mut word = true;
        let mut k: usize = 0;
        while k < st
            invariant
                st <= v@.len(),
                k <= st,
                word == forall|i: int| 0 <= i < k ==> (char_is_alphanumeric(#[trigger] v@[i]) || v@[i] == '_'),
            decreases st - k,
        {
            let c = v[k];
            let ok = is_alphanumeric(c) || c == '_';
            word = word && ok;
            k = k + 1;
        }
        assert(word == is_word(v@.subrange(0, st as int))) by {
            if word {
                assert forall|i: int| 0 <= i < st implies (char_is_alphanumeric(#[trigger] v@.subrange(0, st as int)[i])
                    || v@.subrange(0, st as int)[i] == '_') by {
                    assert(v@.subrange(0, st as int)[i] == v@[i]);
                }
            } else {
                let i = choose|i: int| 0 <= i < st && !(char_is_alphanumeric(#[trigger] v@[i]) || v@[i] == '_');
                assert(v@.subrange(0, st as int)[i] == v@[i]);
            }
        }
        if !word {
            break;
        }
        v = slice_chars(&v, st + 1, en);
    }
    string_of(&v)
}


/// `p` occurs in `s` at position `i`.
pub open spec fn occurs_at(s: Seq<char>, p: Seq<char>, i: int) -> bool {
    0 <= i && i + p.len() <= s.len() && s.subrange(i, i + p.len()) == p
}

pub open spec fn contains_text(s: Seq<char>, p: Seq<char>) -> bool {
    exists|i: int| occurs_at(s, p, i)
}

pub open spec fn starts_with_text(s: Seq<char>, p: Seq<char>) -> bool {
    occurs_at(s, p, 0)
}

/// Whether `p` occurs at position `i` of `v`.
fn occurs_at_exec(v: &Vec<char>, p: &Vec<char>, i: usize) -> (b: bool)
    ensures
        b == occurs_at(v@, p@, i as int),
{
    if i > v.len() || p.len() > v.len() - i {
        return false;
    }
    let mut k: usize = 0;
    while k < p.len()
        invariant
            i + p@.len() <= v@.len(),
            v@.len() <= usize::MAX,
            k <= p@.len(),
            forall|j: int| 0 <= j < k ==> v@[i + j] == p@[j],
        decreases p@.len() - k,
    {
        assert(i + k < v@.len());
        if v[i + k] != p[k] {
            assert(v@.subrange(i as int, i + p@.len())[k as int] != p@[k as int]);
            return false;
        }
        k = k + 1;
    }
    assert(v@.subrange(i as int, i + p@.len()) =~= p@);
    true
}

/// Whether `p` occurs in `v`.
fn contains_exec(v: &Vec<char>, p: &Vec<char>) -> (b: bool)
    ensures
        b == contains_text(v@, p@),
{
    let mut i: usize = 0;
    while i <= v.len()
        invariant
            i <= v@.len() + 1,
            forall|j: int| 0 <= j < i ==> !occurs_at(v@, p@, j),
        decreases v@.len() + 1 - i,
    {
        if occurs_at_exec(v, p, i) {
            return true;
        }
        if i == v.len() {
            assert forall|j: int| !occurs_at(v@, p@, j) by {
                if j > v@.len() {
                    assert(!occurs_at(v@, p@, j));
                }
            }
            return false;
        }
        i = i + 1;
    }
    false
}

/// Whether `p` occurs in `s`.
pub fn text_contains(s: &str, p: &str) -> (b: bool)
    ensures
        b == contains_text(s@, p@),
{
    let v = chars_of(s);
    let q = chars_of(p);
    contains_exec(&v, &q)
}

/// A separator ", " starts at position `i`.
pub open spec fn is_separator_at(s: Seq<char>, i: int) -> bool {
    0 <= i && i + 1 < s.len() && s[i] == ',' && s[i + 1] == ' '
}

/// The two fields of `s` when it holds exactly one ", " (as splitting at
/// ", " gives exactly two parts), else None.
pub open spec fn two_fields(s: Seq<char>) -> Option<(Seq<char>, Seq<char>)> {
    if exists|i: int| is_separator_at(s, i) && forall|j: int| #[trigger] is_separator_at(s, j) ==> j == i {
        let i = choose|i: int| is_separator_at(s, i) && forall|j: int| #[trigger] is_separator_at(s, j) ==> j == i;
        Some((s.subrange(0, i), s.subrange(i + 2, s.len() as int)))
    } else {
        None
    }
}

pub open spec fn is_digit(c: char) -> bool {
    '0' <= c <= '9'
}

/// The value of a string of decimal digits.
pub open spec fn digits_value(s: Seq<char>) -> nat
    decreases s.len(),
{
    if s.len() == 0 {
        0
    } else {
        digits_value(s.drop_last()) * 10 + ((s.last() as u32 - '0' as u32) as nat)
    }
}

/// The digits of `s` after an optional leading '+'.
pub open spec fn unsigned_part(s: Seq<char>) -> Seq<char> {
    if s.len() > 0 && s[0] == '+' { s.drop_first() } else { s }
}

pub open spec fn all_digits(s: Seq<char>) -> bool {
    forall|i: int| 0 <= i < s.len() ==> #[trigger] is_digit(s[i])
}

/// What parsing `s` as a `usize` gives: an optional '+', then at least one
/// decimal digit and nothing else, with a value that fits.
pub open spec fn parse_usize_spec(s: Seq<char>) -> Option<usize> {
    let d = unsigned_part(s);
    if d.len() == 0 || !all_digits(d) {
        None
    } else if digits_value(d) > usize::MAX {
        None
    } else {
        Some(digits_value(d) as usize)
    }
}

/// Parses a `usize` (see `parse_usize_spec`).
pub fn parse_usize(v: &Vec<char>) -> (r: Option<usize>)
    ensures
        r == parse_usize_spec(v@),
{
    let start: usize = if v.len() > 0 && v[0] == '+' { 1 } else { 0 };
    let ghost d = unsigned_part(v@);
    assert(d =~= v@.subrange(start as int, v@.len() as int));
    if start == v.len() {
        assert(d.len() == 0);
        return None;
    }
    let mut acc: usize = 0;
    let mut overflow = false;
    let mut i: usize = start;
    while i < v.len()
        invariant
            start <= i <= v@.len(),
            d == v@.subrange(start as int, v@.len() as int),
            d == unsigned_part(v@),
            forall|k: int| start <= k < i ==> #[trigger] is_digit(v@[k]),
            !overflow ==> acc as nat == digits_value(v@.subrange(start as int, i as int)),
            overflow ==> digits_value(v@.subrange(start as int, i as int)) > usize::MAX,
        decreases v@.len() - i,
    {
        let c = v[i];
        if !('0' <= c && c <= '9') {
            assert(!is_digit(d[i - start]));
            assert(0 <= i - start < d.len());
            assert(!all_digits(d));
            return None;
        }
        let dv: usize = (c as u32 - '0' as u32) as usize;
        let ghost prev = v@.subrange(start as int, i as int);
        assert(v@.subrange(start as int, i + 1).drop_last() =~= prev);
        if !overflow {
            match acc.checked_mul(10) {
                Some(m) => match m.checked_add(dv) {
                    Some(a) => { acc = a; },
                    None => { overflow = true; },
                },
                None => { overflow = true; },
            }
        } else {
            assert(digits_value(prev) * 10 + dv >= digits_value(prev)) by (nonlinear_arith);
        }
        i = i + 1;
    }
    assert(v@.subrange(start as int, v@.len() as int) =~= d);
    assert forall|k: int| 0 <= k < d.len() implies #[trigger] is_digit(d[k]) by {
        assert(d[k] == v@[start + k]);
    }
    if overflow { None } else { Some(acc) }
}


/// The two fields of `v` around its only ", " (see `two_fields`).
pub fn split_pair(v: &Vec<char>) -> (r: Option<(Vec<char>, Vec<char>)>)
    ensures
        match r {
            Some((a, b)) => two_fields(v@) == Some((a@, b@)),
            None => two_fields(v@) is None,
        },
{
    let n = v.len();
    let mut first: Option<usize> = None;
    let mut second: Option<usize> = None;
    let mut i: usize = 0;
    while i < n
        invariant
            n == v@.len(),
            i <= n,
            first is None ==> second is None && forall|j: int| 0 <= j < i ==> !#[trigger] is_separator_at(v@, j),
            first matches Some(p) ==> p < i && is_separator_at(v@, p as int),
            second matches Some(q) ==> first matches Some(p) && p < q && q < i && is_separator_at(v@, q as int),
            second is None ==> (first matches Some(p) ==> forall|j: int| 0 <= j < i && j != p ==> !#[trigger] is_separator_at(v@, j)),
        decreases n - i,
    {
        if i + 1 < n && v[i] == ',' && v[i + 1] == ' ' {
            if first.is_none() {
                first = Some(i);
            } else if second.is_none() {
                second = Some(i);
            }
        }
        i = i + 1;
    }
    proof {
        assert forall|j: int| j >= n || j < 0 implies !#[trigger] is_separator_at(v@, j) by {}
    }
    match (first, second) {
        (Some(p), None) => {
            let a = slice_chars(v, 0, p);
            let b = slice_chars(v, p + 2, n);
            proof {
                assert(forall|j: int| #[trigger] is_separator_at(v@, j) ==> j == p);
            }
            Some((a, b))
        },
        (Some(p), Some(q)) => {
            proof {
                assert(is_separator_at(v@, p as int) && is_separator_at(v@, q as int) && p != q);
            }
            None
        },
        _ => None,
    }
}

/// The two numbers of a text "r, c".
pub open spec fn parse_pair(s: Seq<char>) -> Option<(usize, usize)> {
    match two_fields(s) {
        Some((a, b)) => match (parse_usize_spec(a), parse_usize_spec(b)) {
            (Some(r), Some(c)) => Some((r, c)),
            _ => None,
        },
        None => None,
    }
}

pub fn parse_pair_exec(v: &Vec<char>) -> (r: Option<(usize, usize)>)
    ensures
        r == parse_pair(v@),
{
    match split_pair(v) {
        Some((a, b)) => match (parse_usize(&a), parse_usize(&b)) {
            (Some(r), Some(c)) => Some((r, c)),
            _ => None,
        },
        None => None,
    }
}

/// `s` without the leading copies of `c`.
pub open spec fn strip_leading(s: Seq<char>, c: char) -> Seq<char>
    decreases s.len(),
{
    if s.len() > 0 && s[0] == c { strip_leading(s.drop_first(), c) } else { s }
}

/// `s` without the trailing copies of `c`.
pub open spec fn strip_trailing(s: Seq<char>, c: char) -> Seq<char>
    decreases s.len(),
{
    if s.len() > 0 && s.last() == c { strip_trailing(s.drop_last(), c) } else { s }
}

/// `s` from its first `c` on; empty when there is none.
pub open spec fn from_first(s: Seq<char>, c: char) -> Seq<char> {
    if first_index(s, c) >= 0 { s.subrange(first_index(s, c), s.len() as int) } else { seq![] }
}

proof fn lemma_strip_leading(s: Seq<char>, c: char, k: int)
    requires
        0 <= k <= s.len(),
        forall|j: int| 0 <= j < k ==> s[j] == c,
        k == s.len() || s[k] != c,
    ensures
        strip_leading(s, c) == s.subrange(k, s.len() as int),
    decreases k,
{
    if k > 0 {
        lemma_strip_leading(s.drop_first(), c, k - 1);
        assert(s.drop_first().subrange(k - 1, s.len() - 1) =~= s.subrange(k, s.len() as int));
    } else {
        assert(s.subrange(0, s.len() as int) =~= s);
    }
}

proof fn lemma_strip_trailing(s: Seq<char>, c: char, k: int)
    requires
        0 <= k <= s.len(),
        forall|j: int| k <= j < s.len() ==> s[j] == c,
        k == 0 || s[k - 1] != c,
    ensures
        strip_trailing(s, c) == s.subrange(0, k),
    decreases s.len() - k,
{
    if k < s.len() {
        lemma_strip_trailing(s.drop_last(), c, k);
        assert(s.drop_last().subrange(0, k) =~= s.subrange(0, k));
    } else {
        assert(s.subrange(0, k) =~= s);
    }
}

fn strip_leading_exec(v: &Vec<char>, c: char) -> (r: Vec<char>)
    ensures
        r@ == strip_leading(v@, c),
{
    let mut k: usize = 0;
    while k < v.len() && v[k] == c
        invariant
            k <= v@.len(),
            forall|j: int| 0 <= j < k ==> v@[j] == c,
        decreases v@.len() - k,
    {
        k = k + 1;
    }
    proof {
        lemma_strip_leading(v@, c, k as int);
    }
    slice_chars(v, k, v.len())
}

fn strip_trailing_exec(v: &Vec<char>, c: char) -> (r: Vec<char>)
    ensures
        r@ == strip_trailing(v@, c),
{
    let mut k: usize = v.len();
    while k > 0 && v[k - 1] == c
        invariant
            k <= v@.len(),
            forall|j: int| k <= j < v@.len() ==> v@[j] == c,
        decreases k,
    {
        k = k - 1;
    }
    proof {
        lemma_strip_trailing(v@, c, k as int);
    }
    slice_chars(v, 0, k)
}

/// The board coordinates in the description of a Gomoku or Othello move.
/// A wrapped description ("...Gomoku(GomokuMove(r, c))...") gives the pair
/// after its last '(' up to the next ')'; a bare one ("GomokuMove(r, c)")
/// gives what lies between its leading and trailing brackets.
pub open spec fn move_coordinates(s: Seq<char>) -> Option<(usize, usize)> {
    if contains_text(s, "Gomoku(GomokuMove("@) || contains_text(s, "Othello(OthelloMove("@) {
        let start = last_index(s, '(');
        if start >= 0 {
            let end = first_index(s.subrange(start, s.len() as int), ')');
            if end >= 0 {
                parse_pair(s.subrange(start + 1, start + end))
            } else {
                None
            }
        } else {
            None
        }
    } else if starts_with_text(s, "GomokuMove("@) || starts_with_text(s, "OthelloMove("@) {
        parse_pair(strip_trailing(strip_leading(from_first(s, '('), '('), ')'))
    } else {
        None
    }
}

/// Reads the coordinates from the description of a move (see `move_coordinates`).
pub fn extract_move_coordinates(move_str: &str) -> (r: Option<(usize, usize)>)
    ensures
        r == move_coordinates(move_str@),
{
    let v = chars_of(move_str);
    let wrapped_gomoku = chars_of("Gomoku(GomokuMove(");
    let wrapped_othello = chars_of("Othello(OthelloMove(");
    if contains_exec(&v, &wrapped_gomoku) || contains_exec(&v, &wrapped_othello) {
        proof {
            lemma_last_index(v@, '(');
        }
        match find_last(&v, '(') {
            Some(start) => {
                let rest = slice_chars(&v, start, v.len());
                match find_first(&rest, ')') {
                    Some(end) => {
                        proof {
                            lemma_last_index(v@, '(');
                            lemma_first_index(rest@, ')');
                            assert(rest@[0] == '(');
                        }
                        let coords = slice_chars(&v, start + 1, start + end);
                        parse_pair_exec(&coords)
                    },
                    None => None,
                }
            },
            None => None,
        }
    } else {
        let bare_gomoku = chars_of("GomokuMove(");
        let bare_othello = chars_of("OthelloMove(");
        if occurs_at_exec(&v, &bare_gomoku, 0) || occurs_at_exec(&v, &bare_othello, 0) {
            proof {
                lemma_first_index(v@, '(');
            }
            let from = match find_first(&v, '(') {
                Some(i) => slice_chars(&v, i, v.len()),
                None => Vec::new(),
            };
            let inner = strip_trailing_exec(&strip_leading_exec(&from, '('), ')');
            parse_pair_exec(&inner)
        } else {
            None
        }
    }
}


/// Appends the characters of `s` to `v`.
pub fn append_text(v: &mut Vec<char>, s: &str)
    ensures
        final(v)@ == old(v)@ + s@,
{
    let c = chars_of(s);
    let mut k: usize = 0;
    while k < c.len()
        invariant
            k <= c@.len(),
            v@ == old(v)@ + c@.subrange(0, k as int),
        decreases c@.len() - k,
    {
        v.push(c[k]);
        k = k + 1;
        assert(v@ =~= old(v)@ + c@.subrange(0, k as int));
    }
    assert(c@.subrange(0, c@.len() as int) =~= c@);
}

/// Line `i` of the move history: its number from 1, the player's name and
/// the move.
pub open spec fn history_line(i: int, game: GameType, player: i32, mv: Seq<char>) -> Seq<char> {
    decimal((i + 1) as nat) + ". "@ + player_name_spec(game, player) + " - "@ + mv
}

/// The move history as shown, one line per move (see `history_line`), from
/// (player, move text) entries.
pub fn get_formatted_history(game: GameType, history: &Vec<(i32, String)>) -> (lines: Vec<String>)
    requires
        history@.len() < u64::MAX,
    ensures
        lines@.len() == history@.len(),
        forall|i: int| 0 <= i < lines@.len() ==> #[trigger] lines@[i]@ == history_line(i, game, history@[i].0, history@[i].1@),
{
    let mut lines: Vec<String> = Vec::new();
    let mut i: usize = 0;
    while i < history.len()
        invariant
            i <= history@.len(),
            history@.len() < u64::MAX,
            lines@.len() == i,
            forall|j: int| 0 <= j < i ==> #[trigger] lines@[j]@ == history_line(j, game, history@[j].0, history@[j].1@),
        decreases history@.len() - i,
    {
        let number = u64_to_text((i as u64) + 1);
        let name = player_name(game, history[i].0);
        let mut v = chars_of(number.as_str());
        append_text(&mut v, ". ");
        append_text(&mut v, name.as_str());
        append_text(&mut v, " - ");
        append_text(&mut v, history[i].1.as_str());
        proof {
            assert(v@ =~= history_line(i as int, game, history@[i as int].0, history@[i as int].1@));
        }
        lines.push(string_of(&v));
        i = i + 1;
    }
    lines
}

/// The mark of a board cell in a state dump: '.' for empty, 'X' and 'O'
/// for players 1 and -1, the digit of other players' numbers up to 9 (sign
/// dropped), '?' beyond.
pub open spec fn cell_mark(n: i32) -> char {
    if n == 0 {
        '.'
    } else if n == 1 {
        'X'
    } else if n == -1 {
        'O'
    } else {
        let a = if n < 0 { -(n as int) } else { n as int };
        if a < 10 { digit_char(a as nat) } else { '?' }
    }
}

/// One board row of a dump: each cell's mark followed by a space, then a
/// line break.
pub open spec fn row_dump(row: Seq<i32>) -> Seq<char>
    decreases row.len(),
{
    if row.len() == 0 {
        seq!['\n']
    } else {
        seq![cell_mark(row[0]), ' '] + row_dump(row.drop_first())
    }
}

/// The board part of a state dump: its rows one under the other.
pub open spec fn board_dump_spec(board: Seq<Vec<i32>>) -> Seq<char>
    decreases board.len(),
{
    if board.len() == 0 {
        seq![]
    } else {
        row_dump(board[0]@) + board_dump_spec(board.drop_first())
    }
}

fn cell_mark_exec(n: i32) -> (c: char)
    ensures
        c == cell_mark(n),
{
    if n == 0 {
        '.'
    } else if n == 1 {
        'X'
    } else if n == -1 {
        'O'
    } else {
        let a: u64 = if n < 0 { (-(n as i64)) as u64 } else { n as u64 };
        if a < 10 { digit(a) } else { '?' }
    }
}

proof fn lemma_row_dump_split(row: Seq<i32>, k: int)
    requires
        0 <= k <= row.len(),
    ensures
        row_dump(row) == Seq::new((2 * k) as nat, |i: int| if i % 2 == 0 { cell_mark(row[i / 2]) } else { ' ' })
            + row_dump(row.subrange(k, row.len() as int)),
    decreases k,
{
    if k == 0 {
        assert(row.subrange(0, row.len() as int) =~= row);
        assert(Seq::new(0, |i: int| if i % 2 == 0 { cell_mark(row[i / 2]) } else { ' ' }) =~= Seq::<char>::empty());
    } else {
        lemma_row_dump_split(row.drop_first(), k - 1);
        assert(row.drop_first().subrange(k - 1, row.len() - 1) =~= row.subrange(k, row.len() as int));
        let f = |i: int| if i % 2 == 0 { cell_mark(row[i / 2]) } else { ' ' };
        let g = |i: int| if i % 2 == 0 { cell_mark(row.drop_first()[i / 2]) } else { ' ' };
        assert(seq![cell_mark(row[0]), ' '] + Seq::new((2 * (k - 1)) as nat, g) =~= Seq::new((2 * k) as nat, f)) by {
            assert forall|i: int| 2 <= i < 2 * k implies #[trigger] Seq::new((2 * k) as nat, f)[i] == Seq::new((2 * (k - 1)) as nat, g)[i - 2] by {
                assert((i - 2) / 2 == i / 2 - 1 && (i - 2) % 2 == i % 2) by (nonlinear_arith)
                    requires
                        i >= 2,
                ;
            }
        }
    }
}

/// The board part of a state dump (see `board_dump_spec`).
pub fn board_dump(board: &Vec<Vec<i32>>) -> (text: String)
    ensures
        text@ == board_dump_spec(board@),
{
    let mut out: Vec<char> = Vec::new();
    let mut r: usize = 0;
    proof {
        assert(board@.subrange(0, board@.len() as int) =~= board@);
        assert(out@ + board_dump_spec(board@) =~= board_dump_spec(board@));
    }
    while r < board.len()
        invariant
            r <= board@.len(),
            out@ + board_dump_spec(board@.subrange(r as int, board@.len() as int)) == board_dump_spec(board@),
        decreases board@.len() - r,
    {
        let ghost before = out@;
        let row = &board[r];
        let mut c: usize = 0;
        while c < row.len()
            invariant
                c <= row@.len(),
                out@ == before + Seq::new((2 * c) as nat, |i: int| if i % 2 == 0 { cell_mark(row@[i / 2]) } else { ' ' }),
            decreases row@.len() - c,
        {
            let mark = cell_mark_exec(row[c]);
            out.push(mark);
            out.push(' ');
            proof {
                let f = |i: int| if i % 2 == 0 { cell_mark(row@[i / 2]) } else { ' ' };
                assert forall|i: int| 0 <= i < 2 * (c + 1) implies #[trigger] Seq::new((2 * (c + 1)) as nat, f)[i]
                    == (Seq::new((2 * c) as nat, f) + seq![mark, ' '])[i] by {
                    if i >= 2 * c {
                        assert(i / 2 == c && (i == 2 * c ==> i % 2 == 0) && (i == 2 * c + 1 ==> i % 2 == 1)) by (nonlinear_arith)
                            requires
                                2 * c <= i < 2 * c + 2,
                        ;
                    }
                }
                assert(Seq::new((2 * (c + 1)) as nat, f) =~= Seq::new((2 * c) as nat, f) + seq![mark, ' ']);
                assert(out@ =~= before + Seq::new((2 * (c + 1)) as nat, f));
            }
            c = c + 1;
        }
        out.push('\n');
        proof {
            lemma_row_dump_split(row@, row@.len() as int);
            assert(row@.subrange(row@.len() as int, row@.len() as int) =~= Seq::<i32>::empty());
            assert(row_dump(Seq::<i32>::empty()) == seq!['\n']);
            let rest = board@.subrange(r as int, board@.len() as int);
            assert(rest.drop_first() =~= board@.subrange(r + 1, board@.len() as int));
            assert(rest[0] == board@[r as int]);
            assert(out@ =~= before + row_dump(row@));
        }
        r = r + 1;
    }
    proof {
        assert(board@.subrange(board@.len() as int, board@.len() as int) =~= Seq::<Vec<i32>>::empty());
        assert(out@ =~= board_dump_spec(board@));
    }
    string_of(&out)
}
} // verus!
