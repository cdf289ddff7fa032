//! The rule engine: assessing one player's position on the board and
//! locating the cell that completes a two-in-a-line.
//!
//! Eight lines win the game: the three rows, the three columns and the
//! two diagonals, always scanned in that order.

use vstd::prelude::*;
use crate::board::{Board, Cell, Player};

verus! {

/// Four-level assessment of a player's position, lowest to highest:
/// the player is absent from the board, present somewhere, one move
/// away from a win, or has a completed line.
#[derive(Clone, Copy, PartialEq, Eq, Structural, Debug)]
pub enum Severity {
    Absent,
    Presence,
    Threat,
    Win,
}

/// Numeric level of a severity: 0 absent, 1 presence, 2 threat, 3 win.
pub open spec fn severity_code(v: Severity) -> int {
    match v {
        Severity::Absent => 0,
        Severity::Presence => 1,
        Severity::Threat => 2,
        Severity::Win => 3,
    }
}

/// The three board indices of line `k`, for `k` in scan order:
/// rows first, then columns, then the two diagonals.
pub open spec fn line_cells(k: int) -> (int, int, int)
    recommends
        0 <= k < 8,
{
    if k == 0 {
        (0, 1, 2)
    } else if k == 1 {
        (3, 4, 5)
    } else if k == 2 {
        (6, 7, 8)
    } else if k == 3 {
        (0, 3, 6)
    } else if k == 4 {
        (1, 4, 7)
    } else if k == 5 {
        (2, 5, 8)
    } else if k == 6 {
        (0, 4, 8)
    } else {
        (2, 4, 6)
    }
}

/// Cells `a`, `b`, `c` are all claimed by `p`.
pub open spec fn win_at(s: Seq<Cell>, p: Player, a: int, b: int, c: int) -> bool {
    s[a] == p.cell() && s[b] == p.cell() && s[c] == p.cell()
}

/// Of cells `a`, `b`, `c`, exactly two are claimed by `p` and the
/// third is empty: one move of `p` completes the line.
pub open spec fn threat_at(s: Seq<Cell>, p: Player, a: int, b: int, c: int) -> bool {
    ||| s[a] == p.cell() && s[b] == p.cell() && s[c] is Empty
    ||| s[a] is Empty && s[b] == p.cell() && s[c] == p.cell()
    ||| s[a] == p.cell() && s[b] is Empty && s[c] == p.cell()
}

/// Line `k` is fully claimed by `p`.
pub open spec fn win_at_line(s: Seq<Cell>, p: Player, k: int) -> bool {
    win_at(s, p, line_cells(k).0, line_cells(k).1, line_cells(k).2)
}

/// Line `k` is a threat line of `p`.
pub open spec fn threat_at_line(s: Seq<Cell>, p: Player, k: int) -> bool {
    threat_at(s, p, line_cells(k).0, line_cells(k).1, line_cells(k).2)
}

/// At least one of the eight lines is fully claimed by `p`.
pub open spec fn wins(s: Seq<Cell>, p: Player) -> bool {
    ||| win_at(s, p, 0, 1, 2)
    ||| win_at(s, p, 3, 4, 5)
    ||| win_at(s, p, 6, 7, 8)
    ||| win_at(s, p, 0, 3, 6)
    ||| win_at(s, p, 1, 4, 7)
    ||| win_at(s, p, 2, 5, 8)
    ||| win_at(s, p, 0, 4, 8)
    ||| win_at(s, p, 2, 4, 6)
}

/// At least one of the eight lines is a threat line of `p`.
pub open spec fn threatens(s: Seq<Cell>, p: Player) -> bool {
    ||| threat_at(s, p, 0, 1, 2)
    ||| threat_at(s, p, 3, 4, 5)
    ||| threat_at(s, p, 6, 7, 8)
    ||| threat_at(s, p, 0, 3, 6)
    ||| threat_at(s, p, 1, 4, 7)
    ||| threat_at(s, p, 2, 5, 8)
    ||| threat_at(s, p, 0, 4, 8)
    ||| threat_at(s, p, 2, 4, 6)
}

/// `p` has claimed at least one cell somewhere on the board.
pub open spec fn present(s: Seq<Cell>, p: Player) -> bool {
    exists|i: int| 0 <= i < 9 && s[i] == p.cell()
}

/// The severity of `p`'s position, with precedence win, then threat,
/// then presence: a winning board is never reported as a threat.
pub open spec fn severity_of(s: Seq<Cell>, p: Player) -> Severity {
    if wins(s, p) {
        Severity::Win
    } else if threatens(s, p) {
        Severity::Threat
    } else if present(s, p) {
        Severity::Presence
    } else {
        Severity::Absent
    }
}

/// The empty cell among `a`, `b`, `c`, checked in the sub-pattern
/// order missing-last, missing-first, missing-middle.
pub open spec fn empty_slot(s: Seq<Cell>, a: int, b: int, c: int) -> int {
    if s[c] is Empty {
        c
    } else if s[a] is Empty {
        a
    } else {
        b
    }
}

/// The scan-order index of the first threat line of `p`.
pub open spec fn first_threat_line(s: Seq<Cell>, p: Player) -> int
    recommends
        threatens(s, p),
{
    if threat_at_line(s, p, 0) {
        0
    } else if threat_at_line(s, p, 1) {
        1
    } else if threat_at_line(s, p, 2) {
        2
    } else if threat_at_line(s, p, 3) {
        3
    } else if threat_at_line(s, p, 4) {
        4
    } else if threat_at_line(s, p, 5) {
        5
    } else if threat_at_line(s, p, 6) {
        6
    } else {
        7
    }
}

/// The empty cell that completes the first threat line of `p` in scan
/// order: the one move that wins the line for `p`, or blocks it.
pub open spec fn completing_cell(s: Seq<Cell>, p: Player) -> int
    recommends
        threatens(s, p),
{
    let k = first_threat_line(s, p);
    empty_slot(s, line_cells(k).0, line_cells(k).1, line_cells(k).2)
}

/// Cell `i` lies on line `k`.
pub open spec fn on_line(i: int, k: int) -> bool {
    i == line_cells(k).0 || i == line_cells(k).1 || i == line_cells(k).2
}

/// The completing cell is an empty cell lying on the first threat line
/// of `p` in scan order: no earlier line qualifies.
pub proof fn lemma_completing_cell_first_line(s: Seq<Cell>, p: Player)
    requires
        s.len() == 9,
        threatens(s, p),
    ensures
        ({
            let k = first_threat_line(s, p);
            let i = completing_cell(s, p);
            &&& 0 <= k < 8
            &&& threat_at_line(s, p, k)
            &&& forall|j: int| 0 <= j < k ==> !threat_at_line(s, p, j)
            &&& on_line(i, k)
            &&& s[i] is Empty
        }),
{
    let k = first_threat_line(s, p);
    assert forall|j: int| 0 <= j < k implies !threat_at_line(s, p, j) by {
        assert(threat_at_line(s, p, j) == threat_at(
            s,
            p,
            line_cells(j).0,
            line_cells(j).1,
            line_cells(j).2,
        ));
    }
}

/// Whether the three cells at `a`, `b`, `c` are all claimed by `player`.
fn line_won(board: &Board, player: Player, a: usize, b: usize, c: usize) -> (r: bool)
    requires
        board.wf(),
        a < 9,
        b < 9,
        c < 9,
    ensures
        r == win_at(board@, player, a as int, b as int, c as int),
{
    let p = player.mark();
    board.get(a) == p && board.get(b) == p && board.get(c) == p
}

/// Whether the line at `a`, `b`, `c` is a threat line of `player`.
fn line_threatened(board: &Board, player: Player, a: usize, b: usize, c: usize) -> (r: bool)
    requires
        board.wf(),
        a < 9,
        b < 9,
        c < 9,
    ensures
        r == threat_at(board@, player, a as int, b as int, c as int),
{
    let p = player.mark();
    let ca = board.get(a);
    let cb = board.get(b);
    let cc = board.get(c);
    (ca == p && cb == p && cc == Cell::Empty) || (ca == Cell::Empty && cb == p && cc == p) || (ca
        == p && cb == Cell::Empty && cc == p)
}

/// Assesses `player`'s position: win beats threat beats presence; a
/// winning board is never reported as a mere threat.
pub fn evaluate(board: &Board, player: Player) -> (sev: Severity)
    requires
        board.wf(),
    ensures
        sev == severity_of(board@, player),
        sev is Win <==> wins(board@, player),
        !wins(board@, player) ==> (sev is Threat <==> threatens(board@, player)),
{
    if line_won(board, player, 0, 1, 2) || line_won(board, player, 3, 4, 5) || line_won(
        board,
        player,
        6,
        7,
        8,
    ) || line_won(board, player, 0, 3, 6) || line_won(board, player, 1, 4, 7) || line_won(
        board,
        player,
        2,
        5,
        8,
    ) || line_won(board, player, 0, 4, 8) || line_won(board, player, 2, 4, 6) {
        Severity::Win
    } else if line_threatened(board, player, 0, 1, 2) || line_threatened(board, player, 3, 4, 5)
        || line_threatened(board, player, 6, 7, 8) || line_threatened(board, player, 0, 3, 6)
        || line_threatened(board, player, 1, 4, 7) || line_threatened(board, player, 2, 5, 8)
        || line_threatened(board, player, 0, 4, 8) || line_threatened(board, player, 2, 4, 6) {
        Severity::Threat
    } else {
        let p = player.mark();
        let mut i: usize = 0;
        let mut found: bool = false;
        while i < 9
            invariant
                board.wf(),
                i <= 9,
                p == player.cell(),
                found == exists|j: int| 0 <= j < i && board@[j] == player.cell(),
            decreases 9 - i,
        {
            let ci = board.get(i);
            if ci == p {
                found = true;
                proof {
                    assert(board@[i as int] == player.cell());
                    assert(exists|j: int| 0 <= j < i + 1 && board@[j] == player.cell());
                }
            } else {
                proof {
                    if exists|j: int| 0 <= j < i + 1 && board@[j] == player.cell() {
                        let j0 = choose|j: int| 0 <= j < i + 1 && board@[j] == player.cell();
                        assert(0 <= j0 < i && board@[j0] == player.cell());
                    }
                }
            }
            i = i + 1;
        }
        if found {
            Severity::Presence
        } else {
            Severity::Absent
        }
    }
}

/// Severity of `player`'s position as its numeric level 0 through 3.
pub fn check_player(board: &Board, player: Player) -> (r: usize)
    requires
        board.wf(),
    ensures
        r == severity_code(severity_of(board@, player)),
{
    match evaluate(board, player) {
        Severity::Absent => 0,
        Severity::Presence => 1,
        Severity::Threat => 2,
        Severity::Win => 3,
    }
}

/// The empty cell among `a`, `b`, `c`, checked missing-last,
/// missing-first, missing-middle.
fn pick_empty(board: &Board, a: usize, b: usize, c: usize) -> (i: usize)
    requires
        board.wf(),
        a < 9,
        b < 9,
        c < 9,
        board@[a as int] is Empty || board@[b as int] is Empty || board@[c as int] is Empty,
    ensures
        i as int == empty_slot(board@, a as int, b as int, c as int),
        i == a || i == b || i == c,
        board@[i as int] is Empty,
    {
    if board.get(c) == Cell::Empty {
        c
    } else if board.get(a) == Cell::Empty {
        a
    } else {
        b
    }
}

/// Locates the empty cell that completes the first threat line of
/// `player` under the fixed scan order. Calling this with no threat
/// line on the board is a caller error, excluded by the precondition.
pub fn find_completing_cell(board: &Board, player: Player) -> (i: usize)
    requires
        board.wf(),
        threatens(board@, player),
    ensures
        i < 9,
        i as int == completing_cell(board@, player),
        board@[i as int] is Empty,
{
    if line_threatened(board, player, 0, 1, 2) {
        pick_empty(board, 0, 1, 2)
    } else if line_threatened(board, player, 3, 4, 5) {
        pick_empty(board, 3, 4, 5)
    } else if line_threatened(board, player, 6, 7, 8) {
        pick_empty(board, 6, 7, 8)
    } else if line_threatened(board, player, 0, 3, 6) {
        pick_empty(board, 0, 3, 6)
    } else if line_threatened(board, player, 1, 4, 7) {
        pick_empty(board, 1, 4, 7)
    } else if line_threatened(board, player, 2, 5, 8) {
        pick_empty(board, 2, 5, 8)
    } else if line_threatened(board, player, 0, 4, 8) {
        pick_empty(board, 0, 4, 8)
    } else {
        pick_empty(board, 2, 4, 6)
    }
}

/// Claims, for the computer, the cell that completes the first threat
/// line of `player`: with `player` the human this blocks the human's
/// winning move, with `player` the computer it completes the
/// computer's own line.
pub fn set_ai_next_move_when_2_occupied(board: &mut Board, player: Player)
    requires
        old(board).wf(),
        threatens(old(board)@, player),
    ensures
        final(board).wf(),
        final(board)@ == old(board)@.update(
            completing_cell(old(board)@, player),
            Cell::Computer,
        ),
{
    let i = find_completing_cell(board, player);
    let _claimed = board.set(i, Player::Computer);
}

} // verus!

