//! The computer opponent's move policy: block the human's threat,
//! complete the computer's own, otherwise claim a random empty cell by
//! a weighted scan over the board.
//!
//! The weighted scan draws a number `n` from `1..e` for `e` empty
//! cells and claims the `n`-th empty cell in scan order. Since the
//! draw's upper bound is exclusive, the last empty cell in scan order
//! is never chosen when two or more are empty; that asymmetry is part
//! of the policy and is stated in the contracts below, as is the
//! opening move's restriction to cells 0 through 7.

use vstd::prelude::*;
use crate::board::{
    Board, Cell, Player, board_all_empty, count_empty, empties_before,
    lemma_empty_between, lemma_empty_counted,
};
use crate::rules::{
    check_player, completing_cell, set_ai_next_move_when_2_occupied, threatens, wins,
};

verus! {

/// How a turn left the game: still running, won by one side, or a
/// full board with no move left to make.
#[derive(Clone, Copy, PartialEq, Eq, Structural, Debug)]
pub enum Outcome {
    InProgress,
    HumanWon,
    ComputerWon,
    Draw,
}

/// `i` is the last empty cell of `s` in scan order.
pub open spec fn is_last_empty(s: Seq<Cell>, i: int) -> bool {
    &&& 0 <= i < s.len()
    &&& s[i] is Empty
    &&& forall|j: int| i < j < s.len() ==> !(s[j] is Empty)
}

/// `i` is the one and only empty cell of `s`.
pub open spec fn is_only_empty(s: Seq<Cell>, i: int) -> bool {
    &&& 0 <= i < s.len()
    &&& s[i] is Empty
    &&& forall|j: int| 0 <= j < s.len() && s[j] is Empty ==> j == i
}

/// Relies on rand::random_range (rand's thread-local generator): the
/// draw lies in the half-open range `lo..hi`; the range must not be
/// empty, or the call panics.
#[verifier::external_body]
fn draw_in_range(lo: usize, hi: usize) -> (r: usize)
    requires
        lo < hi,
    ensures
        lo <= r < hi,
{
    rand::random_range(lo..hi)
}

/// The `n`-th empty cell of the board in scan order, found by walking
/// indices 0 through 8 and counting down over empty cells.
fn select_nth_empty(board: &Board, n: usize) -> (i: usize)
    requires
        board.wf(),
        1 <= n <= count_empty(board@),
    ensures
        i < 9,
        board@[i as int] is Empty,
        empties_before(board@, i as int) == n - 1,
{
    let mut num: usize = n;
    let mut pos: usize = 0;
    while pos < 9
        invariant
            board.wf(),
            pos <= 9,
            1 <= num <= n,
            n <= count_empty(board@),
            num == n - empties_before(board@, pos as int),
        decreases 9 - pos,
    {
        if board.get(pos) == Cell::Empty {
            if num == 1 {
                return pos;
            }
            num = num - 1;
        }
        pos = pos + 1;
    }
    proof {
        assert(empties_before(board@, 9) == count_empty(board@));
        assert(false);
    }
    0
}

/// The weighted-scan random selector. With no empty cell there is no
/// move; with one, that cell is chosen outright; with more, a draw
/// from `1..e` picks an empty cell in scan order — never the last one.
pub fn get_rand_not_occupied_move(board: &Board) -> (r: Option<usize>)
    requires
        board.wf(),
    ensures
        r is Some <==> count_empty(board@) > 0,
        r matches Some(i) ==> ({
            &&& i < 9
            &&& board@[i as int] is Empty
            &&& (count_empty(board@) == 1 ==> is_only_empty(board@, i as int))
            &&& (count_empty(board@) >= 2 ==> !is_last_empty(board@, i as int))
        }),
{
    let e = board.empty_count();
    if e == 0 {
        return None;
    }
    let mut num: usize = 1;
    if e > 1 {
        num = draw_in_range(1, e);
    }
    let i = select_nth_empty(board, num);
    proof {
        let s = board@;
        if count_empty(s) == 1 {
            assert forall|j: int| 0 <= j < s.len() && s[j] is Empty implies j == i as int by {
                if j < i as int {
                    lemma_empty_counted(s, j, i as int);
                } else if j > i as int {
                    lemma_empty_counted(s, i as int, j);
                    lemma_empty_counted(s, j, 9);
                }
            }
        } else {
            assert(empties_before(s, i + 1) == num);
            assert(empties_before(s, 9) == count_empty(s));
            lemma_empty_between(s, i + 1, 9);
            let j0 = choose|j: int| i + 1 <= j < 9 && s[j] is Empty;
            assert(!is_last_empty(s, i as int));
        }
    }
    Some(i)
}

/// An index the weighted-scan selector may return on board `s`: an
/// empty cell, and never the last empty cell when two or more remain.
pub open spec fn random_choice_ok(s: Seq<Cell>, i: int) -> bool {
    &&& 0 <= i < 9
    &&& s[i] is Empty
    &&& (count_empty(s) >= 2 ==> !is_last_empty(s, i))
}

/// What one computer move after the opening leaves behind, given the
/// board `s` before it, the board `t` after it, and the reported
/// outcome `r`. The policy, in order of precedence: a finished human
/// win ends the turn untouched; a human threat is blocked; a finished
/// computer win ends the turn untouched; a computer threat is
/// completed; otherwise a random empty cell is claimed, or the full
/// board is reported as having no move.
pub open spec fn ai_move_post(s: Seq<Cell>, t: Seq<Cell>, r: Outcome) -> bool {
    if wins(s, Player::Human) {
        t == s && r is HumanWon
    } else if threatens(s, Player::Human) {
        &&& t == s.update(completing_cell(s, Player::Human), Cell::Computer)
        &&& r == (if wins(t, Player::Computer) {
            Outcome::ComputerWon
        } else {
            Outcome::InProgress
        })
    } else if wins(s, Player::Computer) {
        t == s && r is ComputerWon
    } else if threatens(s, Player::Computer) {
        &&& t == s.update(completing_cell(s, Player::Computer), Cell::Computer)
        &&& r == (if wins(t, Player::Computer) {
            Outcome::ComputerWon
        } else {
            Outcome::InProgress
        })
    } else if count_empty(s) == 0 {
        t == s && r is Draw
    } else {
        exists|i: int|
            random_choice_ok(s, i) && t == s.update(i, Cell::Computer) && r == (if wins(
                t,
                Player::Computer,
            ) {
                Outcome::ComputerWon
            } else {
                Outcome::InProgress
            })
    }
}

/// Plays one computer turn. The very first move of the game claims a
/// random cell among indices 0 through 7 — never cell 8; every later
/// move follows the block/complete/random policy of [`ai_move_post`].
pub fn get_ai_move(board: &mut Board, move_count: usize) -> (r: Outcome)
    requires
        old(board).wf(),
        move_count == 0 ==> board_all_empty(old(board)@),
    ensures
        final(board).wf(),
        move_count == 0 ==> r is InProgress && exists|i: int|
            0 <= i < 8 && final(board)@ == old(board)@.update(i, Cell::Computer),
        move_count > 0 ==> ai_move_post(old(board)@, final(board)@, r),
{
    if move_count == 0 {
        let num = draw_in_range(0, 8);
        let _claimed = board.set(num, Player::Computer);
        proof {
            assert(num < 8);
            assert(board@ == old(board)@.update(num as int, Cell::Computer));
        }
        Outcome::InProgress
    } else {
        let human_moves = check_player(board, Player::Human);
        if human_moves == 3 {
            Outcome::HumanWon
        } else if human_moves == 2 {
            set_ai_next_move_when_2_occupied(board, Player::Human);
            let blocked = check_player(board, Player::Computer);
            if blocked == 3 {
                Outcome::ComputerWon
            } else {
                Outcome::InProgress
            }
        } else {
            let ai_moves = check_player(board, Player::Computer);
            if ai_moves == 3 {
                Outcome::ComputerWon
            } else if ai_moves == 2 {
                set_ai_next_move_when_2_occupied(board, Player::Computer);
                let completed = check_player(board, Player::Computer);
                if completed == 3 {
                    Outcome::ComputerWon
                } else {
                    Outcome::InProgress
                }
            } else {
                let pick = get_rand_not_occupied_move(board);
                match pick {
                    Some(x) => {
                        let _claimed = board.set(x, Player::Computer);
                        let placed = check_player(board, Player::Computer);
                        let res = if placed == 3 {
                            Outcome::ComputerWon
                        } else {
                            Outcome::InProgress
                        };
                        proof {
                            let s = old(board)@;
                            let t = board@;
                            assert(random_choice_ok(s, x as int) && t == s.update(
                                x as int,
                                Cell::Computer,
                            ) && res == (if wins(t, Player::Computer) {
                                Outcome::ComputerWon
                            } else {
                                Outcome::InProgress
                            }));
                        }
                        res
                    },
                    None => Outcome::Draw,
                }
            }
        }
    }
}

} // verus!
