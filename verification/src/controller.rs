//! The turn-sequencing state machine: Starting, the two playing
//! states, GameEnded and ExitGame. The input collaborator hands in the
//! start choice and each human move; the controller applies them to
//! the board, asks the rule engine for the outcome, and decides the
//! next state. Wins and draws come back as values, never as an abrupt
//! stop inside the move logic.

use vstd::prelude::*;
use crate::board::{Board, Cell, Player, board_all_empty, count_empty};
use crate::rules::wins;
use crate::selector::{Outcome, ai_move_post, get_ai_move};

verus! {

/// The five states of the game loop.
#[derive(Clone, Copy, PartialEq, Eq, Structural, Debug)]
pub enum GameState {
    Starting,
    HumanPlaying,
    AiPlaying,
    GameEnded,
    ExitGame,
}

/// The collaborator's answer to the start-of-game prompt: quit, let
/// the computer open, or (on any other input) let the human open.
#[derive(Clone, Copy, PartialEq, Eq, Structural, Debug)]
pub enum StartInput {
    Quit,
    ComputerFirst,
    HumanFirst,
}

/// The collaborator's answer to a move prompt: a cell index, or quit.
#[derive(Clone, Copy, PartialEq, Eq, Structural, Debug)]
pub enum TurnInput {
    Quit,
    Move(usize),
}

/// One game: the board, the count of turns taken so far, and the
/// state the loop is in. The count distinguishes the computer's
/// opening move (count zero) from every later one.
pub struct GameSession {
    pub board: Board,
    pub move_count: usize,
    pub state: GameState,
}

/// What a human move leaves behind, given the board `s` before it,
/// the chosen cell `i`, the board `t` after it, the outcome `r` and
/// the next state `st`. A move onto an occupied cell is forfeited:
/// the board stays as it was and play passes to the computer.
pub open spec fn human_move_post(
    s: Seq<Cell>,
    i: int,
    t: Seq<Cell>,
    r: Outcome,
    st: GameState,
) -> bool {
    if s[i] is Empty {
        &&& t == s.update(i, Cell::Human)
        &&& if wins(t, Player::Human) {
            r is HumanWon && st is GameEnded
        } else if count_empty(t) == 0 {
            r is Draw && st is GameEnded
        } else {
            r is InProgress && st is AiPlaying
        }
    } else {
        t == s && r is InProgress && st is AiPlaying
    }
}

impl GameSession {
    /// The session invariant: a nine-cell board, and a board still
    /// untouched as long as no turn has been taken.
    pub open spec fn inv(&self) -> bool {
        &&& self.board.wf()
        &&& (self.move_count == 0 ==> board_all_empty(self.board@))
    }

    /// A fresh session: empty board, no turns taken, at the prompt.
    pub fn new() -> (s: GameSession)
        ensures
            s.inv(),
            s.state is Starting,
            s.move_count == 0,
            board_all_empty(s.board@),
    {
        GameSession { board: Board::new(), move_count: 0, state: GameState::Starting }
    }

    /// Answers the start-of-game prompt. A new game begins on a fresh
    /// board: quit leaves the loop, the computer-first choice hands
    /// the opening move to the computer, anything else to the human.
    pub fn step_start(&mut self, choice: StartInput)
        requires
            old(self).inv(),
            old(self).state is Starting,
        ensures
            final(self).inv(),
            final(self).move_count == 0,
            board_all_empty(final(self).board@),
            final(self).state == (match choice {
                StartInput::Quit => GameState::ExitGame,
                StartInput::ComputerFirst => GameState::AiPlaying,
                StartInput::HumanFirst => GameState::HumanPlaying,
            }),
    {
        self.board = Board::new();
        self.move_count = 0;
        self.state = match choice {
            StartInput::Quit => GameState::ExitGame,
            StartInput::ComputerFirst => GameState::AiPlaying,
            StartInput::HumanFirst => GameState::HumanPlaying,
        };
    }

    /// Plays the human's turn. Quit leaves the loop with the board
    /// exactly as it was; a move is applied under [`human_move_post`]
    /// and counted, even when forfeited on an occupied cell.
    pub fn step_human(&mut self, input: TurnInput) -> (r: Outcome)
        requires
            old(self).inv(),
            old(self).state is HumanPlaying,
            input matches TurnInput::Move(i) ==> i < 9,
            old(self).move_count < usize::MAX,
        ensures
            final(self).inv(),
            input is Quit ==> (*final(self) == (GameSession {
                state: GameState::ExitGame,
                ..*old(self)
            }) && r is InProgress),
            input matches TurnInput::Move(i) ==> (final(self).move_count == old(self).move_count
                + 1 && human_move_post(
                old(self).board@,
                i as int,
                final(self).board@,
                r,
                final(self).state,
            )),
    {
        match input {
            TurnInput::Quit => {
                self.state = GameState::ExitGame;
                Outcome::InProgress
            },
            TurnInput::Move(i) => {
                let placed = self.board.set(i, Player::Human);
                self.move_count = self.move_count + 1;
                if placed {
                    let sev = crate::rules::check_player(&self.board, Player::Human);
                    if sev == 3 {
                        self.state = GameState::GameEnded;
                        Outcome::HumanWon
                    } else if self.board.empty_count() == 0 {
                        self.state = GameState::GameEnded;
                        Outcome::Draw
                    } else {
                        self.state = GameState::AiPlaying;
                        Outcome::InProgress
                    }
                } else {
                    self.state = GameState::AiPlaying;
                    Outcome::InProgress
                }
            },
        }
    }

    /// Plays the computer's turn: the move policy of
    /// [`crate::selector::get_ai_move`], counted, with a board left
    /// full and unwon surfaced as a draw, and any terminal outcome
    /// ending the game.
    pub fn step_ai(&mut self) -> (r: Outcome)
        requires
            old(self).inv(),
            old(self).state is AiPlaying,
            old(self).move_count < usize::MAX,
        ensures
            final(self).inv(),
            final(self).move_count == old(self).move_count + 1,
            old(self).move_count == 0 ==> (r is InProgress && (exists|i: int|
                0 <= i < 8 && final(self).board@ == old(self).board@.update(i, Cell::Computer))),
            old(self).move_count > 0 ==> (exists|r0: Outcome|
                ai_move_post(old(self).board@, final(self).board@, r0) && r == (if r0
                    is InProgress && count_empty(final(self).board@) == 0 {
                    Outcome::Draw
                } else {
                    r0
                })),
            final(self).state == (if r is InProgress {
                GameState::HumanPlaying
            } else {
                GameState::GameEnded
            }),
    {
        let r0 = get_ai_move(&mut self.board, self.move_count);
        let still_open = self.board.empty_count() > 0;
        let first = self.move_count == 0;
        self.move_count = self.move_count + 1;
        let r = if matches!(r0, Outcome::InProgress) && !still_open {
            Outcome::Draw
        } else {
            r0
        };
        self.state = if matches!(r, Outcome::InProgress) {
            GameState::HumanPlaying
        } else {
            GameState::GameEnded
        };
        proof {
            if first {
                let i0 = choose|i: int|
                    0 <= i < 8 && self.board@ == old(self).board@.update(i, Cell::Computer);
                assert(self.board@[8] is Empty);
                crate::board::lemma_empty_counted(self.board@, 8, 9);
            } else {
                assert(ai_move_post(old(self).board@, self.board@, r0) && r == (if r0
                    is InProgress && count_empty(self.board@) == 0 {
                    Outcome::Draw
                } else {
                    r0
                }));
                assert(exists|r1: Outcome|
                    ai_move_post(old(self).board@, self.board@, r1) && r == (if r1
                        is InProgress && count_empty(self.board@) == 0 {
                        Outcome::Draw
                    } else {
                        r1
                    }));
            }
        }
        r
    }

    /// Leaves the game-over announcement and returns to the prompt;
    /// the next game starts on a fresh board.
    pub fn step_ended(&mut self)
        requires
            old(self).inv(),
            old(self).state is GameEnded,
        ensures
            final(self).inv(),
            *final(self) == (GameSession { state: GameState::Starting, ..*old(self) }),
    {
        self.state = GameState::Starting;
    }
}

} // verus!
