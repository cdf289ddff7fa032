use tictactoe::board::{Board, Player};
use tictactoe::controller::{GameSession, GameState, StartInput, TurnInput};
use tictactoe::rules::{evaluate, find_completing_cell, Severity};
use tictactoe::selector::{get_rand_not_occupied_move, Outcome};

fn board_from(codes: [u8; 9]) -> Board {
    let v: Vec<u8> = codes.to_vec();
    Board::from_codes(&v).unwrap()
}

fn codes_of(b: &Board) -> Vec<u8> {
    b.render()
}

#[test]
fn center_claim_gives_presence() {
    let mut b = Board::new();
    let placed = b.set(4, Player::Human);
    assert!(placed);
    assert_eq!(evaluate(&b, Player::Human), Severity::Presence);
}

#[test]
fn top_row_gives_win() {
    let b = board_from([1, 1, 1, 0, 0, 0, 0, 0, 0]);
    assert_eq!(evaluate(&b, Player::Human), Severity::Win);
}

#[test]
fn top_row_pair_gives_threat_completed_at_2() {
    let b = board_from([1, 1, 0, 0, 0, 0, 0, 0, 0]);
    assert_eq!(evaluate(&b, Player::Human), Severity::Threat);
    assert_eq!(find_completing_cell(&b, Player::Human), 2);
}

#[test]
fn sole_empty_cell_is_chosen_deterministically() {
    let b = board_from([1, 2, 1, 2, 1, 2, 2, 1, 0]);
    assert_eq!(get_rand_not_occupied_move(&b), Some(8));
}

#[test]
fn quit_mid_game_leaves_board_untouched() {
    let mut s = GameSession {
        board: board_from([1, 1, 0, 0, 0, 0, 0, 0, 0]),
        move_count: 3,
        state: GameState::HumanPlaying,
    };
    let before = codes_of(&s.board);

    s.step_human(TurnInput::Quit);

    assert_eq!(s.state, GameState::ExitGame);
    assert_eq!(codes_of(&s.board), before);
    assert_eq!(s.move_count, 3);
}

#[test]
fn start_prompt_quit_exits() {
    let mut s = GameSession::new();
    s.step_start(StartInput::Quit);
    assert_eq!(s.state, GameState::ExitGame);
}

#[test]
fn start_prompt_routes_first_move() {
    let mut s = GameSession::new();
    s.step_start(StartInput::ComputerFirst);
    assert_eq!(s.state, GameState::AiPlaying);

    let mut s2 = GameSession::new();
    s2.step_start(StartInput::HumanFirst);
    assert_eq!(s2.state, GameState::HumanPlaying);
}

#[test]
fn starting_a_game_resets_the_board() {
    let mut s = GameSession {
        board: board_from([1, 2, 1, 0, 0, 0, 0, 0, 0]),
        move_count: 5,
        state: GameState::GameEnded,
    };
    s.step_ended();
    assert_eq!(s.state, GameState::Starting);
    assert_eq!(s.board.code_at(0), 1);

    s.step_start(StartInput::HumanFirst);
    assert_eq!(s.move_count, 0);
    for i in 0..9 {
        assert_eq!(s.board.code_at(i), 0);
    }
}

#[test]
fn human_completes_row_and_wins() {
    let mut s = GameSession {
        board: board_from([1, 1, 0, 2, 2, 0, 0, 0, 0]),
        move_count: 4,
        state: GameState::HumanPlaying,
    };

    let r = s.step_human(TurnInput::Move(2));

    assert_eq!(r, Outcome::HumanWon);
    assert_eq!(s.state, GameState::GameEnded);
    assert_eq!(s.board.code_at(2), 1);
    assert_eq!(s.move_count, 5);
}

#[test]
fn occupied_move_is_forfeited() {
    let mut s = GameSession {
        board: board_from([2, 1, 0, 0, 0, 0, 0, 0, 0]),
        move_count: 2,
        state: GameState::HumanPlaying,
    };
    let before = codes_of(&s.board);

    let r = s.step_human(TurnInput::Move(0));

    assert_eq!(r, Outcome::InProgress);
    assert_eq!(s.state, GameState::AiPlaying);
    assert_eq!(codes_of(&s.board), before);
    assert_eq!(s.move_count, 3);
}

#[test]
fn filling_the_last_cell_without_a_line_is_a_draw() {
    let mut s = GameSession {
        board: board_from([1, 2, 1, 0, 2, 2, 2, 1, 1]),
        move_count: 8,
        state: GameState::HumanPlaying,
    };

    let r = s.step_human(TurnInput::Move(3));

    assert_eq!(r, Outcome::Draw);
    assert_eq!(s.state, GameState::GameEnded);
}

#[test]
fn computer_opening_turn_passes_play_back() {
    let mut s = GameSession::new();
    s.step_start(StartInput::ComputerFirst);

    let r = s.step_ai();

    assert_eq!(r, Outcome::InProgress);
    assert_eq!(s.state, GameState::HumanPlaying);
    assert_eq!(s.move_count, 1);
    assert_eq!(s.board.code_at(8), 0);
}

#[test]
fn computer_turn_blocks_through_session() {
    let mut s = GameSession {
        board: board_from([1, 1, 0, 0, 2, 0, 0, 0, 0]),
        move_count: 3,
        state: GameState::AiPlaying,
    };

    let r = s.step_ai();

    assert_eq!(r, Outcome::InProgress);
    assert_eq!(s.state, GameState::HumanPlaying);
    assert_eq!(s.board.code_at(2), 2);
}

#[test]
fn set_on_occupied_cell_is_a_no_op() {
    let mut b = board_from([1, 0, 0, 0, 0, 0, 0, 0, 0]);
    let before = codes_of(&b);

    let placed = b.set(0, Player::Computer);

    assert!(!placed);
    assert_eq!(codes_of(&b), before);
}

#[test]
fn render_lists_rows_in_order() {
    let b = board_from([0, 1, 2, 2, 1, 0, 1, 0, 2]);
    let v = b.render();
    assert_eq!(v, vec![0, 1, 2, 2, 1, 0, 1, 0, 2]);
}

#[test]
fn from_codes_rejects_bad_input() {
    let short: Vec<u8> = vec![0, 1, 2];
    assert!(Board::from_codes(&short).is_none());

    let bad: Vec<u8> = vec![0, 1, 2, 3, 0, 0, 0, 0, 0];
    assert!(Board::from_codes(&bad).is_none());
}

#[test]
fn empty_board_has_no_presence() {
    let b = Board::new();
    assert_eq!(evaluate(&b, Player::Human), Severity::Absent);
    assert_eq!(evaluate(&b, Player::Computer), Severity::Absent);
    assert_eq!(b.empty_count(), 9);
}

#[test]
fn empty_count_tracks_claims() {
    let b = board_from([1, 2, 0, 0, 1, 0, 0, 0, 2]);
    assert_eq!(b.empty_count(), 5);
}
