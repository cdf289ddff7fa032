use tictactoe::board::{Board, Player};
use tictactoe::rules::{check_player, set_ai_next_move_when_2_occupied};

fn board_of(codes: [u8; 9]) -> Board {
    let v: Vec<u8> = codes.to_vec();
    Board::from_codes(&v).unwrap()
}

#[test]
fn internal() {
    assert_eq!(1, 1);
}

#[test]
fn check_player_test() {
    let b = board_of([1, 1, 1, 0, 0, 0, 0, 0, 0]);

    let human_moves: usize = check_player(&b, Player::Human);

    assert_eq!(
        human_moves, 3,
        "we are testing 3 human moves {} and {}",
        human_moves, 0
    );
}

#[test]
fn check_player_test1() {
    let b = board_of([0, 0, 0, 1, 1, 1, 0, 0, 0]);

    let human_moves: usize = check_player(&b, Player::Human);

    assert_eq!(
        human_moves, 3,
        "we are testing 3 human moves {} and {}",
        human_moves, 0
    );
}

#[test]
fn check_player_test2() {
    let b = board_of([0, 0, 0, 0, 0, 0, 1, 1, 1]);

    let human_moves: usize = check_player(&b, Player::Human);

    assert_eq!(
        human_moves, 3,
        "we are testing 3 human moves {} and {}",
        human_moves, 0
    );
}

#[test]
fn check_player_test3() {
    let b = board_of([1, 0, 0, 0, 0, 0, 0, 0, 0]);

    let human_moves: usize = check_player(&b, Player::Human);

    assert_eq!(
        human_moves, 1,
        "we are testing 3 human moves {} and {}",
        human_moves, 1
    );
}

#[test]
fn check_player_test4() {
    let b = board_of([0, 0, 0, 0, 0, 0, 0, 0, 1]);

    let human_moves: usize = check_player(&b, Player::Human);

    assert_eq!(
        human_moves, 1,
        "we are testing 3 human moves {} and {}",
        human_moves, 1
    );
}

#[test]
fn check_player_test5() {
    let b = board_of([0, 0, 0, 0, 0, 0, 1, 0, 0]);

    let human_moves: usize = check_player(&b, Player::Human);

    assert_eq!(
        human_moves, 1,
        "we are testing 3 human moves {} and {}",
        human_moves, 0
    );
}

#[test]
fn check_player_test6() {
    let b = board_of([0, 0, 0, 0, 0, 0, 0, 1, 1]);

    let human_moves: usize = check_player(&b, Player::Human);

    assert_eq!(
        human_moves, 2,
        "we are testing 3 human moves {} and {}",
        human_moves, 2
    );
}

#[test]
fn set_ai_next_move_when_2_occupied_test() {
    let mut b = board_of([1, 1, 0, 0, 0, 0, 0, 0, 0]);

    set_ai_next_move_when_2_occupied(&mut b, Player::Human);

    assert_eq!(
        b.code_at(2),
        2,
        "we are testing ai filling when 2 occupied {} and {}",
        b.code_at(2),
        2
    );
}

#[test]
fn set_ai_next_move_when_2_occupied_test2() {
    let mut b = board_of([0, 1, 1, 0, 0, 0, 0, 0, 0]);

    set_ai_next_move_when_2_occupied(&mut b, Player::Human);

    assert_eq!(
        b.code_at(0),
        2,
        "we are testing ai filling when 2 occupied {} and {}",
        b.code_at(0),
        2
    );
}
