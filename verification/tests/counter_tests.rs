use muehle::move_token_count::BLACK_POSSIBLE_MOVES_FIRST_POSITION;
use muehle::move_token_count::WHITE_POSSIBLE_MOVES_FIRST_POSITION;
use muehle::move_token_count::extract_black_move_count_from_board;
use muehle::move_token_count::extract_black_token_count_from_board;
use muehle::move_token_count::extract_white_move_count_from_board;
use muehle::move_token_count::extract_white_token_count_from_board;
use muehle::move_token_count::get_possible_move_count;
use muehle::move_token_count::insert_number_of_possible_moves_to_board;
use muehle::move_token_count::insert_token_count_to_board;
use muehle::move_token_count::update_possible_move_count;
use muehle::position::decode_positions;
use muehle::position::set_token_at;

#[test]
fn test_insert_token_count_to_board() {
    let board1: u64 = 0b0;
    let board2: u64 = 0b101000000011110011101110110010110011101100100010;
    let board3: u64 = 0b000000000011110011101110110010110011101100100010;
    let board4: u64 = 0b000000000000000000000000000010000000000000000000;

    let exp_board1: u64 = 0b0;
    let exp_board2: u64 = 0b0000000000110110101000000011110011101110110010110011101100100010; // 8v8
    let exp_board3: u64 = 0b0000000000110100000000000011110011101110110010110011101100100010; // 8v6
    let exp_board4: u64 = 0b0000000000000000000000000000000000000000000010000000000000000000; // 0v1

    assert_eq!(exp_board1, insert_token_count_to_board(board1));
    assert_eq!(exp_board2, insert_token_count_to_board(board2));
    assert_eq!(exp_board3, insert_token_count_to_board(board3));
    assert_eq!(exp_board4, insert_token_count_to_board(board4));
}

#[test]
fn test_insert_number_of_possible_moves_to_board() {
    let board1: u64 = 0b0;
    let board2: u64 = 0b101000000011110011101110110010110011101100100010;
    let board3: u64 = 0b000000000011110011101110110010110011101100100010;

    let filter_possible_moves_black = 0b0000011111000000000000000000000000000000000000000000000000000000;
    let filter_possible_moves_white = 0b1111100000000000000000000000000000000000000000000000000000000000;

    let inserted_board1 = insert_number_of_possible_moves_to_board(board1);
    let inserted_possible_move_white1 = (inserted_board1 & filter_possible_moves_white) >> 59;
    let inserted_possible_move_black1 = (inserted_board1 & filter_possible_moves_black) >> 54;
    assert_eq!(get_possible_move_count(board1, 0b11), inserted_possible_move_white1 as usize);
    assert_eq!(get_possible_move_count(board1, 0b10), inserted_possible_move_black1 as usize);

    let inserted_board2 = insert_number_of_possible_moves_to_board(board2);
    let inserted_possible_move_white2 = (inserted_board2 & filter_possible_moves_white) >> 59;
    let inserted_possible_move_black2 = (inserted_board2 & filter_possible_moves_black) >> 54;
    assert_eq!(get_possible_move_count(board2, 0b11), inserted_possible_move_white2 as usize);
    assert_eq!(get_possible_move_count(board2, 0b10), inserted_possible_move_black2 as usize);

    let inserted_board3 = insert_number_of_possible_moves_to_board(board3);
    let inserted_possible_move_white3 = (inserted_board3 & filter_possible_moves_white) >> 59;
    let inserted_possible_move_black3 = (inserted_board3 & filter_possible_moves_black) >> 54;
    assert_eq!(get_possible_move_count(board3, 0b11), inserted_possible_move_white3 as usize);
    assert_eq!(get_possible_move_count(board3, 0b10), inserted_possible_move_black3 as usize);
}

#[test]
fn test_extract_methods() {
    let board1: u64 = 0b101000000011110011101110110010110011101100100010;
    let board2: u64 = 0b000000000011110011101110110010110011101100100010;

    let filter_token_black = 0b0000000000000111000000000000000000000000000000000000000000000000;
    let filter_token_white = 0b0000000000111000000000000000000000000000000000000000000000000000;
    let filter_possible_moves_black = 0b0000011111000000000000000000000000000000000000000000000000000000;
    let filter_possible_moves_white = 0b1111100000000000000000000000000000000000000000000000000000000000;

    let move_and_token_count_board1 =
        insert_number_of_possible_moves_to_board(insert_token_count_to_board(board1));
    let inserted_possible_move_white1 = (move_and_token_count_board1 & filter_possible_moves_white) >> 59;
    let inserted_possible_move_black1 = (move_and_token_count_board1 & filter_possible_moves_black) >> 54;
    let inserted_token_count_white1 = (move_and_token_count_board1 & filter_token_white) >> 51;
    let inserted_token_count_black1 = (move_and_token_count_board1 & filter_token_black) >> 48;
    assert_eq!(inserted_possible_move_white1, extract_white_move_count_from_board(move_and_token_count_board1));
    assert_eq!(inserted_possible_move_black1, extract_black_move_count_from_board(move_and_token_count_board1));
    assert_eq!(inserted_token_count_white1, extract_white_token_count_from_board(move_and_token_count_board1) - 2);
    assert_eq!(inserted_token_count_black1, extract_black_token_count_from_board(move_and_token_count_board1) - 2);

    let move_and_token_count_board2 =
        insert_number_of_possible_moves_to_board(insert_token_count_to_board(board2));
    let inserted_possible_move_white2 = (move_and_token_count_board2 & filter_possible_moves_white) >> 59;
    let inserted_possible_move_black2 = (move_and_token_count_board2 & filter_possible_moves_black) >> 54;
    let inserted_token_count_white2 = (move_and_token_count_board2 & filter_token_white) >> 51;
    let inserted_token_count_black2 = (move_and_token_count_board2 & filter_token_black) >> 48;
    assert_eq!(inserted_possible_move_white2, extract_white_move_count_from_board(move_and_token_count_board2));
    assert_eq!(inserted_possible_move_black2, extract_black_move_count_from_board(move_and_token_count_board2));
    assert_eq!(inserted_token_count_white2, extract_white_token_count_from_board(move_and_token_count_board2) - 2);
    assert_eq!(inserted_token_count_black2, extract_black_token_count_from_board(move_and_token_count_board2) - 2);
}

#[test]
fn test_get_possible_move_count() {
    let board = decode_positions("WEEEBBBBWWEEEEWEWEEEEEEE".to_string());
    let board2 = decode_positions("BWEEEWBBWBBWWBBWEEEEEEWE".to_string());
    let board3 = decode_positions("EEEEEEEEEEEEEEEEEEEEEEEE".to_string());

    assert_eq!(get_possible_move_count(board, 0b11), 8);
    assert_eq!(get_possible_move_count(board, 0b10), 2);
    assert_eq!(get_possible_move_count(board2, 0b11), 7);
    assert_eq!(get_possible_move_count(board2, 0b10), 2);
    assert_eq!(get_possible_move_count(board3, 0b11), 0);
    assert_eq!(get_possible_move_count(board3, 0b10), 0);
}

#[test]
fn test_update_possible_move_count() {
    let board = decode_positions("WEEEBBBBWWEEEEWEWEEEEEEE".to_string())
        + 2 * BLACK_POSSIBLE_MOVES_FIRST_POSITION
        + 8 * WHITE_POSSIBLE_MOVES_FIRST_POSITION;

    let mut new_board = set_token_at(board, 18, 0b11);
    assert_eq!(
        update_possible_move_count(new_board, 0b11, 18, false),
        new_board + 3 * WHITE_POSSIBLE_MOVES_FIRST_POSITION
    );
    new_board = set_token_at(board, 18, 0b10);
    assert_eq!(
        update_possible_move_count(new_board, 0b10, 18, false),
        new_board + 3 * BLACK_POSSIBLE_MOVES_FIRST_POSITION
    );
    new_board = set_token_at(board, 12, 0b10);
    assert_eq!(
        update_possible_move_count(new_board, 0b10, 12, false),
        new_board + 2 * BLACK_POSSIBLE_MOVES_FIRST_POSITION
    );
    new_board = set_token_at(board, 15, 0b11);
    assert_eq!(
        update_possible_move_count(new_board, 0b11, 15, false),
        new_board - 2 * WHITE_POSSIBLE_MOVES_FIRST_POSITION
    );
    new_board = set_token_at(board, 15, 0b10);
    assert_eq!(
        update_possible_move_count(new_board, 0b10, 15, false),
        new_board - 2 * WHITE_POSSIBLE_MOVES_FIRST_POSITION
    );
    new_board = set_token_at(board, 10, 0b10);
    assert_eq!(
        update_possible_move_count(new_board, 0b10, 10, false),
        new_board + 3 * BLACK_POSSIBLE_MOVES_FIRST_POSITION - WHITE_POSSIBLE_MOVES_FIRST_POSITION
    );
    new_board = set_token_at(board, 8, 0b00);
    assert_eq!(
        update_possible_move_count(new_board, 0b11, 8, true),
        new_board + 2 * WHITE_POSSIBLE_MOVES_FIRST_POSITION
    );
    new_board = set_token_at(board, 14, 0b00);
    assert_eq!(
        update_possible_move_count(new_board, 0b11, 14, true),
        new_board - 3 * WHITE_POSSIBLE_MOVES_FIRST_POSITION + BLACK_POSSIBLE_MOVES_FIRST_POSITION
    );
    new_board = set_token_at(board, 6, 0b00);
    assert_eq!(
        update_possible_move_count(new_board, 0b10, 6, true),
        new_board + 2 * BLACK_POSSIBLE_MOVES_FIRST_POSITION + WHITE_POSSIBLE_MOVES_FIRST_POSITION
    );
}
