use muehle::agent::AiPhase;
use muehle::forward_boards::forward_step_boards;
use muehle::game_state::Phase;
use muehle::game_state::Token;
use muehle::move_token_count::BLACK_POSSIBLE_MOVES_FIRST_POSITION;
use muehle::move_token_count::BLACK_TOKEN_FIRST_POSITION;
use muehle::move_token_count::WHITE_POSSIBLE_MOVES_FIRST_POSITION;
use muehle::move_token_count::WHITE_TOKEN_FIRST_POSITION;
use muehle::position::decode_positions;

#[test]
fn test1_forward_step_boards() {
    let token_count = BLACK_TOKEN_FIRST_POSITION + 2 * WHITE_TOKEN_FIRST_POSITION;
    let black_2_moves = 2 * BLACK_POSSIBLE_MOVES_FIRST_POSITION;
    let white_9_moves = 9 * WHITE_POSSIBLE_MOVES_FIRST_POSITION;
    let white_6_moves = 6 * WHITE_POSSIBLE_MOVES_FIRST_POSITION;
    let board1 = decode_positions("WEEEEBBBWWEEEEEEWEEEEEEE".to_string())
        + black_2_moves
        + 5 * WHITE_POSSIBLE_MOVES_FIRST_POSITION
        + token_count;

    let expected_boards = vec![
        decode_positions("EWEEEBBBWWEEEEEEWEEEEEEE".to_string())
            + token_count
            + 3 * BLACK_POSSIBLE_MOVES_FIRST_POSITION
            + 7 * WHITE_POSSIBLE_MOVES_FIRST_POSITION,
        decode_positions("WEEEEBBBEWEEEEEWWEEEEEEE".to_string())
            + token_count
            + black_2_moves
            + white_9_moves,
        decode_positions("WEEEEBBBWEWEEEEEWEEEEEEE".to_string())
            + token_count
            + black_2_moves
            + white_9_moves,
        decode_positions("WEEEEBBBWWEEEEEEEWEEEEEE".to_string())
            + token_count
            + black_2_moves
            + white_6_moves,
        decode_positions("WEEEEBBBWWEEEEEEEEEEEEEW".to_string())
            + token_count
            + black_2_moves
            + white_6_moves,
    ];

    let forwards = forward_step_boards(
        &board1,
        Token::parse_to_u8(Token::White),
        AiPhase::new(Phase::Move, 25),
    );
    assert!(forwards.len() > 0);
    for forward_board in forwards {
        assert!(expected_boards.contains(&forward_board));
    }
}

#[test]
fn test2_forward_step_boards() {
    let token_count = 2 * BLACK_TOKEN_FIRST_POSITION + 3 * WHITE_TOKEN_FIRST_POSITION;
    let black_2_moves = 2 * BLACK_POSSIBLE_MOVES_FIRST_POSITION;
    let black_3_moves = 3 * BLACK_POSSIBLE_MOVES_FIRST_POSITION;
    let white_8_moves = 8 * WHITE_POSSIBLE_MOVES_FIRST_POSITION;
    let white_9_moves = 9 * WHITE_POSSIBLE_MOVES_FIRST_POSITION;
    let white_10_moves = 10 * WHITE_POSSIBLE_MOVES_FIRST_POSITION;
    let board = decode_positions("WEEEBBBBWWEEEEWEWEEEEEEE".to_string())
        + token_count
        + white_8_moves
        + black_2_moves;
    let expected_boards = vec![
        decode_positions("EWEEBBBBWWEEEEWEWEEEEEEE".to_string())
            + token_count
            + white_10_moves
            + black_3_moves,
        decode_positions("WEEEBBBBEWEEEEWWWEEEEEEE".to_string())
            + token_count
            + white_10_moves
            + black_2_moves,
        decode_positions("WEEEBBBBWEWEEEWEWEEEEEEE".to_string())
            + token_count
            + 12 * WHITE_POSSIBLE_MOVES_FIRST_POSITION
            + black_2_moves,
        decode_positions("WEEEBBBBWWEEEEWEEWEEEEEE".to_string())
            + token_count
            + white_9_moves
            + black_2_moves,
        decode_positions("WEEEBBBBWWEEEEWEEEEEEEEW".to_string())
            + token_count
            + white_9_moves
            + black_2_moves,
        decode_positions("WEEEBBBBWWEEEWEEWEEEEEEE".to_string())
            + token_count
            + 7 * WHITE_POSSIBLE_MOVES_FIRST_POSITION
            + black_3_moves,
        decode_positions("WEEEBBBBWWEEEEEEWEEEEEWE".to_string())
            + token_count
            + white_8_moves
            + black_3_moves,
        decode_positions("WEEEEBBBWWEEEEEWWEEEEEEE".to_string()) // with mill
            + BLACK_TOKEN_FIRST_POSITION
            + 3 * WHITE_TOKEN_FIRST_POSITION
            + 5 * WHITE_POSSIBLE_MOVES_FIRST_POSITION
            + black_2_moves,
    ];

    let forwards = forward_step_boards(
        &board,
        Token::parse_to_u8(Token::White),
        AiPhase::new(Phase::Move, 25),
    );
    assert!(forwards.len() > 0);
    for forward_board in forwards {
        assert!(expected_boards.contains(&forward_board));
    }
}

#[test]
fn test3_forward_steps_bourds() {
    let token_count = 5 * BLACK_TOKEN_FIRST_POSITION + 6 * WHITE_TOKEN_FIRST_POSITION;
    let white_7_moves = 7 * WHITE_POSSIBLE_MOVES_FIRST_POSITION;
    let white_8_moves = 8 * WHITE_POSSIBLE_MOVES_FIRST_POSITION;
    let white_9_moves = 9 * WHITE_POSSIBLE_MOVES_FIRST_POSITION;
    let black_2_moves = 2 * BLACK_POSSIBLE_MOVES_FIRST_POSITION;
    let board = decode_positions("BWEEEWBBWBBWWBBWEEEEEEWE".to_string())
        + 5 * BLACK_TOKEN_FIRST_POSITION
        + 2 * BLACK_POSSIBLE_MOVES_FIRST_POSITION
        + 5 * WHITE_TOKEN_FIRST_POSITION
        + 7 * WHITE_POSSIBLE_MOVES_FIRST_POSITION;
    let expected_boards = vec![
        decode_positions("BWEEEWBBWBBWWBBWWEEEEEWE".to_string())
            + token_count
            + white_8_moves
            + black_2_moves,
        decode_positions("BWEEEWBBWBBWWBBWEWEEEEWE".to_string())
            + token_count
            + white_9_moves
            + black_2_moves,
        decode_positions("BWEEEWBBWBBWWBBWEEWEEEWE".to_string())
            + token_count
            + white_9_moves
            + BLACK_POSSIBLE_MOVES_FIRST_POSITION,
        decode_positions("BWEEEWBBWBBWWBBWEEEWEEWE".to_string())
            + token_count
            + white_9_moves
            + black_2_moves,
        decode_positions("BWEEEWBBWBBWWBBWEEEEWEWE".to_string())
            + token_count
            + white_8_moves
            + black_2_moves,
        decode_positions("BWEEEWBBWBBWWBBWEEEEEWWE".to_string())
            + token_count
            + white_7_moves
            + black_2_moves,
        decode_positions("BWEEEWBBWBBWWBBWEEEEEEWW".to_string())
            + token_count
            + white_7_moves
            + black_2_moves,
        decode_positions("BWWEEWBBWBBWWBBWEEEEEEWE".to_string())
            + token_count
            + white_7_moves
            + BLACK_POSSIBLE_MOVES_FIRST_POSITION,
        decode_positions("BWEWEWBBWBBWWBBWEEEEEEWE".to_string())
            + token_count
            + white_9_moves
            + black_2_moves,
        decode_positions("BWEEWWBBWBBWWBBWEEEEEEWE".to_string())
            + token_count
            + 6 * WHITE_POSSIBLE_MOVES_FIRST_POSITION
            + black_2_moves,
    ];

    let forwards = forward_step_boards(
        &board,
        Token::parse_to_u8(Token::White),
        AiPhase::new(Phase::Setting, 14),
    );
    assert!(forwards.len() > 0);
    for forward_board in forwards {
        assert!(expected_boards.contains(&forward_board));
    }
}
