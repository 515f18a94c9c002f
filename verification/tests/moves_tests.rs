use muehle::action::Action;
use muehle::action::Move;
use muehle::game_state::Token;
use muehle::moves::apply_action;
use muehle::moves::apply_move;
use muehle::moves::is_beat_possible;
use muehle::moves::is_move_valid;
use muehle::moves::is_neighbor;
use muehle::position::decode_positions;
use muehle::position::set_token_at;

#[test]
fn test_is_move_valid() {
    // move phase
    assert_eq!(is_move_valid(7, 6, 0b11, 9), false);
    assert_eq!(is_move_valid(7, 0, 0b00, 9), true);
    assert_eq!(is_move_valid(8, 16, 0b00, 9), true);
    assert_eq!(is_move_valid(9, 1, 0b00, 9), false);

    // end phase
    assert_eq!(is_move_valid(4, 23, 0b00, 3), true);
    assert_eq!(is_move_valid(1, 5, 0b00, 3), true);
    assert_eq!(is_move_valid(4, 1, 0b11, 3), false);
}

#[test]
fn test_is_neighbor() {
    let now = std::time::Instant::now();
    for _ in 0..10000 {
        assert_eq!(is_neighbor(0, 1), true);
        assert_eq!(is_neighbor(0, 7), true);
        assert_eq!(is_neighbor(0, 8), true);
        assert_eq!(is_neighbor(10, 2), true);
        assert_eq!(is_neighbor(6, 5), true);
        assert_eq!(is_neighbor(16, 17), true);
        assert_eq!(is_neighbor(22, 14), true);
        assert_eq!(is_neighbor(0, 2), false);
        assert_eq!(is_neighbor(0, 16), false);
        assert_eq!(is_neighbor(1, 9), false);
        assert_eq!(is_neighbor(22, 10), false);
        assert_eq!(is_neighbor(7, 8), false);
        assert_eq!(is_neighbor(23, 17), false);
        assert_eq!(is_neighbor(16, 0), false);
    }
    println!("Time elapsed: {:?}", now.elapsed());
}

#[test]
fn test_apply_move() {
    let board = decode_positions("WBWWWWBBBEEEEEEEEEEEEEEE".to_string());
    let expected_board = decode_positions("WBWWWWBBEBEEEEEEEEEEEEEE".to_string());

    assert_eq!(
        apply_move(&board, &Move::new(Some(8), 9), Token::parse_to_u8(Token::Black)),
        expected_board
    );
}

#[test]
fn test_apply_action() {
    let board = decode_positions("WBWWWWBBBEEEEEEEEEEEEEEE".to_string());
    let expected_board = decode_positions("WBWWWWBBEBEEEEEEEEEEEEEE".to_string());

    assert_eq!(
        apply_action(&board, &Action::new(Some(8), 9, None), Token::parse_to_u8(Token::Black)),
        expected_board
    );

    let board2 = decode_positions("WBWWWEWBBEEEEEEEEEEEEEEE".to_string());
    let expected_board2 = decode_positions("WBWWWWEEBEEEEEEEEEEEEEEE".to_string());

    assert_eq!(
        apply_action(&board2, &Action::new(Some(6), 5, Some(7)), Token::parse_to_u8(Token::White)),
        expected_board2
    );
}

#[test]
fn test_is_beat_possible() {
    let mut board = 0b111111111010101000000000000000000000000000000000;

    let now = std::time::Instant::now();
    for _ in 0..1000000 {
        assert!(is_beat_possible(board, 0, 0b10));
        assert!(!is_beat_possible(board, 1, 0b10));
        assert!(!is_beat_possible(board, 2, 0b10));
    }
    println!("Time elapsed: {:?}", now.elapsed());

    assert!(!is_beat_possible(board, 3, 0b10));
    assert!(!is_beat_possible(board, 4, 0b10));
    assert!(!is_beat_possible(board, 5, 0b10));
    assert!(!is_beat_possible(board, 6, 0b10));
    assert!(!is_beat_possible(board, 7, 0b10));

    assert!(!is_beat_possible(board, 0, 0b11));
    assert!(!is_beat_possible(board, 1, 0b11));
    assert!(!is_beat_possible(board, 2, 0b11));
    assert!(!is_beat_possible(board, 3, 0b11));
    assert!(is_beat_possible(board, 4, 0b11));
    assert!(!is_beat_possible(board, 5, 0b11));
    assert!(!is_beat_possible(board, 6, 0b11));
    assert!(!is_beat_possible(board, 7, 0b11));

    board = set_token_at(board, 7, 0b11);

    assert!(is_beat_possible(board, 0, 0b10));
    assert!(is_beat_possible(board, 1, 0b10));
    assert!(is_beat_possible(board, 2, 0b10));
    assert!(is_beat_possible(board, 3, 0b10));
    assert!(!is_beat_possible(board, 4, 0b10));
    assert!(!is_beat_possible(board, 5, 0b10));
    assert!(!is_beat_possible(board, 6, 0b10));
    assert!(is_beat_possible(board, 7, 0b10));

    assert!(!is_beat_possible(board, 0, 0b11));
    assert!(!is_beat_possible(board, 1, 0b11));
    assert!(!is_beat_possible(board, 2, 0b11));
    assert!(!is_beat_possible(board, 3, 0b11));
    assert!(is_beat_possible(board, 4, 0b11));
    assert!(is_beat_possible(board, 5, 0b11));
    assert!(is_beat_possible(board, 6, 0b11));
    assert!(!is_beat_possible(board, 7, 0b11));
}

#[test]
fn test_capture_rule_with_unprotected_token() {
    // Black holds a closed mill at 17, 18, 19 and one loose token at 10.
    let board = decode_positions("EEEEEEEEEEBEEEEEEBBBEEEE".to_string());
    // Tokens inside the mill are protected while a loose token exists.
    assert!(!is_beat_possible(board, 17, 0b11));
    assert!(!is_beat_possible(board, 18, 0b11));
    assert!(!is_beat_possible(board, 19, 0b11));
    // The loose token is fair game.
    assert!(is_beat_possible(board, 10, 0b11));

    // Once every black token is part of a mill, all of them may fall.
    let only_mill = decode_positions("EEEEEEEEEEEEEEEEEBBBEEEE".to_string());
    assert!(is_beat_possible(only_mill, 17, 0b11));
    assert!(is_beat_possible(only_mill, 18, 0b11));
    assert!(is_beat_possible(only_mill, 19, 0b11));
}

#[test]
fn test_flying_rule_boundary() {
    let board = decode_positions("WEEEEEEEEEEEEEEEEEEEEEEE".to_string());
    // With exactly 3 tokens, any empty destination is legal.
    for end in 1..24 {
        assert!(is_move_valid(0, end, Token::parse_to_u8(get(board, end)), 3));
    }
    // With 4 or more tokens, only empty neighbors are legal.
    for end in 1..24 {
        let legal = is_move_valid(0, end, Token::parse_to_u8(get(board, end)), 4);
        assert_eq!(legal, end == 1 || end == 7 || end == 8);
    }
}

fn get(board: u64, position: usize) -> Token {
    muehle::position::get_token_at(board, position)
}
