use muehle::action::Action;
use muehle::action::Move;
use muehle::action::list_actions;
use muehle::action::list_moves;
use muehle::action::list_moves_move_phase;
use muehle::action::list_moves_set_phase;
use muehle::game_state::Phase;
use muehle::game_state::Token;
use muehle::position::decode_positions;

#[test]
fn test_list_actions() {
    let board = decode_positions("BWWEWBBBBEEWWWEEBEEEEEEE".to_string());
    let expected_actions = vec![
        Action::new(Some(2), 10, None),
        Action::new(Some(2), 3, None),
        Action::new(Some(11), 10, None),
        Action::new(Some(12), 20, None),
        Action::new(Some(13), 14, None),
        Action::new(Some(4), 3, Some(5)),
        Action::new(Some(4), 3, Some(6)),
        Action::new(Some(4), 3, Some(7)),
        Action::new(Some(4), 3, Some(0)),
        Action::new(Some(4), 3, Some(8)),
        Action::new(Some(4), 3, Some(16)),
    ];

    for action in list_actions(&board, Token::parse_to_u8(Token::White), Phase::Move, None) {
        assert!(expected_actions.contains(&action));
    }
}

#[test]
fn test_list_actions2() {
    let board = decode_positions("WBBEBWWWWEEBBBEEWWEEEEEE".to_string());
    let expected_actions = vec![
        Action::new(Some(2), 10, None),
        Action::new(Some(2), 3, None),
        Action::new(Some(11), 10, None),
        Action::new(Some(12), 20, None),
        Action::new(Some(13), 14, None),
        Action::new(Some(4), 3, Some(17)),
    ];

    for action in list_actions(&board, Token::parse_to_u8(Token::Black), Phase::Move, None) {
        assert!(expected_actions.contains(&action));
    }
}

#[test]
fn test_list_actions3() {
    let board = decode_positions("BWWEWBBBBEEWWWEBBEEEEEEE".to_string());
    let expected_actions = vec![
        Action::new(None, 9, None),
        Action::new(None, 10, None),
        Action::new(None, 14, None),
        Action::new(None, 15, None),
        Action::new(None, 17, None),
        Action::new(None, 18, None),
        Action::new(None, 19, None),
        Action::new(None, 20, Some(15)),
        Action::new(None, 21, None),
        Action::new(None, 22, None),
        Action::new(None, 23, None),
        Action::new(None, 3, Some(15)),
    ];

    for action in list_actions(&board, Token::parse_to_u8(Token::White), Phase::Setting, None) {
        assert!(expected_actions.contains(&action));
    }
}

#[test]
fn test_list_moves() {
    let board = decode_positions("WBBEBWWWWEEBBBEEWEEEEEEE".to_string());
    let moves_set_phase =
        list_moves(&board, Token::parse_to_u8(Token::Black), Phase::Setting, None);
    let expected_move_set_phase = list_moves_set_phase(board);
    assert_eq!(moves_set_phase, expected_move_set_phase);

    let board2 = decode_positions("BWWEWBBBBEEWWWEEBEEEEEEE".to_string());
    let moves_move_phase = list_moves(&board2, Token::parse_to_u8(Token::White), Phase::Move, None);
    let expected_move_move_phase =
        list_moves_move_phase(&board2, Token::parse_to_u8(Token::White), None);
    assert_eq!(moves_move_phase, expected_move_move_phase);
}

#[test]
fn test_list_moves_move_phase() {
    let board = decode_positions("BWWEWBBBBEEWWWEEBEEEEEEE".to_string());
    let expected_moves = vec![
        Move::new(Some(2), 10),
        Move::new(Some(2), 3),
        Move::new(Some(11), 10),
        Move::new(Some(4), 3),
        Move::new(Some(12), 20),
        Move::new(Some(13), 14),
    ];

    for one_move in list_moves_move_phase(&board, Token::parse_to_u8(Token::White), None) {
        assert!(expected_moves.contains(&one_move));
    }
}

#[test]
fn test_list_moves_set_phase() {
    let board = decode_positions("WBBEBWWWWEEBBBEEWEEEEEEE".to_string());
    let expected_moves = vec![
        Move::new(None, 3),
        Move::new(None, 9),
        Move::new(None, 10),
        Move::new(None, 14),
        Move::new(None, 15),
        Move::new(None, 17),
        Move::new(None, 18),
        Move::new(None, 19),
        Move::new(None, 20),
        Move::new(None, 21),
        Move::new(None, 22),
        Move::new(None, 23),
    ];

    for one_move in list_moves_set_phase(board) {
        assert!(expected_moves.contains(&one_move));
    }
}

#[test]
fn test_move_phase_actions_keep_occupied_starts() {
    // Board string "WEEEEBBBWWEEEEEEWEEEEEEE": white on 0, 8, 9 and 16.
    let board = decode_positions("WEEEEBBBWWEEEEEEWEEEEEEE".to_string());
    let actions = list_actions(&board, Token::parse_to_u8(Token::White), Phase::Move, None);

    // The slide from 0 to its empty neighbor 1 is offered, without a capture.
    assert!(actions.contains(&Action::new(Some(0), 1, None)));
    // No action starts from an empty cell, and every start holds white.
    for action in actions {
        let start = action.start_position.unwrap();
        assert_eq!(muehle::position::get_token_at(board, start), Token::White);
    }
}

#[test]
fn test_closing_into_empty_opponent_degrades() {
    // White about to close the line 1, 2, 3 by sliding 4 to 3; no black
    // tokens exist, so the closing move expands into zero actions.
    let board = decode_positions("EWWEWEEEEEEEEEEEEEEEEEEE".to_string());
    let before = board;
    let after = muehle::moves::apply_move(
        &board,
        &Move::new(Some(4), 3),
        Token::parse_to_u8(Token::White),
    );
    assert!(muehle::mill_detection::is_mill_closing(before, after, 0b11));

    let actions = list_actions(&board, Token::parse_to_u8(Token::White), Phase::Move, None);
    for action in &actions {
        assert!(!(action.start_position == Some(4) && action.end_position == 3));
    }

    // With a loose black token on the board the same closing move is
    // expanded into exactly one capture.
    let board2 = decode_positions("EWWEWEEEEEBEEEEEEEEEEEEE".to_string());
    let actions2 = list_actions(&board2, Token::parse_to_u8(Token::White), Phase::Move, None);
    assert!(actions2.contains(&Action::new(Some(4), 3, Some(10))));
}
