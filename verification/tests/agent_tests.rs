use muehle::agent::AiPhase;
use muehle::agent::calculate_next_move;
use muehle::agent::now_instant;
use muehle::enumerate::encode_single_position;
use muehle::game_state::Phase;
use muehle::game_state::Token;
use muehle::game_utils::get_start_end_position;
use muehle::minimax::evaluate_action;
use muehle::minimax::minimax;
use muehle::move_token_count::insert_number_of_possible_moves_to_board;
use muehle::move_token_count::insert_token_count_to_board;
use muehle::position::decode_positions;

#[test]
fn test_phase() {
    let phase = AiPhase::new(Phase::Setting, 0);
    println!(
        "p:{}, s:{}",
        if phase.phase == Phase::Setting { " Set" } else { " Move" },
        phase.step_counter
    );
    println!(
        "p:{}, s:{}",
        if phase.increased().phase == Phase::Setting { " Set" } else { " Move" },
        phase.increased().step_counter
    );
}

#[test]
fn test_phase_switches_to_move_after_18_steps() {
    let mut phase = AiPhase::new(Phase::Setting, 0);
    for expected_step in 1..=17u8 {
        phase = phase.increased();
        assert_eq!(phase.step_counter, expected_step);
        assert_eq!(phase.phase, if expected_step < 18 { Phase::Setting } else { Phase::Move });
    }
    phase = phase.increased();
    assert_eq!(phase.step_counter, 18);
    assert_eq!(phase.phase, Phase::Move);
}

#[test]
fn test_encode_single_position() {
    assert_eq!("8", encode_single_position(0));
    assert_eq!("1", encode_single_position(1));
    assert_eq!("2", encode_single_position(2));
    assert_eq!("3", encode_single_position(3));
    assert_eq!("4", encode_single_position(4));
    assert_eq!("5", encode_single_position(5));
    assert_eq!("6", encode_single_position(6));
    assert_eq!("7", encode_single_position(7));
    assert_eq!("16", encode_single_position(8));
    assert_eq!("9", encode_single_position(9));
    assert_eq!("10", encode_single_position(10));
    assert_eq!("11", encode_single_position(11));
    assert_eq!("12", encode_single_position(12));
    assert_eq!("13", encode_single_position(13));
    assert_eq!("14", encode_single_position(14));
    assert_eq!("15", encode_single_position(15));
    assert_eq!("24", encode_single_position(16));
    assert_eq!("17", encode_single_position(17));
    assert_eq!("18", encode_single_position(18));
    assert_eq!("19", encode_single_position(19));
    assert_eq!("20", encode_single_position(20));
    assert_eq!("21", encode_single_position(21));
    assert_eq!("22", encode_single_position(22));
    assert_eq!("23", encode_single_position(23));
}

#[test]
fn test_get_start_end_position() {
    assert_eq!((None, 7), get_start_end_position("7".to_string()));
    assert_eq!((None, 23), get_start_end_position("23".to_string()));
    assert_eq!((Some(7), 12), get_start_end_position("7,12".to_string()));
    assert_eq!((Some(23), 4), get_start_end_position("23,4".to_string()));
    assert_eq!((Some(0), 8), get_start_end_position("0,8".to_string()));
    assert_eq!((Some(10), 18), get_start_end_position("10,18".to_string()));
}

#[test]
fn test_evaluate_action_exact_value() {
    // White on 0, 1 and 2; black on 12 and 13.  Material: stored counts
    // 1 vs 0, so 1000.  Mobility: white 4, black 4, so no further term.
    let board = decode_positions("WWWEEEEEEEEEBBEEEEEEEEEE".to_string());
    let full = insert_number_of_possible_moves_to_board(insert_token_count_to_board(board));
    assert_eq!(evaluate_action(full, AiPhase::new(Phase::Setting, 5)), 1000);
}

#[test]
fn test_terminal_scoring_prefers_faster_wins() {
    // Black is down to two tokens: the position is a won game for white.
    let board = decode_positions("WWWWEEEEEEEEBBEEEEEEEEEE".to_string());
    let full = insert_number_of_possible_moves_to_board(insert_token_count_to_board(board));
    let time = now_instant();

    let early = minimax(full, 2, i64::MIN, i64::MAX, 0b11, AiPhase::new(Phase::Move, 20), &time, 60)
        .unwrap();
    let late = minimax(full, 2, i64::MIN, i64::MAX, 0b11, AiPhase::new(Phase::Move, 22), &time, 60)
        .unwrap();
    assert_eq!(early, i64::MAX - 20);
    assert_eq!(late, i64::MAX - 22);
    assert!(early > late);
}

#[test]
fn test_order_moves_sorts_by_static_score() {
    let strong = insert_number_of_possible_moves_to_board(insert_token_count_to_board(
        decode_positions("WWWWEEEEEEEEBBEEEEEEEEEE".to_string()),
    ));
    let weak = insert_number_of_possible_moves_to_board(insert_token_count_to_board(
        decode_positions("WWEEEEEEEEEEBBBBEEEEEEEE".to_string()),
    ));
    let phase = AiPhase::new(Phase::Setting, 10);
    let boards = vec![weak, strong, weak];

    let for_white = muehle::minimax::order_moves(&boards, phase, 0b11);
    assert_eq!(for_white, vec![strong, weak, weak]);

    let for_black = muehle::minimax::order_moves(&boards, phase, 0b10);
    assert_eq!(for_black, vec![weak, weak, strong]);

    assert!(
        evaluate_action(strong, phase) > evaluate_action(weak, phase)
    );
}

#[test]
fn test_minimax_selects_the_forced_mill() {
    // White can close the line 7, 0, 1 in one ply by sliding 6 to 7;
    // no other white move closes anything.
    let board = decode_positions("WWEEEEWEEEEEEEEEEEBEBEBE".to_string());
    let chosen = calculate_next_move(board, Token::White, AiPhase::new(Phase::Move, 30), 2, 60);
    assert_eq!(chosen.start_position, Some(6));
    assert_eq!(chosen.end_position, 7);
    assert!(chosen.beatable_position.is_some());
}
