use muehle::mill_detection::is_all_part_of_mill;
use muehle::mill_detection::is_mill_closing;
use muehle::mill_detection::is_part_of_mill;
use muehle::position::decode_positions;
use muehle::position::reverse_token_of_board;

#[test]
fn test_is_part_of_mill() {
    let board = 0b111111101010101111000010001111110000001000100000;
    let now = std::time::Instant::now();

    for _ in 0..100000 {
        assert!(is_part_of_mill(board, 0, 0b11));
        assert!(is_part_of_mill(board, 7, 0b11));
        assert!(is_part_of_mill(board, 1, 0b11));
        assert!(is_part_of_mill(board, 13, 0b11));
        assert!(is_part_of_mill(board, 14, 0b11));
        assert!(is_part_of_mill(board, 15, 0b11));

        assert!(!is_part_of_mill(board, 2, 0b11));
        assert!(!is_part_of_mill(board, 8, 0b11));
        assert!(!is_part_of_mill(board, 4, 0b11));
        assert!(!is_part_of_mill(board, 5, 0b11));
        assert!(!is_part_of_mill(board, 6, 0b11));
        assert!(!is_part_of_mill(board, 9, 0b11));

        assert!(is_part_of_mill(board, 3, 0b10));
        assert!(is_part_of_mill(board, 4, 0b10));
        assert!(is_part_of_mill(board, 5, 0b10));

        assert!(!is_part_of_mill(board, 1, 0b10));
        assert!(!is_part_of_mill(board, 2, 0b10));
    }
    println!("Time elapsed: {:?}", now.elapsed());

    assert!(!is_part_of_mill(board, 8, 0b10));
    assert!(!is_part_of_mill(board, 9, 0b10));
    assert!(!is_part_of_mill(board, 10, 0b10));
    assert!(!is_part_of_mill(board, 19, 0b10));
    assert!(!is_part_of_mill(board, 21, 0b10));
}

#[test]
fn test_is_closing_mill() {
    // normal mill closing
    let board_before = decode_positions("EWWEWEEEEEEEEWEEEBBBEEWE".to_string());
    let board_after = decode_positions("EWWWEEEEEEEEEWEEEBBBEEWE".to_string());
    // mill broken and re-closed in one swing
    let board_before2 = decode_positions("EWWWEEEEEWEWWEEEBBBEEWE".to_string());
    let board_after2 = decode_positions("EWEWEEEEEWWWWEEEBBBEEWE".to_string());
    // normal move
    let board_before3 = decode_positions("EWWWEEEEEWEWWEEEBBBEEWE".to_string());
    let board_after3 = decode_positions("EWWEWEEEEWEWWEEEBBBEEWE".to_string());

    assert!(is_mill_closing(board_before, board_after, 0b11));
    assert!(is_mill_closing(board_before2, board_after2, 0b11));
    assert!(!is_mill_closing(board_before3, board_after3, 0b11));
    assert!(is_mill_closing(
        reverse_token_of_board(board_before),
        reverse_token_of_board(board_after),
        0b10
    ));
    assert!(is_mill_closing(
        reverse_token_of_board(board_before2),
        reverse_token_of_board(board_after2),
        0b10
    ));
    assert!(!is_mill_closing(
        reverse_token_of_board(board_before3),
        reverse_token_of_board(board_after3),
        0b10
    ));
}

#[test]
fn test_is_all_part_of_mill() {
    let board = decode_positions("WWEEEBBBWEEEEBBBWEEEEEEE".to_string());
    assert!(is_all_part_of_mill(board, 0b10));
    assert!(!is_all_part_of_mill(board, 0b11));
}
