use muehle::game_state::Token;
use muehle::position::create_token_iter;
use muehle::position::decode_positions;
use muehle::position::encode_positions;
use muehle::position::get_number_of_tokens;
use muehle::position::get_token_at;
use muehle::position::negate_token;
use muehle::position::reverse_token_of_board;
use muehle::position::set_token_at;

#[test]
fn test_get_token_at() {
    let board1: u64 = 0b101000000011110011101110110010110011101100100010; // BBEEEWWE WBWBWEBW EWBWEBEB

    assert_eq!(Token::Black, get_token_at(board1, 0));
    assert_eq!(Token::Black, get_token_at(board1, 1));
    assert_eq!(Token::Empty, get_token_at(board1, 2));
    assert_eq!(Token::Empty, get_token_at(board1, 3));
    assert_eq!(Token::Empty, get_token_at(board1, 4));
    assert_eq!(Token::White, get_token_at(board1, 5));
    assert_eq!(Token::White, get_token_at(board1, 6));
    assert_eq!(Token::Empty, get_token_at(board1, 7));
    assert_eq!(Token::White, get_token_at(board1, 8));
    assert_eq!(Token::Black, get_token_at(board1, 9));
    assert_eq!(Token::White, get_token_at(board1, 10));
    assert_eq!(Token::Black, get_token_at(board1, 11));
    assert_eq!(Token::White, get_token_at(board1, 12));
    assert_eq!(Token::Empty, get_token_at(board1, 13));
    assert_eq!(Token::Black, get_token_at(board1, 14));
    assert_eq!(Token::White, get_token_at(board1, 15));
    assert_eq!(Token::Empty, get_token_at(board1, 16));
    assert_eq!(Token::White, get_token_at(board1, 17));
    assert_eq!(Token::Black, get_token_at(board1, 18));
    assert_eq!(Token::White, get_token_at(board1, 19));
    assert_eq!(Token::Empty, get_token_at(board1, 20));
    assert_eq!(Token::Black, get_token_at(board1, 21));
    assert_eq!(Token::Empty, get_token_at(board1, 22));
    assert_eq!(Token::Black, get_token_at(board1, 23));
}

#[test]
fn test_set_token_at() {
    let mut board = 0b0;
    board = set_token_at(board, 0, 0b11);
    board = set_token_at(board, 23, 0b11);
    assert_eq!(0b110000000000000000000000000000000000000000000011, board);
}

#[test]
fn test_negate_token() {
    assert_eq!(0b11, negate_token(0b10));
    assert_eq!(0b10, negate_token(0b11));
    assert_eq!(0b00, negate_token(0b00));
    assert_eq!(0b00, negate_token(0b01));
    assert_eq!(0b00, negate_token(0b10011010));
}

#[test]
fn test_reverse_token_of_board() {
    let board = 0b101000000011110011101110110010110011101100100010;
    let reversed_board = 0b111100000010100010111011100011100010111000110011;

    assert_eq!(reversed_board, reverse_token_of_board(board));
}

#[test]
fn test_create_token_iter() {
    let board1: u64 = 0b0;
    for position in create_token_iter(board1) {
        assert_eq!(0b00, position);
    }

    let board2: u64 = 0b101000000011110011101110110010110011101100100010;
    let expected_positions: Vec<u8> = vec![
        0b10, 0b00, 0b10, 0b00, 0b11, 0b10, 0b11, 0b00, 0b11, 0b10, 0b00, 0b11, 0b10, 0b11, 0b10,
        0b11, 0b00, 0b11, 0b11, 0b00, 0b00, 0b00, 0b10, 0b10,
    ];
    for (index, position) in create_token_iter(board2).into_iter().enumerate() {
        assert_eq!(expected_positions[23 - index], position);
    }
}

#[test]
fn test_get_number_of_tokens() {
    let board1 = 0b0;
    let board2 = 0b101000000011110011101110110010110011101100100010;
    let board3 = 0b000000000011110011101110110010110011101100100010;
    let board4 = 0b111100000011110011101110110010110011101100100010;

    assert_eq!((0, 0), (get_number_of_tokens(board1, 0b10), get_number_of_tokens(board1, 0b11)));
    assert_eq!((8, 8), (get_number_of_tokens(board2, 0b10), get_number_of_tokens(board2, 0b11)));
    assert_eq!((6, 8), (get_number_of_tokens(board3, 0b10), get_number_of_tokens(board3, 0b11)));
    assert_eq!((6, 10), (get_number_of_tokens(board4, 0b10), get_number_of_tokens(board4, 0b11)));
}

#[test]
fn test_decode_positions() {
    let encoded_positions = "EEEEEEEEEEEEEEEEEEEEEEEE";
    let encoded_positions2 = "BBEEEWWEWBWBWEBWEWBWEBEB";
    let encoded_positions3 = "WEEWEWBWBBEEBWEWEEEBEEEE";

    let expected_decoded_positions = 0b0;
    let expected_decoded_positions2 = 0b101000000011110011101110110010110011101100100010;
    let expected_positions3 = 0b110000110011101110100000101100110000001000000000;

    assert_eq!(expected_decoded_positions, decode_positions(encoded_positions.to_string()));
    assert_eq!(expected_decoded_positions2, decode_positions(encoded_positions2.to_string()));
    assert_eq!(expected_positions3, decode_positions(encoded_positions3.to_string()));
}

#[test]
fn test_encode_positions() {
    let positions = 0b0;
    let positions2 = 0b101000000011110011101110110010110011101100100010;

    let expected_encoded_positions = "EEEEEEEEEEEEEEEEEEEEEEEE";
    let expected_encoded_positions2 = "BBEEEWWEWBWBWEBWEWBWEBEB";

    assert_eq!(expected_encoded_positions, encode_positions(positions));
    assert_eq!(expected_encoded_positions2, encode_positions(positions2))
}

#[test]
fn test_codec_round_trip() {
    let board = decode_positions("BWWEWBBBBEEWWWEEBEEEEEEE".to_string());
    assert_eq!(board, decode_positions(encode_positions(board)));
    let text = "WEEWEWBWBBEEBWEWEEEBEEEE";
    assert_eq!(text, encode_positions(decode_positions(text.to_string())));
}
