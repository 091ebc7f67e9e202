use muehle::position::{
    create_token_iter, decode_letters, decode_positions, encode_positions,
    encode_single_position, get_token_at, negate_token, reverse_token_of_board, set_token_at,
    try_decode_positions,
};

#[test]
fn test_encode_positions() {
    let positions = 0b0;
    let positions2 = 0b101000000011110011101110110010110011101100100010;

    let expected_encoded_positions = "EEEEEEEEEEEEEEEEEEEEEEEE";
    let expected_encoded_positions2 = "BBEEEWWEWBWBWEBWEWBWEBEB";

    assert_eq!(expected_encoded_positions, encode_positions(positions));
    assert_eq!(expected_encoded_positions2, encode_positions(positions2))
}

#[test]
fn test_decode_positions() {
    let encoded_positions = "EEEEEEEEEEEEEEEEEEEEEEEE";
    let encoded_positions2 = "BBEEEWWEWBWBWEBWEWBWEBEB";
    let encoded_positions3 = "WEEWEWBWBBEEBWEWEEEBEEEE";

    let expected_decoded_positions = 0b0;
    let expected_decoded_positions2 = 0b101000000011110011101110110010110011101100100010;
    let expected_positions3 = 0b110000110011101110100000101100110000001000000000;

    assert_eq!(expected_decoded_positions, decode_positions(encoded_positions.to_string()));
    assert_eq!(expected_decoded_positions2, decode_positions(encoded_positions2.to_string()));
    assert_eq!(expected_positions3, decode_positions(encoded_positions3.to_string()));
}

#[test]
fn test_get_token_at() {
    let board1: u64 = 0b101000000011110011101110110010110011101100100010; // BBEEEWWE WBWBWEBW EWBWEBEB

    assert_eq!(0b10, get_token_at(board1, 0));
    assert_eq!(0b10, get_token_at(board1, 1));
    assert_eq!(0b00, get_token_at(board1, 2));
    assert_eq!(0b00, get_token_at(board1, 3));
    assert_eq!(0b00, get_token_at(board1, 4));
    assert_eq!(0b11, get_token_at(board1, 5));
    assert_eq!(0b11, get_token_at(board1, 6));
    assert_eq!(0b00, get_token_at(board1, 7));
    assert_eq!(0b11, get_token_at(board1, 8));
    assert_eq!(0b10, get_token_at(board1, 9));
    assert_eq!(0b11, get_token_at(board1, 10));
    assert_eq!(0b10, get_token_at(board1, 11));
    assert_eq!(0b11, get_token_at(board1, 12));
    assert_eq!(0b00, get_token_at(board1, 13));
    assert_eq!(0b10, get_token_at(board1, 14));
    assert_eq!(0b11, get_token_at(board1, 15));
    assert_eq!(0b00, get_token_at(board1, 16));
    assert_eq!(0b11, get_token_at(board1, 17));
    assert_eq!(0b10, get_token_at(board1, 18));
    assert_eq!(0b11, get_token_at(board1, 19));
    assert_eq!(0b00, get_token_at(board1, 20));
    assert_eq!(0b10, get_token_at(board1, 21));
    assert_eq!(0b00, get_token_at(board1, 22));
    assert_eq!(0b10, get_token_at(board1, 23));
}

#[test]
fn test_set_token_at() {
    let mut board = 0b0;
    board = set_token_at(board, 0, 0b11);
    board = set_token_at(board, 23, 0b11);
    assert_eq!(0b110000000000000000000000000000000000000000000011, board);
}

#[test]
fn test_negate_token() {
    assert_eq!(0b11, negate_token(0b10));
    assert_eq!(0b10, negate_token(0b11));
    assert_eq!(0b00, negate_token(0b00));
    assert_eq!(0b00, negate_token(0b01));
    assert_eq!(0b00, negate_token(0b10011010));
}

#[test]
fn test_reverse_token_of_board() {
    let board = decode_positions("WWBEEEEWEWBBBEWWBWWBBEBE".to_string());
    let reversed_board = decode_positions("BBWEEEEBEBWWWEBBWBBWWEWE".to_string());

    println!("{:#050b} to \n{:#050b} \n{:#050b}", board, reversed_board, reverse_token_of_board(board));
    assert_eq!(reversed_board, reverse_token_of_board(board));
}

#[test]
fn test_create_token_iter() {
    let board1: u64 = 0b0;
    for position in create_token_iter(board1) {
        assert_eq!(0b00, position);
    }

    let board2: u64 = 0b101000000011110011101110110010110011101100100010;
    let expected_positions: Vec<u8> = vec![
        0b10, 0b00, 0b10, 0b00, 0b11, 0b10, 0b11, 0b00, 0b11, 0b10, 0b00, 0b11, 0b10, 0b11, 0b10,
        0b11, 0b00, 0b11, 0b11, 0b00, 0b00, 0b00, 0b10, 0b10,
    ];
    for (index, position) in create_token_iter(board2).into_iter().enumerate() {
        assert_eq!(expected_positions[23 - index], position);
    }
}

#[test]
fn token_list_has_one_entry_for_each_cell() {
    assert_eq!(24, create_token_iter(0).len());
    assert_eq!(24, create_token_iter(u64::MAX).len());
}

#[test]
fn writing_a_cell_reads_back_and_keeps_the_rest() {
    let board: u64 = 0xBEEF_0000_A2C3_0B2E;
    for position in 0..24 {
        for token in 0..4u8 {
            let written = set_token_at(board, position, token);
            assert_eq!(token, get_token_at(written, position));
            for other in 0..24 {
                if other != position {
                    assert_eq!(get_token_at(board, other), get_token_at(written, other));
                }
            }
            assert_eq!(board >> 48, written >> 48);
        }
    }
}

#[test]
fn reversing_clears_the_counters_and_the_unused_code() {
    let board: u64 = 0xFFFF_0000_0000_0007;
    assert_eq!(0b10, reverse_token_of_board(board) & 0b11);
    assert_eq!(0, get_token_at(reverse_token_of_board(board), 22));
    assert_eq!(0, reverse_token_of_board(board) >> 48);
}

#[test]
fn decoding_strips_white_space_around_the_letters() {
    assert_eq!(0b1011, decode_positions("  BW\n".to_string()));
    assert_eq!(Some(0b1011), try_decode_positions("\tBW ".to_string()));
}

#[test]
fn decoding_refuses_other_letters() {
    assert_eq!(None, try_decode_positions("BWX".to_string()));
    assert_eq!(None, try_decode_positions("B W".to_string()));
    assert_eq!(None, decode_letters(" BW"));
    assert_eq!(Some(0b1011), decode_letters("BW"));
    assert_eq!(Some(0), decode_letters(""));
}

#[test]
fn encoding_and_decoding_agree() {
    let board: u64 = 0b110000110011101110100000101100110000001000000000;
    assert_eq!(board, decode_positions(encode_positions(board)));
}

#[test]
fn encoding_shows_the_unused_code_as_empty() {
    assert_eq!("EEEEEEEEEEEEEEEEEEEEEEEE", encode_positions(0x5555_5555_5555));
}

#[test]
fn cells_are_numbered_from_one() {
    assert_eq!("1", encode_single_position(0));
    assert_eq!("5", encode_single_position(4));
    assert_eq!("24", encode_single_position(23));
    assert_eq!("1000", encode_single_position(999));
}
