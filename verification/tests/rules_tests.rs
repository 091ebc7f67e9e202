use muehle::ai::action::Action;
use muehle::graph::{is_adjacent, mill_lines};
use muehle::position::{decode_positions, get_token_at, set_token_at};
use muehle::rules::{
    are_all_in_mills, find_lost_token, get_action_from_board, is_beat_possible, is_mill_closing,
    is_move_valid, is_part_of_mill,
};
use muehle::utils::{
    count_moves, count_neighbors, count_tokens, extract_black_move_count_from_board,
    extract_black_token_count_from_board, extract_white_move_count_from_board,
    extract_white_token_count_from_board, insert_number_of_possible_moves_to_board,
    insert_token_count_to_board, lower_token_count, possible_move_count_of_position,
    raise_token_count, store_move_counts, store_token_counts, update_possible_move_count,
};

fn board_of(letters: &str) -> u64 {
    decode_positions(letters.to_string())
}

fn counted(letters: &str) -> u64 {
    insert_number_of_possible_moves_to_board(insert_token_count_to_board(board_of(letters)))
}

#[test]
fn neighbours_on_a_ring_and_across_the_rings() {
    assert!(is_adjacent(0, 1));
    assert!(is_adjacent(1, 0));
    assert!(is_adjacent(0, 7));
    assert!(is_adjacent(7, 0));
    assert!(is_adjacent(8, 15));
    assert!(is_adjacent(0, 8));
    assert!(is_adjacent(8, 16));
    assert!(is_adjacent(16, 8));
    assert!(is_adjacent(22, 14));
    assert!(!is_adjacent(0, 16));
    assert!(!is_adjacent(1, 9));
    assert!(!is_adjacent(7, 8));
    assert!(!is_adjacent(3, 3));
    assert!(!is_adjacent(0, 2));
    assert!(!is_adjacent(23, 24));
    assert!(!is_adjacent(24, 16));
}

#[test]
fn the_board_has_thirty_two_lines() {
    let mut joined = 0;
    for first in 0..24 {
        for second in 0..24 {
            if is_adjacent(first, second) {
                assert!(is_adjacent(second, first));
                joined += 1;
            }
        }
    }
    assert_eq!(64, joined);
}

#[test]
fn the_two_mill_lines_of_a_cell() {
    assert_eq!(((7, 1), (8, 16)), mill_lines(0));
    assert_eq!(((2, 3), (0, 7)), mill_lines(1));
    assert_eq!(((0, 1), (6, 5)), mill_lines(7));
    assert_eq!(((10, 11), (8, 15)), mill_lines(9));
    assert_eq!(((13, 15), (22, 6)), mill_lines(14));
    assert_eq!(((19, 21), (4, 12)), mill_lines(20));
}

#[test]
fn the_board_has_sixteen_mills() {
    let mut found: Vec<[usize; 3]> = Vec::new();
    for position in 0..24 {
        let (first, second) = mill_lines(position);
        for line in [first, second] {
            let mut mill = [position, line.0, line.1];
            mill.sort();
            if !found.contains(&mill) {
                found.push(mill);
            }
        }
    }
    assert_eq!(16, found.len());
    assert!(found.contains(&[0, 1, 7]));
    assert!(found.contains(&[1, 2, 3]));
    assert!(found.contains(&[0, 8, 16]));
    assert!(found.contains(&[6, 14, 22]));
    assert!(found.contains(&[17, 18, 19]));
    assert!(!found.contains(&[0, 1, 2]));
    assert!(!found.contains(&[1, 9, 17]));
}

#[test]
fn tokens_and_steps_are_counted() {
    let board = board_of("EEEBWEEEBEEEEWEEBBBBBWEE");
    assert_eq!(3, count_tokens(board, 3));
    assert_eq!(7, count_tokens(board, 2));
    assert_eq!(14, count_tokens(board, 0));
    assert_eq!(0, count_tokens(board, 1));
    assert_eq!(5, count_moves(board, 3));
    assert_eq!(7, count_moves(board, 2));
    assert_eq!(2, possible_move_count_of_position(board, 4));
    assert_eq!(1, count_neighbors(board, 4, 2));
    assert_eq!(0, count_neighbors(board, 4, 3));
    assert_eq!(4, possible_move_count_of_position(0, 10));
    assert_eq!(3, possible_move_count_of_position(0, 2));
    assert_eq!(2, possible_move_count_of_position(0, 1));
}

#[test]
fn counters_are_written_above_the_cells() {
    let board = counted("EEEBWEEEBEEEEWEEBBBBBWEE");
    assert_eq!(0x29df_02c0_8030_aab0, board);
    assert_eq!(3, extract_white_token_count_from_board(board));
    assert_eq!(7, extract_black_token_count_from_board(board));
    assert_eq!(5, extract_white_move_count_from_board(board));
    assert_eq!(7, extract_black_move_count_from_board(board));
    assert_eq!(0x02c0_8030_aab0, board & 0xFFFF_FFFF_FFFF);
}

#[test]
fn counters_are_read_where_they_were_stored() {
    let board = store_move_counts(store_token_counts(0x1234, 5, 6), 30, 17);
    assert_eq!(5, extract_white_token_count_from_board(board));
    assert_eq!(6, extract_black_token_count_from_board(board));
    assert_eq!(30, extract_white_move_count_from_board(board));
    assert_eq!(17, extract_black_move_count_from_board(board));
    assert_eq!(0x1234, board & 0xFFFF_FFFF_FFFF);
    assert_eq!(
        (1u64 << 51) * 5 + (1u64 << 48) * 6 + (1u64 << 59) * 30 + (1u64 << 54) * 17,
        board & !0xFFFF_FFFF_FFFF
    );
}

#[test]
fn a_token_counter_stops_at_seven() {
    let board = insert_token_count_to_board(board_of("WWWWWWWWWBBBBBBBBEEEEEEE"));
    assert_eq!(7, extract_white_token_count_from_board(board));
    assert_eq!(7, extract_black_token_count_from_board(board));
    assert_eq!(0, extract_black_move_count_from_board(board));
    let raised = raise_token_count(raise_token_count(store_token_counts(0, 6, 0), 3), 3);
    assert_eq!(7, extract_white_token_count_from_board(raised));
    assert_eq!(0, extract_black_token_count_from_board(raised));
    let lowered = lower_token_count(lower_token_count(store_token_counts(0, 6, 1), 2), 2);
    assert_eq!(0, extract_black_token_count_from_board(lowered));
    assert_eq!(6, extract_white_token_count_from_board(lowered));
    assert_eq!(5, extract_white_token_count_from_board(lower_token_count(lowered, 3)));
    assert_eq!(1, extract_black_token_count_from_board(raise_token_count(lowered, 2)));
}

#[test]
fn a_move_counter_stops_at_thirty_one() {
    // White stands on twelve cells of which none is next to another.
    let board = insert_number_of_possible_moves_to_board(board_of("WEWEWEWEEWEWEWEWWEWEWEWE"));
    assert_eq!(32, count_moves(board, 3));
    assert_eq!(31, extract_white_move_count_from_board(board));
    assert_eq!(0, extract_black_move_count_from_board(board));
}

#[test]
fn the_move_counters_follow_a_token_that_is_set() {
    let before = counted("WEEEEEEWEEBEBEEEEEEEEEEE");
    let mut after = set_token_at(before, 8, 3);
    after = update_possible_move_count(after, 3, 8, false);
    assert_eq!(insert_number_of_possible_moves_to_board(after), after);
    // The new token has three steps, and the token on cell 0 lost one.
    assert_eq!(
        extract_white_move_count_from_board(before) + 3 - 1,
        extract_white_move_count_from_board(after)
    );
    assert_eq!(
        extract_black_move_count_from_board(before),
        extract_black_move_count_from_board(after)
    );
}

#[test]
fn the_move_counters_follow_a_token_that_is_taken() {
    let before = counted("WEEEEEEWEEBEBEEEEEEEEEEE");
    let mut after = set_token_at(before, 10, 0);
    after = update_possible_move_count(after, 2, 10, true);
    assert_eq!(insert_number_of_possible_moves_to_board(after), after);
    assert_eq!(
        extract_black_move_count_from_board(before) - 4,
        extract_black_move_count_from_board(after)
    );
}

#[test]
fn the_move_counters_do_not_leave_their_range() {
    let empty = update_possible_move_count(0, 3, 10, true);
    assert_eq!(0, extract_white_move_count_from_board(empty));
    let full = update_possible_move_count(store_move_counts(0, 30, 0), 3, 10, false);
    assert_eq!(31, extract_white_move_count_from_board(full));
}

#[test]
fn a_token_goes_to_an_empty_neighbour_or_flies() {
    assert!(is_move_valid(0, 1, 0, 4));
    assert!(is_move_valid(0, 8, 0, 9));
    assert!(!is_move_valid(0, 1, 2, 4));
    assert!(!is_move_valid(0, 1, 3, 3));
    assert!(!is_move_valid(0, 2, 0, 4));
    assert!(is_move_valid(0, 2, 0, 3));
    assert!(is_move_valid(0, 20, 0, 3));
    assert!(!is_move_valid(0, 20, 0, 2));
    assert!(!is_move_valid(5, 5, 0, 4));
}

#[test]
fn three_in_a_line_are_a_mill() {
    let board = board_of("WWEEEEEWBEEEEEEEBEEEEEEE");
    assert!(is_part_of_mill(board, 0, 3));
    assert!(is_part_of_mill(board, 1, 3));
    assert!(is_part_of_mill(board, 7, 3));
    assert!(!is_part_of_mill(board, 0, 2));
    assert!(!is_part_of_mill(board, 8, 2));
    assert!(!is_part_of_mill(board, 2, 3));
    let spoke = board_of("BEEEEEEEBEEEEEEEBEEEEEEE");
    assert!(is_part_of_mill(spoke, 0, 2));
    assert!(is_part_of_mill(spoke, 8, 2));
    assert!(is_part_of_mill(spoke, 16, 2));
    let corner = board_of("EBEEEEEEEBEEEEEEEBEEEEEE");
    assert!(!is_part_of_mill(corner, 9, 2));
}

#[test]
fn a_mill_is_closed_by_the_token_that_completes_it() {
    let before = board_of("WEEEEEEWEEBEBEEEEEEEEEEE");
    assert!(is_mill_closing(before, set_token_at(before, 1, 3), 3));
    assert!(!is_mill_closing(before, set_token_at(before, 2, 3), 3));
    assert!(!is_mill_closing(before, set_token_at(before, 1, 2), 3));
    let mill = set_token_at(before, 1, 3);
    assert!(!is_mill_closing(mill, set_token_at(mill, 20, 3), 3));
    assert!(!is_mill_closing(mill, mill, 3));
}

#[test]
fn a_token_in_a_mill_is_safe_while_another_is_not() {
    let board = board_of("WEEEEEEWEBBBEEEEEEEEBEEE");
    assert!(!are_all_in_mills(board, 2));
    assert!(is_beat_possible(board, 20, 3));
    assert!(!is_beat_possible(board, 9, 3));
    assert!(!is_beat_possible(board, 10, 3));
    assert!(!is_beat_possible(board, 11, 3));
    assert!(!is_beat_possible(board, 0, 3));
    assert!(!is_beat_possible(board, 5, 3));
    assert!(is_beat_possible(board, 0, 2));
    assert!(!is_beat_possible(board, 20, 2));
    assert!(!is_beat_possible(board, 20, 0));
    assert!(!is_beat_possible(board, 5, 0));
}

#[test]
fn every_token_may_be_taken_when_all_stand_in_mills() {
    let board = board_of("WEEEEEEWEBBBEEEEEEEEEEEE");
    assert!(are_all_in_mills(board, 2));
    assert!(is_beat_possible(board, 9, 3));
    assert!(is_beat_possible(board, 10, 3));
    assert!(is_beat_possible(board, 11, 3));
    assert!(!is_beat_possible(board, 12, 3));
    assert!(are_all_in_mills(0, 2));
}

#[test]
fn a_turn_is_read_off_two_boards() {
    let before = board_of("WEEEEEEWEEBEBEEEEEEEEEEE");
    let set = set_token_at(before, 1, 3);
    assert_eq!(Action::new(None, 1, None), get_action_from_board(before, set, 3));
    let taken = set_token_at(set, 12, 0);
    assert_eq!(Action::new(None, 1, Some(12)), get_action_from_board(before, taken, 3));
    let moved = set_token_at(set_token_at(before, 7, 0), 6, 3);
    assert_eq!(Action::new(Some(7), 6, None), get_action_from_board(before, moved, 3));
    let black = set_token_at(set_token_at(before, 10, 0), 2, 2);
    assert_eq!(Action::new(Some(10), 2, None), get_action_from_board(before, black, 2));
    assert_eq!(Action::new(None, 0, None), get_action_from_board(before, before, 3));
    assert_eq!(Action::new(None, 0, None), get_action_from_board(before, before, 0));
    assert_eq!((Some(7), 6, None), get_action_from_board(before, moved, 3).into());
}

#[test]
fn the_first_lost_token_is_found() {
    let before = board_of("WEEEEEEWEEBEBEEEEEEEEEEE");
    let after = set_token_at(set_token_at(before, 10, 0), 12, 0);
    assert_eq!(Some(10), find_lost_token(before, after, 2));
    assert_eq!(None, find_lost_token(before, after, 3));
    assert_eq!(None, find_lost_token(after, before, 3));
    assert_eq!(2, get_token_at(before, 12));
}
