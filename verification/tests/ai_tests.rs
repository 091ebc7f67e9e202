use muehle::ai::action::{forward_step_boards, list_moves, Action};
use muehle::ai::minimax::{compare_candidates, evaluate_action, is_late, minimax, TIME_BUDGET};
use muehle::ai::{
    choose_best, compute_step, maximum_depth, phase_of, search_at_depth, starting_board,
    Deepening, DepthResult, Phase, PhaseType,
};
use muehle::enums::Difficulty;
use muehle::game::Game;
use muehle::position::{decode_positions, get_token_at};
use muehle::rules::get_action_from_board;
use muehle::utils::{
    count_tokens, extract_black_move_count_from_board, extract_black_token_count_from_board,
    extract_white_move_count_from_board, extract_white_token_count_from_board,
    insert_number_of_possible_moves_to_board, insert_token_count_to_board,
};
use std::cmp::Ordering;

const WHITE: u8 = 3;
const BLACK: u8 = 2;

fn counted(letters: &str) -> u64 {
    insert_number_of_possible_moves_to_board(insert_token_count_to_board(decode_positions(
        letters.to_string(),
    )))
}

fn setup(step: u8) -> Phase {
    Phase::new(PhaseType::Setup, step)
}

fn moving(step: u8) -> Phase {
    Phase::new(PhaseType::Move, step)
}

fn never() -> u64 {
    0
}

fn always() -> u64 {
    u64::MAX
}

#[test]
fn setting_ends_with_the_eighteenth_token() {
    assert_eq!(setup(17), setup(16).increased());
    assert_eq!(moving(18), setup(17).increased());
    assert_eq!(moving(19), moving(18).increased());
    assert_eq!(moving(1), moving(0).increased());
    assert_eq!(setup(1), setup(0).increased());
    assert_eq!(moving(255), setup(254).increased());
    assert_eq!(PhaseType::Setup, Phase::new(PhaseType::Setup, 3).phase);
    assert_eq!(3, Phase::new(PhaseType::Setup, 3).step_counter);
}

#[test]
fn a_token_can_be_set_on_each_empty_cell() {
    let moves = list_moves(&0, WHITE, setup(0));
    assert_eq!(24, moves.len());
    assert_eq!(0x1000_0000_0000_0003, moves[0]);
    assert_eq!(0x1800_0000_0000_000c, moves[1]);
    assert_eq!(0x1000_0000_0000_0030, moves[2]);
    assert_eq!(0x1800_c000_0000_0000, moves[23]);
    let board = counted("WEEEEEEWEEBEBEEEEEEEEEEE");
    assert_eq!(20, list_moves(&board, BLACK, setup(5)).len());
}

#[test]
fn a_set_token_is_counted_from_the_fifth_step_on() {
    let early = list_moves(&0, BLACK, setup(3));
    assert_eq!(0, extract_black_token_count_from_board(early[0]));
    let late = list_moves(&0, BLACK, setup(4));
    assert_eq!(0x0081_0000_0000_0002, late[0]);
    assert_eq!(0x00c1_0000_0000_0008, late[1]);
    assert_eq!(1, extract_black_token_count_from_board(late[0]));
    assert_eq!(0, extract_white_token_count_from_board(late[0]));
    let white = list_moves(&0, WHITE, setup(4));
    assert_eq!(1, extract_white_token_count_from_board(white[0]));
}

#[test]
fn tokens_slide_to_empty_neighbours() {
    let board = counted("WWEEEEEEWEEEEEEEWBBBBEEE");
    assert_eq!(0x28e4_f000_c000_ea80, board);
    let moves = list_moves(&board, WHITE, moving(20));
    assert_eq!(
        vec![
            0x40e4_3003_c000_ea80u64,
            0x40e4_cc00_c000_ea80,
            0x38e4_f000_3000_ea80,
            0x38e4_f000_0003_ea80,
            0x3924_f000_c000_2a83,
        ],
        moves
    );
    assert_eq!(moves, forward_step_boards(&board, WHITE, moving(20)));
    for next in moves {
        let action = get_action_from_board(board, next, WHITE);
        let start = action.start_position.unwrap();
        assert_ne!(start, action.end_position);
        assert_eq!(WHITE, get_token_at(board, start));
        assert_eq!(0, get_token_at(board, action.end_position));
        assert_eq!(None, action.beatable_position);
        assert_eq!(insert_number_of_possible_moves_to_board(next), next);
        assert_eq!(insert_token_count_to_board(next), next);
    }
}

#[test]
fn three_tokens_fly_to_any_empty_cell() {
    let board = counted("EEEBWEEEBEEEEWEEBBBBBWEE");
    let moves = forward_step_boards(&board, WHITE, moving(20));
    assert_eq!(42, moves.len());
    assert_eq!(42, list_moves(&board, WHITE, moving(20)).len());
    for next in moves {
        assert_eq!(3, count_tokens(next, WHITE));
        assert_eq!(7, count_tokens(next, BLACK));
        assert_eq!(insert_number_of_possible_moves_to_board(next), next);
    }
    // Black has seven tokens and slides.
    assert_eq!(7, list_moves(&board, BLACK, moving(20)).len());
}

#[test]
fn a_closed_mill_takes_one_of_the_free_tokens() {
    let board = counted("WEEEEEEWEEBEBEEEEEEEEEEE");
    assert_eq!(0x1a12_c003_0880_0000, board);
    let base = list_moves(&board, WHITE, setup(4));
    let boards = forward_step_boards(&board, WHITE, setup(4));
    assert_eq!(20, base.len());
    assert_eq!(21, boards.len());
    let closing: Vec<u64> =
        boards.iter().copied().filter(|next| get_token_at(*next, 1) == WHITE).collect();
    assert_eq!(vec![0x1919_f003_0080_0000u64, 0x1919_f003_0800_0000], closing);
    assert_eq!(Action::new(None, 1, Some(10)), get_action_from_board(board, closing[0], WHITE));
    assert_eq!(Action::new(None, 1, Some(12)), get_action_from_board(board, closing[1], WHITE));
    for next in closing {
        assert_eq!(3, extract_white_token_count_from_board(next));
        assert_eq!(1, extract_black_token_count_from_board(next));
        assert_eq!(3, extract_white_move_count_from_board(next));
        assert_eq!(4, extract_black_move_count_from_board(next));
        assert_eq!(
            24,
            extract_white_token_count_from_board(next) as usize
                + extract_black_token_count_from_board(next) as usize
                + count_tokens(next, 0) as usize
        );
    }
}

#[test]
fn tokens_in_a_mill_are_not_taken_while_another_is_free() {
    let board = counted("WEEEEEEWEBBBEEEEEEEEBEEE");
    let closing: Vec<Action> = forward_step_boards(&board, WHITE, setup(4))
        .into_iter()
        .filter(|next| get_token_at(*next, 1) == WHITE)
        .map(|next| get_action_from_board(board, next, WHITE))
        .collect();
    assert_eq!(vec![Action::new(None, 1, Some(20))], closing);
}

#[test]
fn tokens_in_mills_are_taken_when_none_is_free() {
    let board = counted("WEEEEEEWEBBBEEEEEEEEEEEE");
    let closing: Vec<Action> = forward_step_boards(&board, WHITE, setup(4))
        .into_iter()
        .filter(|next| get_token_at(*next, 1) == WHITE)
        .map(|next| get_action_from_board(board, next, WHITE))
        .collect();
    assert_eq!(
        vec![
            Action::new(None, 1, Some(9)),
            Action::new(None, 1, Some(10)),
            Action::new(None, 1, Some(11)),
        ],
        closing
    );
}

#[test]
fn a_mill_without_a_token_to_take_yields_no_board() {
    let board = counted("WEEEEEEWEEEEEEEEEEEEEEEE");
    assert_eq!(22, list_moves(&board, WHITE, setup(4)).len());
    let boards = forward_step_boards(&board, WHITE, setup(4));
    assert_eq!(21, boards.len());
    assert!(boards.iter().all(|next| get_token_at(*next, 1) != WHITE));
}

#[test]
fn tokens_and_steps_make_the_score() {
    let board = counted("EEEBWEEEBEEEEWEEBBBBBWEE");
    assert_eq!(-4002, evaluate_action(board, moving(20)));
    assert_eq!(-4002, evaluate_action(board, setup(3)));
    assert_eq!(2, evaluate_action(counted("WWEEEEEEWEEEEEEEWBBBBEEE"), moving(20)));
    assert_eq!(0, evaluate_action(0, moving(0)));
}

#[test]
fn a_lost_game_scores_the_most_there_is() {
    let two_black = counted("WWWEEEEEEEEEEEEEBBEEEEEE");
    assert_eq!(isize::MAX - 20, evaluate_action(two_black, moving(20)));
    assert_eq!(isize::MAX, evaluate_action(two_black, moving(0)));
    assert_eq!(1001, evaluate_action(two_black, setup(5)));
    let two_white = counted("WWEEEEEEEEEEEEEEBBBEEEEE");
    assert_eq!(isize::MIN + 7, evaluate_action(two_white, moving(7)));
    let blocked_white = counted("BWBWBWBWEEEEEEEEEEEEEEEE");
    assert_eq!(0, extract_white_move_count_from_board(blocked_white));
    assert_eq!(isize::MIN + 30, evaluate_action(blocked_white, moving(30)));
    assert_eq!(-4, evaluate_action(blocked_white, setup(8)));
    // With both players lost the score is that of a lost black.
    let both = counted("WWEEEEEEEEEEEEEEBBEEEEEE");
    assert_eq!(isize::MAX - 1, evaluate_action(both, moving(1)));
    // A sooner win scores higher.
    assert!(evaluate_action(two_black, moving(20)) > evaluate_action(two_black, moving(22)));
    assert!(evaluate_action(two_white, moving(20)) < evaluate_action(two_white, moving(22)));
}

#[test]
fn white_looks_at_high_scores_first() {
    let low = counted("WWEEEEEEEEEEEEEEBBBEEEEE");
    let high = counted("WWWEEEEEEEEEEEEEBBBEEEEE");
    assert_eq!(Ordering::Less, compare_candidates(&high, &low, true, setup(3)));
    assert_eq!(Ordering::Greater, compare_candidates(&low, &high, true, setup(3)));
    assert_eq!(Ordering::Greater, compare_candidates(&high, &low, false, setup(3)));
    assert_eq!(Ordering::Less, compare_candidates(&low, &high, false, setup(3)));
    assert_eq!(Ordering::Equal, compare_candidates(&low, &low, true, setup(3)));
    assert_eq!(Ordering::Equal, compare_candidates(&low, &low, false, setup(3)));
}

#[test]
fn a_search_of_depth_zero_gives_the_score() {
    let board = counted("EEEBWEEEBEEEEWEEBBBBBWEE");
    assert_eq!(Some(-4002), minimax(board, 0, isize::MIN, isize::MAX, WHITE, moving(20), &never));
    assert_eq!(Some(-4002), minimax(board, 0, 5, 6, BLACK, moving(20), &never));
}

#[test]
fn a_search_finds_the_value_of_the_game() {
    let board = counted("WWEEEEEEWEEEEEEEWBBBBEEE");
    let full =
        |depth: usize| minimax(board, depth, isize::MIN, isize::MAX, WHITE, moving(20), &never);
    assert_eq!(Some(2), full(0));
    assert_eq!(Some(5), full(1));
    assert_eq!(Some(0), full(2));
    assert_eq!(Some(1001), full(3));
    let example = counted("EEEBWEEEBEEEEWEEBBBBBWEE");
    assert_eq!(
        Some(-4000),
        minimax(example, 1, isize::MIN, isize::MAX, WHITE, moving(20), &never)
    );
    assert_eq!(
        Some(-4003),
        minimax(example, 2, isize::MIN, isize::MAX, WHITE, moving(20), &never)
    );
}

#[test]
fn a_lost_game_is_not_searched_further() {
    let two_black = counted("WWWEEEEEEEEEEEEEBBEEEEEE");
    assert_eq!(
        Some(isize::MAX - 20),
        minimax(two_black, 3, isize::MIN, isize::MAX, WHITE, moving(20), &never)
    );
    let two_white = counted("WWEEEEEEEEEEEEEEBBBEEEEE");
    assert_eq!(
        Some(isize::MIN + 20),
        minimax(two_white, 3, isize::MIN, isize::MAX, BLACK, moving(20), &never)
    );
}

#[test]
fn the_search_looks_at_the_best_boards_first() {
    // With the boards in the order in which they are listed the first one, which scores 2,
    // would end the search; in search order a board that scores 4 comes first.
    assert_eq!(Some(4), minimax(0, 1, -10, 1, WHITE, setup(0), &never));
    assert_eq!(Some(-4), minimax(0, 1, -1, 10, BLACK, setup(0), &never));
}

#[test]
fn a_search_is_given_up_when_the_time_is_up() {
    let board = counted("WWEEEEEEWEEEEEEEWBBBBEEE");
    assert_eq!(None, minimax(board, 0, isize::MIN, isize::MAX, WHITE, moving(20), &always));
    assert_eq!(None, minimax(board, 2, isize::MIN, isize::MAX, WHITE, moving(20), &always));
    assert_eq!(None, search_at_depth(board, WHITE, moving(20), 0, &always));
    let calls = std::cell::Cell::new(0u64);
    let later = || {
        calls.set(calls.get() + 1);
        calls.get() * 300_000
    };
    assert_eq!(None, minimax(board, 2, isize::MIN, isize::MAX, WHITE, moving(20), &later));
}

#[test]
fn the_first_of_the_best_boards_is_chosen() {
    let board = counted("WWEEEEEEWEEEEEEEWBBBBEEE");
    let boards = forward_step_boards(&board, WHITE, moving(20));
    let scored = vec![
        (boards[0], Some(5isize)),
        (boards[1], Some(7)),
        (boards[2], Some(7)),
        (boards[3], Some(-2)),
        (boards[4], Some(-2)),
    ];
    assert_eq!(
        Some(DepthResult { action: Some(Action::new(Some(1), 2, None)), score: 7 }),
        choose_best(board, &scored, WHITE)
    );
    // For black the lowest score is the best; the turn is read as a turn of black.
    assert_eq!(
        Some(DepthResult { action: Some(Action::new(None, 0, Some(8))), score: -2 }),
        choose_best(board, &scored, BLACK)
    );
    let lowest = vec![(boards[0], Some(isize::MIN)), (boards[1], Some(isize::MIN))];
    assert_eq!(
        Some(DepthResult { action: Some(Action::new(Some(0), 7, None)), score: isize::MIN }),
        choose_best(board, &lowest, WHITE)
    );
}

#[test]
fn a_depth_with_a_search_given_up_has_no_result() {
    let board = counted("WWEEEEEEWEEEEEEEWBBBBEEE");
    let boards = forward_step_boards(&board, WHITE, moving(20));
    let scored = vec![(boards[0], Some(5isize)), (boards[1], None), (boards[2], Some(7))];
    assert_eq!(None, choose_best(board, &scored, WHITE));
}

#[test]
fn without_a_board_there_is_no_turn() {
    assert_eq!(
        Some(DepthResult { action: None, score: isize::MIN }),
        choose_best(0, &Vec::new(), WHITE)
    );
    assert_eq!(
        Some(DepthResult { action: None, score: isize::MAX }),
        choose_best(0, &Vec::new(), BLACK)
    );
    let full = counted("WBWBWBWBWBWBWBWBWBWBWBWB");
    assert_eq!(
        Some(DepthResult { action: None, score: isize::MIN }),
        search_at_depth(full, WHITE, setup(17), 2, &never)
    );
    assert_eq!(
        Some(DepthResult { action: None, score: isize::MIN }),
        search_at_depth(full, WHITE, setup(17), 2, &always)
    );
}

#[test]
fn a_search_at_one_depth_picks_the_best_turn() {
    let board = counted("WWEEEEEEWEEEEEEEWBBBBEEE");
    assert_eq!(
        Some(DepthResult { action: Some(Action::new(Some(0), 7, None)), score: 5 }),
        search_at_depth(board, WHITE, moving(20), 0, &never)
    );
    assert_eq!(
        Some(DepthResult { action: Some(Action::new(Some(0), 7, None)), score: 0 }),
        search_at_depth(board, WHITE, moving(20), 1, &never)
    );
    assert_eq!(
        Some(DepthResult { action: Some(Action::new(Some(0), 7, None)), score: 1001 }),
        search_at_depth(board, WHITE, moving(20), 2, &never)
    );
    let example = counted("EEEBWEEEBEEEEWEEBBBBBWEE");
    assert_eq!(
        Some(DepthResult { action: Some(Action::new(Some(4), 12, None)), score: -3006 }),
        search_at_depth(example, WHITE, moving(20), 2, &never)
    );
}

#[test]
fn the_difficulty_limits_the_depth() {
    assert_eq!(1, maximum_depth(Difficulty::Off));
    assert_eq!(1, maximum_depth(Difficulty::Easy));
    assert_eq!(6, maximum_depth(Difficulty::Medium));
    assert_eq!(50, maximum_depth(Difficulty::Hard));
}

#[test]
fn the_first_turn_sets_a_token_on_an_empty_cell() {
    let game = Game::new();
    let action = compute_step(&game, Difficulty::Easy, &never).unwrap();
    assert_eq!(Action::new(None, 14, None), action);
    assert_eq!(0, get_token_at(game.get_board(), action.end_position));
}

#[test]
fn the_engine_gives_the_same_turn_each_time() {
    let game = Game::new_example_board();
    let first = compute_step(&game, Difficulty::Easy, &never);
    assert_eq!(Some(Action::new(Some(13), 10, None)), first);
    for _ in 0..3 {
        assert_eq!(first, compute_step(&game, Difficulty::Easy, &never));
    }
}

#[test]
fn the_engine_has_no_turn_when_the_time_is_up_at_once() {
    assert_eq!(None, compute_step(&Game::new(), Difficulty::Hard, &always));
    assert_eq!(None, compute_step(&Game::new_example_board(), Difficulty::Medium, &always));
}

#[test]
fn the_engine_keeps_the_turn_of_the_last_finished_depth() {
    let game = Game::new_example_board();
    let calls = std::cell::Cell::new(0u64);
    // The first depth asks the clock once for each of the 42 boards.
    let later = || {
        calls.set(calls.get() + 1);
        calls.get() * 19_600
    };
    assert_eq!(
        Some(Action::new(Some(13), 10, None)),
        compute_step(&game, Difficulty::Medium, &later)
    );
}

#[test]
fn the_engine_closes_the_mill_that_is_its_only_turn() {
    let mut game = Game::new();
    game.set_board(decode_positions("BEWWBBWBWWBBWWBBWWBBWWBB".to_string()));
    game.next_player_turn();
    assert_eq!(BLACK, game.get_player_turn());
    let action = compute_step(&game, Difficulty::Easy, &never).unwrap();
    assert_eq!(None, action.start_position);
    assert_eq!(1, action.end_position);
    assert_eq!(Some(6), action.beatable_position);
    assert_eq!(WHITE, get_token_at(game.get_board(), 6));
    let board = insert_number_of_possible_moves_to_board(insert_token_count_to_board(
        game.get_board(),
    ));
    assert_eq!(11, forward_step_boards(&board, BLACK, Phase::new(PhaseType::Setup, 0)).len());
}

#[test]
fn a_search_goes_deeper_until_its_limit() {
    let mut search = Deepening::start(Difficulty::Medium);
    assert_eq!(Deepening { depth: 0, limit: 6, best_action: None, stopped: false }, search);
    let found = DepthResult { action: Some(Action::new(None, 3, None)), score: 4 };
    for depth in 0..6 {
        assert_eq!(Some(depth), search.pending());
        search = search.record(Some(found));
        assert_eq!(found.action, search.best_action);
    }
    assert_eq!(None, search.pending());
    assert_eq!(6, search.depth);
    assert_eq!(Some(0), Deepening::start(Difficulty::Off).pending());
    assert_eq!(None, Deepening::start(Difficulty::Easy).record(Some(found)).pending());
}

#[test]
fn a_search_given_up_keeps_the_turn_found_before() {
    let found = DepthResult { action: Some(Action::new(None, 3, None)), score: 4 };
    let search = Deepening::start(Difficulty::Hard).record(Some(found)).record(None);
    assert_eq!(None, search.pending());
    assert_eq!(found.action, search.best_action);
    assert_eq!(1, search.depth);
    assert!(search.stopped);
    let none = Deepening::start(Difficulty::Hard).record(None);
    assert_eq!(None, none.best_action);
    assert_eq!(None, none.pending());
}

#[test]
fn the_search_starts_from_the_game() {
    let game = Game::new();
    assert_eq!(setup(0), phase_of(&game));
    assert_eq!(0, starting_board(&game));
    let example = Game::new_example_board();
    assert_eq!(moving(20), phase_of(&example));
    assert_eq!(0x29df_02c0_8030_aab0, starting_board(&example));
    let mut stale = Game::new();
    stale.set_board(decode_positions("EEEBWEEEBEEEEWEEBBBBBWEE".to_string()));
    for _ in 0..5 {
        stale.reduce_setup_pieces_left();
    }
    assert_eq!(setup(5), phase_of(&stale));
    assert_eq!(0x29df_02c0_8030_aab0, starting_board(&stale));
}

#[test]
fn counters_and_empty_cells_add_up_to_all_cells() {
    let boards =
        ["WWEEEEEEWEEEEEEEWBBBBEEE", "EEEBWEEEBEEEEWEEBBBBBWEE", "WEWEEEEWEEBEBEEEEEBEWEEE"];
    for letters in boards {
        let board = counted(letters);
        for mover in [WHITE, BLACK] {
            let boards = forward_step_boards(&board, mover, moving(20));
            assert!(!boards.is_empty());
            for next in boards {
                assert_eq!(
                    24,
                    extract_white_token_count_from_board(next) as usize
                        + extract_black_token_count_from_board(next) as usize
                        + count_tokens(next, 0) as usize
                );
                assert_eq!(insert_token_count_to_board(next), next);
            }
        }
    }
}

#[test]
fn a_mill_closed_by_a_move_takes_a_token() {
    let board = counted("WEWEEEEWEEBEBEEEEEBEWEEE");
    let closing: Vec<Action> = forward_step_boards(&board, WHITE, moving(20))
        .into_iter()
        .map(|next| get_action_from_board(board, next, WHITE))
        .filter(|action| action.beatable_position.is_some())
        .collect();
    assert_eq!(
        vec![
            Action::new(Some(2), 1, Some(10)),
            Action::new(Some(2), 1, Some(12)),
            Action::new(Some(2), 1, Some(18)),
        ],
        closing
    );
}

#[test]
fn the_move_counters_stay_exact_along_a_game() {
    let mut board = 0u64;
    let mut mover = WHITE;
    let mut phase = setup(0);
    for ply in 0..40usize {
        let boards = forward_step_boards(&board, mover, phase);
        if boards.is_empty() {
            break;
        }
        board = boards[(7 * ply + 3) % boards.len()];
        assert_eq!(insert_number_of_possible_moves_to_board(board), board);
        assert_eq!(0, count_tokens(board, 1));
        if ply >= 4 {
            let white = count_tokens(board, WHITE) as i32;
            let counted = extract_white_token_count_from_board(board) as i32;
            assert!(white - counted <= 2);
        }
        mover = if mover == WHITE { BLACK } else { WHITE };
        phase = phase.increased();
    }
    assert_eq!(PhaseType::Move, phase.phase);
}

#[test]
fn the_time_is_up_after_the_budget() {
    assert_eq!(980_000, TIME_BUDGET);
    assert!(!is_late(0));
    assert!(!is_late(980_000));
    assert!(is_late(980_001));
    assert!(is_late(u64::MAX));
}
