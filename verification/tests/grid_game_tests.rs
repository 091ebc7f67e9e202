use muehle::grid::enums::{Piece, State};
use muehle::grid::game::{CarryPiece, Game};
use muehle::grid::logic::{compute_button_down, compute_button_up, compute_step};
use muehle::grid::rendering::calculate_image;
use muehle::rendering::Sprite;

const EXAMPLE: [[Piece; 3]; 8] = [
    [Piece::Empty, Piece::Black, Piece::Black],
    [Piece::Empty, Piece::Empty, Piece::Black],
    [Piece::Empty, Piece::Empty, Piece::Black],
    [Piece::Empty, Piece::Empty, Piece::Black],
    [Piece::Black, Piece::Empty, Piece::Black],
    [Piece::White, Piece::White, Piece::White],
    [Piece::Empty, Piece::Empty, Piece::Empty],
    [Piece::Empty, Piece::Empty, Piece::Empty],
];

const EMPTY: [[Piece; 3]; 8] = [[Piece::Empty; 3]; 8];

/// A game in which all tokens are set, with four tokens of each colour.
fn playing() -> Game {
    let mut board = EMPTY;
    for spoke in 0..4 {
        board[spoke][0] = Piece::White;
        board[spoke + 4][2] = Piece::Black;
    }
    let mut game = Game::new();
    game.set_board(board);
    game.set_setup_pieces_left(0);
    game.refresh();
    game
}

#[test]
fn a_new_grid_game_waits_for_white_to_set_a_token() {
    let game = Game::new();
    assert_eq!(EMPTY, game.get_board());
    assert_eq!(Piece::White, game.get_player_turn());
    assert_eq!(None, game.get_carry_piece());
    assert_eq!(State::Setup, game.get_state());
    assert_eq!(18, game.get_setup_pieces_left());
    assert_eq!(0, game.get_piece_count(Piece::White));
    assert_eq!(0, game.get_piece_count(Piece::Black));
}

#[test]
fn the_example_grid_game_is_in_its_end() {
    let game = Game::new_example_board();
    assert_eq!(EXAMPLE, game.get_board());
    assert_eq!(State::End, game.get_state());
    assert_eq!(0, game.get_setup_pieces_left());
    assert_eq!(3, game.get_piece_count(Piece::White));
    assert_eq!(7, game.get_piece_count(Piece::Black));
    assert_eq!(Piece::Black, game.get_piece_color(0, 1));
    assert_eq!(Piece::White, game.get_piece_color(5, 2));
    assert_eq!(Piece::Empty, game.get_piece_color(7, 0));
}

#[test]
fn tokens_on_the_grid_are_counted_when_the_state_is_updated() {
    let mut game = Game::new();
    game.set_field(2, 1, Piece::White);
    game.set_field(3, 1, Piece::Black);
    game.set_field(4, 1, Piece::Black);
    assert_eq!(0, game.get_piece_count(Piece::Black));
    game.refresh();
    assert_eq!(1, game.get_piece_count(Piece::White));
    assert_eq!(2, game.get_piece_count(Piece::Black));
    assert_eq!(State::Setup, game.get_state());
    game.set_field(4, 1, Piece::Empty);
    game.reduce_setup_pieces_left();
    assert_eq!(17, game.get_setup_pieces_left());
    assert_eq!(1, game.get_piece_count(Piece::Black));
}

#[test]
fn the_grid_state_follows_the_grid() {
    let mut game = playing();
    assert_eq!(State::Normal, game.get_state());
    assert_eq!(4, game.get_piece_count(Piece::White));
    game.update_state(Some(State::Take));
    assert_eq!(State::Take, game.get_state());
    game.update_state(None);
    assert_eq!(State::Take, game.get_state());
    game.update_state(Some(State::Win));
    assert_eq!(State::Normal, game.get_state());
    game.set_field(0, 0, Piece::Empty);
    game.update_state(None);
    assert_eq!(State::End, game.get_state());
    game.set_field(1, 0, Piece::Empty);
    game.update_state(None);
    assert_eq!(State::Win, game.get_state());
    game.set_setup_pieces_left(1);
    game.update_state(None);
    assert_eq!(State::Setup, game.get_state());
}

#[test]
fn a_player_who_cannot_step_has_lost_on_the_grid() {
    let mut board = EMPTY;
    board[0][0] = Piece::White;
    board[2][0] = Piece::White;
    board[4][0] = Piece::White;
    board[6][0] = Piece::White;
    board[1][0] = Piece::Black;
    board[3][0] = Piece::Black;
    board[5][0] = Piece::Black;
    board[7][0] = Piece::Black;
    let mut game = Game::new();
    game.set_board(board);
    game.set_setup_pieces_left(0);
    game.refresh();
    assert_eq!(State::Win, game.get_state());
    game.next_player_turn();
    game.refresh();
    assert_eq!(State::Normal, game.get_state());
}

#[test]
fn a_lifted_token_goes_back_to_the_grid() {
    let mut game = playing();
    let board = game.get_board();
    game.set_field(0, 0, Piece::Empty);
    game.set_carry_piece(Some((0, 0, Piece::White)));
    assert_eq!(Some(CarryPiece::new(0, 0, Piece::White)), game.get_carry_piece());
    assert_eq!((0, 0, Piece::White), game.get_carry_piece().unwrap().into());
    game.undo_carry();
    assert_eq!(board, game.get_board());
    assert_eq!(None, game.get_carry_piece());
    game.undo_carry();
    assert_eq!(board, game.get_board());
}

#[test]
fn the_grid_turn_passes_from_one_colour_to_the_other() {
    let mut game = Game::new();
    game.next_player_turn();
    assert_eq!(Piece::Black, game.get_player_turn());
    game.next_player_turn();
    assert_eq!(Piece::White, game.get_player_turn());
}

#[test]
fn setting_a_token_on_the_grid_passes_the_turn() {
    let mut game = Game::new();
    assert!(compute_step(true, 2, 1, &mut game).is_ok());
    assert_eq!(EMPTY, game.get_board());
    assert!(compute_step(false, 2, 1, &mut game).is_ok());
    assert_eq!(Piece::White, game.get_piece_color(2, 1));
    assert_eq!(Piece::Black, game.get_player_turn());
    assert_eq!(17, game.get_setup_pieces_left());
    assert_eq!(1, game.get_piece_count(Piece::White));
    assert!(compute_step(false, 2, 1, &mut game).is_ok());
    assert_eq!(Piece::White, game.get_piece_color(2, 1));
    assert_eq!(Piece::Black, game.get_player_turn());
    assert_eq!(17, game.get_setup_pieces_left());
}

#[test]
fn a_mill_set_on_the_grid_lets_the_player_take_a_token() {
    let mut game = Game::new();
    for (spoke, ring) in [(0, 0), (4, 1), (1, 0), (5, 1)] {
        compute_step(false, spoke, ring, &mut game).unwrap();
    }
    compute_step(false, 2, 0, &mut game).unwrap();
    assert_eq!(State::Take, game.get_state());
    assert_eq!(Piece::White, game.get_player_turn());
    compute_step(false, 0, 0, &mut game).unwrap();
    compute_step(false, 7, 2, &mut game).unwrap();
    assert_eq!(State::Take, game.get_state());
    compute_step(false, 5, 1, &mut game).unwrap();
    assert_eq!(Piece::Empty, game.get_piece_color(5, 1));
    assert_eq!(Piece::Black, game.get_player_turn());
    assert_eq!(State::Setup, game.get_state());
    assert_eq!(1, game.get_piece_count(Piece::Black));
}

#[test]
fn a_token_on_the_grid_is_lifted_and_put_on_a_neighbour() {
    let mut game = playing();
    assert!(compute_step(true, 3, 0, &mut game).is_ok());
    assert_eq!(Some(CarryPiece::new(3, 0, Piece::White)), game.get_carry_piece());
    assert_eq!(Piece::Empty, game.get_piece_color(3, 0));
    assert!(compute_step(false, 3, 1, &mut game).is_ok());
    assert_eq!(Piece::White, game.get_piece_color(3, 1));
    assert_eq!(Piece::Empty, game.get_piece_color(3, 0));
    assert_eq!(None, game.get_carry_piece());
    assert_eq!(Piece::Black, game.get_player_turn());
}

#[test]
fn a_token_on_the_grid_goes_back_from_a_cell_it_cannot_reach() {
    let mut game = playing();
    let board = game.get_board();
    compute_step(true, 3, 0, &mut game).unwrap();
    compute_step(false, 6, 1, &mut game).unwrap();
    assert_eq!(board, game.get_board());
    assert_eq!(Piece::White, game.get_player_turn());
    compute_step(true, 3, 0, &mut game).unwrap();
    compute_step(false, 2, 0, &mut game).unwrap();
    assert_eq!(board, game.get_board());
    assert_eq!(None, game.get_carry_piece());
}

#[test]
fn buttons_on_the_wrong_cell_are_errors() {
    let mut game = playing();
    let board = game.get_board();
    assert_eq!("", compute_step(true, 4, 2, &mut game).unwrap_err().message);
    assert!(compute_step(true, 7, 0, &mut game).is_err());
    assert!(compute_step(false, 3, 1, &mut game).is_err());
    assert_eq!(board, game.get_board());
    assert!(compute_button_down(4, 2, Piece::Black, &mut game).is_err());
    let mut setting = Game::new();
    assert!(compute_button_down(4, 2, Piece::Black, &mut setting).is_ok());
    assert_eq!(EMPTY, setting.get_board());
}

#[test]
fn three_tokens_fly_on_the_grid() {
    let mut game = Game::new_example_board();
    assert!(compute_step(true, 5, 0, &mut game).is_ok());
    assert!(compute_step(false, 7, 1, &mut game).is_ok());
    assert_eq!(Piece::White, game.get_piece_color(7, 1));
    assert_eq!(Piece::Empty, game.get_piece_color(5, 0));
    assert_eq!(Piece::Black, game.get_player_turn());
    // Black has seven tokens and does not fly.
    let board = game.get_board();
    compute_step(true, 4, 0, &mut game).unwrap();
    compute_step(false, 7, 0, &mut game).unwrap();
    assert_eq!(board, game.get_board());
    assert_eq!(Piece::Black, game.get_player_turn());
}

#[test]
fn a_button_released_in_a_won_game_changes_nothing() {
    let mut game = playing();
    let board = game.get_board();
    assert!(compute_button_up(3, 1, Piece::Empty, None, State::Win, &mut game).is_ok());
    assert_eq!(board, game.get_board());
    assert_eq!(Piece::White, game.get_player_turn());
}

#[test]
fn pictures_for_the_cells_of_the_grid() {
    let none = None;
    let image = |state, player, field, position, carry, count| {
        calculate_image(state, player, field, position, EXAMPLE, carry, count)
    };
    assert_eq!(
        Some(Sprite::EmptyWhiteOutlined),
        image(State::Setup, Piece::White, Piece::Empty, (0, 0), none, 0)
    );
    assert_eq!(
        Some(Sprite::EmptyBlackOutlined),
        image(State::Setup, Piece::Black, Piece::Empty, (0, 0), none, 0)
    );
    assert_eq!(None, image(State::Setup, Piece::Empty, Piece::Empty, (0, 0), none, 0));
    assert_eq!(
        Some(Sprite::Black),
        image(State::Setup, Piece::White, Piece::Black, (0, 1), none, 0)
    );
    assert_eq!(
        Some(Sprite::WhiteOutlined),
        image(State::Normal, Piece::White, Piece::White, (5, 0), none, 3)
    );
    assert_eq!(
        Some(Sprite::White),
        image(State::Normal, Piece::Black, Piece::White, (5, 0), none, 3)
    );
    assert_eq!(
        Some(Sprite::BlackOutlined),
        image(State::End, Piece::Black, Piece::Black, (0, 1), none, 7)
    );
    assert_eq!(None, image(State::Normal, Piece::White, Piece::Empty, (6, 0), none, 3));
    let carried = Some(CarryPiece::new(5, 0, Piece::White));
    assert_eq!(
        Some(Sprite::Outline),
        image(State::Normal, Piece::White, Piece::Empty, (6, 0), carried, 3)
    );
    assert_eq!(None, image(State::Normal, Piece::White, Piece::Empty, (7, 0), carried, 3));
    assert_eq!(
        Some(Sprite::Outline),
        image(State::End, Piece::White, Piece::Empty, (7, 0), carried, 3)
    );
    assert_eq!(None, image(State::End, Piece::White, Piece::Empty, (5, 0), carried, 3));
    assert_eq!(None, image(State::End, Piece::White, Piece::Empty, (7, 0), carried, 4));
    assert_eq!(
        Some(Sprite::Black),
        image(State::End, Piece::White, Piece::Black, (4, 0), carried, 3)
    );
    // The three white tokens stand in a mill and may all be taken.
    assert_eq!(
        Some(Sprite::TakeWhite),
        image(State::Take, Piece::Black, Piece::White, (5, 1), none, 7)
    );
    // The black token on the outer ring stands in no mill.
    assert_eq!(
        Some(Sprite::TakeBlack),
        image(State::Take, Piece::White, Piece::Black, (4, 0), none, 3)
    );
    assert_eq!(
        Some(Sprite::White),
        image(State::Take, Piece::White, Piece::White, (5, 1), none, 3)
    );
    assert_eq!(None, image(State::Take, Piece::White, Piece::Empty, (6, 1), none, 3));
    assert_eq!(Some(Sprite::White), image(State::Win, Piece::Black, Piece::Empty, (6, 1), none, 3));
    assert_eq!(Some(Sprite::Black), image(State::Win, Piece::White, Piece::Empty, (6, 1), none, 3));
}

#[test]
fn tokens_in_a_mill_are_not_marked_while_another_is_free() {
    let mut mill = [[Piece::Empty; 3]; 8];
    mill[0][0] = Piece::Black;
    mill[1][0] = Piece::Black;
    mill[2][0] = Piece::Black;
    mill[5][1] = Piece::Black;
    assert_eq!(
        Some(Sprite::Black),
        calculate_image(State::Take, Piece::White, Piece::Black, (1, 0), mill, None, 3)
    );
    assert_eq!(
        Some(Sprite::TakeBlack),
        calculate_image(State::Take, Piece::White, Piece::Black, (5, 1), mill, None, 3)
    );
}
