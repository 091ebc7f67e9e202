use muehle::ai::action::Action;
use muehle::enums::Difficulty;
use muehle::game::Game;
use muehle::position::decode_positions;
use muehle::rendering::{
    calculate_bottom_panel_image, calculate_bottom_panel_setup_image, calculate_image, Sprite,
};
use muehle::rules::is_on_board;
use muehle::utils::{insert_number_of_possible_moves_to_board, insert_token_count_to_board};

fn counted(letters: &str) -> u64 {
    insert_number_of_possible_moves_to_board(insert_token_count_to_board(decode_positions(
        letters.to_string(),
    )))
}

fn playing(letters: &str) -> Game {
    let mut game = Game::new_example_board();
    game.set_board(counted(letters));
    game
}

#[test]
fn pictures_are_kept_under_their_names() {
    assert_eq!("white", Sprite::White.name());
    assert_eq!("white outlined", Sprite::WhiteOutlined.name());
    assert_eq!("black", Sprite::Black.name());
    assert_eq!("black outlined", Sprite::BlackOutlined.name());
    assert_eq!("take white", Sprite::TakeWhite.name());
    assert_eq!("take black", Sprite::TakeBlack.name());
    assert_eq!("empty white outlined", Sprite::EmptyWhiteOutlined.name());
    assert_eq!("empty black outlined", Sprite::EmptyBlackOutlined.name());
    assert_eq!("outline", Sprite::Outline.name());
}

#[test]
fn empty_cells_are_marked_for_the_player_who_sets() {
    let mut game = Game::new();
    game.set_token_at(3, 2);
    assert_eq!(Some(Sprite::EmptyWhiteOutlined), calculate_image(&game, 0, false, false));
    assert_eq!(Some(Sprite::EmptyWhiteOutlined), calculate_image(&game, 0, false, true));
    assert_eq!(None, calculate_image(&game, 0, true, false));
    assert_eq!(Some(Sprite::Black), calculate_image(&game, 3, true, false));
    game.next_player_turn();
    assert_eq!(Some(Sprite::EmptyBlackOutlined), calculate_image(&game, 0, false, false));
    assert_eq!(None, calculate_image(&game, 0, false, true));
}

#[test]
fn tokens_that_can_be_lifted_are_outlined() {
    let game = playing("WBEEEEEBBEEEEEEEWWWBEEEE");
    // The token on cell 0 has no empty neighbour, and white has four tokens.
    assert_eq!(Some(Sprite::White), calculate_image(&game, 0, false, false));
    assert_eq!(Some(Sprite::WhiteOutlined), calculate_image(&game, 16, false, false));
    assert_eq!(Some(Sprite::White), calculate_image(&game, 16, true, false));
    assert_eq!(Some(Sprite::Black), calculate_image(&game, 1, false, false));
    assert_eq!(None, calculate_image(&game, 5, false, false));
    let flying = playing("WBEEEEEBBEEEEEEEWWEBEEEE");
    assert_eq!(Some(Sprite::WhiteOutlined), calculate_image(&flying, 0, false, false));
    let mut black = playing("WBEEEEEBBEEEEEEEWWWBEEEE");
    black.next_player_turn();
    assert_eq!(Some(Sprite::BlackOutlined), calculate_image(&black, 1, false, false));
    assert_eq!(Some(Sprite::Black), calculate_image(&black, 1, false, true));
    assert_eq!(Some(Sprite::White), calculate_image(&black, 16, false, false));
}

#[test]
fn cells_for_the_lifted_token_are_marked() {
    let mut game = playing("WWEEEEEEWEEEEEEEWWBBBBEE");
    game.set_token_at(1, 0);
    game.set_carry_piece(Some((1, 3)));
    assert_eq!(Some(Sprite::Outline), calculate_image(&game, 2, false, false));
    assert_eq!(None, calculate_image(&game, 3, false, false));
    assert_eq!(None, calculate_image(&game, 9, false, false));
    assert_eq!(Some(Sprite::White), calculate_image(&game, 0, false, false));
    assert_eq!(Some(Sprite::Black), calculate_image(&game, 18, false, false));
    // With three tokens left on the board every empty cell is marked.
    let mut four = playing("WWEEEEEEWEEEEEEEWEBBBBEE");
    four.set_token_at(1, 0);
    four.set_carry_piece(Some((1, 3)));
    assert_eq!(Some(Sprite::Outline), calculate_image(&four, 9, false, false));
    assert_eq!(Some(Sprite::Outline), calculate_image(&four, 1, false, false));
}

#[test]
fn tokens_that_may_be_taken_are_marked() {
    let mut game = playing("WEEEEEEWEBBBEEEEEEEEBEEE");
    game.update_state(Some(muehle::enums::State::Take));
    assert_eq!(Some(Sprite::TakeBlack), calculate_image(&game, 20, false, false));
    assert_eq!(Some(Sprite::Black), calculate_image(&game, 10, false, false));
    assert_eq!(Some(Sprite::White), calculate_image(&game, 0, false, false));
    assert_eq!(None, calculate_image(&game, 1, false, false));
    game.next_player_turn();
    assert_eq!(Some(Sprite::TakeWhite), calculate_image(&game, 0, false, false));
    assert_eq!(Some(Sprite::Black), calculate_image(&game, 20, false, false));
}

#[test]
fn a_won_game_marks_the_loser() {
    let mut game = playing("WWEEEEEEEEEEEEEEBBBEEEEE");
    game.update_state(None);
    assert_eq!(muehle::enums::State::Win, game.get_state());
    assert_eq!(Some(Sprite::TakeWhite), calculate_image(&game, 0, false, false));
    assert_eq!(Some(Sprite::BlackOutlined), calculate_image(&game, 16, false, false));
    assert_eq!(None, calculate_image(&game, 5, false, false));
    game.next_player_turn();
    assert_eq!(Some(Sprite::WhiteOutlined), calculate_image(&game, 0, false, false));
    assert_eq!(Some(Sprite::TakeBlack), calculate_image(&game, 16, false, false));
}

#[test]
fn the_panel_picture_shows_both_difficulties() {
    assert_eq!(0, calculate_bottom_panel_image(Difficulty::Off, Difficulty::Off));
    assert_eq!(1, calculate_bottom_panel_image(Difficulty::Off, Difficulty::Easy));
    assert_eq!(4, calculate_bottom_panel_image(Difficulty::Easy, Difficulty::Off));
    assert_eq!(11, calculate_bottom_panel_image(Difficulty::Medium, Difficulty::Hard));
    assert_eq!(14, calculate_bottom_panel_image(Difficulty::Hard, Difficulty::Medium));
    assert_eq!(15, calculate_bottom_panel_image(Difficulty::Hard, Difficulty::Hard));
}

#[test]
fn the_setup_picture_shows_the_tokens_set() {
    assert_eq!(0, calculate_bottom_panel_setup_image(18));
    assert_eq!(5, calculate_bottom_panel_setup_image(13));
    assert_eq!(18, calculate_bottom_panel_setup_image(0));
}

#[test]
fn a_fresh_game_can_be_played() {
    assert!(Game::new().is_playable());
    assert!(Game::new_example_board().is_playable());
    let mut game = Game::new();
    game.set_carry_piece(Some((24, 3)));
    assert!(!game.is_playable());
    game.set_carry_piece(Some((23, 0)));
    assert!(!game.is_playable());
    game.set_carry_piece(Some((23, 2)));
    assert!(game.is_playable());
}

#[test]
fn a_turn_names_cells_of_the_board() {
    assert!(is_on_board(&Action::new(None, 0, None)));
    assert!(is_on_board(&Action::new(Some(23), 23, Some(23))));
    assert!(!is_on_board(&Action::new(None, 24, None)));
    assert!(!is_on_board(&Action::new(Some(24), 0, None)));
    assert!(!is_on_board(&Action::new(None, 0, Some(24))));
}
