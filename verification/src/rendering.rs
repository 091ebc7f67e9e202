use crate::counting::free_neighbors;
use crate::enums::{Difficulty, State};
use crate::game::{Game, GameView};
use crate::logic::piece_count;
use crate::position::{cells, token_at, BLACK, WHITE};
use crate::rules::{beatable, is_beat_possible, is_move_valid, move_valid};
use crate::utils::possible_move_count_of_position;
use vstd::prelude::*;
use vstd::string::StringExecFns;

verus! {

/// The pictures that can be drawn on a cell.
#[derive(Clone, Copy, PartialEq, Eq, Structural, Debug)]
pub enum Sprite {
    White,
    WhiteOutlined,
    Black,
    BlackOutlined,
    TakeWhite,
    TakeBlack,
    EmptyWhiteOutlined,
    EmptyBlackOutlined,
    Outline,
}

impl Sprite {
    /// The name under which the picture is kept.
    pub open spec fn key(self) -> Seq<char> {
        match self {
            Sprite::White => "white"@,
            Sprite::WhiteOutlined => "white outlined"@,
            Sprite::Black => "black"@,
            Sprite::BlackOutlined => "black outlined"@,
            Sprite::TakeWhite => "take white"@,
            Sprite::TakeBlack => "take black"@,
            Sprite::EmptyWhiteOutlined => "empty white outlined"@,
            Sprite::EmptyBlackOutlined => "empty black outlined"@,
            Sprite::Outline => "outline"@,
        }
    }

    /// The name under which the picture is kept.
    pub fn name(self) -> (text: String)
        ensures
            text@ == self.key(),
    {
        match self {
            Sprite::White => String::from_str("white"),
            Sprite::WhiteOutlined => String::from_str("white outlined"),
            Sprite::Black => String::from_str("black"),
            Sprite::BlackOutlined => String::from_str("black outlined"),
            Sprite::TakeWhite => String::from_str("take white"),
            Sprite::TakeBlack => String::from_str("take black"),
            Sprite::EmptyWhiteOutlined => String::from_str("empty white outlined"),
            Sprite::EmptyBlackOutlined => String::from_str("empty black outlined"),
            Sprite::Outline => String::from_str("outline"),
        }
    }
}

/// The picture of a token of `color`, if it is one.
pub open spec fn token_sprite(color: u8) -> Option<Sprite> {
    if color == WHITE {
        Some(Sprite::White)
    } else if color == BLACK {
        Some(Sprite::Black)
    } else {
        None
    }
}

/// While tokens are set: a token is shown as it is, and an empty cell is marked for the
/// player whose turn it is, unless the computer plays for it.
pub open spec fn setup_sprite(
    game: GameView,
    pos: int,
    computer_white: bool,
    computer_black: bool,
) -> Option<Sprite> {
    let field = token_at(game.board, pos);
    if field == WHITE || field == BLACK {
        token_sprite(field)
    } else if game.player_turn == WHITE && !computer_white {
        Some(Sprite::EmptyWhiteOutlined)
    } else if game.player_turn == BLACK && !computer_black {
        Some(Sprite::EmptyBlackOutlined)
    } else {
        None
    }
}

/// Whether the token on `pos` is one that the player whose turn it is can lift: it has an
/// empty neighbour, or the player has three tokens or less.
pub open spec fn can_be_lifted(game: GameView, pos: int) -> bool {
    free_neighbors(cells(game.board), pos) > 0 || piece_count(game.board, game.player_turn) <= 3
}

/// While tokens are moved: with a token lifted the cells to which it may go are marked;
/// else the tokens that a person may lift are outlined.
pub open spec fn normal_sprite(
    game: GameView,
    pos: int,
    computer_white: bool,
    computer_black: bool,
) -> Option<Sprite> {
    let field = token_at(game.board, pos);
    match game.carry_piece {
        Some(piece) => {
            if field == WHITE || field == BLACK {
                token_sprite(field)
            } else if move_valid(
                piece.position as int,
                pos,
                field,
                piece_count(game.board, piece.color),
            ) {
                Some(Sprite::Outline)
            } else {
                None
            }
        },
        None => {
            if field == WHITE && game.player_turn == WHITE && can_be_lifted(game, pos)
                && !computer_white {
                Some(Sprite::WhiteOutlined)
            } else if field == WHITE {
                Some(Sprite::White)
            } else if field == BLACK && game.player_turn == BLACK && can_be_lifted(game, pos)
                && !computer_black {
                Some(Sprite::BlackOutlined)
            } else if field == BLACK {
                Some(Sprite::Black)
            } else {
                None
            }
        },
    }
}

/// While a token is taken: the tokens that may be taken are marked.
pub open spec fn take_sprite(game: GameView, pos: int) -> Option<Sprite> {
    let field = token_at(game.board, pos);
    let player = game.player_turn;
    if player == WHITE && field == WHITE {
        Some(Sprite::White)
    } else if player == WHITE && field == BLACK {
        if beatable(cells(game.board), pos, WHITE) {
            Some(Sprite::TakeBlack)
        } else {
            Some(Sprite::Black)
        }
    } else if player == BLACK && field == WHITE {
        if beatable(cells(game.board), pos, BLACK) {
            Some(Sprite::TakeWhite)
        } else {
            Some(Sprite::White)
        }
    } else if player == BLACK && field == BLACK {
        Some(Sprite::Black)
    } else {
        None
    }
}

/// Once the game is won: the tokens of the player who would move are marked as taken, the
/// others outlined.
pub open spec fn win_sprite(game: GameView, pos: int) -> Option<Sprite> {
    let field = token_at(game.board, pos);
    let player = game.player_turn;
    if player == WHITE && field == WHITE {
        Some(Sprite::TakeWhite)
    } else if player == WHITE && field == BLACK {
        Some(Sprite::BlackOutlined)
    } else if player == BLACK && field == WHITE {
        Some(Sprite::WhiteOutlined)
    } else if player == BLACK && field == BLACK {
        Some(Sprite::TakeBlack)
    } else {
        None
    }
}

/// The picture to draw on cell `pos`, if any.
pub open spec fn sprite_at(
    game: GameView,
    pos: int,
    computer_white: bool,
    computer_black: bool,
) -> Option<Sprite> {
    match game.state {
        State::Setup => setup_sprite(game, pos, computer_white, computer_black),
        State::Normal => normal_sprite(game, pos, computer_white, computer_black),
        State::Take => take_sprite(game, pos),
        State::Win => win_sprite(game, pos),
    }
}

/// The number of a difficulty: off 0, easy 1, medium 2, hard 3.
pub open spec fn level(difficulty: Difficulty) -> int {
    match difficulty {
        Difficulty::Off => 0,
        Difficulty::Easy => 1,
        Difficulty::Medium => 2,
        Difficulty::Hard => 3,
    }
}

/// The picture to draw on cell `position`, if any.
pub fn calculate_image(
    game: &Game,
    position: usize,
    computer_white: bool,
    computer_black: bool,
) -> (sprite: Option<Sprite>)
    requires
        position < 24,
    ensures
        sprite == sprite_at(game@, position as int, computer_white, computer_black),
{
    match game.get_state() {
        State::Setup => calculate_image_for_setup(game, position, computer_white, computer_black),
        State::Normal => calculate_image_for_normal(
            game,
            position,
            computer_white,
            computer_black,
        ),
        State::Take => calculate_image_for_take(game, position),
        State::Win => calculate_image_for_win(game, position),
    }
}

fn calculate_image_for_setup(
    game: &Game,
    position: usize,
    computer_white: bool,
    computer_black: bool,
) -> (sprite: Option<Sprite>)
    requires
        position < 24,
    ensures
        sprite == setup_sprite(game@, position as int, computer_white, computer_black),
{
    let player_color = game.get_player_turn();
    let field_color = game.get_token_at(position);
    if field_color == WHITE {
        Some(Sprite::White)
    } else if field_color == BLACK {
        Some(Sprite::Black)
    } else if player_color == WHITE && !computer_white {
        Some(Sprite::EmptyWhiteOutlined)
    } else if player_color == BLACK && !computer_black {
        Some(Sprite::EmptyBlackOutlined)
    } else {
        None
    }
}

fn calculate_image_for_normal(
    game: &Game,
    position: usize,
    computer_white: bool,
    computer_black: bool,
) -> (sprite: Option<Sprite>)
    requires
        position < 24,
    ensures
        sprite == normal_sprite(game@, position as int, computer_white, computer_black),
{
    let player_color = game.get_player_turn();
    let field_color = game.get_token_at(position);
    let board = game.get_board();
    match game.get_carry_piece() {
        Some(piece) => {
            if field_color == WHITE {
                Some(Sprite::White)
            } else if field_color == BLACK {
                Some(Sprite::Black)
            } else {
                let (carry_pos, piece_color) = piece.into();
                if is_move_valid(
                    carry_pos,
                    position,
                    field_color,
                    game.get_piece_count(piece_color),
                ) {
                    Some(Sprite::Outline)
                } else {
                    None
                }
            }
        },
        None => {
            let liftable = possible_move_count_of_position(board, position) > 0
                || game.get_piece_count(player_color) <= 3;
            if field_color == WHITE && player_color == WHITE && liftable && !computer_white {
                Some(Sprite::WhiteOutlined)
            } else if field_color == WHITE {
                Some(Sprite::White)
            } else if field_color == BLACK && player_color == BLACK && liftable && !computer_black {
                Some(Sprite::BlackOutlined)
            } else if field_color == BLACK {
                Some(Sprite::Black)
            } else {
                None
            }
        },
    }
}

fn calculate_image_for_take(game: &Game, position: usize) -> (sprite: Option<Sprite>)
    requires
        position < 24,
    ensures
        sprite == take_sprite(game@, position as int),
{
    let player_color = game.get_player_turn();
    let field_color = game.get_token_at(position);
    let board = game.get_board();
    if player_color == WHITE && field_color == WHITE {
        Some(Sprite::White)
    } else if player_color == WHITE && field_color == BLACK {
        if is_beat_possible(board, position, WHITE) {
            Some(Sprite::TakeBlack)
        } else {
            Some(Sprite::Black)
        }
    } else if player_color == BLACK && field_color == WHITE {
        if is_beat_possible(board, position, BLACK) {
            Some(Sprite::TakeWhite)
        } else {
            Some(Sprite::White)
        }
    } else if player_color == BLACK && field_color == BLACK {
        Some(Sprite::Black)
    } else {
        None
    }
}

fn calculate_image_for_win(game: &Game, position: usize) -> (sprite: Option<Sprite>)
    requires
        position < 24,
    ensures
        sprite == win_sprite(game@, position as int),
{
    let field_color = game.get_token_at(position);
    let player_color = game.get_player_turn();
    if player_color == WHITE && field_color == WHITE {
        Some(Sprite::TakeWhite)
    } else if player_color == WHITE && field_color == BLACK {
        Some(Sprite::BlackOutlined)
    } else if player_color == BLACK && field_color == WHITE {
        Some(Sprite::WhiteOutlined)
    } else if player_color == BLACK && field_color == BLACK {
        Some(Sprite::TakeBlack)
    } else {
        None
    }
}

/// The number of the panel picture that shows the two difficulties: four times white's
/// level plus black's.
pub fn calculate_bottom_panel_image(comp_white: Difficulty, comp_black: Difficulty) -> (index: u8)
    ensures
        index == 4 * level(comp_white) + level(comp_black),
{
    let mut image_index: u8 = match comp_white {
        Difficulty::Off => 0,
        Difficulty::Easy => 4,
        Difficulty::Medium => 8,
        Difficulty::Hard => 12,
    };
    match comp_black {
        Difficulty::Off => {},
        Difficulty::Easy => {
            image_index += 1;
        },
        Difficulty::Medium => {
            image_index += 2;
        },
        Difficulty::Hard => {
            image_index += 3;
        },
    }
    image_index
}

/// The number of the panel picture that shows how many tokens are set.
pub fn calculate_bottom_panel_setup_image(setup_pieces_left: u8) -> (index: u8)
    requires
        setup_pieces_left <= 18,
    ensures
        index == 18 - setup_pieces_left,
{
    18 - setup_pieces_left
}

} // verus!
