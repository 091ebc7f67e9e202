use crate::grid::enums::{Piece, State};
use crate::grid::game::CarryPiece;
use crate::grid::logic::{all_complete, can_take_piece, completes_mill, is_neighbor, joined, Grid};
use crate::rendering::Sprite;
use vstd::prelude::*;

verus! {

/// While tokens are set: a token is shown as it is, an empty cell is marked for the player.
pub open spec fn setup_sprite(player: Piece, field: Piece) -> Option<Sprite> {
    match field {
        Piece::White => Some(Sprite::White),
        Piece::Black => Some(Sprite::Black),
        Piece::Empty => match player {
            Piece::White => Some(Sprite::EmptyWhiteOutlined),
            Piece::Black => Some(Sprite::EmptyBlackOutlined),
            Piece::Empty => None,
        },
    }
}

/// With no token lifted: the tokens of the player are outlined.
pub open spec fn resting_sprite(player: Piece, field: Piece) -> Option<Sprite> {
    match (player, field) {
        (Piece::White, Piece::White) => Some(Sprite::WhiteOutlined),
        (Piece::White, Piece::Black) => Some(Sprite::Black),
        (Piece::Black, Piece::White) => Some(Sprite::White),
        (Piece::Black, Piece::Black) => Some(Sprite::BlackOutlined),
        (_, _) => None,
    }
}

/// With a token lifted: the empty cells to which it may go are marked. A token flies to
/// any other cell if `flying` is set.
pub open spec fn carried_sprite(
    field: Piece,
    position: (usize, usize),
    carried: CarryPiece,
    flying: bool,
) -> Option<Sprite> {
    match field {
        Piece::White => Some(Sprite::White),
        Piece::Black => Some(Sprite::Black),
        Piece::Empty => {
            if (flying && (carried.x, carried.ring) != position) || joined(
                (carried.x, carried.ring),
                position,
            ) {
                Some(Sprite::Outline)
            } else {
                None
            }
        },
    }
}

/// While a token is taken: the tokens of the other player that may be taken are marked.
pub open spec fn take_sprite(
    player: Piece,
    field: Piece,
    position: (usize, usize),
    board: Grid,
) -> Option<Sprite> {
    let takable = !completes_mill(field, position.0 as int, position.1 as int, board)
        || all_complete(field, board);
    match (player, field) {
        (Piece::White, Piece::White) => Some(Sprite::White),
        (Piece::White, Piece::Black) => Some(
            if takable {
                Sprite::TakeBlack
            } else {
                Sprite::Black
            },
        ),
        (Piece::Black, Piece::White) => Some(
            if takable {
                Sprite::TakeWhite
            } else {
                Sprite::White
            },
        ),
        (Piece::Black, Piece::Black) => Some(Sprite::Black),
        (_, _) => None,
    }
}

/// The picture to draw on a cell, if any.
pub open spec fn sprite_for(
    state: State,
    player: Piece,
    field: Piece,
    position: (usize, usize),
    board: Grid,
    carry_piece: Option<CarryPiece>,
    piece_count: u8,
) -> Option<Sprite> {
    match state {
        State::Setup => setup_sprite(player, field),
        State::Normal => match carry_piece {
            Some(carried) => carried_sprite(field, position, carried, false),
            None => resting_sprite(player, field),
        },
        State::Take => take_sprite(player, field, position, board),
        State::End => match carry_piece {
            Some(carried) => carried_sprite(field, position, carried, piece_count == 3),
            None => resting_sprite(player, field),
        },
        State::Win => Some(
            if player == Piece::Black {
                Sprite::White
            } else {
                Sprite::Black
            },
        ),
    }
}

/// Chooses the picture to draw on a cell by the state of the game, the player whose turn
/// it is, what the cell holds, a lifted token and the number of tokens of the player.
pub fn calculate_image(
    state: State,
    player_color: Piece,
    field_color: Piece,
    field_position: (usize, usize),
    board: Grid,
    carry_piece: Option<CarryPiece>,
    piece_count: u8,
) -> (sprite: Option<Sprite>)
    requires
        field_position.0 < 8,
        field_position.1 < 3,
    ensures
        sprite == sprite_for(
            state,
            player_color,
            field_color,
            field_position,
            board,
            carry_piece,
            piece_count,
        ),
{
    match state {
        State::Setup => calculate_image_for_setup(player_color, field_color),
        State::Normal => calculate_image_for_normal(
            player_color,
            field_color,
            field_position,
            carry_piece,
        ),
        State::Take => calculate_image_for_take(player_color, field_color, field_position, board),
        State::End => calculate_image_for_end(
            player_color,
            field_color,
            field_position,
            carry_piece,
            piece_count,
        ),
        State::Win => calculate_image_for_win(player_color),
    }
}

fn calculate_image_for_setup(player_color: Piece, field_color: Piece) -> (sprite: Option<Sprite>)
    ensures
        sprite == setup_sprite(player_color, field_color),
{
    match field_color {
        Piece::White => Some(Sprite::White),
        Piece::Black => Some(Sprite::Black),
        Piece::Empty => match player_color {
            Piece::White => Some(Sprite::EmptyWhiteOutlined),
            Piece::Black => Some(Sprite::EmptyBlackOutlined),
            Piece::Empty => None,
        },
    }
}

fn calculate_image_at_rest(player_color: Piece, field_color: Piece) -> (sprite: Option<Sprite>)
    ensures
        sprite == resting_sprite(player_color, field_color),
{
    match (player_color, field_color) {
        (Piece::White, Piece::White) => Some(Sprite::WhiteOutlined),
        (Piece::White, Piece::Black) => Some(Sprite::Black),
        (Piece::Black, Piece::White) => Some(Sprite::White),
        (Piece::Black, Piece::Black) => Some(Sprite::BlackOutlined),
        (_, _) => None,
    }
}

fn calculate_image_for_normal(
    player_color: Piece,
    field_color: Piece,
    field_position: (usize, usize),
    carry_piece: Option<CarryPiece>,
) -> (sprite: Option<Sprite>)
    ensures
        sprite == match carry_piece {
            Some(carried) => carried_sprite(field_color, field_position, carried, false),
            None => resting_sprite(player_color, field_color),
        },
{
    match carry_piece {
        Some(carried) => match field_color {
            Piece::White => Some(Sprite::White),
            Piece::Black => Some(Sprite::Black),
            Piece::Empty => {
                let (carry_x, carry_ring, _piece_color) = carried.into();
                if is_neighbor((carry_x, carry_ring), field_position) {
                    Some(Sprite::Outline)
                } else {
                    None
                }
            },
        },
        None => calculate_image_at_rest(player_color, field_color),
    }
}

fn calculate_image_for_take(
    player_color: Piece,
    field_color: Piece,
    field_position: (usize, usize),
    board: Grid,
) -> (sprite: Option<Sprite>)
    requires
        field_position.0 < 8,
        field_position.1 < 3,
    ensures
        sprite == take_sprite(player_color, field_color, field_position, board),
{
    match (player_color, field_color) {
        (Piece::White, Piece::White) => Some(Sprite::White),
        (Piece::White, Piece::Black) => {
            if can_take_piece(Piece::Black, field_position, board) {
                Some(Sprite::TakeBlack)
            } else {
                Some(Sprite::Black)
            }
        },
        (Piece::Black, Piece::White) => {
            if can_take_piece(Piece::White, field_position, board) {
                Some(Sprite::TakeWhite)
            } else {
                Some(Sprite::White)
            }
        },
        (Piece::Black, Piece::Black) => Some(Sprite::Black),
        (_, _) => None,
    }
}

fn calculate_image_for_end(
    player_color: Piece,
    field_color: Piece,
    field_position: (usize, usize),
    carry_piece: Option<CarryPiece>,
    piece_count: u8,
) -> (sprite: Option<Sprite>)
    ensures
        sprite == match carry_piece {
            Some(carried) => carried_sprite(field_color, field_position, carried, piece_count == 3),
            None => resting_sprite(player_color, field_color),
        },
{
    match carry_piece {
        Some(carried) => match field_color {
            Piece::White => Some(Sprite::White),
            Piece::Black => Some(Sprite::Black),
            Piece::Empty => {
                let (carry_x, carry_ring, _piece_color) = carried.into();
                if (piece_count == 3 && (carry_x != field_position.0 || carry_ring
                    != field_position.1)) || is_neighbor((carry_x, carry_ring), field_position) {
                    Some(Sprite::Outline)
                } else {
                    None
                }
            },
        },
        None => calculate_image_at_rest(player_color, field_color),
    }
}

fn calculate_image_for_win(player_color: Piece) -> (sprite: Option<Sprite>)
    ensures
        sprite == Some(
            if player_color == Piece::Black {
                Sprite::White
            } else {
                Sprite::Black
            },
        ),
{
    Some(if player_color == Piece::Black {
        Sprite::White
    } else {
        Sprite::Black
    })
}

} // verus!
