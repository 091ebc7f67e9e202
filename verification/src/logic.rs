use crate::ai::action::Action;
use crate::counting::free_neighbors;
use crate::enums::{CarryPiece, Difficulty, FieldError, State};
use crate::game::{Game, GameView};
use crate::position::{cells, negate_token, negated, token_at, EMPTY, WHITE};
use crate::rules::{
    beatable, in_mill, is_beat_possible, is_mill_closing, is_move_valid, is_part_of_mill,
    mill_closed, move_valid, on_board,
};
use crate::utils::{black_token_count, possible_move_count_of_position, white_token_count};
use vstd::prelude::*;
use vstd::string::StringExecFns;

verus! {

/// The number of tokens that the board records for white, or else for black.
pub open spec fn piece_count(board: u64, color: u8) -> int {
    if color == WHITE {
        white_token_count(board)
    } else {
        black_token_count(board)
    }
}

/// Whether the player whose turn it is may lift the token on `pos`: it is its own token,
/// and it has an empty cell next to it or the player has three tokens and flies.
pub open spec fn may_lift(game: GameView, pos: int) -> bool {
    &&& token_at(game.board, pos) == game.player_turn
    &&& (free_neighbors(cells(game.board), pos) > 0 || piece_count(
        game.board,
        token_at(game.board, pos),
    ) == 3)
}

/// The game after the button went down on cell `pos`: while tokens are moved, a token that
/// may be lifted is lifted.
pub open spec fn after_button_down(game: GameView, pos: int) -> GameView {
    if game.state == State::Normal && may_lift(game, pos) {
        GameView {
            carry_piece: Some(
                CarryPiece { position: pos as usize, color: token_at(game.board, pos) },
            ),
            ..game.with_token_at(pos, EMPTY)
        }
    } else {
        game
    }
}

/// The game after a token was set on the empty cell `pos`: a closed mill lets the player
/// take a token, else the turn passes on.
pub open spec fn after_setting(game: GameView, pos: int) -> GameView {
    if token_at(game.board, pos) == EMPTY {
        let set = game.with_token_at(pos, game.player_turn).setup_reduced();
        if in_mill(cells(set.board), pos, game.player_turn) {
            set.state_updated(Some(State::Take))
        } else {
            set.turn_passed()
        }
    } else {
        game
    }
}

/// The game after the lifted token was put on cell `pos`, if it may go there: a closed
/// mill lets the player take a token, else the turn passes on.
pub open spec fn after_putting(game: GameView, pos: int) -> GameView {
    match game.carry_piece {
        Some(piece) => {
            if move_valid(
                piece.position as int,
                pos,
                token_at(game.board, pos),
                piece_count(game.board, piece.color) + 1,
            ) {
                let put = GameView { carry_piece: None, ..game.with_token_at(pos, piece.color) };
                if mill_closed(cells(game.board), cells(put.board), piece.color) {
                    put.state_updated(Some(State::Take))
                } else {
                    put.turn_passed()
                }
            } else {
                game
            }
        },
        None => game,
    }
}

/// The game after the token on cell `pos` was taken, if it may be taken.
pub open spec fn after_taking(game: GameView, pos: int) -> GameView {
    if token_at(game.board, pos) == negated(game.player_turn) && beatable(
        cells(game.board),
        pos,
        game.player_turn,
    ) {
        game.with_token_at(pos, EMPTY).turn_passed().state_updated(Some(State::Normal))
    } else {
        game
    }
}

/// The game after the button went up on cell `pos`: what happens depends on what the game
/// waits for; a token that is still lifted goes back, and the state follows the board.
pub open spec fn after_button_up(game: GameView, pos: int) -> GameView {
    (match game.state {
        State::Setup => after_setting(game, pos),
        State::Normal => after_putting(game, pos),
        State::Take => after_taking(game, pos),
        State::Win => game,
    }).carry_undone().state_updated(None)
}

/// The game after the computer made the turn `action`.
pub open spec fn after_action(game: GameView, action: Action) -> GameView {
    let lifted = match action.start_position {
        Some(start) => after_button_down(game, start as int),
        None => game,
    };
    let put = after_button_up(lifted, action.end_position as int);
    match action.beatable_position {
        Some(beaten) => after_button_up(put, beaten as int),
        None => put,
    }
}

/// The difficulty after a panel field for `new` was chosen while `old` was set: choosing
/// what is set switches the computer off.
pub open spec fn toggled(old: Difficulty, new: Difficulty) -> Difficulty {
    if old == new {
        Difficulty::Off
    } else {
        new
    }
}

/// The button goes down on a cell: while tokens are moved the player lifts its token there.
/// It is an error to try a token that may not be lifted.
pub fn compute_button_down(position: usize, game: &mut Game) -> (done: Result<(), FieldError>)
    requires
        position < 24,
    ensures
        final(game)@ == after_button_down(old(game)@, position as int),
        done is Err <==> old(game)@.state == State::Normal && !may_lift(
            old(game)@,
            position as int,
        ),
        done matches Err(error) ==> error.message@ == Seq::<char>::empty(),
        old(game)@.wf() ==> final(game)@.wf(),
{
    let color = game.get_token_at(position);
    match game.get_state() {
        State::Normal => {
            if color == game.get_player_turn() && (possible_move_count_of_position(
                game.get_board(),
                position,
            ) > 0 || game.get_piece_count(color) == 3) {
                game.set_token_at(position, EMPTY);
                game.set_carry_piece(Some((position, color)));
            } else {
                return Err(FieldError::empty());
            }
        },
        State::Setup | State::Take | State::Win => {},
    }
    Ok(())
}

/// The button goes up on a cell: a token is set, the lifted token is put down, or a token
/// is taken, as the state of the game asks for.
pub fn compute_button_up(position: usize, game: &mut Game) -> (done: Result<(), FieldError>)
    requires
        position < 24,
        old(game)@.wf(),
    ensures
        final(game)@ == after_button_up(old(game)@, position as int),
        done is Ok,
        final(game)@.wf(),
{
    let carry_piece = game.get_carry_piece();
    let token_type = game.get_token_at(position);
    match game.get_state() {
        State::Setup => {
            if token_type == EMPTY {
                let player_color = game.get_player_turn();
                game.set_token_at(position, player_color);
                game.reduce_setup_pieces_left();
                if is_part_of_mill(game.get_board(), position, player_color) {
                    game.update_state(Some(State::Take));
                } else {
                    game.next_player_turn();
                }
            }
        },
        State::Normal => {
            match carry_piece {
                Some(piece) => {
                    let (carry_pos, carry_piece_color) = piece.into();
                    if is_move_valid(
                        carry_pos,
                        position,
                        token_type,
                        game.get_piece_count(carry_piece_color) + 1,
                    ) {
                        let board_before = game.get_board();
                        game.set_token_at(position, carry_piece_color);
                        game.set_carry_piece(None);
                        if is_mill_closing(board_before, game.get_board(), carry_piece_color) {
                            game.update_state(Some(State::Take));
                        } else {
                            game.next_player_turn();
                        }
                    }
                },
                None => {},
            }
        },
        State::Take => {
            if token_type == negate_token(game.get_player_turn()) && is_beat_possible(
                game.get_board(),
                position,
                game.get_player_turn(),
            ) {
                game.set_token_at(position, EMPTY);
                game.next_player_turn();
                game.update_state(Some(State::Normal));
            }
        },
        State::Win => {},
    }
    game.undo_carry();
    game.update_state(None);
    Ok(())
}

/// Makes the turn that the computer chose. It is an error if the token that the turn
/// lifts may not be lifted; the game is then as it was.
pub fn compute_computer_step(action: Action, game: &mut Game) -> (done: Result<(), FieldError>)
    requires
        on_board(action),
        old(game)@.wf(),
    ensures
        done is Err <==> (action.start_position matches Some(start) && old(game)@.state
            == State::Normal && !may_lift(old(game)@, start as int)),
        done is Ok ==> final(game)@ == after_action(old(game)@, action),
        done is Err ==> final(game)@ == old(game)@,
        done matches Err(error) ==> error.message@ == "Invalid AI start position"@,
        final(game)@.wf(),
{
    let (start_position, end_position, beatable_position) = action.into();
    match start_position {
        Some(start) => {
            if compute_button_down(start, game).is_err() {
                return Err(FieldError::new(String::from_str("Invalid AI start position")));
            }
        },
        None => {},
    }
    let _ = compute_button_up(end_position, game);
    match beatable_position {
        Some(beaten) => {
            let _ = compute_button_up(beaten, game);
        },
        None => {},
    }
    Ok(())
}

/// What the two players' difficulties are after the panel field `index` was chosen: the
/// first three fields are white's, from hard to easy; the next three black's, from easy to
/// hard.
pub fn compute_bottom_panel(old_white: Difficulty, old_black: Difficulty, index: usize) -> (chosen:
    (Difficulty, Difficulty))
    ensures
        chosen == match index {
            0 => (toggled(old_white, Difficulty::Hard), old_black),
            1 => (toggled(old_white, Difficulty::Medium), old_black),
            2 => (toggled(old_white, Difficulty::Easy), old_black),
            3 => (old_white, toggled(old_black, Difficulty::Easy)),
            4 => (old_white, toggled(old_black, Difficulty::Medium)),
            5 => (old_white, toggled(old_black, Difficulty::Hard)),
            _ => (old_white, old_black),
        },
{
    match index {
        0 => (toggle(old_white, Difficulty::Hard), old_black),
        1 => (toggle(old_white, Difficulty::Medium), old_black),
        2 => (toggle(old_white, Difficulty::Easy), old_black),
        3 => (old_white, toggle(old_black, Difficulty::Easy)),
        4 => (old_white, toggle(old_black, Difficulty::Medium)),
        5 => (old_white, toggle(old_black, Difficulty::Hard)),
        _ => (old_white, old_black),
    }
}

/// Chooses `new`, or switches off if `new` is set already.
fn toggle(old: Difficulty, new: Difficulty) -> (chosen: Difficulty)
    ensures
        chosen == toggled(old, new),
{
    if old == new {
        Difficulty::Off
    } else {
        new
    }
}

} // verus!
