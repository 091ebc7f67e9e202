use crate::ai::{Phase, PhaseType};
use crate::position::{
    cells, get_token_at, negate_token, negated, set_token_at, token_at, with_token, BLACK, EMPTY,
    WHITE,
};
use crate::rules::{
    beatable, is_beat_possible, is_mill_closing, is_move_valid, mill_closed, move_valid,
};
use crate::utils::{
    black_token_count, extract_black_token_count_from_board, extract_white_token_count_from_board,
    lower_token_count, raise_token_count, update_possible_move_count, white_token_count,
    with_count_lowered, with_count_raised, with_updated_move_counts,
};
use vstd::prelude::*;

verus! {

/// What a player does in one turn: lift a token (not while setting), put it down, and take a
/// token of the other player if that closed a mill.
#[derive(Clone, Copy, Debug, PartialEq, Eq)]
pub struct Action {
    pub start_position: Option<usize>,
    pub end_position: usize,
    pub beatable_position: Option<usize>,
}

impl Action {
    /// A turn with the given cells.
    pub fn new(
        start_position: Option<usize>,
        end_position: usize,
        beatable_position: Option<usize>,
    ) -> (action: Self)
        ensures
            action.start_position == start_position,
            action.end_position == end_position,
            action.beatable_position == beatable_position,
    {
        Action { start_position, end_position, beatable_position }
    }

    /// The three cells of the turn.
    pub fn into(self) -> (parts: (Option<usize>, usize, Option<usize>))
        ensures
            parts == (self.start_position, self.end_position, self.beatable_position),
    {
        (self.start_position, self.end_position, self.beatable_position)
    }
}

/// Whether `token` is one of the two colours.
pub open spec fn is_color(token: u8) -> bool {
    token == WHITE || token == BLACK
}

/// The number of tokens that the board records for the mover: white, or else black.
pub open spec fn mover_token_count(board: u64, color: u8) -> int {
    if color == WHITE {
        white_token_count(board)
    } else {
        black_token_count(board)
    }
}

/// The board after `color` set a token on cell `pos` as step number `step`: from the fifth
/// step of the game on the token is counted; the move counters follow the new token.
pub open spec fn placed_board(board: u64, color: u8, pos: int, step: int) -> u64 {
    let set = with_token(board, pos, color);
    let counted = if step >= 4 {
        with_count_raised(set, color)
    } else {
        set
    };
    with_updated_move_counts(counted, color, pos, false)
}

/// The boards after `color` set a token on one of the last `upto` cells, the last cell first.
pub open spec fn placements(board: u64, color: u8, step: int, upto: int) -> Seq<u64>
    decreases upto,
{
    if upto <= 0 {
        Seq::empty()
    } else {
        let earlier = placements(board, color, step, upto - 1);
        if token_at(board, 24 - upto) == EMPTY {
            earlier.push(placed_board(board, color, 24 - upto, step))
        } else {
            earlier
        }
    }
}

/// The board after the token on `start` was lifted; the move counters follow.
pub open spec fn lifted_board(board: u64, color: u8, start: int) -> u64 {
    with_updated_move_counts(with_token(board, start, EMPTY), color, start, true)
}

/// The board after the token of `color` on `start` went to `end`; the move counters follow.
pub open spec fn moved_board(board: u64, color: u8, start: int, end: int) -> u64 {
    with_token(
        with_updated_move_counts(lifted_board(board, color, start), color, end, false),
        end,
        color,
    )
}

/// The boards after the token on `start` went to one of the first `upto` cells.
pub open spec fn moves_from(board: u64, color: u8, start: int, upto: int) -> Seq<u64>
    decreases upto,
{
    if upto <= 0 {
        Seq::empty()
    } else {
        let earlier = moves_from(board, color, start, upto - 1);
        if move_valid(start, upto - 1, token_at(board, upto - 1), mover_token_count(board, color)) {
            earlier.push(moved_board(board, color, start, upto - 1))
        } else {
            earlier
        }
    }
}

/// The boards after one of the tokens of `color` on the first `upto` cells was moved.
pub open spec fn movements(board: u64, color: u8, upto: int) -> Seq<u64>
    decreases upto,
{
    if upto <= 0 {
        Seq::empty()
    } else {
        let earlier = movements(board, color, upto - 1);
        if token_at(board, upto - 1) == color {
            earlier + moves_from(board, color, upto - 1, 24)
        } else {
            earlier
        }
    }
}

/// The boards after one turn of `color`, before a closed mill takes its token.
pub open spec fn base_moves(board: u64, color: u8, phase: Phase) -> Seq<u64> {
    if phase.phase == PhaseType::Setup {
        placements(board, color, phase.step_counter as int, 24)
    } else {
        movements(board, color, 24)
    }
}

/// The board `applied` after `color` took the token on `pos`: the token is gone and no
/// longer counted, and the move counters follow.
pub open spec fn captured_board(applied: u64, color: u8, pos: int) -> u64 {
    with_updated_move_counts(
        with_count_lowered(with_token(applied, pos, EMPTY), negated(color)),
        negated(color),
        pos,
        true,
    )
}

/// The boards after `color` took one of the tokens that it may take on the first `upto`
/// cells. Which tokens may be taken is read from `board`, the board before the turn.
pub open spec fn captures(board: u64, applied: u64, color: u8, upto: int) -> Seq<u64>
    decreases upto,
{
    if upto <= 0 {
        Seq::empty()
    } else {
        let earlier = captures(board, applied, color, upto - 1);
        if beatable(cells(board), upto - 1, color) {
            earlier.push(captured_board(applied, color, upto - 1))
        } else {
            earlier
        }
    }
}

/// What becomes of the turn that led from `board` to `applied`: if it closed a mill, one
/// board for each token that may be taken, else the board as it is.
pub open spec fn resolved(board: u64, applied: u64, color: u8) -> Seq<u64> {
    if mill_closed(cells(board), cells(applied), color) {
        captures(board, applied, color, 24)
    } else {
        seq![applied]
    }
}

/// What becomes of the first `upto` turns of `base`.
pub open spec fn resolved_upto(board: u64, color: u8, base: Seq<u64>, upto: int) -> Seq<u64>
    decreases upto,
{
    if upto <= 0 {
        Seq::empty()
    } else {
        resolved_upto(board, color, base, upto - 1) + resolved(board, base[upto - 1], color)
    }
}

/// The boards that one turn of `color` can lead to, each fully resolved, in the order in
/// which the search visits them.
pub open spec fn forward_boards(board: u64, color: u8, phase: Phase) -> Seq<u64> {
    let base = base_moves(board, color, phase);
    resolved_upto(board, color, base, base.len() as int)
}

/// The boards after one turn of `token_type`, before a closed mill takes its token: while
/// setting, one for each empty cell; else one for each token and each cell it may go to.
pub fn list_moves(board: &u64, token_type: u8, phase: Phase) -> (moves: Vec<u64>)
    requires
        is_color(token_type),
    ensures
        moves@ == base_moves(*board, token_type, phase),
{
    let board = *board;
    let mut moves: Vec<u64> = Vec::new();
    if phase.phase == PhaseType::Setup {
        let mut index: usize = 0;
        while index < 24
            invariant
                index <= 24,
                is_color(token_type),
                moves@ == placements(board, token_type, phase.step_counter as int, index as int),
            decreases 24 - index,
        {
            let position = 23 - index;
            if get_token_at(board, position) == EMPTY {
                let mut new_board = set_token_at(board, position, token_type);
                if phase.step_counter >= 4 {
                    new_board = raise_token_count(new_board, token_type);
                }
                new_board = update_possible_move_count(new_board, token_type, position, false);
                moves.push(new_board);
            }
            index += 1;
        }
    } else {
        let number_of_token = if token_type == WHITE {
            extract_white_token_count_from_board(board)
        } else {
            extract_black_token_count_from_board(board)
        };
        let mut start_position: usize = 0;
        while start_position < 24
            invariant
                start_position <= 24,
                is_color(token_type),
                number_of_token == mover_token_count(board, token_type),
                moves@ == movements(board, token_type, start_position as int),
            decreases 24 - start_position,
        {
            if get_token_at(board, start_position) == token_type {
                let mut new_board = set_token_at(board, start_position, EMPTY);
                new_board = update_possible_move_count(
                    new_board,
                    token_type,
                    start_position,
                    true,
                );
                let ghost earlier = moves@;
                let mut end_position: usize = 0;
                while end_position < 24
                    invariant
                        end_position <= 24,
                        start_position < 24,
                        is_color(token_type),
                        number_of_token == mover_token_count(board, token_type),
                        new_board == lifted_board(board, token_type, start_position as int),
                        moves@ == earlier + moves_from(
                            board,
                            token_type,
                            start_position as int,
                            end_position as int,
                        ),
                    decreases 24 - end_position,
                {
                    let end_token = get_token_at(board, end_position);
                    if is_move_valid(start_position, end_position, end_token, number_of_token) {
                        let new_board2 = update_possible_move_count(
                            new_board,
                            token_type,
                            end_position,
                            false,
                        );
                        moves.push(set_token_at(new_board2, end_position, token_type));
                    }
                    end_position += 1;
                }
            }
            start_position += 1;
        }
    }
    moves
}

/// The boards that one turn of `token_type` can lead to, each fully resolved: a turn that
/// closes a mill gives one board for each token that may be taken.
pub fn forward_step_boards(board: &u64, token_type: u8, phase: Phase) -> (boards: Vec<u64>)
    requires
        is_color(token_type),
    ensures
        boards@ == forward_boards(*board, token_type, phase),
{
    let base = list_moves(board, token_type, phase);
    let board = *board;
    let mut boards: Vec<u64> = Vec::new();
    let mut index: usize = 0;
    while index < base.len()
        invariant
            index <= base.len(),
            is_color(token_type),
            boards@ == resolved_upto(board, token_type, base@, index as int),
        decreases base.len() - index,
    {
        let applied = base[index];
        if is_mill_closing(board, applied, token_type) {
            let ghost earlier = boards@;
            let mut position: usize = 0;
            while position < 24
                invariant
                    position <= 24,
                    is_color(token_type),
                    boards@ == earlier + captures(board, applied, token_type, position as int),
                decreases 24 - position,
            {
                if is_beat_possible(board, position, token_type) {
                    let enemy = negate_token(token_type);
                    let mut new_board = set_token_at(applied, position, EMPTY);
                    new_board = lower_token_count(new_board, enemy);
                    new_board = update_possible_move_count(new_board, enemy, position, true);
                    boards.push(new_board);
                }
                position += 1;
            }
        } else {
            boards.push(applied);
        }
        index += 1;
    }
    boards
}

} // verus!
