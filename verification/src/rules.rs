use crate::ai::action::Action;
use crate::graph::{adjacent, first_line, is_adjacent, mill_lines, second_line};
use crate::position::{cells, get_token_at, negate_token, negated, EMPTY};
use vstd::prelude::*;

verus! {

/// Whether the token on `pos` has the colour `color` and stands in a mill: on one of the two
/// lines through its cell all three tokens have that colour.
pub open spec fn in_mill(cells: Seq<u8>, pos: int, color: u8) -> bool {
    &&& cells[pos] == color
    &&& {
        ||| cells[first_line(pos).0] == color && cells[first_line(pos).1] == color
        ||| cells[second_line(pos).0] == color && cells[second_line(pos).1] == color
    }
}

/// Whether a token may go from `start` to the cell `end`, which holds `end_token`: the cell
/// is empty, and the two are neighbours unless the mover has three tokens and flies.
pub open spec fn move_valid(start: int, end: int, end_token: u8, mover_count: int) -> bool {
    end_token == EMPTY && (mover_count == 3 || adjacent(start, end))
}

/// Whether cell `pos` got a token of `color` that stands in a mill.
pub open spec fn closes_mill_at(before: Seq<u8>, after: Seq<u8>, color: u8, pos: int) -> bool {
    &&& 0 <= pos < 24
    &&& before[pos] != color
    &&& in_mill(after, pos, color)
}

/// Whether the step from `before` to `after` closed a mill of `color`.
pub open spec fn mill_closed(before: Seq<u8>, after: Seq<u8>, color: u8) -> bool {
    exists|pos: int| closes_mill_at(before, after, color, pos)
}

/// Whether every token of `color` stands in a mill.
pub open spec fn all_in_mills(cells: Seq<u8>, color: u8) -> bool {
    forall|pos: int| 0 <= pos < 24 && cells[pos] == color ==> #[trigger] in_mill(cells, pos, color)
}

/// Whether `mover` may take the token on `pos`: it is a token of the other colour, and it
/// stands in no mill unless all tokens of that colour do.
pub open spec fn beatable(cells: Seq<u8>, pos: int, mover: u8) -> bool {
    &&& 0 <= pos < 24
    &&& negated(mover) != EMPTY
    &&& cells[pos] == negated(mover)
    &&& (!in_mill(cells, pos, negated(mover)) || all_in_mills(cells, negated(mover)))
}

/// Whether a token may go from `start_position` to `end_position`.
pub fn is_move_valid(
    start_position: usize,
    end_position: usize,
    end_token: u8,
    number_of_token: u8,
) -> (valid: bool)
    ensures
        valid == move_valid(
            start_position as int,
            end_position as int,
            end_token,
            number_of_token as int,
        ),
{
    end_token == EMPTY && (number_of_token == 3 || is_adjacent(start_position, end_position))
}

/// Whether the token on `position` has the colour `token_type` and stands in a mill.
pub fn is_part_of_mill(board: u64, position: usize, token_type: u8) -> (part: bool)
    requires
        position < 24,
    ensures
        part == in_mill(cells(board), position as int, token_type),
{
    if get_token_at(board, position) != token_type {
        return false;
    }
    let (first, second) = mill_lines(position);
    (get_token_at(board, first.0) == token_type && get_token_at(board, first.1) == token_type)
        || (get_token_at(board, second.0) == token_type && get_token_at(board, second.1)
        == token_type)
}

/// Whether the step from `board_before` to `board_after` closed a mill of `token_type`.
pub fn is_mill_closing(board_before: u64, board_after: u64, token_type: u8) -> (closing: bool)
    ensures
        closing == mill_closed(cells(board_before), cells(board_after), token_type),
{
    let mut position: usize = 0;
    while position < 24
        invariant
            position <= 24,
            forall|pos: int|
                0 <= pos < position ==> !closes_mill_at(
                    cells(board_before),
                    cells(board_after),
                    token_type,
                    pos,
                ),
        decreases 24 - position,
    {
        if get_token_at(board_before, position) != token_type && is_part_of_mill(
            board_after,
            position,
            token_type,
        ) {
            assert(closes_mill_at(
                cells(board_before),
                cells(board_after),
                token_type,
                position as int,
            ));
            return true;
        }
        position += 1;
    }
    false
}

/// Whether every token of `token_type` stands in a mill.
pub fn are_all_in_mills(board: u64, token_type: u8) -> (all: bool)
    ensures
        all == all_in_mills(cells(board), token_type),
{
    let mut position: usize = 0;
    while position < 24
        invariant
            position <= 24,
            forall|pos: int|
                0 <= pos < position && cells(board)[pos] == token_type ==> #[trigger] in_mill(
                    cells(board),
                    pos,
                    token_type,
                ),
        decreases 24 - position,
    {
        if get_token_at(board, position) == token_type && !is_part_of_mill(
            board,
            position,
            token_type,
        ) {
            return false;
        }
        position += 1;
    }
    true
}

/// Whether `token_type` may take the token on `position`.
pub fn is_beat_possible(board: u64, position: usize, token_type: u8) -> (possible: bool)
    requires
        position < 24,
    ensures
        possible == beatable(cells(board), position as int, token_type),
{
    let enemy = negate_token(token_type);
    if enemy == EMPTY || get_token_at(board, position) != enemy {
        return false;
    }
    !is_part_of_mill(board, position, enemy) || are_all_in_mills(board, enemy)
}

/// Whether cell `pos` held a token of `color` before and does not hold one after.
pub open spec fn lost_at(before: Seq<u8>, after: Seq<u8>, color: u8, pos: int) -> bool {
    before[pos] == color && after[pos] != color
}

/// The first cell from `from` on that lost a token of `color`; 24 if there is none.
pub open spec fn first_lost(before: Seq<u8>, after: Seq<u8>, color: u8, from: int) -> int
    decreases 24 - from,
{
    if from >= 24 {
        24
    } else if lost_at(before, after, color, from) {
        from
    } else {
        first_lost(before, after, color, from + 1)
    }
}

/// The cell found by a search that gives 24 when it finds none.
pub open spec fn found_cell(cell: int) -> Option<usize> {
    if 0 <= cell < 24 {
        Some(cell as usize)
    } else {
        None
    }
}

/// The turn of `color` that led from `before` to `after`: the first cell that lost a token
/// of `color` is where it was lifted, the first cell that got one is where it was put (cell
/// 0 if there is none), and the first cell that lost a token of the other colour is where
/// one was taken.
pub open spec fn action_between(before: Seq<u8>, after: Seq<u8>, color: u8) -> Action {
    let end = first_lost(after, before, color, 0);
    Action {
        start_position: found_cell(first_lost(before, after, color, 0)),
        end_position: if end < 24 {
            end as usize
        } else {
            0
        },
        beatable_position: if negated(color) == EMPTY {
            None
        } else {
            found_cell(first_lost(before, after, negated(color), 0))
        },
    }
}

/// The first cell that lost a token is a cell from `from` on that did, and none before it
/// did; it is 24 if no cell did.
pub proof fn lemma_first_lost(before: Seq<u8>, after: Seq<u8>, color: u8, from: int)
    requires
        0 <= from <= 24,
    ensures
        from <= first_lost(before, after, color, from) <= 24,
        first_lost(before, after, color, from) < 24 ==> lost_at(
            before,
            after,
            color,
            first_lost(before, after, color, from),
        ),
        forall|pos: int|
            from <= pos < first_lost(before, after, color, from) ==> !lost_at(
                before,
                after,
                color,
                pos,
            ),
    decreases 24 - from,
{
    if from < 24 && !lost_at(before, after, color, from) {
        lemma_first_lost(before, after, color, from + 1);
    }
}

/// Whether the cells that a turn names are cells of the board.
pub open spec fn on_board(action: Action) -> bool {
    &&& action.end_position < 24
    &&& action.start_position matches Some(start) ==> start < 24
    &&& action.beatable_position matches Some(beaten) ==> beaten < 24
}

/// Whether the cells that a turn names are cells of the board.
pub fn is_on_board(action: &Action) -> (valid: bool)
    ensures
        valid == on_board(*action),
{
    let start = match action.start_position {
        Some(start) => start < 24,
        None => true,
    };
    let beaten = match action.beatable_position {
        Some(beaten) => beaten < 24,
        None => true,
    };
    action.end_position < 24 && start && beaten
}

/// The turn read off two boards names cells of the board.
pub proof fn lemma_action_on_board(before: Seq<u8>, after: Seq<u8>, color: u8)
    ensures
        on_board(action_between(before, after, color)),
{
    lemma_first_lost(after, before, color, 0);
}

/// The first cell that held a token of `color` on `before` and holds none on `after`.
pub fn find_lost_token(before: u64, after: u64, color: u8) -> (found: Option<usize>)
    ensures
        found == found_cell(first_lost(cells(before), cells(after), color, 0)),
{
    let mut position: usize = 24;
    let mut found: Option<usize> = None;
    while position > 0
        invariant
            position <= 24,
            found == found_cell(
                first_lost(cells(before), cells(after), color, position as int),
            ),
        decreases position,
    {
        position -= 1;
        if get_token_at(before, position) == color && get_token_at(after, position) != color {
            found = Some(position);
        }
    }
    found
}

/// Reads the turn of `token_type` off the boards before and after it.
pub fn get_action_from_board(board_before: u64, board_after: u64, token_type: u8) -> (action:
    Action)
    ensures
        action == action_between(cells(board_before), cells(board_after), token_type),
        on_board(action),
{
    let start = find_lost_token(board_before, board_after, token_type);
    let end = match find_lost_token(board_after, board_before, token_type) {
        Some(position) => position,
        None => 0,
    };
    proof {
        lemma_first_lost(cells(board_after), cells(board_before), token_type, 0);
    }
    let enemy = negate_token(token_type);
    let beaten = if enemy == EMPTY {
        None
    } else {
        find_lost_token(board_before, board_after, enemy)
    };
    Action::new(start, end, beaten)
}

} // verus!
