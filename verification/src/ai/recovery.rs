use crate::ai::{Phase, PhaseType};
use crate::ai::action::{is_color, Action};
use crate::ai::action::mover_token_count;
use crate::ai::legality::{is_capture, is_placement, is_resolved_turn, is_step, is_turn};
use crate::position::{cells, negated, EMPTY};
use crate::rules::{action_between, first_lost, lemma_first_lost, lost_at, mill_closed};
use vstd::prelude::*;

verus! {

/// The cells after the turn `action` of `color`: the token on the start cell is lifted, a
/// token is put on the end cell, and the token on the beaten cell is taken.
pub open spec fn cells_after(before: Seq<u8>, action: Action, color: u8) -> Seq<u8> {
    let lifted = match action.start_position {
        Some(start) => before.update(start as int, EMPTY),
        None => before,
    };
    let put = lifted.update(action.end_position as int, color);
    match action.beatable_position {
        Some(beaten) => put.update(beaten as int, EMPTY),
        None => put,
    }
}

/// If one cell only lost a token of `color`, it is the first that did.
pub proof fn lemma_only_lost(before: Seq<u8>, after: Seq<u8>, color: u8, pos: int)
    requires
        0 <= pos < 24,
        lost_at(before, after, color, pos),
        forall|other: int|
            0 <= other < 24 && other != pos ==> !lost_at(before, after, color, other),
    ensures
        first_lost(before, after, color, 0) == pos,
{
    lemma_first_lost(before, after, color, 0);
}

/// If no cell lost a token of `color`, the search for one finds none.
pub proof fn lemma_none_lost(before: Seq<u8>, after: Seq<u8>, color: u8)
    requires
        forall|other: int| 0 <= other < 24 ==> !lost_at(before, after, color, other),
    ensures
        first_lost(before, after, color, 0) == 24,
{
    lemma_first_lost(before, after, color, 0);
}

/// The cells after a token on `beaten`, if there is one, was taken.
pub open spec fn cells_taken(cells: Seq<u8>, beaten: Option<int>) -> Seq<u8> {
    match beaten {
        Some(pos) => cells.update(pos, EMPTY),
        None => cells,
    }
}

/// The cell of the taken token as a turn names it.
pub open spec fn cell_named(beaten: Option<int>) -> Option<usize> {
    match beaten {
        Some(pos) => Some(pos as usize),
        None => None,
    }
}

/// The turn read off the cells before and after a token was set, and perhaps one taken,
/// names the cell on which the token was set and the cell of the taken token.
pub proof fn lemma_placement_action(before: Seq<u8>, color: u8, pos: int, beaten: Option<int>)
    requires
        is_color(color),
        before.len() == 24,
        0 <= pos < 24,
        before[pos] == EMPTY,
        beaten matches Some(cell) ==> 0 <= cell < 24 && before[cell] == negated(color),
    ensures
        action_between(before, cells_taken(before.update(pos, color), beaten), color) == (Action {
            start_position: None,
            end_position: pos as usize,
            beatable_position: cell_named(beaten),
        }),
{
    let after = cells_taken(before.update(pos, color), beaten);
    lemma_none_lost(before, after, color);
    lemma_only_lost(after, before, color, pos);
    match beaten {
        Some(cell) => {
            lemma_only_lost(before, after, negated(color), cell);
        },
        None => {
            lemma_none_lost(before, after, negated(color));
        },
    }
}

/// The turn read off the cells before and after a token was moved, and perhaps one taken,
/// names the cell from which the token went, the cell to which it went and the cell of
/// the taken token.
pub proof fn lemma_step_action(
    before: Seq<u8>,
    color: u8,
    start: int,
    end: int,
    beaten: Option<int>,
)
    requires
        is_color(color),
        before.len() == 24,
        0 <= start < 24,
        0 <= end < 24,
        before[start] == color,
        before[end] == EMPTY,
        beaten matches Some(cell) ==> 0 <= cell < 24 && before[cell] == negated(color),
    ensures
        action_between(
            before,
            cells_taken(before.update(start, EMPTY).update(end, color), beaten),
            color,
        ) == (Action {
            start_position: Some(start as usize),
            end_position: end as usize,
            beatable_position: cell_named(beaten),
        }),
{
    let after = cells_taken(before.update(start, EMPTY).update(end, color), beaten);
    lemma_only_lost(before, after, color, start);
    lemma_only_lost(after, before, color, end);
    match beaten {
        Some(cell) => {
            lemma_only_lost(before, after, negated(color), cell);
        },
        None => {
            lemma_none_lost(before, after, negated(color));
        },
    }
}

/// The turn read off the boards before and after a whole turn is that turn: made on the
/// board before, it gives the cells of the board after. It lifts a token unless tokens
/// are set.
pub proof fn lemma_action_round_trip(board: u64, next: u64, color: u8, phase: Phase)
    requires
        is_color(color),
        is_resolved_turn(board, next, color, phase),
    ensures
        cells_after(cells(board), action_between(cells(board), cells(next), color), color)
            == cells(next),
        action_between(cells(board), cells(next), color).start_position is None <==> phase.phase
            == PhaseType::Setup,
{
    let before = cells(board);
    let after = cells(next);
    let applied = choose|applied: u64|
        {
            &&& #[trigger] is_turn(board, applied, color, phase)
            &&& if mill_closed(cells(board), cells(applied), color) {
                exists|pos: int| #[trigger] is_capture(board, applied, next, color, pos)
            } else {
                cells(next) == cells(applied)
            }
        };
    let middle = cells(applied);
    let beaten: Option<int> = if mill_closed(before, middle, color) {
        Some(choose|pos: int| #[trigger] is_capture(board, applied, next, color, pos))
    } else {
        None
    };
    assert(after == cells_taken(middle, beaten));
    if phase.phase == PhaseType::Setup {
        let pos = choose|pos: int| #[trigger] is_placement(before, middle, color, pos);
        lemma_placement_action(before, color, pos, beaten);
        assert(cells_after(before, action_between(before, after, color), color) =~= after);
    } else {
        let flying = mover_token_count(board, color) == 3;
        let (start, end) = choose|start: int, end: int|
            #[trigger] is_step(before, middle, color, start, end, flying);
        lemma_step_action(before, color, start, end, beaten);
        assert(cells_after(before, action_between(before, after, color), color) =~= after);
    }
}

} // verus!
