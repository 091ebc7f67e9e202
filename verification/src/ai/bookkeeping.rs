use crate::ai::{Phase, PhaseType};
use crate::ai::action::{
    base_moves, captured_board, captures, forward_boards, is_color, lifted_board, moved_board,
    mover_token_count, placed_board, resolved,
};
use crate::ai::legality::{
    captured_below, lemma_captured_cells, lemma_captures, lemma_counters_keep_cells,
    lemma_moved_cells, lemma_movements, lemma_placed_cells, lemma_placements,
    lemma_resolved_upto, moved_below, moved_from_below, placed_from, resolved_below,
};
use crate::counting::{
    count_holding, lemma_count_after_change, lemma_count_bounds, lemma_mobility_fits,
    lemma_moves_follow_placement, lemma_moves_follow_removal, mobility, move_delta, token_count,
};
use crate::position::{
    cells, lemma_with_token, negated, token_at, with_token, BLACK, EMPTY, WHITE,
};
use crate::rules::{beatable, mill_closed, move_valid};
use crate::utils::{
    at_most, black_move_count, black_token_count, clamped_moves, lemma_counter_ranges,
    lemma_same_counters, lemma_with_move_counts, lemma_with_token_counts, move_counts_exact,
    token_counts_exact, white_move_count, white_token_count, with_count_lowered, with_count_raised,
    with_updated_move_counts,
};
use vstd::prelude::*;

verus! {

/// Whether no cell holds the code that stands for nothing.
pub open spec fn cells_valid(cells: Seq<u8>) -> bool {
    forall|pos: int| 0 <= pos < 24 ==> #[trigger] cells[pos] != 1 && cells[pos] <= 3
}

/// Whether no colour has more than nine tokens, as in a game.
pub open spec fn within_nine(cells: Seq<u8>) -> bool {
    token_count(cells, WHITE) <= 9 && token_count(cells, BLACK) <= 9
}

/// On a board with valid cells each cell is white, black or empty.
pub proof fn lemma_counts_sum(cells: Seq<u8>, upto: int)
    requires
        cells_valid(cells),
        0 <= upto <= 24,
    ensures
        count_holding(cells, WHITE, upto) + count_holding(cells, BLACK, upto) + count_holding(
            cells,
            EMPTY,
            upto,
        ) == upto,
    decreases upto,
{
    if upto > 0 {
        lemma_counts_sum(cells, upto - 1);
        assert(cells[upto - 1] != 1 && cells[upto - 1] <= 3);
    }
}

/// A cell that holds a token is counted.
pub proof fn lemma_held_is_counted(cells: Seq<u8>, pos: int, upto: int)
    requires
        0 <= pos < upto <= 24,
    ensures
        count_holding(cells, cells[pos], upto) >= 1,
    decreases upto,
{
    if pos < upto - 1 {
        lemma_held_is_counted(cells, pos, upto - 1);
    } else {
        lemma_count_bounds(cells, cells[pos], upto - 1);
    }
}

/// What the token counters hold after one was raised or lowered.
pub proof fn lemma_changed_counts(board: u64, color: u8)
    ensures
        white_token_count(with_count_raised(board, color)) == if color == WHITE {
            at_most(white_token_count(board) + 1, 7)
        } else {
            white_token_count(board)
        },
        black_token_count(with_count_raised(board, color)) == if color == WHITE {
            black_token_count(board)
        } else {
            at_most(black_token_count(board) + 1, 7)
        },
        white_token_count(with_count_lowered(board, color)) == if color == WHITE
            && white_token_count(board) > 0 {
            white_token_count(board) - 1
        } else {
            white_token_count(board)
        },
        black_token_count(with_count_lowered(board, color)) == if color != WHITE
            && black_token_count(board) > 0 {
            black_token_count(board) - 1
        } else {
            black_token_count(board)
        },
        white_move_count(with_count_raised(board, color)) == white_move_count(board),
        black_move_count(with_count_raised(board, color)) == black_move_count(board),
        white_move_count(with_count_lowered(board, color)) == white_move_count(board),
        black_move_count(with_count_lowered(board, color)) == black_move_count(board),
{
    lemma_counter_ranges(board);
    let white = white_token_count(board);
    let black = black_token_count(board);
    lemma_with_token_counts(board, at_most(white + 1, 7), black);
    lemma_with_token_counts(board, white, at_most(black + 1, 7));
    lemma_with_token_counts(
        board,
        if white > 0 {
            white - 1
        } else {
            0
        },
        black,
    );
    lemma_with_token_counts(
        board,
        white,
        if black > 0 {
            black - 1
        } else {
            0
        },
    );
}

/// What the move counters hold after they followed a change.
pub proof fn lemma_updated_moves(board: u64, token_type: u8, pos: int, removed: bool)
    ensures
        white_move_count(with_updated_move_counts(board, token_type, pos, removed))
            == clamped_moves(
            white_move_count(board) + move_delta(cells(board), WHITE, token_type, pos, removed),
        ),
        black_move_count(with_updated_move_counts(board, token_type, pos, removed))
            == clamped_moves(
            black_move_count(board) + move_delta(cells(board), BLACK, token_type, pos, removed),
        ),
{
    lemma_with_move_counts(
        board,
        clamped_moves(
            white_move_count(board) + move_delta(cells(board), WHITE, token_type, pos, removed),
        ),
        clamped_moves(
            black_move_count(board) + move_delta(cells(board), BLACK, token_type, pos, removed),
        ),
    );
}

/// Writing a cell leaves the counters alone.
pub proof fn lemma_token_keeps_counters(board: u64, pos: int, token: u8)
    requires
        0 <= pos < 24,
        token <= 3,
    ensures
        white_token_count(with_token(board, pos, token)) == white_token_count(board),
        black_token_count(with_token(board, pos, token)) == black_token_count(board),
        white_move_count(with_token(board, pos, token)) == white_move_count(board),
        black_move_count(with_token(board, pos, token)) == black_move_count(board),
{
    lemma_with_token(board, pos, token);
    lemma_same_counters(with_token(board, pos, token), board);
}

/// Counters that were counted anew are exact, as far as they can hold what was counted:
/// the token counters with seven tokens or less of each colour, the move counters with
/// nine tokens or less.
pub proof fn lemma_fresh_counters_exact(board: u64)
    ensures
        token_count(cells(board), WHITE) <= 7 && token_count(cells(board), BLACK) <= 7
            ==> token_counts_exact(crate::utils::with_fresh_token_counts(board)),
        within_nine(cells(board)) ==> move_counts_exact(
            crate::utils::with_fresh_move_counts(board),
        ),
        within_nine(cells(board)) ==> move_counts_exact(
            crate::utils::with_fresh_move_counts(crate::utils::with_fresh_token_counts(board)),
        ),
{
    let white = at_most(token_count(cells(board), WHITE), 7);
    let black = at_most(token_count(cells(board), BLACK), 7);
    lemma_count_bounds(cells(board), WHITE, 24);
    lemma_count_bounds(cells(board), BLACK, 24);
    lemma_with_token_counts(board, white, black);
    lemma_mobility_fits(cells(board), WHITE);
    lemma_mobility_fits(cells(board), BLACK);
    lemma_with_move_counts(
        board,
        at_most(mobility(cells(board), WHITE), 31),
        at_most(mobility(cells(board), BLACK), 31),
    );
    let counted = crate::utils::with_fresh_token_counts(board);
    lemma_with_move_counts(
        counted,
        at_most(mobility(cells(counted), WHITE), 31),
        at_most(mobility(cells(counted), BLACK), 31),
    );
}

/// A token set from the fifth step on is counted: exact token counters stay exact, as
/// long as the counter of the mover is not full.
pub proof fn lemma_placed_counts(board: u64, color: u8, pos: int, step: int)
    requires
        is_color(color),
        0 <= pos < 24,
        token_at(board, pos) == EMPTY,
        token_counts_exact(board),
        cells_valid(cells(board)),
        step >= 4,
        mover_token_count(board, color) < 7,
    ensures
        token_counts_exact(placed_board(board, color, pos, step)),
        cells_valid(cells(placed_board(board, color, pos, step))),
{
    let set = with_token(board, pos, color);
    let counted = with_count_raised(set, color);
    lemma_token_keeps_counters(board, pos, color);
    lemma_changed_counts(set, color);
    lemma_counters_keep_cells(counted, color, pos, false);
    lemma_placed_cells(board, color, pos, step);
    lemma_count_after_change(cells(board), pos, color, WHITE, 24);
    lemma_count_after_change(cells(board), pos, color, BLACK, 24);
    let after = cells(placed_board(board, color, pos, step));
    assert forall|other: int| 0 <= other < 24 implies #[trigger] after[other] != 1 && after[other]
        <= 3 by {
        assert(cells(board)[other] != 1 && cells(board)[other] <= 3);
    }
}

/// A moved token is counted as before: exact token counters stay exact.
pub proof fn lemma_moved_counts(board: u64, color: u8, start: int, end: int)
    requires
        is_color(color),
        0 <= start < 24,
        0 <= end < 24,
        token_at(board, start) == color,
        token_at(board, end) == EMPTY,
        token_counts_exact(board),
        cells_valid(cells(board)),
    ensures
        token_counts_exact(moved_board(board, color, start, end)),
        cells_valid(cells(moved_board(board, color, start, end))),
{
    let lifted_cells = with_token(board, start, EMPTY);
    lemma_token_keeps_counters(board, start, EMPTY);
    lemma_counters_keep_cells(lifted_cells, color, start, true);
    let lifted = lifted_board(board, color, start);
    lemma_counters_keep_cells(lifted, color, end, false);
    let counted = with_updated_move_counts(lifted, color, end, false);
    lemma_token_keeps_counters(counted, end, color);
    lemma_moved_cells(board, color, start, end);
    let middle = cells(board).update(start, EMPTY);
    lemma_count_after_change(cells(board), start, EMPTY, WHITE, 24);
    lemma_count_after_change(cells(board), start, EMPTY, BLACK, 24);
    lemma_count_after_change(middle, end, color, WHITE, 24);
    lemma_count_after_change(middle, end, color, BLACK, 24);
    let after = cells(moved_board(board, color, start, end));
    assert forall|other: int| 0 <= other < 24 implies #[trigger] after[other] != 1 && after[other]
        <= 3 by {
        assert(cells(board)[other] != 1 && cells(board)[other] <= 3);
    }
}

/// A taken token is no longer counted: exact token counters stay exact.
pub proof fn lemma_captured_counts(applied: u64, color: u8, pos: int)
    requires
        is_color(color),
        0 <= pos < 24,
        token_at(applied, pos) == negated(color),
        token_counts_exact(applied),
        cells_valid(cells(applied)),
    ensures
        token_counts_exact(captured_board(applied, color, pos)),
        cells_valid(cells(captured_board(applied, color, pos))),
{
    let enemy = negated(color);
    let taken = with_token(applied, pos, EMPTY);
    lemma_token_keeps_counters(applied, pos, EMPTY);
    lemma_changed_counts(taken, enemy);
    let counted = with_count_lowered(taken, enemy);
    lemma_counters_keep_cells(counted, enemy, pos, true);
    lemma_captured_cells(applied, color, pos);
    lemma_count_after_change(cells(applied), pos, EMPTY, WHITE, 24);
    lemma_count_after_change(cells(applied), pos, EMPTY, BLACK, 24);
    lemma_held_is_counted(cells(applied), pos, 24);
    let after = cells(captured_board(applied, color, pos));
    assert forall|other: int| 0 <= other < 24 implies #[trigger] after[other] != 1 && after[other]
        <= 3 by {
        assert(cells(applied)[other] != 1 && cells(applied)[other] <= 3);
    }
}

/// The first four tokens of a game are set without being counted: the token counters of
/// the boards that such a turn leads to are those of the board before it.
pub proof fn lemma_early_tokens_not_counted(board: u64, color: u8, phase: Phase, index: int)
    requires
        is_color(color),
        phase.phase == PhaseType::Setup,
        phase.step_counter < 4,
        0 <= index < base_moves(board, color, phase).len(),
    ensures
        white_token_count(base_moves(board, color, phase)[index]) == white_token_count(board),
        black_token_count(base_moves(board, color, phase)[index]) == black_token_count(board),
{
    let next = base_moves(board, color, phase)[index];
    let step = phase.step_counter as int;
    lemma_placements(board, color, step, 24);
    assert(placed_from(board, color, step, 0, next));
    let pos = choose|pos: int|
        0 <= pos < 24 && token_at(board, pos) == EMPTY && next == #[trigger] placed_board(
            board,
            color,
            pos,
            step,
        );
    lemma_token_keeps_counters(board, pos, color);
    lemma_counters_keep_cells(with_token(board, pos, color), color, pos, false);
}

/// Whether the token counters of the boards that a turn leads to can be exact: tokens are
/// moved, or they are set from the fifth step on and the counter of the mover is not full.
pub open spec fn counts_kept(board: u64, color: u8, phase: Phase) -> bool {
    phase.phase == PhaseType::Move || (phase.step_counter >= 4 && mover_token_count(
        board,
        color,
    ) < 7)
}

/// Every board that a turn leads to, before a mill takes its token, has exact token
/// counters if the board before the turn has.
pub proof fn lemma_base_counts(board: u64, color: u8, phase: Phase, index: int)
    requires
        is_color(color),
        token_counts_exact(board),
        cells_valid(cells(board)),
        counts_kept(board, color, phase),
        0 <= index < base_moves(board, color, phase).len(),
    ensures
        token_counts_exact(base_moves(board, color, phase)[index]),
        cells_valid(cells(base_moves(board, color, phase)[index])),
        forall|pos: int|
            0 <= pos < 24 && cells(board)[pos] == negated(color) ==> cells(
                base_moves(board, color, phase)[index],
            )[pos] == negated(color),
{
    let next = base_moves(board, color, phase)[index];
    if phase.phase == PhaseType::Setup {
        let step = phase.step_counter as int;
        lemma_placements(board, color, step, 24);
        assert(placed_from(board, color, step, 0, next));
        let pos = choose|pos: int|
            0 <= pos < 24 && token_at(board, pos) == EMPTY && next == #[trigger] placed_board(
                board,
                color,
                pos,
                step,
            );
        lemma_placed_counts(board, color, pos, step);
        lemma_placed_cells(board, color, pos, step);
    } else {
        lemma_movements(board, color, 24);
        assert(moved_from_below(board, color, 24, next));
        let start = choose|start: int|
            0 <= start < 24 && token_at(board, start) == color && #[trigger] moved_below(
                board,
                color,
                start,
                24,
                next,
            );
        let end = choose|end: int|
            0 <= end < 24 && move_valid(
                start,
                end,
                token_at(board, end),
                mover_token_count(board, color),
            ) && next == #[trigger] moved_board(board, color, start, end);
        lemma_moved_counts(board, color, start, end);
        lemma_moved_cells(board, color, start, end);
    }
}

/// The count invariant: if the token counters of a board are exact, so are those of every
/// board that the move generator yields from it, and the two counters and the empty cells
/// add up to the 24 cells. This holds while tokens are moved, and while tokens are set
/// from the fifth step on as long as the counter of the mover is not full.
pub proof fn lemma_count_invariant(board: u64, color: u8, phase: Phase, index: int)
    requires
        is_color(color),
        token_counts_exact(board),
        cells_valid(cells(board)),
        counts_kept(board, color, phase),
        0 <= index < forward_boards(board, color, phase).len(),
    ensures
        token_counts_exact(forward_boards(board, color, phase)[index]),
        cells_valid(cells(forward_boards(board, color, phase)[index])),
        white_token_count(forward_boards(board, color, phase)[index]) + black_token_count(
            forward_boards(board, color, phase)[index],
        ) + token_count(cells(forward_boards(board, color, phase)[index]), EMPTY) == 24,
{
    let base = base_moves(board, color, phase);
    let next = forward_boards(board, color, phase)[index];
    lemma_resolved_upto(board, color, base, base.len() as int);
    assert(resolved_below(board, color, base, base.len() as int, next));
    let k = choose|k: int|
        0 <= k < base.len() && (#[trigger] resolved(board, base[k], color)).contains(next);
    let applied = base[k];
    lemma_base_counts(board, color, phase, k);
    if mill_closed(cells(board), cells(applied), color) {
        lemma_captures(board, applied, color, 24);
        let i = choose|i: int|
            0 <= i < captures(board, applied, color, 24).len() && captures(
                board,
                applied,
                color,
                24,
            )[i] == next;
        assert(captured_below(board, applied, color, 24, next));
        let pos = choose|pos: int|
            0 <= pos < 24 && beatable(cells(board), pos, color) && next
                == #[trigger] captured_board(applied, color, pos);
        lemma_captured_counts(applied, color, pos);
    } else {
        assert(resolved(board, applied, color)[0] == applied);
    }
    lemma_counts_sum(cells(next), 24);
}

/// The move counters follow a token that is set: exact move counters stay exact.
pub proof fn lemma_placed_moves(board: u64, color: u8, pos: int, step: int)
    requires
        is_color(color),
        0 <= pos < 24,
        token_at(board, pos) == EMPTY,
        move_counts_exact(board),
        within_nine(cells(board)),
        token_count(cells(board), color) <= 8,
    ensures
        move_counts_exact(placed_board(board, color, pos, step)),
        within_nine(cells(placed_board(board, color, pos, step))),
{
    let set = with_token(board, pos, color);
    let counted = if step >= 4 {
        with_count_raised(set, color)
    } else {
        set
    };
    let before = cells(board);
    let after = before.update(pos, color);
    lemma_with_token(board, pos, color);
    lemma_token_keeps_counters(board, pos, color);
    lemma_changed_counts(set, color);
    lemma_counters_keep_cells(set, color, pos, false);
    lemma_counters_keep_cells(counted, color, pos, false);
    lemma_updated_moves(counted, color, pos, false);
    lemma_moves_follow_placement(before, pos, color, WHITE);
    lemma_moves_follow_placement(before, pos, color, BLACK);
    lemma_count_after_change(before, pos, color, WHITE, 24);
    lemma_count_after_change(before, pos, color, BLACK, 24);
    lemma_mobility_fits(after, WHITE);
    lemma_mobility_fits(after, BLACK);
    assert(cells(counted) == after);
}

/// The move counters follow a token that is lifted: exact move counters stay exact.
pub proof fn lemma_lifted_moves(board: u64, color: u8, start: int)
    requires
        is_color(color),
        0 <= start < 24,
        token_at(board, start) == color,
        move_counts_exact(board),
        within_nine(cells(board)),
    ensures
        move_counts_exact(lifted_board(board, color, start)),
        cells(lifted_board(board, color, start)) == cells(board).update(start, EMPTY),
        token_count(cells(lifted_board(board, color, start)), color) == token_count(
            cells(board),
            color,
        ) - 1,
        token_count(cells(lifted_board(board, color, start)), negated(color)) == token_count(
            cells(board),
            negated(color),
        ),
{
    let before = cells(board);
    let after = before.update(start, EMPTY);
    let taken = with_token(board, start, EMPTY);
    lemma_with_token(board, start, EMPTY);
    lemma_token_keeps_counters(board, start, EMPTY);
    lemma_counters_keep_cells(taken, color, start, true);
    lemma_updated_moves(taken, color, start, true);
    lemma_moves_follow_removal(before, start, WHITE);
    lemma_moves_follow_removal(before, start, BLACK);
    lemma_count_after_change(before, start, EMPTY, WHITE, 24);
    lemma_count_after_change(before, start, EMPTY, BLACK, 24);
    lemma_mobility_fits(after, WHITE);
    lemma_mobility_fits(after, BLACK);
}

/// The move counters follow a token that is moved: exact move counters stay exact.
pub proof fn lemma_moved_moves(board: u64, color: u8, start: int, end: int)
    requires
        is_color(color),
        0 <= start < 24,
        0 <= end < 24,
        token_at(board, start) == color,
        token_at(board, end) == EMPTY,
        move_counts_exact(board),
        within_nine(cells(board)),
    ensures
        move_counts_exact(moved_board(board, color, start, end)),
        within_nine(cells(moved_board(board, color, start, end))),
{
    lemma_lifted_moves(board, color, start);
    let lifted = lifted_board(board, color, start);
    let before = cells(lifted);
    let after = before.update(end, color);
    let counted = with_updated_move_counts(lifted, color, end, false);
    lemma_counters_keep_cells(lifted, color, end, false);
    lemma_updated_moves(lifted, color, end, false);
    lemma_with_token(counted, end, color);
    lemma_token_keeps_counters(counted, end, color);
    lemma_moves_follow_placement(before, end, color, WHITE);
    lemma_moves_follow_placement(before, end, color, BLACK);
    lemma_count_after_change(before, end, color, WHITE, 24);
    lemma_count_after_change(before, end, color, BLACK, 24);
    lemma_mobility_fits(after, WHITE);
    lemma_mobility_fits(after, BLACK);
}

/// The move counters follow a token that is taken: exact move counters stay exact.
pub proof fn lemma_captured_moves(applied: u64, color: u8, pos: int)
    requires
        is_color(color),
        0 <= pos < 24,
        token_at(applied, pos) == negated(color),
        move_counts_exact(applied),
        within_nine(cells(applied)),
    ensures
        move_counts_exact(captured_board(applied, color, pos)),
        within_nine(cells(captured_board(applied, color, pos))),
{
    let enemy = negated(color);
    let before = cells(applied);
    let after = before.update(pos, EMPTY);
    let taken = with_token(applied, pos, EMPTY);
    let counted = with_count_lowered(taken, enemy);
    lemma_with_token(applied, pos, EMPTY);
    lemma_token_keeps_counters(applied, pos, EMPTY);
    lemma_changed_counts(taken, enemy);
    lemma_counters_keep_cells(taken, enemy, pos, true);
    lemma_counters_keep_cells(counted, enemy, pos, true);
    lemma_updated_moves(counted, enemy, pos, true);
    lemma_moves_follow_removal(before, pos, WHITE);
    lemma_moves_follow_removal(before, pos, BLACK);
    lemma_count_after_change(before, pos, EMPTY, WHITE, 24);
    lemma_count_after_change(before, pos, EMPTY, BLACK, 24);
    lemma_mobility_fits(after, WHITE);
    lemma_mobility_fits(after, BLACK);
    assert(cells(counted) == after);
}

/// Whether the move counters of the boards that a turn leads to can be exact: no colour
/// has more than nine tokens, also after a token is set.
pub open spec fn moves_kept(board: u64, color: u8, phase: Phase) -> bool {
    &&& within_nine(cells(board))
    &&& phase.phase == PhaseType::Setup ==> token_count(cells(board), color) <= 8
}

/// Every board that a turn leads to, before a mill takes its token, has exact move
/// counters if the board before the turn has.
pub proof fn lemma_base_moves_exact(board: u64, color: u8, phase: Phase, index: int)
    requires
        is_color(color),
        move_counts_exact(board),
        moves_kept(board, color, phase),
        0 <= index < base_moves(board, color, phase).len(),
    ensures
        move_counts_exact(base_moves(board, color, phase)[index]),
        within_nine(cells(base_moves(board, color, phase)[index])),
        forall|pos: int|
            0 <= pos < 24 && cells(board)[pos] == negated(color) ==> cells(
                base_moves(board, color, phase)[index],
            )[pos] == negated(color),
{
    let next = base_moves(board, color, phase)[index];
    if phase.phase == PhaseType::Setup {
        let step = phase.step_counter as int;
        lemma_placements(board, color, step, 24);
        assert(placed_from(board, color, step, 0, next));
        let pos = choose|pos: int|
            0 <= pos < 24 && token_at(board, pos) == EMPTY && next == #[trigger] placed_board(
                board,
                color,
                pos,
                step,
            );
        lemma_placed_moves(board, color, pos, step);
        lemma_placed_cells(board, color, pos, step);
    } else {
        lemma_movements(board, color, 24);
        assert(moved_from_below(board, color, 24, next));
        let start = choose|start: int|
            0 <= start < 24 && token_at(board, start) == color && #[trigger] moved_below(
                board,
                color,
                start,
                24,
                next,
            );
        let end = choose|end: int|
            0 <= end < 24 && move_valid(
                start,
                end,
                token_at(board, end),
                mover_token_count(board, color),
            ) && next == #[trigger] moved_board(board, color, start, end);
        lemma_moved_moves(board, color, start, end);
        lemma_moved_cells(board, color, start, end);
    }
}

/// The move counters are never stale: if they are exact on a board on which no colour has
/// more than nine tokens, they are exact on every board that the move generator yields
/// from it. What `update_possible_move_count` writes is then what a count of all steps
/// gives.
pub proof fn lemma_move_counts_stay_exact(board: u64, color: u8, phase: Phase, index: int)
    requires
        is_color(color),
        move_counts_exact(board),
        moves_kept(board, color, phase),
        0 <= index < forward_boards(board, color, phase).len(),
    ensures
        move_counts_exact(forward_boards(board, color, phase)[index]),
        within_nine(cells(forward_boards(board, color, phase)[index])),
{
    let base = base_moves(board, color, phase);
    let next = forward_boards(board, color, phase)[index];
    lemma_resolved_upto(board, color, base, base.len() as int);
    assert(resolved_below(board, color, base, base.len() as int, next));
    let k = choose|k: int|
        0 <= k < base.len() && (#[trigger] resolved(board, base[k], color)).contains(next);
    let applied = base[k];
    lemma_base_moves_exact(board, color, phase, k);
    if mill_closed(cells(board), cells(applied), color) {
        lemma_captures(board, applied, color, 24);
        let i = choose|i: int|
            0 <= i < captures(board, applied, color, 24).len() && captures(
                board,
                applied,
                color,
                24,
            )[i] == next;
        assert(captured_below(board, applied, color, 24, next));
        let pos = choose|pos: int|
            0 <= pos < 24 && beatable(cells(board), pos, color) && next
                == #[trigger] captured_board(applied, color, pos);
        lemma_captured_moves(applied, color, pos);
    } else {
        assert(resolved(board, applied, color)[0] == applied);
    }
}

/// On a board with exact counters the score speaks of the cells: while tokens are moved, a
/// player with two tokens, or with more than three tokens and no step, has lost, and the
/// board scores the most there is for the other player; if both have lost it scores for
/// white. Any other board scores 1000 for each token and 1 for each step that white has
/// more than black.
pub proof fn lemma_score_of_exact_board(board: u64, phase: Phase)
    requires
        token_counts_exact(board),
        move_counts_exact(board),
    ensures
        ({
            let white = token_count(cells(board), WHITE);
            let black = token_count(cells(board), BLACK);
            let white_steps = mobility(cells(board), WHITE);
            let black_steps = mobility(cells(board), BLACK);
            let black_lost = black == 2 || (black > 3 && black_steps == 0);
            let white_lost = white == 2 || (white > 3 && white_steps == 0);
            crate::ai::minimax::evaluation(board, phase) == if phase.phase == PhaseType::Move
                && black_lost {
                isize::MAX - phase.step_counter
            } else if phase.phase == PhaseType::Move && white_lost {
                isize::MIN + phase.step_counter
            } else {
                1000 * (white - black) + (white_steps - black_steps)
            }
        }),
{
}

} // verus!
