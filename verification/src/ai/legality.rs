use crate::ai::{Phase, PhaseType};
use crate::ai::action::{
    base_moves, captured_board, captures, forward_boards, is_color, lifted_board, moved_board,
    mover_token_count, moves_from, movements, placed_board, placements, resolved, resolved_upto,
};
use crate::graph::adjacent;
use crate::position::{cells, lemma_with_token, negated, token_at, with_token, BLACK, EMPTY, WHITE};
use crate::rules::{all_in_mills, beatable, in_mill, mill_closed, move_valid};
use crate::utils::{
    at_most, black_token_count, lemma_counter_ranges, lemma_with_move_counts,
    lemma_with_token_counts, white_token_count, with_count_lowered, with_count_raised,
    with_updated_move_counts,
};
use vstd::prelude::*;

verus! {

/// Whether `after` is `before` with one token of `color` set on the empty cell `pos`.
pub open spec fn is_placement(before: Seq<u8>, after: Seq<u8>, color: u8, pos: int) -> bool {
    &&& 0 <= pos < 24
    &&& before[pos] == EMPTY
    &&& after == before.update(pos, color)
}

/// Whether `after` is `before` with the token of `color` on `start` gone to the empty cell
/// `end`: another cell, and a neighbour unless the token flies.
pub open spec fn is_step(
    before: Seq<u8>,
    after: Seq<u8>,
    color: u8,
    start: int,
    end: int,
    flying: bool,
) -> bool {
    &&& 0 <= start < 24
    &&& 0 <= end < 24
    &&& start != end
    &&& before[start] == color
    &&& before[end] == EMPTY
    &&& flying || adjacent(start, end)
    &&& after == before.update(start, EMPTY).update(end, color)
}

/// Whether the cells of `next` come from the cells of `board` by one turn of `color`: while
/// tokens are set one token set on an empty cell; else one token moved to an empty
/// neighbour, or to any empty cell if the board records three tokens for the mover.
pub open spec fn is_turn(board: u64, next: u64, color: u8, phase: Phase) -> bool {
    if phase.phase == PhaseType::Setup {
        exists|pos: int| #[trigger] is_placement(cells(board), cells(next), color, pos)
    } else {
        let flying = mover_token_count(board, color) == 3;
        exists|start: int, end: int|
            #[trigger] is_step(cells(board), cells(next), color, start, end, flying)
    }
}

/// Whether the cells of `next` come from the cells of `applied` by taking the token on
/// `pos`, which `color` may take on `board`.
pub open spec fn is_capture(board: u64, applied: u64, next: u64, color: u8, pos: int) -> bool {
    &&& beatable(cells(board), pos, color)
    &&& cells(next) == cells(applied).update(pos, EMPTY)
}

/// Whether `next` comes from `board` by one whole turn of `color`: a turn that closes no
/// mill, or a turn that closes one and then takes a token that may be taken.
pub open spec fn is_resolved_turn(board: u64, next: u64, color: u8, phase: Phase) -> bool {
    exists|applied: u64|
        {
            &&& #[trigger] is_turn(board, applied, color, phase)
            &&& if mill_closed(cells(board), cells(applied), color) {
                exists|pos: int| #[trigger] is_capture(board, applied, next, color, pos)
            } else {
                cells(next) == cells(applied)
            }
        }
}

/// Writing counters leaves the cells alone.
pub proof fn lemma_counters_keep_cells(board: u64, color: u8, pos: int, removed: bool)
    ensures
        cells(with_updated_move_counts(board, color, pos, removed)) == cells(board),
        cells(with_count_raised(board, color)) == cells(board),
        cells(with_count_lowered(board, color)) == cells(board),
        white_token_count(with_updated_move_counts(board, color, pos, removed))
            == white_token_count(board),
        black_token_count(with_updated_move_counts(board, color, pos, removed))
            == black_token_count(board),
{
    lemma_counter_ranges(board);
    let white = crate::utils::clamped_moves(
        crate::utils::white_move_count(board) + crate::counting::move_delta(
            cells(board),
            WHITE,
            color,
            pos,
            removed,
        ),
    );
    let black = crate::utils::clamped_moves(
        crate::utils::black_move_count(board) + crate::counting::move_delta(
            cells(board),
            BLACK,
            color,
            pos,
            removed,
        ),
    );
    lemma_with_move_counts(board, white, black);
    lemma_with_token_counts(
        board,
        at_most(white_token_count(board) + 1, 7),
        black_token_count(board),
    );
    lemma_with_token_counts(
        board,
        white_token_count(board),
        at_most(black_token_count(board) + 1, 7),
    );
    lemma_with_token_counts(
        board,
        if white_token_count(board) > 0 {
            white_token_count(board) - 1
        } else {
            0
        },
        black_token_count(board),
    );
    lemma_with_token_counts(
        board,
        white_token_count(board),
        if black_token_count(board) > 0 {
            black_token_count(board) - 1
        } else {
            0
        },
    );
}

/// The cells of a board on which a token was set.
pub proof fn lemma_placed_cells(board: u64, color: u8, pos: int, step: int)
    requires
        0 <= pos < 24,
        color <= 3,
    ensures
        cells(placed_board(board, color, pos, step)) == cells(board).update(pos, color),
{
    let set = with_token(board, pos, color);
    lemma_with_token(board, pos, color);
    lemma_counters_keep_cells(set, color, pos, false);
    let counted = if step >= 4 {
        with_count_raised(set, color)
    } else {
        set
    };
    lemma_counters_keep_cells(counted, color, pos, false);
}

/// The cells of a board on which a token was moved.
pub proof fn lemma_moved_cells(board: u64, color: u8, start: int, end: int)
    requires
        0 <= start < 24,
        0 <= end < 24,
        color <= 3,
    ensures
        cells(moved_board(board, color, start, end)) == cells(board).update(start, EMPTY).update(
            end,
            color,
        ),
{
    let lifted_cells = with_token(board, start, EMPTY);
    lemma_with_token(board, start, EMPTY);
    lemma_counters_keep_cells(lifted_cells, color, start, true);
    let lifted = lifted_board(board, color, start);
    lemma_counters_keep_cells(lifted, color, end, false);
    let counted = with_updated_move_counts(lifted, color, end, false);
    lemma_with_token(counted, end, color);
}

/// The cells of a board from which a token was taken.
pub proof fn lemma_captured_cells(applied: u64, color: u8, pos: int)
    requires
        0 <= pos < 24,
    ensures
        cells(captured_board(applied, color, pos)) == cells(applied).update(pos, EMPTY),
{
    let taken = with_token(applied, pos, EMPTY);
    lemma_with_token(applied, pos, EMPTY);
    lemma_counters_keep_cells(taken, negated(color), pos, true);
    let counted = with_count_lowered(taken, negated(color));
    lemma_counters_keep_cells(counted, negated(color), pos, true);
}

/// Whether `next` is the board after a token was set on an empty cell from `low` on.
pub open spec fn placed_from(board: u64, color: u8, step: int, low: int, next: u64) -> bool {
    exists|pos: int|
        low <= pos < 24 && token_at(board, pos) == EMPTY && next == #[trigger] placed_board(
            board,
            color,
            pos,
            step,
        )
}

/// Whether `next` is the board after the token on `start` went to a cell below `high` to
/// which it may go.
pub open spec fn moved_below(board: u64, color: u8, start: int, high: int, next: u64) -> bool {
    exists|end: int|
        0 <= end < high && move_valid(
            start,
            end,
            token_at(board, end),
            mover_token_count(board, color),
        ) && next == #[trigger] moved_board(board, color, start, end)
}

/// Whether `next` is the board after a token of the mover on a cell below `high` went to a
/// cell to which it may go.
pub open spec fn moved_from_below(board: u64, color: u8, high: int, next: u64) -> bool {
    exists|start: int|
        0 <= start < high && token_at(board, start) == color && #[trigger] moved_below(
            board,
            color,
            start,
            24,
            next,
        )
}

/// Each board in the list of placements is the board after a token was set on an empty
/// cell, and each empty cell has its board in the list.
pub proof fn lemma_placements(board: u64, color: u8, step: int, upto: int)
    requires
        0 <= upto <= 24,
    ensures
        forall|i: int|
            0 <= i < placements(board, color, step, upto).len() ==> placed_from(
                board,
                color,
                step,
                24 - upto,
                #[trigger] placements(board, color, step, upto)[i],
            ),
        forall|pos: int|
            24 - upto <= pos < 24 && token_at(board, pos) == EMPTY ==> placements(
                board,
                color,
                step,
                upto,
            ).contains(#[trigger] placed_board(board, color, pos, step)),
    decreases upto,
{
    if upto > 0 {
        lemma_placements(board, color, step, upto - 1);
        let earlier = placements(board, color, step, upto - 1);
        let all = placements(board, color, step, upto);
        let last = 24 - upto;
        assert forall|i: int| 0 <= i < all.len() implies placed_from(
            board,
            color,
            step,
            24 - upto,
            #[trigger] all[i],
        ) by {
            if i < earlier.len() {
                assert(all[i] == earlier[i]);
                assert(placed_from(board, color, step, 24 - (upto - 1), earlier[i]));
            } else {
                assert(all[i] == placed_board(board, color, last, step));
            }
        }
        assert forall|pos: int|
            24 - upto <= pos < 24 && token_at(board, pos) == EMPTY implies all.contains(
            #[trigger] placed_board(board, color, pos, step),
        ) by {
            if pos == last {
                assert(all[all.len() - 1] == placed_board(board, color, pos, step));
            } else {
                let i = choose|i: int|
                    0 <= i < earlier.len() && earlier[i] == placed_board(board, color, pos, step);
                assert(all[i] == earlier[i]);
            }
        }
    }
}

/// Each board in the list of moves of one token is the board after the token went to a
/// cell to which it may go.
pub proof fn lemma_moves_from(board: u64, color: u8, start: int, upto: int)
    requires
        0 <= upto <= 24,
    ensures
        forall|i: int|
            0 <= i < moves_from(board, color, start, upto).len() ==> moved_below(
                board,
                color,
                start,
                upto,
                #[trigger] moves_from(board, color, start, upto)[i],
            ),
    decreases upto,
{
    if upto > 0 {
        lemma_moves_from(board, color, start, upto - 1);
        let earlier = moves_from(board, color, start, upto - 1);
        let all = moves_from(board, color, start, upto);
        assert forall|i: int| 0 <= i < all.len() implies moved_below(
            board,
            color,
            start,
            upto,
            #[trigger] all[i],
        ) by {
            if i < earlier.len() {
                assert(all[i] == earlier[i]);
                assert(moved_below(board, color, start, upto - 1, earlier[i]));
            } else {
                assert(all[i] == moved_board(board, color, start, upto - 1));
            }
        }
    }
}

/// Each board in the list of movements is the board after a token of the mover went to a
/// cell to which it may go.
pub proof fn lemma_movements(board: u64, color: u8, upto: int)
    requires
        0 <= upto <= 24,
    ensures
        forall|i: int|
            0 <= i < movements(board, color, upto).len() ==> moved_from_below(
                board,
                color,
                upto,
                #[trigger] movements(board, color, upto)[i],
            ),
    decreases upto,
{
    if upto > 0 {
        lemma_movements(board, color, upto - 1);
        let earlier = movements(board, color, upto - 1);
        let all = movements(board, color, upto);
        let from_last = moves_from(board, color, upto - 1, 24);
        lemma_moves_from(board, color, upto - 1, 24);
        assert forall|i: int| 0 <= i < all.len() implies moved_from_below(
            board,
            color,
            upto,
            #[trigger] all[i],
        ) by {
            if i < earlier.len() {
                assert(all[i] == earlier[i]);
                assert(moved_from_below(board, color, upto - 1, earlier[i]));
            } else {
                let j = i - earlier.len();
                assert(all[i] == from_last[j]);
                assert(moved_below(board, color, upto - 1, 24, from_last[j]));
            }
        }
    }
}

/// Each cell to which the token on `start` may go has its board in the list of the moves
/// of that token.
pub proof fn lemma_moves_from_complete(board: u64, color: u8, start: int, upto: int)
    requires
        0 <= upto <= 24,
    ensures
        forall|end: int|
            0 <= end < upto && move_valid(
                start,
                end,
                token_at(board, end),
                mover_token_count(board, color),
            ) ==> moves_from(board, color, start, upto).contains(
                #[trigger] moved_board(board, color, start, end),
            ),
    decreases upto,
{
    if upto > 0 {
        lemma_moves_from_complete(board, color, start, upto - 1);
        let earlier = moves_from(board, color, start, upto - 1);
        let all = moves_from(board, color, start, upto);
        assert forall|end: int|
            0 <= end < upto && move_valid(
                start,
                end,
                token_at(board, end),
                mover_token_count(board, color),
            ) implies all.contains(#[trigger] moved_board(board, color, start, end)) by {
            if end == upto - 1 {
                assert(all[all.len() - 1] == moved_board(board, color, start, end));
            } else {
                let i = choose|i: int|
                    0 <= i < earlier.len() && earlier[i] == moved_board(board, color, start, end);
                assert(all[i] == earlier[i]);
            }
        }
    }
}

/// Each token of the mover and each cell to which it may go has its board in the list of
/// movements.
pub proof fn lemma_movements_complete(board: u64, color: u8, upto: int)
    requires
        0 <= upto <= 24,
    ensures
        forall|start: int, end: int|
            0 <= start < upto && 0 <= end < 24 && token_at(board, start) == color && move_valid(
                start,
                end,
                token_at(board, end),
                mover_token_count(board, color),
            ) ==> movements(board, color, upto).contains(
                #[trigger] moved_board(board, color, start, end),
            ),
    decreases upto,
{
    if upto > 0 {
        lemma_movements_complete(board, color, upto - 1);
        lemma_moves_from_complete(board, color, upto - 1, 24);
        let earlier = movements(board, color, upto - 1);
        let last = moves_from(board, color, upto - 1, 24);
        let all = movements(board, color, upto);
        assert forall|start: int, end: int|
            0 <= start < upto && 0 <= end < 24 && token_at(board, start) == color && move_valid(
                start,
                end,
                token_at(board, end),
                mover_token_count(board, color),
            ) implies all.contains(#[trigger] moved_board(board, color, start, end)) by {
            let next = moved_board(board, color, start, end);
            if start == upto - 1 {
                let i = choose|i: int| 0 <= i < last.len() && last[i] == next;
                assert(all[earlier.len() + i] == last[i]);
            } else {
                let i = choose|i: int| 0 <= i < earlier.len() && earlier[i] == next;
                assert(all[i] == earlier[i]);
            }
        }
    }
}

/// No turn that the rules allow is left out: while tokens are set each empty cell has its
/// board among the boards that a turn leads to; while tokens are moved each token of the
/// mover and each empty cell that is its neighbour, or any empty cell if the mover flies,
/// has.
pub proof fn lemma_moves_are_complete(board: u64, color: u8, phase: Phase)
    requires
        is_color(color),
    ensures
        phase.phase == PhaseType::Setup ==> forall|pos: int|
            0 <= pos < 24 && token_at(board, pos) == EMPTY ==> base_moves(
                board,
                color,
                phase,
            ).contains(#[trigger] placed_board(board, color, pos, phase.step_counter as int)),
        phase.phase == PhaseType::Move ==> forall|start: int, end: int|
            0 <= start < 24 && 0 <= end < 24 && token_at(board, start) == color && token_at(
                board,
                end,
            ) == EMPTY && (mover_token_count(board, color) == 3 || adjacent(start, end))
                ==> base_moves(board, color, phase).contains(
                #[trigger] moved_board(board, color, start, end),
            ),
{
    lemma_placements(board, color, phase.step_counter as int, 24);
    lemma_movements_complete(board, color, 24);
}

/// Every board that a turn leads to, before a mill takes its token, comes from the board by
/// one turn that the rules allow: one token set on an empty cell, or one token moved to an
/// empty neighbour, or flown to any empty cell by a mover with three tokens. No token
/// stays where it was, and none goes to a cell that is not empty.
pub proof fn lemma_moves_are_legal(board: u64, color: u8, phase: Phase, index: int)
    requires
        is_color(color),
        0 <= index < base_moves(board, color, phase).len(),
    ensures
        is_turn(board, base_moves(board, color, phase)[index], color, phase),
{
    let next = base_moves(board, color, phase)[index];
    if phase.phase == PhaseType::Setup {
        let step = phase.step_counter as int;
        lemma_placements(board, color, step, 24);
        assert(placed_from(board, color, step, 0, next));
        let pos = choose|pos: int|
            0 <= pos < 24 && token_at(board, pos) == EMPTY && next == #[trigger] placed_board(
                board,
                color,
                pos,
                step,
            );
        lemma_placed_cells(board, color, pos, step);
        assert(is_placement(cells(board), cells(next), color, pos));
    } else {
        lemma_movements(board, color, 24);
        assert(moved_from_below(board, color, 24, next));
        let start = choose|start: int|
            0 <= start < 24 && token_at(board, start) == color && #[trigger] moved_below(
                board,
                color,
                start,
                24,
                next,
            );
        let end = choose|end: int|
            0 <= end < 24 && move_valid(
                start,
                end,
                token_at(board, end),
                mover_token_count(board, color),
            ) && next == #[trigger] moved_board(board, color, start, end);
        lemma_moved_cells(board, color, start, end);
        assert(is_step(
            cells(board),
            cells(next),
            color,
            start,
            end,
            mover_token_count(board, color) == 3,
        ));
    }
}

/// How many of the first `upto` tokens `color` may take.
pub open spec fn beatable_count(cells: Seq<u8>, color: u8, upto: int) -> int
    decreases upto,
{
    if upto <= 0 {
        0
    } else {
        beatable_count(cells, color, upto - 1) + if beatable(cells, upto - 1, color) {
            1int
        } else {
            0int
        }
    }
}

/// Whether `next` is `applied` after `color` took a token below `high` that it may take.
pub open spec fn captured_below(board: u64, applied: u64, color: u8, high: int, next: u64) -> bool {
    exists|pos: int|
        0 <= pos < high && beatable(cells(board), pos, color) && next
            == #[trigger] captured_board(applied, color, pos)
}

/// The list of captures holds one board for each token that may be taken, and no other.
pub proof fn lemma_captures(board: u64, applied: u64, color: u8, upto: int)
    requires
        0 <= upto <= 24,
    ensures
        captures(board, applied, color, upto).len() == beatable_count(cells(board), color, upto),
        forall|i: int|
            0 <= i < captures(board, applied, color, upto).len() ==> captured_below(
                board,
                applied,
                color,
                upto,
                #[trigger] captures(board, applied, color, upto)[i],
            ),
        forall|pos: int|
            0 <= pos < upto && beatable(cells(board), pos, color) ==> captures(
                board,
                applied,
                color,
                upto,
            ).contains(#[trigger] captured_board(applied, color, pos)),
    decreases upto,
{
    if upto > 0 {
        lemma_captures(board, applied, color, upto - 1);
        let earlier = captures(board, applied, color, upto - 1);
        let all = captures(board, applied, color, upto);
        assert forall|i: int| 0 <= i < all.len() implies captured_below(
            board,
            applied,
            color,
            upto,
            #[trigger] all[i],
        ) by {
            if i < earlier.len() {
                assert(all[i] == earlier[i]);
                assert(captured_below(board, applied, color, upto - 1, earlier[i]));
            } else {
                assert(all[i] == captured_board(applied, color, upto - 1));
            }
        }
        assert forall|pos: int|
            0 <= pos < upto && beatable(cells(board), pos, color) implies all.contains(
            #[trigger] captured_board(applied, color, pos),
        ) by {
            if pos == upto - 1 {
                assert(all[all.len() - 1] == captured_board(applied, color, pos));
            } else {
                let i = choose|i: int|
                    0 <= i < earlier.len() && earlier[i] == captured_board(applied, color, pos);
                assert(all[i] == earlier[i]);
            }
        }
    }
}

/// Which tokens may be taken: if a token of the other colour stands outside every mill,
/// the tokens of that colour that stand in no mill, and none that stands in one; if all
/// stand in mills, every token of that colour.
pub proof fn lemma_beatable_tokens(cells: Seq<u8>, pos: int, color: u8)
    requires
        is_color(color),
        0 <= pos < 24,
    ensures
        !all_in_mills(cells, negated(color)) ==> (beatable(cells, pos, color) <==> cells[pos]
            == negated(color) && !in_mill(cells, pos, negated(color))),
        all_in_mills(cells, negated(color)) ==> (beatable(cells, pos, color) <==> cells[pos]
            == negated(color)),
{
}

/// A turn of `color` leaves the tokens of the other colour where they are.
pub proof fn lemma_turn_keeps_enemy(board: u64, applied: u64, color: u8, phase: Phase, pos: int)
    requires
        is_color(color),
        is_turn(board, applied, color, phase),
        0 <= pos < 24,
        cells(board)[pos] == negated(color),
    ensures
        cells(applied)[pos] == negated(color),
{
}

/// Taking two different tokens gives two different boards.
pub proof fn lemma_captures_differ(applied: u64, color: u8, first: int, second: int)
    requires
        0 <= first < 24,
        0 <= second < 24,
        first != second,
        cells(applied)[first] != EMPTY,
    ensures
        captured_board(applied, color, first) != captured_board(applied, color, second),
{
    lemma_captured_cells(applied, color, first);
    lemma_captured_cells(applied, color, second);
    assert(cells(captured_board(applied, color, first))[first] == EMPTY);
    assert(cells(captured_board(applied, color, second))[first] == cells(applied)[first]);
}

/// A turn that closes a mill is followed by exactly one board for each token that may be
/// taken: as many boards as there are such tokens, one for each of them, no two alike, and
/// none for any other cell.
pub proof fn lemma_mill_capture_complete(board: u64, applied: u64, color: u8, phase: Phase)
    requires
        is_color(color),
        is_turn(board, applied, color, phase),
        mill_closed(cells(board), cells(applied), color),
    ensures
        resolved(board, applied, color).len() == beatable_count(cells(board), color, 24),
        forall|pos: int|
            0 <= pos < 24 && beatable(cells(board), pos, color) ==> resolved(
                board,
                applied,
                color,
            ).contains(#[trigger] captured_board(applied, color, pos)),
        forall|i: int|
            0 <= i < resolved(board, applied, color).len() ==> captured_below(
                board,
                applied,
                color,
                24,
                #[trigger] resolved(board, applied, color)[i],
            ),
        forall|first: int, second: int|
            0 <= first < 24 && 0 <= second < 24 && first != second && beatable(
                cells(board),
                first,
                color,
            ) ==> #[trigger] captured_board(applied, color, first) != #[trigger] captured_board(
                applied,
                color,
                second,
            ),
{
    lemma_captures(board, applied, color, 24);
    assert forall|first: int, second: int|
        0 <= first < 24 && 0 <= second < 24 && first != second && beatable(
            cells(board),
            first,
            color,
        ) implies #[trigger] captured_board(applied, color, first) != #[trigger] captured_board(
        applied,
        color,
        second,
    ) by {
        lemma_turn_keeps_enemy(board, applied, color, phase, first);
        lemma_captures_differ(applied, color, first, second);
    }
}

/// Whether `next` is what became of one of the first `upto` turns of `base`.
pub open spec fn resolved_below(
    board: u64,
    color: u8,
    base: Seq<u64>,
    upto: int,
    next: u64,
) -> bool {
    exists|k: int| 0 <= k < upto && (#[trigger] resolved(board, base[k], color)).contains(next)
}

/// Each fully resolved board is what became of one of the turns.
pub proof fn lemma_resolved_upto(board: u64, color: u8, base: Seq<u64>, upto: int)
    requires
        0 <= upto <= base.len(),
    ensures
        forall|i: int|
            0 <= i < resolved_upto(board, color, base, upto).len() ==> resolved_below(
                board,
                color,
                base,
                upto,
                #[trigger] resolved_upto(board, color, base, upto)[i],
            ),
    decreases upto,
{
    if upto > 0 {
        lemma_resolved_upto(board, color, base, upto - 1);
        let earlier = resolved_upto(board, color, base, upto - 1);
        let last = resolved(board, base[upto - 1], color);
        let all = resolved_upto(board, color, base, upto);
        assert forall|i: int| 0 <= i < all.len() implies resolved_below(
            board,
            color,
            base,
            upto,
            #[trigger] all[i],
        ) by {
            if i < earlier.len() {
                assert(all[i] == earlier[i]);
                assert(resolved_below(board, color, base, upto - 1, earlier[i]));
            } else {
                assert(all[i] == last[i - earlier.len()]);
                assert(last.contains(all[i]));
            }
        }
    }
}

/// Every board that the move generator yields comes from the board by one whole turn that
/// the rules allow: one token set, moved or flown as in `lemma_moves_are_legal`, and, if
/// and only if that closed a mill, one token taken that may be taken.
pub proof fn lemma_forward_boards_are_turns(board: u64, color: u8, phase: Phase, index: int)
    requires
        is_color(color),
        0 <= index < forward_boards(board, color, phase).len(),
    ensures
        is_resolved_turn(board, forward_boards(board, color, phase)[index], color, phase),
{
    let base = base_moves(board, color, phase);
    let next = forward_boards(board, color, phase)[index];
    lemma_resolved_upto(board, color, base, base.len() as int);
    assert(resolved_below(board, color, base, base.len() as int, next));
    let k = choose|k: int|
        0 <= k < base.len() && (#[trigger] resolved(board, base[k], color)).contains(next);
    let applied = base[k];
    lemma_moves_are_legal(board, color, phase, k);
    if mill_closed(cells(board), cells(applied), color) {
        lemma_captures(board, applied, color, 24);
        let i = choose|i: int|
            0 <= i < captures(board, applied, color, 24).len() && captures(
                board,
                applied,
                color,
                24,
            )[i] == next;
        assert(captured_below(board, applied, color, 24, next));
        let pos = choose|pos: int|
            0 <= pos < 24 && beatable(cells(board), pos, color) && next
                == #[trigger] captured_board(applied, color, pos);
        lemma_captured_cells(applied, color, pos);
        assert(is_capture(board, applied, next, color, pos));
    } else {
        assert(resolved(board, applied, color)[0] == applied);
    }
    assert(is_turn(board, applied, color, phase));
}

} // verus!
