use crate::ai::{Phase, PhaseType};
use crate::ai::action::{forward_boards, forward_step_boards, is_color};
use crate::position::{negate_token, negated, WHITE};
use crate::utils::{
    black_move_count, black_token_count, extract_black_move_count_from_board,
    extract_black_token_count_from_board, extract_white_move_count_from_board,
    extract_white_token_count_from_board, white_move_count, white_token_count,
};
use itertools::Itertools;
use std::cmp::Ordering;
use vstd::prelude::*;

verus! {

/// Whether black has lost on this board: it cannot move though it may not fly, or it has
/// only two tokens left.
pub open spec fn black_lost(board: u64) -> bool {
    (black_move_count(board) == 0 && black_token_count(board) > 3) || black_token_count(board)
        == 2
}

/// Whether white has lost on this board.
pub open spec fn white_lost(board: u64) -> bool {
    (white_move_count(board) == 0 && white_token_count(board) > 3) || white_token_count(board)
        == 2
}

/// Whether the game is over on this board: only while tokens are moved can a player lose.
pub open spec fn decided(board: u64, phase: Phase) -> bool {
    phase.phase == PhaseType::Move && (black_lost(board) || white_lost(board))
}

/// The score of a board: high scores are good for white. A lost game has the largest score
/// there is, less one for each step made, so that the sooner win scores higher. Else each
/// token counts 1000 and each step 1.
pub open spec fn evaluation(board: u64, phase: Phase) -> int {
    if phase.phase == PhaseType::Move && black_lost(board) {
        isize::MAX - phase.step_counter
    } else if phase.phase == PhaseType::Move && white_lost(board) {
        isize::MIN + phase.step_counter
    } else {
        1000 * (white_token_count(board) - black_token_count(board)) + (white_move_count(board)
            - black_move_count(board))
    }
}

/// The score of a board for the search: high scores are good for white.
pub fn evaluate_action(positions: u64, phase: Phase) -> (score: isize)
    ensures
        score == evaluation(positions, phase),
        isize::MIN + phase.step_counter <= score <= isize::MAX - phase.step_counter,
{
    let black_move_count = extract_black_move_count_from_board(positions);
    let white_move_count = extract_white_move_count_from_board(positions);
    let black_token_count = extract_black_token_count_from_board(positions);
    let white_token_count = extract_white_token_count_from_board(positions);
    if phase.phase == PhaseType::Move {
        if (black_move_count == 0 && black_token_count > 3) || black_token_count == 2 {
            return isize::MAX - phase.step_counter as isize;
        } else if (white_move_count == 0 && white_token_count > 3) || white_token_count == 2 {
            return isize::MIN + phase.step_counter as isize;
        }
    }
    let mut score: isize = (white_token_count as isize - black_token_count as isize) * 1000;
    score += white_move_count as isize - black_move_count as isize;
    score
}

/// The better of two scores for the player to move: white wants the larger one.
pub open spec fn better(white: bool, first: int, second: int) -> int {
    if white == (first >= second) {
        first
    } else {
        second
    }
}

/// The score that the player to move gets if it has no turn left: the worst there is for
/// it at that step.
pub open spec fn worst_score(white: bool, phase: Phase) -> int {
    if white {
        isize::MIN + phase.step_counter
    } else {
        isize::MAX - phase.step_counter
    }
}

/// The value of a board when both players look `depth` turns ahead and play their best:
/// the score of the board if the game is over or nothing is left to look at, else the best
/// value of the boards that the turn of `mover` can lead to.
pub open spec fn game_value(board: u64, depth: nat, mover: u8, phase: Phase) -> int
    decreases depth, 0nat,
{
    if decided(board, phase) || depth == 0 {
        evaluation(board, phase)
    } else {
        let children = forward_boards(board, mover, phase);
        best_value(children, children.len(), (depth - 1) as nat, mover, phase)
    }
}

/// The best value for `mover` among the first `upto` of `children`, each looked at `depth`
/// turns ahead, and the worst score.
pub open spec fn best_value(
    children: Seq<u64>,
    upto: nat,
    depth: nat,
    mover: u8,
    phase: Phase,
) -> int
    decreases depth, upto,
{
    if upto == 0 {
        worst_score(mover == WHITE, phase)
    } else {
        better(
            mover == WHITE,
            best_value(children, (upto - 1) as nat, depth, mover, phase),
            game_value(children[upto - 1], depth, negated(mover), phase.next()),
        )
    }
}

/// Whether `first` comes before `second` or beside it when the boards are put in the order
/// in which `mover` looks at them: white looks at high scores first, black at low ones.
pub open spec fn in_search_order(first: u64, second: u64, white: bool, phase: Phase) -> bool {
    if white {
        evaluation(first, phase) >= evaluation(second, phase)
    } else {
        evaluation(first, phase) <= evaluation(second, phase)
    }
}

/// The boards among `boards` that have the score `score`, in their order.
pub open spec fn scoring(boards: Seq<u64>, phase: Phase, score: int) -> Seq<u64> {
    boards.filter(|board: u64| evaluation(board, phase) == score)
}

/// How two boards stand in the order in which the search looks at them.
pub fn compare_candidates(first: &u64, second: &u64, white: bool, phase: Phase) -> (order: Ordering)
    ensures
        order == Ordering::Equal <==> evaluation(*first, phase) == evaluation(*second, phase),
        order == Ordering::Less <==> evaluation(*first, phase) != evaluation(*second, phase)
            && in_search_order(*first, *second, white, phase),
{
    let first_score = evaluate_action(*first, phase);
    let second_score = evaluate_action(*second, phase);
    if first_score == second_score {
        Ordering::Equal
    } else if white == (first_score > second_score) {
        Ordering::Less
    } else {
        Ordering::Greater
    }
}

/// Calls `Itertools::sorted_by` of itertools on the boards, with `compare_candidates` as
/// the order. Claimed of it: the boards that come out are the boards that went in, each as
/// often; they stand in search order; and boards of equal score keep the order in which
/// they went in, as a stable sort leaves them.
#[verifier::external_body]
fn sorted_candidates(boards: Vec<u64>, white: bool, phase: Phase) -> (sorted: Vec<u64>)
    ensures
        sorted@.to_multiset() == boards@.to_multiset(),
        forall|i: int, j: int|
            0 <= i <= j < sorted@.len() ==> in_search_order(sorted@[i], sorted@[j], white, phase),
        forall|score: int|
            #[trigger] scoring(sorted@, phase, score) == scoring(boards@, phase, score),
{
    boards.into_iter().sorted_by(
        |first, second| compare_candidates(first, second, white, phase),
    ).collect()
}

/// Whether `first` is at least as good as `second` for the player to move.
pub open spec fn as_good(white: bool, first: int, second: int) -> bool {
    if white {
        first >= second
    } else {
        first <= second
    }
}

/// What a search with the window from `alpha` to `beta` says of the value of a board by
/// giving `score`: inside the window the score is the value; at or below `alpha` the value
/// is no higher than the score; at or above `beta` it is no lower.
pub open spec fn within_window(score: int, alpha: int, beta: int, value: int) -> bool {
    &&& alpha < score < beta ==> value == score
    &&& score <= alpha ==> value <= score
    &&& score >= beta ==> value >= score
}

/// The time that the search for one turn may take, in microseconds.
pub const TIME_BUDGET: u64 = 980_000;

/// Whether the time is up when `elapsed` microseconds have gone by since the search for
/// the turn began.
pub open spec fn late(elapsed: u64) -> bool {
    elapsed > TIME_BUDGET
}

/// Whether the clock never shows a time at which the time is up.
pub open spec fn never_late<F: Fn() -> u64>(clock: &F) -> bool {
    forall|elapsed: u64| clock.ensures((), elapsed) ==> !late(elapsed)
}

/// Whether the clock always shows a time at which the time is up.
pub open spec fn always_late<F: Fn() -> u64>(clock: &F) -> bool {
    forall|elapsed: u64| clock.ensures((), elapsed) ==> late(elapsed)
}

/// Whether the time is up when `elapsed` microseconds have gone by since the search for
/// the turn began.
pub fn is_late(elapsed: u64) -> (up: bool)
    ensures
        up == late(elapsed),
{
    elapsed > TIME_BUDGET
}

/// The best value is as good as the worst score and as each child's value, and it is one
/// of them.
pub proof fn lemma_best_value(children: Seq<u64>, upto: nat, depth: nat, mover: u8, phase: Phase)
    requires
        upto <= children.len(),
    ensures
        as_good(
            mover == WHITE,
            best_value(children, upto, depth, mover, phase),
            worst_score(mover == WHITE, phase),
        ),
        forall|k: int|
            0 <= k < upto ==> as_good(
                mover == WHITE,
                best_value(children, upto, depth, mover, phase),
                #[trigger] game_value(children[k], depth, negated(mover), phase.next()),
            ),
        best_value(children, upto, depth, mover, phase) == worst_score(mover == WHITE, phase)
            || exists|k: int|
            0 <= k < upto && best_value(children, upto, depth, mover, phase)
                == #[trigger] game_value(children[k], depth, negated(mover), phase.next()),
    decreases upto,
{
    if upto > 0 {
        lemma_best_value(children, (upto - 1) as nat, depth, mover, phase);
        let earlier = best_value(children, (upto - 1) as nat, depth, mover, phase);
        let last = game_value(children[upto - 1], depth, negated(mover), phase.next());
        let best = best_value(children, upto, depth, mover, phase);
        assert(best == better(mover == WHITE, earlier, last));
        if best == last {
        } else {
            assert(best == earlier);
            if earlier != worst_score(mover == WHITE, phase) {
                let k = choose|k: int|
                    0 <= k < upto - 1 && earlier == #[trigger] game_value(
                        children[k],
                        depth,
                        negated(mover),
                        phase.next(),
                    );
                assert(0 <= k < upto);
            }
        }
    }
}

/// The value of a board is a score between the worst and the best that there is at its
/// step.
pub proof fn lemma_game_value_range(board: u64, depth: nat, mover: u8, phase: Phase)
    requires
        phase.step_counter + depth <= 255,
    ensures
        isize::MIN + phase.step_counter <= game_value(board, depth, mover, phase) <= isize::MAX
            - phase.step_counter,
    decreases depth, 0nat,
{
    if decided(board, phase) || depth == 0 {
        lemma_evaluation_range(board, phase);
    } else {
        let children = forward_boards(board, mover, phase);
        lemma_best_value_range(children, children.len(), (depth - 1) as nat, mover, phase);
    }
}

/// The best value among children is a score between the worst and the best that there is
/// at the step of their parent.
pub proof fn lemma_best_value_range(
    children: Seq<u64>,
    upto: nat,
    depth: nat,
    mover: u8,
    phase: Phase,
)
    requires
        upto <= children.len(),
        phase.step_counter + 1 + depth <= 255,
    ensures
        isize::MIN + phase.step_counter <= best_value(children, upto, depth, mover, phase)
            <= isize::MAX - phase.step_counter,
    decreases depth, upto,
{
    if upto > 0 {
        lemma_best_value_range(children, (upto - 1) as nat, depth, mover, phase);
        lemma_game_value_range(children[upto - 1], depth, negated(mover), phase.next());
    }
}

/// A score lies between the worst and the best that there is at its step.
pub proof fn lemma_evaluation_range(board: u64, phase: Phase)
    ensures
        isize::MIN + phase.step_counter <= evaluation(board, phase) <= isize::MAX
            - phase.step_counter,
{
    crate::utils::lemma_counter_ranges(board);
}

/// A lost game scores the most there is at its step: for white if black has lost, for
/// black if only white has lost. Any other board scores less than a lost game at any step.
pub proof fn lemma_lost_game_scores_most(board: u64, phase: Phase)
    requires
        phase.phase == PhaseType::Move,
    ensures
        black_lost(board) ==> evaluation(board, phase) == isize::MAX - phase.step_counter,
        white_lost(board) && !black_lost(board) ==> evaluation(board, phase) == isize::MIN
            + phase.step_counter,
        !decided(board, phase) ==> -7031 <= evaluation(board, phase) <= 7031,
        7031 < isize::MAX - 255,
{
    crate::utils::lemma_counter_ranges(board);
}

/// Searches `depth` turns ahead from `board`, on which `maximizing_player` is to move, with
/// the window from `alpha` to `beta`. The clock, which shows the microseconds gone by since
/// the search for the turn began, is read at each board; once the time is up the search is
/// given up and nothing is returned.
pub fn minimax<F: Fn() -> u64>(
    board: u64,
    depth: usize,
    alpha: isize,
    beta: isize,
    maximizing_player: u8,
    phase: Phase,
    clock: &F,
) -> (found: Option<isize>)
    requires
        is_color(maximizing_player),
        phase.step_counter + depth <= 255,
        clock.requires(()),
    ensures
        found matches Some(score) ==> {
            &&& alpha < beta ==> within_window(
                score as int,
                alpha as int,
                beta as int,
                game_value(board, depth as nat, maximizing_player, phase),
            )
            &&& decided(board, phase) || depth == 0 ==> score == evaluation(board, phase)
            &&& alpha == isize::MIN && beta == isize::MAX ==> score == game_value(
                board,
                depth as nat,
                maximizing_player,
                phase,
            )
        },
        never_late(clock) ==> found is Some,
        always_late(clock) ==> found is None,
    decreases depth,
{
    proof {
        lemma_game_value_range(board, depth as nat, maximizing_player, phase);
    }
    if is_late(clock()) {
        return None;
    }
    let black_token_count = extract_black_token_count_from_board(board);
    let white_token_count = extract_white_token_count_from_board(board);
    if phase.phase == PhaseType::Move {
        if (extract_black_move_count_from_board(board) == 0 && black_token_count > 3)
            || black_token_count == 2 {
            return Some(isize::MAX - phase.step_counter as isize);
        } else if (extract_white_move_count_from_board(board) == 0 && white_token_count > 3)
            || white_token_count == 2 {
            return Some(isize::MIN + phase.step_counter as isize);
        }
    }
    if depth == 0 {
        return Some(evaluate_action(board, phase));
    }
    let white = maximizing_player == WHITE;
    let boards = forward_step_boards(&board, maximizing_player, phase);
    let sorted = sorted_candidates(boards, white, phase);
    let ghost children = forward_boards(board, maximizing_player, phase);
    let ghost value = game_value(board, depth as nat, maximizing_player, phase);
    let ghost below = (depth - 1) as nat;
    let next_player = negate_token(maximizing_player);
    let next_phase = phase.increased();
    proof {
        lemma_best_value(children, children.len(), below, maximizing_player, phase);
        children.to_multiset_ensures();
        sorted@.to_multiset_ensures();
        assert forall|board: u64| sorted@.contains(board) <==> children.contains(board) by {
            assert(sorted@.contains(board) <==> sorted@.to_multiset().count(board) > 0);
            assert(children.contains(board) <==> children.to_multiset().count(board) > 0);
        }
    }
    let mut low = alpha;
    let mut high = beta;
    let mut best: isize = if white {
        isize::MIN + phase.step_counter as isize
    } else {
        isize::MAX - phase.step_counter as isize
    };
    let mut index: usize = 0;
    while index < sorted.len()
        invariant
            index <= sorted.len(),
            is_color(next_player),
            next_player == negated(maximizing_player),
            white == (maximizing_player == WHITE),
            next_phase == phase.next(),
            next_phase.step_counter + below <= 255,
            below == depth - 1,
            !decided(board, phase),
            clock.requires(()),
            value == game_value(board, depth as nat, maximizing_player, phase),
            isize::MIN <= value <= isize::MAX,
            value == best_value(children, children.len(), below, maximizing_player, phase),
            forall|board: u64| sorted@.contains(board) <==> children.contains(board),
            as_good(white, value, worst_score(white, phase) as int),
            forall|k: int|
                0 <= k < children.len() ==> as_good(
                    white,
                    value,
                    #[trigger] game_value(children[k], below, next_player, next_phase),
                ),
            as_good(white, best as int, worst_score(white, phase)),
            alpha < beta ==> {
                &&& low < high
                &&& if white {
                    &&& high == beta
                    &&& alpha <= low
                    &&& low > alpha ==> low <= best
                    &&& best > alpha ==> value >= best
                } else {
                    &&& low == alpha
                    &&& high <= beta
                    &&& high < beta ==> high >= best
                    &&& best < beta ==> value <= best
                }
                &&& forall|j: int|
                    0 <= j < index ==> as_good(
                        white,
                        best as int,
                        #[trigger] game_value(sorted@[j], below, next_player, next_phase),
                    )
            },
        decreases sorted.len() - index,
    {
        let child = sorted[index];
        let found = minimax(child, depth - 1, low, high, next_player, next_phase, clock);
        let score = match found {
            Some(score) => score,
            None => {
                return None;
            },
        };
        proof {
            assert(sorted@.contains(child));
            assert(children.contains(child));
            let k = choose|k: int| 0 <= k < children.len() && children[k] == child;
            assert(as_good(
                white,
                value,
                game_value(children[k], below, next_player, next_phase),
            ));
        }
        if white {
            if score > best {
                best = score;
            }
            if score > low {
                low = score;
            }
        } else {
            if score < best {
                best = score;
            }
            if score < high {
                high = score;
            }
        }
        if high <= low {
            return Some(best);
        }
        index += 1;
    }
    proof {
        if alpha < beta {
            assert forall|k: int| 0 <= k < children.len() implies as_good(
                white,
                best as int,
                #[trigger] game_value(children[k], below, next_player, next_phase),
            ) by {
                assert(children.contains(children[k]));
                assert(sorted@.contains(children[k]));
                let j = choose|j: int| 0 <= j < sorted@.len() && sorted@[j] == children[k];
                assert(as_good(
                    white,
                    best as int,
                    game_value(sorted@[j], below, next_player, next_phase),
                ));
            }
        }
    }
    Some(best)
}

} // verus!
