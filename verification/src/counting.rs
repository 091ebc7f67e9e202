use crate::graph::{adjacent, lemma_adjacent_symmetric};
use crate::position::EMPTY;
use vstd::prelude::*;

verus! {

/// How many of the first `upto` cells hold `token`.
pub open spec fn count_holding(cells: Seq<u8>, token: u8, upto: int) -> int
    decreases upto,
{
    if upto <= 0 {
        0
    } else {
        count_holding(cells, token, upto - 1) + if cells[upto - 1] == token {
            1int
        } else {
            0int
        }
    }
}

/// How many cells hold `token`.
pub open spec fn token_count(cells: Seq<u8>, token: u8) -> int {
    count_holding(cells, token, 24)
}

/// How many of the first `upto` cells are neighbours of `pos` and hold `token`.
pub open spec fn neighbors_holding(cells: Seq<u8>, pos: int, token: u8, upto: int) -> int
    decreases upto,
{
    if upto <= 0 {
        0
    } else {
        neighbors_holding(cells, pos, token, upto - 1) + if adjacent(pos, upto - 1) && cells[upto
            - 1] == token {
            1int
        } else {
            0int
        }
    }
}

/// How many neighbours of `pos` are empty.
pub open spec fn free_neighbors(cells: Seq<u8>, pos: int) -> int {
    neighbors_holding(cells, pos, EMPTY, 24)
}

/// How many steps to an empty neighbour the tokens of `color` in the first `upto` cells have.
pub open spec fn mobility_upto(cells: Seq<u8>, color: u8, upto: int) -> int
    decreases upto,
{
    if upto <= 0 {
        0
    } else {
        mobility_upto(cells, color, upto - 1) + if cells[upto - 1] == color {
            free_neighbors(cells, upto - 1)
        } else {
            0int
        }
    }
}

/// How many steps to an empty neighbour the tokens of `color` have.
pub open spec fn mobility(cells: Seq<u8>, color: u8) -> int {
    mobility_upto(cells, color, 24)
}

/// A count never exceeds the number of cells counted.
pub proof fn lemma_count_bounds(cells: Seq<u8>, token: u8, upto: int)
    requires
        0 <= upto,
    ensures
        0 <= count_holding(cells, token, upto) <= upto,
    decreases upto,
{
    if upto > 0 {
        lemma_count_bounds(cells, token, upto - 1);
    }
}

/// A cell has at most four neighbours.
pub proof fn lemma_neighbors_bounds(cells: Seq<u8>, pos: int, token: u8, upto: int)
    requires
        0 <= upto <= 24,
    ensures
        0 <= neighbors_holding(cells, pos, token, upto) <= 4,
        neighbors_holding(cells, pos, token, upto) <= upto,
{
    lemma_neighbors_tally(cells, pos, token, upto);
}

/// The neighbours among the first `upto` cells, counted one by one.
pub open spec fn neighbors_before(pos: int, upto: int) -> int
    decreases upto,
{
    if upto <= 0 {
        0
    } else {
        neighbors_before(pos, upto - 1) + if adjacent(pos, upto - 1) {
            1int
        } else {
            0int
        }
    }
}

proof fn lemma_neighbors_tally(cells: Seq<u8>, pos: int, token: u8, upto: int)
    requires
        0 <= upto <= 24,
    ensures
        0 <= neighbors_holding(cells, pos, token, upto) <= neighbors_before(pos, upto),
        neighbors_before(pos, upto) <= upto,
        neighbors_before(pos, upto) <= 4,
    decreases upto,
{
    if upto > 0 {
        lemma_neighbors_tally(cells, pos, token, upto - 1);
        lemma_neighbors_at_most_four(pos, upto);
    }
}

proof fn lemma_neighbors_at_most_four(pos: int, upto: int)
    requires
        0 <= upto <= 24,
    ensures
        neighbors_before(pos, upto) <= 4,
{
    if 0 <= pos < 24 {
        lemma_neighbors_list(pos, upto);
    } else {
        lemma_no_neighbors_off_board(pos, upto);
    }
}

proof fn lemma_no_neighbors_off_board(pos: int, upto: int)
    requires
        !(0 <= pos < 24),
    ensures
        neighbors_before(pos, upto) == 0,
    decreases upto,
{
    if upto > 0 {
        lemma_no_neighbors_off_board(pos, upto - 1);
    }
}

/// The cells below `upto` that can be neighbours of `pos`: the two on its ring and, for
/// the middle of a side, the two across the rings.
spec fn candidate_neighbors(pos: int, upto: int) -> int {
    let start = pos - pos % 8;
    (if start + (pos % 8 + 1) % 8 < upto {
        1int
    } else {
        0int
    }) + (if start + (pos % 8 + 7) % 8 < upto {
        1int
    } else {
        0int
    }) + (if pos % 2 == 0 && pos + 8 < upto {
        1int
    } else {
        0int
    }) + (if pos % 2 == 0 && 0 <= pos - 8 < upto {
        1int
    } else {
        0int
    })
}

proof fn lemma_neighbors_list(pos: int, upto: int)
    requires
        0 <= pos < 24,
        0 <= upto <= 24,
    ensures
        neighbors_before(pos, upto) <= candidate_neighbors(pos, upto),
    decreases upto,
{
    if upto > 0 {
        lemma_neighbors_list(pos, upto - 1);
    }
}

/// By how much the steps of `color` change when a token of `token_type` is put on the empty
/// cell `pos`, or taken from it: the token brings or takes its own steps, and each
/// neighbour loses or wins the step onto `pos`.
pub open spec fn move_delta(
    cells: Seq<u8>,
    color: u8,
    token_type: u8,
    pos: int,
    removed: bool,
) -> int {
    let own = if token_type == color {
        free_neighbors(cells, pos)
    } else {
        0
    };
    let near = neighbors_holding(cells, pos, color, 24);
    if removed {
        near - own
    } else {
        own - near
    }
}

/// One for a true statement, nothing for a false one.
pub open spec fn one_if(holds: bool) -> int {
    if holds {
        1
    } else {
        0
    }
}

/// Changing one cell changes the count of a token by what left and what came.
pub proof fn lemma_count_after_change(cells: Seq<u8>, at: int, new_token: u8, token: u8, upto: int)
    requires
        cells.len() == 24,
        0 <= at < 24,
        0 <= upto <= 24,
    ensures
        count_holding(cells.update(at, new_token), token, upto) == count_holding(cells, token, upto)
            + if at < upto {
            one_if(new_token == token) - one_if(cells[at] == token)
        } else {
            0
        },
    decreases upto,
{
    if upto > 0 {
        lemma_count_after_change(cells, at, new_token, token, upto - 1);
    }
}

/// Changing one cell changes the neighbours of `pos` that hold `token` only if the cell is a
/// neighbour of `pos`.
pub proof fn lemma_neighbors_after_change(
    cells: Seq<u8>,
    at: int,
    new_token: u8,
    pos: int,
    token: u8,
    upto: int,
)
    requires
        cells.len() == 24,
        0 <= at < 24,
        0 <= upto <= 24,
    ensures
        neighbors_holding(cells.update(at, new_token), pos, token, upto) == neighbors_holding(
            cells,
            pos,
            token,
            upto,
        ) + if at < upto && adjacent(pos, at) {
            one_if(new_token == token) - one_if(cells[at] == token)
        } else {
            0
        },
    decreases upto,
{
    if upto > 0 {
        lemma_neighbors_after_change(cells, at, new_token, pos, token, upto - 1);
    }
}

/// By how much the steps of the tokens of `color` in the first `upto` cells change when cell
/// `at` gets `new_token`.
pub open spec fn mobility_change(
    cells: Seq<u8>,
    at: int,
    new_token: u8,
    color: u8,
    upto: int,
) -> int {
    let near = neighbors_holding(cells, at, color, upto);
    let free = free_neighbors(cells, at);
    (if new_token == EMPTY && cells[at] != EMPTY {
        near
    } else if new_token != EMPTY && cells[at] == EMPTY {
        -near
    } else {
        0
    }) + (if at < upto && new_token == color && cells[at] != color {
        free
    } else if at < upto && new_token != color && cells[at] == color {
        -free
    } else {
        0
    })
}

/// Changing one cell changes the steps of a colour by the steps of the token that came or
/// went, and by one for each neighbour of that colour if the cell was or became empty.
pub proof fn lemma_mobility_after_change(
    cells: Seq<u8>,
    at: int,
    new_token: u8,
    color: u8,
    upto: int,
)
    requires
        cells.len() == 24,
        0 <= at < 24,
        0 <= upto <= 24,
        color != EMPTY,
    ensures
        mobility_upto(cells.update(at, new_token), color, upto) == mobility_upto(
            cells,
            color,
            upto,
        ) + mobility_change(cells, at, new_token, color, upto),
    decreases upto,
{
    if upto > 0 {
        let changed = cells.update(at, new_token);
        let last = upto - 1;
        lemma_mobility_after_change(cells, at, new_token, color, last);
        lemma_neighbors_after_change(cells, at, new_token, last, EMPTY, 24);
        lemma_adjacent_symmetric(at, last);
        assert(neighbors_holding(cells, at, color, upto) == neighbors_holding(
            cells,
            at,
            color,
            last,
        ) + one_if(adjacent(at, last) && cells[last] == color));
        if last == at {
            assert(free_neighbors(changed, last) == free_neighbors(cells, last));
        } else {
            assert(changed[last] == cells[last]);
        }
    }
}

/// What a cell holds does not matter to the count of its neighbours.
pub proof fn lemma_neighbors_ignore_own_cell(cells: Seq<u8>, pos: int, new_token: u8, token: u8)
    requires
        cells.len() == 24,
        0 <= pos < 24,
    ensures
        neighbors_holding(cells.update(pos, new_token), pos, token, 24) == neighbors_holding(
            cells,
            pos,
            token,
            24,
        ),
{
    lemma_neighbors_after_change(cells, pos, new_token, pos, token, 24);
    lemma_adjacent_symmetric(pos, pos);
}

/// After a token of a colour is put on an empty cell, the steps of each colour are what they
/// were plus the change that `update_possible_move_count` writes, whether it looks at the
/// cells before or after the token is put.
pub proof fn lemma_moves_follow_placement(cells: Seq<u8>, pos: int, token_type: u8, color: u8)
    requires
        cells.len() == 24,
        0 <= pos < 24,
        cells[pos] == EMPTY,
        token_type != EMPTY,
        color != EMPTY,
    ensures
        mobility(cells.update(pos, token_type), color) == mobility(cells, color) + move_delta(
            cells,
            color,
            token_type,
            pos,
            false,
        ),
        move_delta(cells.update(pos, token_type), color, token_type, pos, false) == move_delta(
            cells,
            color,
            token_type,
            pos,
            false,
        ),
{
    lemma_mobility_after_change(cells, pos, token_type, color, 24);
    lemma_neighbors_ignore_own_cell(cells, pos, token_type, EMPTY);
    lemma_neighbors_ignore_own_cell(cells, pos, token_type, color);
}

/// After a token is taken from its cell, the steps of each colour are what they were plus
/// the change that `update_possible_move_count` writes, whether it looks at the cells before
/// or after the token is taken.
pub proof fn lemma_moves_follow_removal(cells: Seq<u8>, pos: int, color: u8)
    requires
        cells.len() == 24,
        0 <= pos < 24,
        cells[pos] != EMPTY,
        color != EMPTY,
    ensures
        mobility(cells.update(pos, EMPTY), color) == mobility(cells, color) + move_delta(
            cells,
            color,
            cells[pos],
            pos,
            true,
        ),
        move_delta(cells.update(pos, EMPTY), color, cells[pos], pos, true) == move_delta(
            cells,
            color,
            cells[pos],
            pos,
            true,
        ),
{
    lemma_mobility_after_change(cells, pos, EMPTY, color, 24);
    lemma_neighbors_ignore_own_cell(cells, pos, EMPTY, EMPTY);
    lemma_neighbors_ignore_own_cell(cells, pos, EMPTY, color);
}

/// The steps of a colour are never negative.
pub proof fn lemma_mobility_bounds(cells: Seq<u8>, color: u8, upto: int)
    requires
        0 <= upto <= 24,
    ensures
        0 <= mobility_upto(cells, color, upto) <= 4 * upto,
    decreases upto,
{
    if upto > 0 {
        lemma_mobility_bounds(cells, color, upto - 1);
        lemma_neighbors_bounds(cells, upto - 1, EMPTY, 24);
    }
}

/// Whether `pos` is the middle of a side of the middle ring, the only cells with four
/// neighbours.
pub open spec fn is_crossing(pos: int) -> bool {
    8 <= pos < 16 && pos % 2 == 0
}

/// How many of the first `upto` cells are crossings.
pub open spec fn crossings_before(upto: int) -> int
    decreases upto,
{
    if upto <= 0 {
        0
    } else {
        crossings_before(upto - 1) + one_if(is_crossing(upto - 1))
    }
}

proof fn lemma_crossings(upto: int)
    requires
        0 <= upto <= 24,
    ensures
        crossings_before(upto) == if upto <= 8 {
            0
        } else if upto >= 16 {
            4
        } else {
            (upto - 8 + 1) / 2
        },
    decreases upto,
{
    if upto > 0 {
        lemma_crossings(upto - 1);
    }
}

/// A cell has three neighbours at most, a crossing four.
pub proof fn lemma_degree(cells: Seq<u8>, pos: int, token: u8)
    requires
        0 <= pos < 24,
    ensures
        neighbors_holding(cells, pos, token, 24) <= 3 + one_if(is_crossing(pos)),
{
    lemma_neighbors_tally(cells, pos, token, 24);
    lemma_neighbors_list(pos, 24);
}

proof fn lemma_mobility_by_tokens(cells: Seq<u8>, color: u8, upto: int)
    requires
        0 <= upto <= 24,
    ensures
        mobility_upto(cells, color, upto) <= 3 * count_holding(cells, color, upto)
            + crossings_before(upto),
    decreases upto,
{
    if upto > 0 {
        lemma_mobility_by_tokens(cells, color, upto - 1);
        lemma_degree(cells, upto - 1, EMPTY);
    }
}

/// The tokens of a colour have at most three steps each and four more: with nine tokens
/// or less the steps fit into the move counter.
pub proof fn lemma_mobility_fits(cells: Seq<u8>, color: u8)
    ensures
        0 <= mobility(cells, color) <= 3 * token_count(cells, color) + 4,
        token_count(cells, color) <= 9 ==> mobility(cells, color) <= 31,
{
    lemma_mobility_by_tokens(cells, color, 24);
    lemma_crossings(24);
    lemma_mobility_bounds(cells, color, 24);
}

} // verus!
