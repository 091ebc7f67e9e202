use crate::counting::{
    count_holding, free_neighbors, lemma_neighbors_bounds, mobility, mobility_upto, move_delta,
    neighbors_holding, token_count,
};
use crate::graph::is_adjacent;
use crate::position::{
    cell_bits, cells, counters_of, get_token_at, token_at, BLACK,
    BLACK_POSSIBLE_MOVES_FIRST_POSITION, BLACK_TOKEN_FIRST_POSITION, EMPTY, WHITE,
    WHITE_POSSIBLE_MOVES_FIRST_POSITION, WHITE_TOKEN_FIRST_POSITION,
};
use vstd::prelude::*;

verus! {

/// Where the black token counter starts, and how wide it is.
pub const BLACK_COUNT_SHIFT: u64 = 48;

/// Where the white token counter starts.
pub const WHITE_COUNT_SHIFT: u64 = 51;

/// Where the black move counter starts.
pub const BLACK_MOVES_SHIFT: u64 = 54;

/// Where the white move counter starts.
pub const WHITE_MOVES_SHIFT: u64 = 59;

/// The largest value of a token counter.
pub const MAX_TOKEN_COUNT: u8 = 7;

/// The largest value of a move counter.
pub const MAX_MOVE_COUNT: u8 = 31;

/// The counter of `width` bits (given as its mask) that starts at bit `shift`.
pub open spec fn field(board: u64, shift: u64, mask: u64) -> u64 {
    (board >> shift) & mask
}

/// The board with `value` written into the counter at bit `shift`.
pub open spec fn with_field(board: u64, shift: u64, mask: u64, value: u64) -> u64 {
    (board & !(mask << shift)) | (value << shift)
}

/// The number of white tokens that the board records.
pub open spec fn white_token_count(board: u64) -> int {
    field(board, WHITE_COUNT_SHIFT, 7) as int
}

/// The number of black tokens that the board records.
pub open spec fn black_token_count(board: u64) -> int {
    field(board, BLACK_COUNT_SHIFT, 7) as int
}

/// The number of white moves that the board records.
pub open spec fn white_move_count(board: u64) -> int {
    field(board, WHITE_MOVES_SHIFT, 31) as int
}

/// The number of black moves that the board records.
pub open spec fn black_move_count(board: u64) -> int {
    field(board, BLACK_MOVES_SHIFT, 31) as int
}

/// The board with the two token counters replaced and the rest kept.
pub open spec fn with_token_counts(board: u64, white: int, black: int) -> u64 {
    with_field(
        with_field(board, WHITE_COUNT_SHIFT, 7, white as u64),
        BLACK_COUNT_SHIFT,
        7,
        black as u64,
    )
}

/// The board with the two move counters replaced and the rest kept.
pub open spec fn with_move_counts(board: u64, white: int, black: int) -> u64 {
    with_field(
        with_field(board, WHITE_MOVES_SHIFT, 31, white as u64),
        BLACK_MOVES_SHIFT,
        31,
        black as u64,
    )
}

proof fn lemma_fields(board: u64, value: u64)
    by (bit_vector)
    ensures
        (board >> 48) & 7 <= 7,
        (board >> 51) & 7 <= 7,
        (board >> 54) & 31 <= 31,
        (board >> 59) & 31 <= 31,
        value <= 7 ==> {
            let b = (board & !(7u64 << 48)) | (value << 48);
            &&& (b >> 48) & 7 == value
            &&& (b >> 51) & 7 == (board >> 51) & 7
            &&& (b >> 54) & 31 == (board >> 54) & 31
            &&& (b >> 59) & 31 == (board >> 59) & 31
            &&& b & 0xFFFF_FFFF_FFFF == board & 0xFFFF_FFFF_FFFF
        },
        value <= 7 ==> {
            let b = (board & !(7u64 << 51)) | (value << 51);
            &&& (b >> 48) & 7 == (board >> 48) & 7
            &&& (b >> 51) & 7 == value
            &&& (b >> 54) & 31 == (board >> 54) & 31
            &&& (b >> 59) & 31 == (board >> 59) & 31
            &&& b & 0xFFFF_FFFF_FFFF == board & 0xFFFF_FFFF_FFFF
        },
        value <= 31 ==> {
            let b = (board & !(31u64 << 54)) | (value << 54);
            &&& (b >> 48) & 7 == (board >> 48) & 7
            &&& (b >> 51) & 7 == (board >> 51) & 7
            &&& (b >> 54) & 31 == value
            &&& (b >> 59) & 31 == (board >> 59) & 31
            &&& b & 0xFFFF_FFFF_FFFF == board & 0xFFFF_FFFF_FFFF
        },
        value <= 31 ==> {
            let b = (board & !(31u64 << 59)) | (value << 59);
            &&& (b >> 48) & 7 == (board >> 48) & 7
            &&& (b >> 51) & 7 == (board >> 51) & 7
            &&& (b >> 54) & 31 == (board >> 54) & 31
            &&& (b >> 59) & 31 == value
            &&& b & 0xFFFF_FFFF_FFFF == board & 0xFFFF_FFFF_FFFF
        },
{
}

proof fn lemma_slot_in_cell_bits(first: u64, second: u64, shift: u64)
    by (bit_vector)
    requires
        first & 0xFFFF_FFFF_FFFF == second & 0xFFFF_FFFF_FFFF,
        shift <= 46,
    ensures
        (first >> shift) & 3 == (second >> shift) & 3,
{
}

proof fn lemma_counters_hold_fields(first: u64, second: u64)
    by (bit_vector)
    requires
        first >> 48 == second >> 48,
    ensures
        (first >> 48) & 7 == (second >> 48) & 7,
        (first >> 51) & 7 == (second >> 51) & 7,
        (first >> 54) & 31 == (second >> 54) & 31,
        (first >> 59) & 31 == (second >> 59) & 31,
{
}

/// A token counter holds at most 7 and a move counter at most 31.
pub proof fn lemma_counter_ranges(board: u64)
    ensures
        0 <= white_token_count(board) <= 7,
        0 <= black_token_count(board) <= 7,
        0 <= white_move_count(board) <= 31,
        0 <= black_move_count(board) <= 31,
{
    lemma_fields(board, 0);
}

/// Two boards with the same cell bits hold the same tokens.
pub proof fn lemma_same_cell_bits(first: u64, second: u64)
    requires
        cell_bits(first) == cell_bits(second),
    ensures
        cells(first) == cells(second),
        forall|pos: int| 0 <= pos < 24 ==> token_at(first, pos) == token_at(second, pos),
{
    assert forall|pos: int| 0 <= pos < 24 implies token_at(first, pos) == token_at(
        second,
        pos,
    ) by {
        lemma_slot_in_cell_bits(first, second, (46 - 2 * pos) as u64);
    }
    assert(cells(first) =~= cells(second));
}

/// Writing a cell leaves the four counters as they were.
pub proof fn lemma_same_counters(first: u64, second: u64)
    requires
        counters_of(first) == counters_of(second),
    ensures
        white_token_count(first) == white_token_count(second),
        black_token_count(first) == black_token_count(second),
        white_move_count(first) == white_move_count(second),
        black_move_count(first) == black_move_count(second),
{
    lemma_counters_hold_fields(first, second);
}

/// What writing the token counters changes and what it keeps.
pub proof fn lemma_with_token_counts(board: u64, white: int, black: int)
    requires
        0 <= white <= 7,
        0 <= black <= 7,
    ensures
        white_token_count(with_token_counts(board, white, black)) == white,
        black_token_count(with_token_counts(board, white, black)) == black,
        white_move_count(with_token_counts(board, white, black)) == white_move_count(board),
        black_move_count(with_token_counts(board, white, black)) == black_move_count(board),
        cell_bits(with_token_counts(board, white, black)) == cell_bits(board),
        cells(with_token_counts(board, white, black)) == cells(board),
{
    let middle = with_field(board, WHITE_COUNT_SHIFT, 7, white as u64);
    lemma_fields(board, white as u64);
    lemma_fields(middle, black as u64);
    lemma_same_cell_bits(with_token_counts(board, white, black), board);
}

/// What writing the move counters changes and what it keeps.
pub proof fn lemma_with_move_counts(board: u64, white: int, black: int)
    requires
        0 <= white <= 31,
        0 <= black <= 31,
    ensures
        white_move_count(with_move_counts(board, white, black)) == white,
        black_move_count(with_move_counts(board, white, black)) == black,
        white_token_count(with_move_counts(board, white, black)) == white_token_count(board),
        black_token_count(with_move_counts(board, white, black)) == black_token_count(board),
        cell_bits(with_move_counts(board, white, black)) == cell_bits(board),
        cells(with_move_counts(board, white, black)) == cells(board),
{
    let middle = with_field(board, WHITE_MOVES_SHIFT, 31, white as u64);
    lemma_fields(board, white as u64);
    lemma_fields(middle, black as u64);
    lemma_same_cell_bits(with_move_counts(board, white, black), board);
}

/// The number of white tokens that the board records.
pub fn extract_white_token_count_from_board(board: u64) -> (count: u8)
    ensures
        count == white_token_count(board),
        count <= 7,
{
    proof {
        lemma_fields(board, 0);
    }
    ((board >> WHITE_COUNT_SHIFT) & 7) as u8
}

/// The number of black tokens that the board records.
pub fn extract_black_token_count_from_board(board: u64) -> (count: u8)
    ensures
        count == black_token_count(board),
        count <= 7,
{
    proof {
        lemma_fields(board, 0);
    }
    ((board >> BLACK_COUNT_SHIFT) & 7) as u8
}

/// The number of white moves that the board records.
pub fn extract_white_move_count_from_board(board: u64) -> (count: u8)
    ensures
        count == white_move_count(board),
        count <= 31,
{
    proof {
        lemma_fields(board, 0);
    }
    ((board >> WHITE_MOVES_SHIFT) & 31) as u8
}

/// The number of black moves that the board records.
pub fn extract_black_move_count_from_board(board: u64) -> (count: u8)
    ensures
        count == black_move_count(board),
        count <= 31,
{
    proof {
        lemma_fields(board, 0);
    }
    ((board >> BLACK_MOVES_SHIFT) & 31) as u8
}

/// Writes both token counters.
pub fn store_token_counts(board: u64, white: u8, black: u8) -> (new_board: u64)
    requires
        white <= 7,
        black <= 7,
    ensures
        new_board == with_token_counts(board, white as int, black as int),
{
    let middle = (board & !(7u64 << WHITE_COUNT_SHIFT)) | ((white as u64) << WHITE_COUNT_SHIFT);
    (middle & !(7u64 << BLACK_COUNT_SHIFT)) | ((black as u64) << BLACK_COUNT_SHIFT)
}

/// Writes both move counters.
pub fn store_move_counts(board: u64, white: u8, black: u8) -> (new_board: u64)
    requires
        white <= 31,
        black <= 31,
    ensures
        new_board == with_move_counts(board, white as int, black as int),
{
    let middle = (board & !(31u64 << WHITE_MOVES_SHIFT)) | ((white as u64) << WHITE_MOVES_SHIFT);
    (middle & !(31u64 << BLACK_MOVES_SHIFT)) | ((black as u64) << BLACK_MOVES_SHIFT)
}

/// The smaller of two numbers.
pub open spec fn at_most(value: int, limit: int) -> int {
    if value <= limit {
        value
    } else {
        limit
    }
}

/// The number nearest to `value` that a move counter can hold.
pub open spec fn clamped_moves(value: int) -> int {
    if value < 0 {
        0
    } else if value > 31 {
        31
    } else {
        value
    }
}

/// The board whose token counters say how many tokens of each colour the cells hold, as far
/// as a counter can: a counter stops at 7.
pub open spec fn with_fresh_token_counts(board: u64) -> u64 {
    with_token_counts(
        board,
        at_most(token_count(cells(board), WHITE), 7),
        at_most(token_count(cells(board), BLACK), 7),
    )
}

/// The board whose move counters say how many steps each colour has, as far as a counter
/// can: a counter stops at 31.
pub open spec fn with_fresh_move_counts(board: u64) -> u64 {
    with_move_counts(
        board,
        at_most(mobility(cells(board), WHITE), 31),
        at_most(mobility(cells(board), BLACK), 31),
    )
}

/// Whether the token counters say exactly how many tokens of each colour the cells hold.
pub open spec fn token_counts_exact(board: u64) -> bool {
    &&& white_token_count(board) == token_count(cells(board), WHITE)
    &&& black_token_count(board) == token_count(cells(board), BLACK)
}

/// Whether the move counters say exactly how many steps each colour has.
pub open spec fn move_counts_exact(board: u64) -> bool {
    &&& white_move_count(board) == mobility(cells(board), WHITE)
    &&& black_move_count(board) == mobility(cells(board), BLACK)
}

/// The board whose move counters have followed one change at cell `pos`.
pub open spec fn with_updated_move_counts(
    board: u64,
    token_type: u8,
    pos: int,
    removed: bool,
) -> u64 {
    with_move_counts(
        board,
        clamped_moves(
            white_move_count(board) + move_delta(cells(board), WHITE, token_type, pos, removed),
        ),
        clamped_moves(
            black_move_count(board) + move_delta(cells(board), BLACK, token_type, pos, removed),
        ),
    )
}

/// How many cells hold `token`.
pub fn count_tokens(board: u64, token: u8) -> (count: u8)
    ensures
        count == token_count(cells(board), token),
        count <= 24,
{
    let mut count: u8 = 0;
    let mut position: usize = 0;
    while position < 24
        invariant
            position <= 24,
            count == count_holding(cells(board), token, position as int),
            count <= position,
        decreases 24 - position,
    {
        if get_token_at(board, position) == token {
            count += 1;
        }
        position += 1;
    }
    count
}

/// How many neighbours of `position` hold `token`.
pub fn count_neighbors(board: u64, position: usize, token: u8) -> (count: u8)
    ensures
        count == neighbors_holding(cells(board), position as int, token, 24),
        count <= 4,
{
    let mut count: u8 = 0;
    let mut other: usize = 0;
    while other < 24
        invariant
            other <= 24,
            count == neighbors_holding(cells(board), position as int, token, other as int),
            count <= 4,
        decreases 24 - other,
    {
        proof {
            lemma_neighbors_bounds(cells(board), position as int, token, other as int + 1);
        }
        if is_adjacent(position, other) && get_token_at(board, other) == token {
            count += 1;
        }
        other += 1;
    }
    count
}

/// How many neighbours of `position` are empty.
pub fn possible_move_count_of_position(board: u64, position: usize) -> (count: u8)
    ensures
        count == free_neighbors(cells(board), position as int),
        count <= 4,
{
    count_neighbors(board, position, EMPTY)
}

/// How many steps to an empty neighbour the tokens of `color` have.
pub fn count_moves(board: u64, color: u8) -> (count: u8)
    ensures
        count == mobility(cells(board), color),
        count <= 96,
{
    let mut count: u8 = 0;
    let mut position: usize = 0;
    while position < 24
        invariant
            position <= 24,
            count == mobility_upto(cells(board), color, position as int),
            count <= 4 * position,
        decreases 24 - position,
    {
        if get_token_at(board, position) == color {
            count += possible_move_count_of_position(board, position);
        }
        position += 1;
    }
    count
}

/// Counts the tokens of both colours and writes the two token counters.
pub fn insert_token_count_to_board(board: u64) -> (new_board: u64)
    ensures
        new_board == with_fresh_token_counts(board),
        cells(new_board) == cells(board),
        white_move_count(new_board) == white_move_count(board),
        black_move_count(new_board) == black_move_count(board),
        white_token_count(new_board) == at_most(token_count(cells(board), WHITE), 7),
        black_token_count(new_board) == at_most(token_count(cells(board), BLACK), 7),
{
    let white = count_tokens(board, WHITE);
    let black = count_tokens(board, BLACK);
    let white = if white > MAX_TOKEN_COUNT {
        MAX_TOKEN_COUNT
    } else {
        white
    };
    let black = if black > MAX_TOKEN_COUNT {
        MAX_TOKEN_COUNT
    } else {
        black
    };
    proof {
        lemma_with_token_counts(board, white as int, black as int);
    }
    store_token_counts(board, white, black)
}

/// Counts the steps of both colours and writes the two move counters.
pub fn insert_number_of_possible_moves_to_board(board: u64) -> (new_board: u64)
    ensures
        new_board == with_fresh_move_counts(board),
        cells(new_board) == cells(board),
        white_token_count(new_board) == white_token_count(board),
        black_token_count(new_board) == black_token_count(board),
        white_move_count(new_board) == at_most(mobility(cells(board), WHITE), 31),
        black_move_count(new_board) == at_most(mobility(cells(board), BLACK), 31),
{
    let white = count_moves(board, WHITE);
    let black = count_moves(board, BLACK);
    let white = if white > MAX_MOVE_COUNT {
        MAX_MOVE_COUNT
    } else {
        white
    };
    let black = if black > MAX_MOVE_COUNT {
        MAX_MOVE_COUNT
    } else {
        black
    };
    proof {
        lemma_with_move_counts(board, white as int, black as int);
    }
    store_move_counts(board, white, black)
}

/// A move counter after `gained` steps came and `lost` steps went.
fn adjusted_move_count(count: u8, gained: u8, lost: u8) -> (adjusted: u8)
    requires
        count <= 31,
        gained <= 4,
        lost <= 4,
    ensures
        adjusted == clamped_moves(count + gained - lost),
{
    let raised = count + gained;
    if raised <= lost {
        0
    } else if raised - lost > MAX_MOVE_COUNT {
        MAX_MOVE_COUNT
    } else {
        raised - lost
    }
}

/// Lets the move counters follow one change: a token of `token_type` was put on the empty
/// cell `position`, or (`removed`) taken from it. Only the neighbours of the cell are looked
/// at; what the cell itself holds is not.
pub fn update_possible_move_count(
    board: u64,
    token_type: u8,
    position: usize,
    removed: bool,
) -> (new_board: u64)
    ensures
        new_board == with_updated_move_counts(board, token_type, position as int, removed),
        cells(new_board) == cells(board),
        white_token_count(new_board) == white_token_count(board),
        black_token_count(new_board) == black_token_count(board),
{
    let free = possible_move_count_of_position(board, position);
    let white_near = count_neighbors(board, position, WHITE);
    let black_near = count_neighbors(board, position, BLACK);
    let white_own = if token_type == WHITE {
        free
    } else {
        0
    };
    let black_own = if token_type == BLACK {
        free
    } else {
        0
    };
    let white = extract_white_move_count_from_board(board);
    let black = extract_black_move_count_from_board(board);
    let (white, black) = if removed {
        (
            adjusted_move_count(white, white_near, white_own),
            adjusted_move_count(black, black_near, black_own),
        )
    } else {
        (
            adjusted_move_count(white, white_own, white_near),
            adjusted_move_count(black, black_own, black_near),
        )
    };
    proof {
        lemma_with_move_counts(board, white as int, black as int);
    }
    store_move_counts(board, white, black)
}

/// The board with one token more in the counter of `color` (white, or else black); a full
/// counter stays full.
pub open spec fn with_count_raised(board: u64, color: u8) -> u64 {
    if color == WHITE {
        with_token_counts(
            board,
            at_most(white_token_count(board) + 1, 7),
            black_token_count(board),
        )
    } else {
        with_token_counts(
            board,
            white_token_count(board),
            at_most(black_token_count(board) + 1, 7),
        )
    }
}

/// The board with one token less in the counter of `color` (white, or else black); an empty
/// counter stays empty.
pub open spec fn with_count_lowered(board: u64, color: u8) -> u64 {
    if color == WHITE {
        with_token_counts(
            board,
            if white_token_count(board) > 0 {
                white_token_count(board) - 1
            } else {
                0
            },
            black_token_count(board),
        )
    } else {
        with_token_counts(
            board,
            white_token_count(board),
            if black_token_count(board) > 0 {
                black_token_count(board) - 1
            } else {
                0
            },
        )
    }
}

/// Counts one token more of `color` (white, or else black).
pub fn raise_token_count(board: u64, color: u8) -> (new_board: u64)
    ensures
        new_board == with_count_raised(board, color),
        cells(new_board) == cells(board),
        white_move_count(new_board) == white_move_count(board),
        black_move_count(new_board) == black_move_count(board),
{
    let white = extract_white_token_count_from_board(board);
    let black = extract_black_token_count_from_board(board);
    let (white, black) = if color == WHITE {
        (if white < MAX_TOKEN_COUNT { white + 1 } else { white }, black)
    } else {
        (white, if black < MAX_TOKEN_COUNT { black + 1 } else { black })
    };
    proof {
        lemma_with_token_counts(board, white as int, black as int);
    }
    store_token_counts(board, white, black)
}

/// Counts one token less of `color` (white, or else black).
pub fn lower_token_count(board: u64, color: u8) -> (new_board: u64)
    ensures
        new_board == with_count_lowered(board, color),
        cells(new_board) == cells(board),
        white_move_count(new_board) == white_move_count(board),
        black_move_count(new_board) == black_move_count(board),
{
    let white = extract_white_token_count_from_board(board);
    let black = extract_black_token_count_from_board(board);
    let (white, black) = if color == WHITE {
        (if white > 0 { white - 1 } else { white }, black)
    } else {
        (white, if black > 0 { black - 1 } else { black })
    };
    proof {
        lemma_with_token_counts(board, white as int, black as int);
    }
    store_token_counts(board, white, black)
}

/// The board with one more in the counter at bit `shift`.
pub open spec fn field_raised(board: u64, shift: u64, mask: u64) -> u64 {
    with_field(board, shift, mask, (field(board, shift, mask) + 1) as u64)
}

proof fn lemma_unit_steps(board: u64)
    by (bit_vector)
    ensures
        field(board, 51, 7) < 7 ==> board + 0x0008_0000_0000_0000 == field_raised(board, 51, 7),
        field(board, 48, 7) < 7 ==> board + 0x0001_0000_0000_0000 == field_raised(board, 48, 7),
        field(board, 59, 31) < 31 ==> board + 0x0800_0000_0000_0000 == field_raised(board, 59, 31),
        field(board, 54, 31) < 31 ==> board + 0x0040_0000_0000_0000 == field_raised(board, 54, 31),
{
}

/// A counter that is not full is raised by one by adding its unit to the board; nothing
/// else changes.
pub proof fn lemma_counter_units(board: u64)
    ensures
        white_token_count(board) < 7 ==> board + WHITE_TOKEN_FIRST_POSITION == field_raised(
            board,
            WHITE_COUNT_SHIFT,
            7,
        ),
        black_token_count(board) < 7 ==> board + BLACK_TOKEN_FIRST_POSITION == field_raised(
            board,
            BLACK_COUNT_SHIFT,
            7,
        ),
        white_move_count(board) < 31 ==> board + WHITE_POSSIBLE_MOVES_FIRST_POSITION
            == field_raised(board, WHITE_MOVES_SHIFT, 31),
        black_move_count(board) < 31 ==> board + BLACK_POSSIBLE_MOVES_FIRST_POSITION
            == field_raised(board, BLACK_MOVES_SHIFT, 31),
{
    lemma_unit_steps(board);
}

} // verus!
