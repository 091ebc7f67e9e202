use vstd::prelude::*;
use vstd::string::{StrSliceExecFns, StringExecFns};

verus! {

/// One white token in the white token counter.
pub const WHITE_TOKEN_FIRST_POSITION: u64 = 0x0008_0000_0000_0000;

/// One black token in the black token counter.
pub const BLACK_TOKEN_FIRST_POSITION: u64 = 0x0001_0000_0000_0000;

/// One move in the white move counter.
pub const WHITE_POSSIBLE_MOVES_FIRST_POSITION: u64 = 0x0800_0000_0000_0000;

/// One move in the black move counter.
pub const BLACK_POSSIBLE_MOVES_FIRST_POSITION: u64 = 0x0040_0000_0000_0000;

/// The code of an empty cell.
pub const EMPTY: u8 = 0;

/// The code of a black token.
pub const BLACK: u8 = 2;

/// The code of a white token.
pub const WHITE: u8 = 3;

/// The number of bits by which the slot of cell `pos` is shifted.
pub open spec fn slot_shift(pos: int) -> u64 {
    (46 - 2 * pos) as u64
}

/// The two bits that the board holds for cell `pos`.
pub open spec fn token_at(board: u64, pos: int) -> u8 {
    ((board >> slot_shift(pos)) & 3) as u8
}

/// The sixteen bits above the cells, which hold the four counters.
pub open spec fn counters_of(board: u64) -> u64 {
    board >> 48
}

/// The 24 cells of a board, cell 0 first.
pub open spec fn cells(board: u64) -> Seq<u8> {
    Seq::new(24, |pos: int| token_at(board, pos))
}

proof fn lemma_slot_write(board: u64, shift: u64, token: u64, other: u64)
    by (bit_vector)
    requires
        shift <= 46,
        shift % 2 == 0,
        other <= 46,
        other % 2 == 0,
        token <= 3,
    ensures
        (((board & !(3u64 << shift)) | (token << shift)) >> shift) & 3 == token,
        other != shift ==> (((board & !(3u64 << shift)) | (token << shift)) >> other) & 3 == (board
            >> other) & 3,
        ((board & !(3u64 << shift)) | (token << shift)) >> 48 == board >> 48,
{
}

proof fn lemma_slot_range(board: u64, shift: u64)
    by (bit_vector)
    ensures
        (board >> shift) & 3 <= 3,
{
}

/// Reads the token in cell `position`.
pub fn get_token_at(board: u64, position: usize) -> (token: u8)
    requires
        position < 24,
    ensures
        token == token_at(board, position as int),
        token <= 3,
{
    let shift: u64 = 46 - 2 * (position as u64);
    proof {
        lemma_slot_range(board, shift);
    }
    ((board >> shift) & 3) as u8
}

/// The board with `token` written into cell `pos` and everything else kept.
pub open spec fn with_token(board: u64, pos: int, token: u8) -> u64 {
    (board & !(3u64 << slot_shift(pos))) | ((token as u64) << slot_shift(pos))
}

/// Writing a cell changes that cell and nothing else.
pub proof fn lemma_with_token(board: u64, pos: int, token: u8)
    requires
        0 <= pos < 24,
        token <= 3,
    ensures
        token_at(with_token(board, pos, token), pos) == token,
        forall|other: int|
            0 <= other < 24 && other != pos ==> token_at(with_token(board, pos, token), other)
                == token_at(board, other),
        counters_of(with_token(board, pos, token)) == counters_of(board),
        cells(with_token(board, pos, token)) == cells(board).update(pos, token),
{
    let shift = slot_shift(pos);
    let new_board = with_token(board, pos, token);
    lemma_slot_write(board, shift, token as u64, shift);
    assert forall|other: int| 0 <= other < 24 && other != pos implies token_at(new_board, other)
        == token_at(board, other) by {
        lemma_slot_write(board, shift, token as u64, slot_shift(other));
    }
    assert(cells(new_board) =~= cells(board).update(pos, token));
}

/// Writes `token` into cell `position`.
pub fn set_token_at(board: u64, position: usize, token: u8) -> (new_board: u64)
    requires
        position < 24,
        token <= 3,
    ensures
        new_board == with_token(board, position as int, token),
        token_at(new_board, position as int) == token,
        forall|other: int|
            0 <= other < 24 && other != position ==> token_at(new_board, other) == token_at(
                board,
                other,
            ),
        counters_of(new_board) == counters_of(board),
        cells(new_board) == cells(board).update(position as int, token),
{
    let shift: u64 = 46 - 2 * (position as u64);
    proof {
        lemma_with_token(board, position as int, token);
    }
    (board & !(3u64 << shift)) | ((token as u64) << shift)
}

/// The colour opposite to `token`; what is no colour has none.
pub open spec fn negated(token: u8) -> u8 {
    if token == BLACK {
        WHITE
    } else if token == WHITE {
        BLACK
    } else {
        EMPTY
    }
}

/// Swaps the two colours; anything that is not a colour becomes empty.
pub fn negate_token(token: u8) -> (r: u8)
    ensures
        r == negated(token),
{
    if token == BLACK {
        WHITE
    } else if token == WHITE {
        BLACK
    } else {
        EMPTY
    }
}

/// The board in which every token has changed its colour and all counters are zero.
pub fn reverse_token_of_board(board: u64) -> (reversed: u64)
    ensures
        forall|pos: int| 0 <= pos < 24 ==> token_at(reversed, pos) == negated(token_at(board, pos)),
        counters_of(reversed) == 0,
{
    let mut reversed: u64 = 0;
    let mut position: usize = 0;
    assert(counters_of(0u64) == 0) by (bit_vector);
    while position < 24
        invariant
            position <= 24,
            counters_of(reversed) == 0,
            forall|pos: int|
                0 <= pos < position ==> token_at(reversed, pos) == negated(token_at(board, pos)),
        decreases 24 - position,
    {
        let token = negate_token(get_token_at(board, position));
        reversed = set_token_at(reversed, position, token);
        position += 1;
    }
    reversed
}

/// The tokens of the 24 cells, cell 0 first.
pub fn create_token_iter(board: u64) -> (tokens: Vec<u8>)
    ensures
        tokens@ == cells(board),
{
    let mut tokens: Vec<u8> = Vec::new();
    let mut position: usize = 0;
    while position < 24
        invariant
            position <= 24,
            tokens@.len() == position,
            forall|pos: int| 0 <= pos < position ==> tokens@[pos] == token_at(board, pos),
        decreases 24 - position,
    {
        tokens.push(get_token_at(board, position));
        position += 1;
    }
    tokens
}

/// The letter that stands for a token: `B` for black, `W` for white, `E` for anything else.
pub open spec fn letter_of(token: u8) -> char {
    if token == BLACK {
        'B'
    } else if token == WHITE {
        'W'
    } else {
        'E'
    }
}

/// The 24 letters of a board, cell 0 first.
pub open spec fn encoded(board: u64) -> Seq<char> {
    Seq::new(24, |pos: int| letter_of(token_at(board, pos)))
}

/// Whether `letter` stands for a token or an empty cell.
pub open spec fn is_letter(letter: char) -> bool {
    letter == 'B' || letter == 'W' || letter == 'E'
}

/// Whether a text is made of letters that stand for cells.
pub open spec fn all_letters(text: Seq<char>) -> bool {
    forall|i: int| 0 <= i < text.len() ==> is_letter(#[trigger] text[i])
}

/// The token that a letter stands for.
pub open spec fn code_of(letter: char) -> u64 {
    if letter == 'B' {
        2
    } else if letter == 'W' {
        3
    } else {
        0
    }
}

/// The first `upto` letters read into a board, with room left for the next letter.
pub open spec fn decoded_upto(text: Seq<char>, upto: int) -> u64
    decreases upto,
{
    if upto <= 0 {
        0
    } else {
        (decoded_upto(text, upto - 1) | code_of(text[upto - 1])) << 2
    }
}

/// The board that a text of letters stands for: each letter is one cell, the last letter
/// the last cell. Of more than 32 letters the first ones are lost.
pub open spec fn decoded(text: Seq<char>) -> u64 {
    decoded_upto(text, text.len() as int) >> 2
}

/// The 48 bits of a board that hold the cells.
pub open spec fn cell_bits(board: u64) -> u64 {
    board & 0xFFFF_FFFF_FFFF
}

/// Whether no cell of the board holds the code that stands for nothing.
pub open spec fn has_valid_cells(board: u64) -> bool {
    forall|pos: int| 0 <= pos < 24 ==> token_at(board, pos) != 1
}

proof fn lemma_append_slot(board: u64, shift: u64)
    by (bit_vector)
    requires
        shift <= 46,
    ensures
        (((board & 0xFFFF_FFFF_FFFF) >> (shift + 2)) << 2) | ((board >> shift) & 3) == (board
            & 0xFFFF_FFFF_FFFF) >> shift,
        (board >> shift) & 3 <= 3,
        (board & 0xFFFF_FFFF_FFFF) >> 48 == 0,
        (((board & 0xFFFF_FFFF_FFFF) >> 0) << 2) >> 2 == board & 0xFFFF_FFFF_FFFF,
{
}

proof fn lemma_decoded_prefix(board: u64, upto: int)
    requires
        has_valid_cells(board),
        0 <= upto <= 24,
    ensures
        decoded_upto(encoded(board), upto) == (cell_bits(board) >> ((48 - 2 * upto) as u64)) << 2,
    decreases upto,
{
    if upto > 0 {
        lemma_decoded_prefix(board, upto - 1);
        let shift = (48 - 2 * upto) as u64;
        lemma_append_slot(board, shift);
        assert(token_at(board, upto - 1) != 1);
        assert(code_of(encoded(board)[upto - 1]) == (board >> shift) & 3);
    } else {
        lemma_append_slot(board, 0);
        assert(0u64 << 2 == 0) by (bit_vector);
    }
}

/// The letters of a board, read back, give the cells of the board, if no cell holds the
/// code that stands for nothing.
pub proof fn lemma_encoding_round_trip(board: u64)
    requires
        has_valid_cells(board),
    ensures
        all_letters(encoded(board)),
        decoded(encoded(board)) == cell_bits(board),
{
    lemma_decoded_prefix(board, 24);
    lemma_append_slot(board, 0);
}

/// What `str::trim` returns for a text.
pub uninterp spec fn trimmed(text: Seq<char>) -> Seq<char>;

/// The decimal digits of a number.
pub open spec fn decimal(number: nat) -> Seq<char>
    decreases number,
{
    if number < 10 {
        seq![digit_of(number)]
    } else {
        decimal(number / 10).push(digit_of(number % 10))
    }
}

/// The character of one decimal digit.
pub open spec fn digit_of(digit: nat) -> char {
    "0123456789"@[digit as int]
}

/// Calls `str::trim` of std. Claimed of it: what it returns depends on the text alone.
#[verifier::external_body]
fn trim_text(text: &str) -> (inner: &str)
    ensures
        inner@ == trimmed(text@),
{
    text.trim()
}

/// Calls `to_string` of std on a number. Claimed of it: it gives the decimal digits of the
/// number, with no sign and no leading zero.
#[verifier::external_body]
fn number_text(number: usize) -> (text: String)
    ensures
        text@ == decimal(number as nat),
{
    number.to_string()
}

/// The letters of the 24 cells, cell 0 first.
pub fn encode_positions(board: u64) -> (text: String)
    ensures
        text@ == encoded(board),
{
    let mut text = String::new();
    let mut position: usize = 0;
    proof {
        reveal_strlit("B");
        reveal_strlit("W");
        reveal_strlit("E");
    }
    while position < 24
        invariant
            position <= 24,
            text@.len() == position,
            "B"@ == seq!['B'],
            "W"@ == seq!['W'],
            "E"@ == seq!['E'],
            forall|pos: int| 0 <= pos < position ==> text@[pos] == letter_of(token_at(board, pos)),
        decreases 24 - position,
    {
        let token = get_token_at(board, position);
        if token == BLACK {
            text.append("B");
        } else if token == WHITE {
            text.append("W");
        } else {
            text.append("E");
        }
        position += 1;
    }
    text
}

/// The number of a cell as the players count them, from 1.
pub fn encode_single_position(position: usize) -> (text: String)
    requires
        position < usize::MAX,
    ensures
        text@ == decimal((position + 1) as nat),
{
    number_text(position + 1)
}

/// Reads a text of letters into a board, if it is made of letters for cells only.
pub fn decode_letters(text: &str) -> (board: Option<u64>)
    ensures
        board is Some <==> all_letters(text@),
        board matches Some(cells) ==> cells == decoded(text@),
{
    let length = text.unicode_len();
    let mut decoded_positions: u64 = 0;
    let mut index: usize = 0;
    while index < length
        invariant
            index <= length,
            length == text@.len(),
            decoded_positions == decoded_upto(text@, index as int),
            forall|i: int| 0 <= i < index ==> is_letter(#[trigger] text@[i]),
        decreases length - index,
    {
        let letter = text.get_char(index);
        if letter == 'B' {
            decoded_positions |= 2;
        } else if letter == 'W' {
            decoded_positions |= 3;
        } else if letter == 'E' {
            assert(decoded_positions | 0 == decoded_positions) by (bit_vector);
        } else {
            return None;
        }
        decoded_positions <<= 2;
        index += 1;
    }
    Some(decoded_positions >> 2)
}

/// Reads a text of letters, with any white space around it, into a board.
pub fn decode_positions(encoded_positions: String) -> (board: u64)
    requires
        all_letters(trimmed(encoded_positions@)),
    ensures
        board == decoded(trimmed(encoded_positions@)),
{
    match decode_letters(trim_text(encoded_positions.as_str())) {
        Some(board) => board,
        None => 0,
    }
}

/// Reads a text of letters, with any white space around it, into a board, if the text
/// between the white space is made of letters for cells only.
pub fn try_decode_positions(encoded_positions: String) -> (board: Option<u64>)
    ensures
        board is Some <==> all_letters(trimmed(encoded_positions@)),
        board matches Some(cells) ==> cells == decoded(trimmed(encoded_positions@)),
{
    if decode_letters(trim_text(encoded_positions.as_str())).is_some() {
        Some(decode_positions(encoded_positions))
    } else {
        None
    }
}

} // verus!
