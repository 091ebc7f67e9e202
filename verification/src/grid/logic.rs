use crate::graph::{adjacent, cell_index};
use crate::grid::enums::{FieldError, Piece, State};
use crate::grid::game::{CarryPiece, Game, GameView};
use vstd::prelude::*;

verus! {

/// The grid: eight spokes, spoke 0 the top left corner, each with its cells on the outer,
/// the middle and the inner ring.
pub type Grid = [[Piece; 3]; 8];

/// What the cell on `spoke` and `ring` holds.
pub open spec fn piece_at(board: Grid, spoke: int, ring: int) -> Piece {
    board@[spoke]@[ring]
}

/// The distance of two numbers.
pub open spec fn distance(first: int, second: int) -> int {
    if first >= second {
        first - second
    } else {
        second - first
    }
}

/// Whether a line joins two cells, each given by spoke and ring: neighbours on one ring
/// (spoke 7 and spoke 0 are neighbours), or cells on one odd spoke on neighbouring rings.
pub open spec fn joined(first: (usize, usize), second: (usize, usize)) -> bool {
    ||| first.1 == second.1 && distance(first.0 as int, second.0 as int) % 6 == 1
    ||| distance(first.1 as int, second.1 as int) == 1 && first.0 % 2 == 1 && first.0 == second.0
}

/// The grid with `piece` on the cell on `spoke` and `ring`.
pub open spec fn with_piece(board: Grid, spoke: int, ring: int, piece: Piece) -> Grid {
    vstd::array::spec_array_update(
        board,
        spoke,
        vstd::array::spec_array_update(board[spoke], ring, piece),
    )
}

/// The cells of the grid, spoke by spoke.
pub open spec fn grid_cells(board: Grid) -> Seq<Seq<Piece>> {
    Seq::new(8, |spoke: int| board@[spoke]@)
}

/// Whether a token may go from `from` to `to`: it is a token of the player, the cell it
/// goes to is empty, and the two cells are joined.
pub open spec fn may_move(
    player: Piece,
    from: (usize, usize),
    to: (usize, usize),
    board: Grid,
) -> bool {
    &&& piece_at(board, from.0 as int, from.1 as int) == player
    &&& piece_at(board, to.0 as int, to.1 as int) == Piece::Empty
    &&& joined(from, to)
}

/// Whether the token on `spoke` and `ring` has an empty cell next to it.
pub open spec fn can_step(spoke: int, ring: int, board: Grid) -> bool {
    ||| spoke % 2 == 1 && ring == 0 && piece_at(board, spoke, 1) == Piece::Empty
    ||| spoke % 2 == 1 && ring == 1 && (piece_at(board, spoke, 0) == Piece::Empty || piece_at(
        board,
        spoke,
        2,
    ) == Piece::Empty)
    ||| spoke % 2 == 1 && ring == 2 && piece_at(board, spoke, 1) == Piece::Empty
    ||| piece_at(board, (spoke + 7) % 8, ring) == Piece::Empty
    ||| piece_at(board, (spoke + 1) % 8, ring) == Piece::Empty
}

/// Whether no token of `color` has an empty cell next to it.
pub open spec fn locked(color: Piece, board: Grid) -> bool {
    forall|spoke: int, ring: int|
        0 <= spoke < 8 && 0 <= ring < 3 && piece_at(board, spoke, ring) == color
            ==> !#[trigger] can_step(spoke, ring, board)
}

/// Whether the two other cells of a mill line through the cell hold `color`: for a corner
/// the two sides that meet there, for the middle of a side that side and the spoke.
pub open spec fn completes_mill(color: Piece, spoke: int, ring: int, board: Grid) -> bool {
    if spoke % 2 == 0 {
        ||| piece_at(board, (spoke + 1) % 8, ring) == color && piece_at(
            board,
            (spoke + 2) % 8,
            ring,
        ) == color
        ||| piece_at(board, (spoke + 7) % 8, ring) == color && piece_at(
            board,
            (spoke + 6) % 8,
            ring,
        ) == color
    } else {
        ||| piece_at(board, (spoke + 1) % 8, ring) == color && piece_at(
            board,
            (spoke + 7) % 8,
            ring,
        ) == color
        ||| piece_at(board, spoke, (ring + 1) % 3) == color && piece_at(
            board,
            spoke,
            (ring + 2) % 3,
        ) == color
    }
}

/// Whether every token of `color` has the two other cells of a mill line filled.
pub open spec fn all_complete(color: Piece, board: Grid) -> bool {
    forall|spoke: int, ring: int|
        0 <= spoke < 8 && 0 <= ring < 3 && piece_at(board, spoke, ring) == color
            ==> #[trigger] completes_mill(color, spoke, ring, board)
}

/// On the grid two cells are joined if and only if they are neighbours on the board.
pub proof fn lemma_joined_is_adjacent(first: (usize, usize), second: (usize, usize))
    requires
        first.0 < 8,
        first.1 < 3,
        second.0 < 8,
        second.1 < 3,
    ensures
        joined(first, second) == adjacent(
            cell_index(first.0 as int, first.1 as int),
            cell_index(second.0 as int, second.1 as int),
        ),
{
    let a = cell_index(first.0 as int, first.1 as int);
    let b = cell_index(second.0 as int, second.1 as int);
    let a_place = (first.0 + 7) % 8;
    let b_place = (second.0 + 7) % 8;
    assert(a == 8 * first.1 + a_place && b == 8 * second.1 + b_place);
    assert(a % 8 == a_place && b % 8 == b_place);
    assert(a - a % 8 == 8 * first.1 && b - b % 8 == 8 * second.1);
    assert((a_place % 2 == 0) == (first.0 % 2 == 1));
    if first.1 == second.1 {
        assert(distance(first.0 as int, second.0 as int) % 6 == 1 <==> (a_place + 1) % 8
            == b_place || (b_place + 1) % 8 == a_place);
    } else {
        assert(first.0 == second.0 <==> a_place == b_place);
    }
}

/// Whether a line joins the two cells.
pub fn is_neighbor(position1: (usize, usize), position2: (usize, usize)) -> (neighbor: bool)
    ensures
        neighbor == joined(position1, position2),
{
    let (pos1_x, pos1_ring) = position1;
    let (pos2_x, pos2_ring) = position2;
    let x_distance = if pos1_x >= pos2_x {
        pos1_x - pos2_x
    } else {
        pos2_x - pos1_x
    };
    let ring_distance = if pos1_ring >= pos2_ring {
        pos1_ring - pos2_ring
    } else {
        pos2_ring - pos1_ring
    };
    if pos1_ring == pos2_ring && x_distance % 6 == 1 {
        true
    } else {
        ring_distance == 1 && pos1_x % 2 == 1 && pos1_x == pos2_x
    }
}

/// Moves a token of the player from one cell to the next, if that is a step it may make;
/// else the grid stays as it is.
pub fn move_piece(
    player_color: Piece,
    move_from: (i8, i8),
    move_to: (i8, i8),
    board: Grid,
) -> (moved: (bool, Grid))
    requires
        0 <= move_from.0 < 8,
        0 <= move_from.1 < 3,
        0 <= move_to.0 < 8,
        0 <= move_to.1 < 3,
    ensures
        moved.0 == may_move(
            player_color,
            (move_from.0 as usize, move_from.1 as usize),
            (move_to.0 as usize, move_to.1 as usize),
            board,
        ),
        !moved.0 ==> moved.1 == board,
        moved.0 ==> moved.1 == grid_moved(
            board,
            (move_from.0 as usize, move_from.1 as usize),
            (move_to.0 as usize, move_to.1 as usize),
            player_color,
        ),
{
    let from = (move_from.0 as usize, move_from.1 as usize);
    let to = (move_to.0 as usize, move_to.1 as usize);
    if board[from.0][from.1] != player_color {
        return (false, board);
    }
    if board[to.0][to.1] != Piece::Empty {
        return (false, board);
    }
    if is_neighbor(from, to) {
        return (true, carry_out(player_color, from, to, board).1);
    }
    (false, board)
}

/// Whether the token on the cell has an empty cell next to it.
pub fn has_possible_move(position: (usize, usize), board: Grid) -> (possible: bool)
    requires
        position.0 < 8,
        position.1 < 3,
    ensures
        possible == can_step(position.0 as int, position.1 as int, board),
{
    let (x, ring) = position;
    if x % 2 == 1 {
        if ring == 0 {
            if board[x][1] == Piece::Empty {
                return true;
            }
        } else if ring == 1 {
            if board[x][0] == Piece::Empty || board[x][2] == Piece::Empty {
                return true;
            }
        } else {
            if board[x][1] == Piece::Empty {
                return true;
            }
        }
    }
    board[(x + 7) % 8][ring] == Piece::Empty || board[(x + 1) % 8][ring] == Piece::Empty
}

/// Whether no token of `piece_color` has an empty cell next to it.
pub fn is_soft_locked(piece_color: Piece, board: Grid) -> (stuck: bool)
    ensures
        stuck == locked(piece_color, board),
{
    let mut x: usize = 0;
    while x < 8
        invariant
            x <= 8,
            forall|spoke: int, ring: int|
                0 <= spoke < x && 0 <= ring < 3 && piece_at(board, spoke, ring) == piece_color
                    ==> !#[trigger] can_step(spoke, ring, board),
        decreases 8 - x,
    {
        let mut ring: usize = 0;
        while ring < 3
            invariant
                x < 8,
                ring <= 3,
                forall|spoke: int, ring: int|
                    0 <= spoke < x && 0 <= ring < 3 && piece_at(board, spoke, ring) == piece_color
                        ==> !#[trigger] can_step(spoke, ring, board),
                forall|below: int|
                    0 <= below < ring && piece_at(board, x as int, below) == piece_color
                        ==> !#[trigger] can_step(x as int, below, board),
            decreases 3 - ring,
        {
            if board[x][ring] == piece_color && has_possible_move((x, ring), board) {
                return false;
            }
            ring += 1;
        }
        x += 1;
    }
    true
}

/// Whether the two other cells of a mill line through the cell hold `player_color`.
pub fn is_creating_mill(player_color: Piece, position: (usize, usize), board: Grid) -> (mill: bool)
    requires
        position.0 < 8,
        position.1 < 3,
    ensures
        mill == completes_mill(player_color, position.0 as int, position.1 as int, board),
{
    let (x, ring) = position;
    if x % 2 == 0 {
        (board[(x + 1) % 8][ring] == player_color && board[(x + 2) % 8][ring] == player_color)
            || (board[(x + 7) % 8][ring] == player_color && board[(x + 6) % 8][ring]
            == player_color)
    } else {
        (board[(x + 1) % 8][ring] == player_color && board[(x + 7) % 8][ring] == player_color)
            || (board[x][(ring + 1) % 3] == player_color && board[x][(ring + 2) % 3]
            == player_color)
    }
}

/// Whether the token on the cell stands in a mill.
pub fn is_piece_part_of_mill(piece_color: Piece, position: (usize, usize), board: Grid) -> (part:
    bool)
    requires
        position.0 < 8,
        position.1 < 3,
    ensures
        part == completes_mill(piece_color, position.0 as int, position.1 as int, board),
{
    is_creating_mill(piece_color, position, board)
}

/// Whether every token of `piece_color` stands in a mill.
pub fn all_pieces_are_in_mills(piece_color: Piece, board: Grid) -> (all: bool)
    ensures
        all == all_complete(piece_color, board),
{
    let mut x: usize = 0;
    while x < 8
        invariant
            x <= 8,
            forall|spoke: int, ring: int|
                0 <= spoke < x && 0 <= ring < 3 && piece_at(board, spoke, ring) == piece_color
                    ==> #[trigger] completes_mill(piece_color, spoke, ring, board),
        decreases 8 - x,
    {
        let mut ring: usize = 0;
        while ring < 3
            invariant
                x < 8,
                ring <= 3,
                forall|spoke: int, ring: int|
                    0 <= spoke < x && 0 <= ring < 3 && piece_at(board, spoke, ring) == piece_color
                        ==> #[trigger] completes_mill(piece_color, spoke, ring, board),
                forall|below: int|
                    0 <= below < ring && piece_at(board, x as int, below) == piece_color
                        ==> #[trigger] completes_mill(piece_color, x as int, below, board),
            decreases 3 - ring,
        {
            if board[x][ring] == piece_color && !is_piece_part_of_mill(
                piece_color,
                (x, ring),
                board,
            ) {
                return false;
            }
            ring += 1;
        }
        x += 1;
    }
    true
}

/// Whether the token of `piece_color` on the cell may be taken: it stands in no mill, or
/// all tokens of its colour do.
pub fn can_take_piece(piece_color: Piece, position: (usize, usize), board: Grid) -> (takable: bool)
    requires
        position.0 < 8,
        position.1 < 3,
    ensures
        takable == (!completes_mill(piece_color, position.0 as int, position.1 as int, board)
            || all_complete(piece_color, board)),
{
    !is_piece_part_of_mill(piece_color, position, board) || all_pieces_are_in_mills(
        piece_color,
        board,
    )
}

/// The grid after a token of `color` went from `from` to `to`, whatever the cells held.
pub open spec fn grid_moved(
    board: Grid,
    from: (usize, usize),
    to: (usize, usize),
    color: Piece,
) -> Grid {
    with_piece(
        with_piece(board, from.0 as int, from.1 as int, Piece::Empty),
        to.0 as int,
        to.1 as int,
        color,
    )
}

/// Whether a token that goes from `from` to `to` makes a step: the cell it goes to is
/// empty and joined to the cell it comes from.
pub open spec fn lands(board: Grid, from: (usize, usize), to: (usize, usize)) -> bool {
    piece_at(board, to.0 as int, to.1 as int) == Piece::Empty && joined(from, to)
}

/// Whether the game holds what the buttons need: it is the turn of a colour, and a lifted
/// token has a colour and a cell.
pub open spec fn playable(game: GameView) -> bool {
    &&& game.player_turn != Piece::Empty
    &&& game.carry_piece matches Some(piece) ==> piece.x < 8 && piece.ring < 3 && piece.color
        != Piece::Empty
    &&& game.state == State::Setup ==> game.setup_pieces_left > 0
}

/// The game after the button went down on a cell that holds `piece`: while tokens are
/// moved the player lifts its own token.
pub open spec fn after_button_down(game: GameView, x: int, ring: int, piece: Piece) -> GameView {
    if (game.state == State::Normal || game.state == State::End) && piece == game.player_turn {
        GameView {
            carry_piece: Some(CarryPiece { x: x as usize, ring: ring as usize, color: piece }),
            ..game.with_field(x, ring, Piece::Empty)
        }
    } else {
        game
    }
}

/// The game after the token `color` was put on a cell: a mill lets the player take a
/// token, else the turn passes on.
pub open spec fn after_landing(put: GameView, x: int, ring: int, color: Piece) -> GameView {
    if completes_mill(color, x, ring, put.board) {
        put.state_updated(Some(State::Take))
    } else {
        put.turn_passed()
    }
}

/// The game after the lifted token `carried` went to a cell.
pub open spec fn after_move(game: GameView, carried: CarryPiece, x: int, ring: int) -> GameView {
    let put = GameView {
        board: grid_moved(
            game.board,
            (carried.x, carried.ring),
            (x as usize, ring as usize),
            carried.color,
        ),
        carry_piece: None,
        ..game
    };
    after_landing(put, x, ring, carried.color)
}

/// The game after the button went up on a cell that holds `piece`, before a token that is
/// still lifted goes back. While tokens are set a token is set on an empty cell. While
/// tokens are moved the lifted token makes a step. While a token is taken a token of the
/// other colour is taken if it stands in no mill or all do. In the end of the game the
/// lifted token makes a step, or flies to another, empty cell if its colour had three
/// tokens when they were last counted.
pub open spec fn after_release(
    game: GameView,
    x: int,
    ring: int,
    piece: Piece,
    carry_piece: Option<CarryPiece>,
    state: State,
) -> GameView {
    match state {
        State::Setup => {
            if piece == Piece::Empty {
                after_landing(
                    game.with_field(x, ring, game.player_turn).setup_reduced(),
                    x,
                    ring,
                    game.player_turn,
                )
            } else {
                game
            }
        },
        State::Normal => {
            match carry_piece {
                Some(carried) => {
                    if lands(game.board, (carried.x, carried.ring), (x as usize, ring as usize)) {
                        after_move(game, carried, x, ring)
                    } else {
                        game
                    }
                },
                None => game,
            }
        },
        State::Take => {
            if piece == game.player_turn.other() && (!completes_mill(piece, x, ring, game.board)
                || all_complete(piece, game.board)) {
                game.with_field(x, ring, Piece::Empty).turn_passed().state_updated(
                    Some(State::Normal),
                )
            } else {
                game
            }
        },
        State::End => {
            match carry_piece {
                Some(carried) => {
                    let count = if carried.color == Piece::White {
                        game.white_count
                    } else {
                        game.black_count
                    };
                    if (count == 3 && (x != carried.x || ring != carried.ring) && piece
                        == Piece::Empty) || lands(
                        game.board,
                        (carried.x, carried.ring),
                        (x as usize, ring as usize),
                    ) {
                        after_move(game, carried, x, ring)
                    } else {
                        game
                    }
                },
                None => game,
            }
        },
        State::Win => game,
    }
}

/// The game after the button went down or up on a cell.
pub open spec fn after_step(
    game: GameView,
    mouse_button_down: bool,
    x: int,
    ring: int,
) -> GameView {
    let piece = piece_at(game.board, x, ring);
    if mouse_button_down {
        after_button_down(game, x, ring, piece)
    } else if game.carry_piece is None && (game.state == State::Normal || game.state
        == State::End) {
        game
    } else {
        after_release(game, x, ring, piece, game.carry_piece, game.state).carry_undone()
    }
}

/// Takes a token of the player from one cell to another, whatever the cells hold, and
/// says whether that is a step.
fn carry_out(
    player_color: Piece,
    move_from: (usize, usize),
    move_to: (usize, usize),
    board: Grid,
) -> (moved: (bool, Grid))
    requires
        move_from.0 < 8,
        move_from.1 < 3,
        move_to.0 < 8,
        move_to.1 < 3,
    ensures
        moved.0 == lands(board, move_from, move_to),
        moved.1 == grid_moved(board, move_from, move_to, player_color),
{
    broadcast use vstd::array::group_array_axioms;

    let successful = board[move_to.0][move_to.1] == Piece::Empty && is_neighbor(
        move_from,
        move_to,
    );
    let mut new_board = board;
    new_board[move_from.0][move_from.1] = Piece::Empty;
    new_board[move_to.0][move_to.1] = player_color;
    (successful, new_board)
}

/// The button goes down on a cell that holds `piece_color`: while tokens are moved the
/// player lifts its token there. It is an error to try another cell.
pub fn compute_button_down(
    board_x: usize,
    board_ring: usize,
    piece_color: Piece,
    game: &mut Game,
) -> (done: Result<(), FieldError>)
    requires
        board_x < 8,
        board_ring < 3,
    ensures
        final(game)@ == after_button_down(
            old(game)@,
            board_x as int,
            board_ring as int,
            piece_color,
        ),
        done is Err <==> (old(game)@.state == State::Normal || old(game)@.state == State::End)
            && piece_color != old(game)@.player_turn,
        done matches Err(error) ==> error.message@ == Seq::<char>::empty(),
{
    match game.get_state() {
        State::Normal | State::End => {
            if piece_color == game.get_player_turn() {
                game.set_field(board_x, board_ring, Piece::Empty);
                game.set_carry_piece(Some((board_x, board_ring, piece_color)));
            } else {
                return Err(FieldError::empty());
            }
        },
        State::Setup | State::Take | State::Win => {},
    }
    Ok(())
}

/// Lets the game go on after a token of `color` was put on a cell.
fn land(board_x: usize, board_ring: usize, color: Piece, game: &mut Game)
    requires
        board_x < 8,
        board_ring < 3,
        old(game)@.player_turn != Piece::Empty,
    ensures
        final(game)@ == after_landing(old(game)@, board_x as int, board_ring as int, color),
{
    if is_creating_mill(color, (board_x, board_ring), game.get_board()) {
        game.update_state(Some(State::Take));
    } else {
        game.next_player_turn();
    }
}

/// The button goes up on a cell that holds `piece_color`, in a game that waits for `state`
/// and has `carry_piece` lifted: a token is set, the lifted token is put down, or a token
/// is taken. A token that is still lifted goes back.
pub fn compute_button_up(
    board_x: usize,
    board_ring: usize,
    piece_color: Piece,
    carry_piece: Option<CarryPiece>,
    state: State,
    game: &mut Game,
) -> (done: Result<(), FieldError>)
    requires
        board_x < 8,
        board_ring < 3,
        old(game)@.player_turn != Piece::Empty,
        old(game)@.carry_piece matches Some(piece) ==> piece.x < 8 && piece.ring < 3,
        carry_piece matches Some(piece) ==> piece.x < 8 && piece.ring < 3 && piece.color
            != Piece::Empty,
        state == State::Setup ==> old(game)@.setup_pieces_left > 0,
        state == State::End ==> carry_piece is Some,
    ensures
        final(game)@ == after_release(
            old(game)@,
            board_x as int,
            board_ring as int,
            piece_color,
            carry_piece,
            state,
        ).carry_undone(),
        done is Ok,
{
    match state {
        State::Setup => {
            if piece_color == Piece::Empty {
                let player_color = game.get_player_turn();
                game.set_field(board_x, board_ring, player_color);
                game.reduce_setup_pieces_left();
                land(board_x, board_ring, player_color, game);
            }
        },
        State::Normal => {
            match carry_piece {
                Some(piece) => {
                    let (carry_x, carry_ring, carry_piece_color) = piece.into();
                    let (successful, new_board) = carry_out(
                        carry_piece_color,
                        (carry_x, carry_ring),
                        (board_x, board_ring),
                        game.get_board(),
                    );
                    if successful {
                        game.set_board(new_board);
                        game.set_carry_piece(None);
                        land(board_x, board_ring, carry_piece_color, game);
                    }
                },
                None => {},
            }
        },
        State::Take => {
            if piece_color == game.get_player_turn().neg() && can_take_piece(
                piece_color,
                (board_x, board_ring),
                game.get_board(),
            ) {
                game.set_field(board_x, board_ring, Piece::Empty);
                game.next_player_turn();
                game.update_state(Some(State::Normal));
            }
        },
        State::End => {
            match carry_piece {
                Some(piece) => {
                    let (carry_x, carry_ring, carry_piece_color) = piece.into();
                    let (successful, new_board) = carry_out(
                        carry_piece_color,
                        (carry_x, carry_ring),
                        (board_x, board_ring),
                        game.get_board(),
                    );
                    let count = game.get_piece_count(carry_piece_color);
                    if (count == 3 && (board_x != carry_x || board_ring != carry_ring)
                        && piece_color == Piece::Empty) || successful {
                        game.set_board(new_board);
                        game.set_carry_piece(None);
                        land(board_x, board_ring, carry_piece_color, game);
                    }
                },
                None => {},
            }
        },
        State::Win => {},
    }
    game.undo_carry();
    Ok(())
}

/// The button goes down or up on the cell on `board_x` and `board_ring`. It is an error to
/// lift a token that is not the player's, and to put down a token while none is lifted.
pub fn compute_step(
    mouse_button_down: bool,
    board_x: usize,
    board_ring: usize,
    game: &mut Game,
) -> (done: Result<(), FieldError>)
    requires
        board_x < 8,
        board_ring < 3,
        playable(old(game)@),
    ensures
        final(game)@ == after_step(
            old(game)@,
            mouse_button_down,
            board_x as int,
            board_ring as int,
        ),
        done is Err <==> (old(game)@.state == State::Normal || old(game)@.state == State::End)
            && if mouse_button_down {
            piece_at(old(game)@.board, board_x as int, board_ring as int) != old(
                game,
            )@.player_turn
        } else {
            old(game)@.carry_piece is None
        },
        done matches Err(error) ==> error.message@ == Seq::<char>::empty(),
{
    let piece_color = game.get_piece_color(board_x, board_ring);
    if mouse_button_down {
        compute_button_down(board_x, board_ring, piece_color, game)
    } else {
        let carry_piece = game.get_carry_piece();
        let state = game.get_state();
        if carry_piece.is_none() && (state == State::Normal || state == State::End) {
            game.undo_carry();
            return Err(FieldError::empty());
        }
        compute_button_up(board_x, board_ring, piece_color, carry_piece, state, game)
    }
}

} // verus!
