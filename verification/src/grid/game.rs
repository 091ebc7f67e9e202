use crate::grid::enums::{Piece, State};
use crate::grid::logic::{grid_cells, is_soft_locked, locked, piece_at, with_piece, Grid};
use vstd::prelude::*;

verus! {

/// A token that a player has lifted off the grid: where it stood and its colour.
#[derive(Clone, Copy, PartialEq, Eq, Debug)]
pub struct CarryPiece {
    pub x: usize,
    pub ring: usize,
    pub color: Piece,
}

impl CarryPiece {
    /// A lifted token.
    pub fn new(x: usize, ring: usize, color: Piece) -> (piece: CarryPiece)
        ensures
            piece.x == x,
            piece.ring == ring,
            piece.color == color,
    {
        CarryPiece { x, ring, color }
    }

    /// The cell and the colour of the lifted token.
    pub fn into(self) -> (parts: (usize, usize, Piece))
        ensures
            parts == (self.x, self.ring, self.color),
    {
        (self.x, self.ring, self.color)
    }
}

/// A game on the grid: the cells, whose turn it is, a token that was lifted, what the game
/// waits for, how many tokens are still to be set, and how many tokens each colour had
/// when they were last counted.
pub struct Game {
    board: Grid,
    player_turn: Piece,
    carry_piece: Option<CarryPiece>,
    state: State,
    setup_pieces_left: u8,
    white_count: u8,
    black_count: u8,
}

/// What a game on the grid holds.
pub struct GameView {
    pub board: Grid,
    pub player_turn: Piece,
    pub carry_piece: Option<CarryPiece>,
    pub state: State,
    pub setup_pieces_left: u8,
    pub white_count: u8,
    pub black_count: u8,
}

impl View for Game {
    type V = GameView;

    closed spec fn view(&self) -> GameView {
        GameView {
            board: self.board,
            player_turn: self.player_turn,
            carry_piece: self.carry_piece,
            state: self.state,
            setup_pieces_left: self.setup_pieces_left,
            white_count: self.white_count,
            black_count: self.black_count,
        }
    }
}

/// How many of the first `upto` cells, counted spoke by spoke, hold `color`.
pub open spec fn pieces_before(board: Grid, color: Piece, upto: int) -> int
    decreases upto,
{
    if upto <= 0 {
        0
    } else {
        pieces_before(board, color, upto - 1) + if piece_at(board, (upto - 1) / 3, (upto - 1) % 3)
            == color {
            1int
        } else {
            0int
        }
    }
}

/// How many cells hold `color`.
pub open spec fn pieces_of(board: Grid, color: Piece) -> int {
    pieces_before(board, color, 24)
}

impl GameView {
    /// The game with the tokens counted.
    pub open spec fn counted(self) -> GameView {
        GameView {
            white_count: pieces_of(self.board, Piece::White) as u8,
            black_count: pieces_of(self.board, Piece::Black) as u8,
            ..self
        }
    }

    /// The state after the tokens were counted and `requested` was asked for: taking a
    /// token goes on until something else is asked for; else the game is set up while
    /// tokens are left to set; won if a colour has less than three tokens or the player
    /// whose turn it is cannot step; in its end when a colour has three tokens; and played
    /// otherwise.
    pub open spec fn state_after(self, requested: Option<State>) -> State {
        let asked = match requested {
            Some(state) => state,
            None => self.state,
        };
        let white = pieces_of(self.board, Piece::White);
        let black = pieces_of(self.board, Piece::Black);
        if asked == State::Take {
            State::Take
        } else if self.setup_pieces_left > 0 {
            State::Setup
        } else if white < 3 || black < 3 || locked(self.player_turn, self.board) {
            State::Win
        } else if white == 3 || black == 3 {
            State::End
        } else {
            State::Normal
        }
    }

    /// The game with `piece` on one cell; the tokens are not counted anew.
    pub open spec fn with_field(self, x: int, ring: int, piece: Piece) -> GameView {
        GameView { board: with_piece(self.board, x, ring, piece), ..self }
    }

    /// The game with the lifted token back on its cell.
    pub open spec fn carry_undone(self) -> GameView {
        match self.carry_piece {
            Some(piece) => GameView {
                carry_piece: None,
                ..self.with_field(piece.x as int, piece.ring as int, piece.color)
            },
            None => self,
        }
    }

    /// The game with the turn passed on.
    pub open spec fn turn_passed(self) -> GameView {
        GameView { player_turn: self.player_turn.other(), ..self }
    }

    /// The game after the tokens were counted and `requested` was asked for.
    pub open spec fn state_updated(self, requested: Option<State>) -> GameView {
        GameView { state: self.state_after(requested), ..self.counted() }
    }

    /// The game with one token less to set and the tokens counted.
    pub open spec fn setup_reduced(self) -> GameView {
        GameView { setup_pieces_left: (self.setup_pieces_left - 1) as u8, ..self.counted() }
    }
}

/// A count of cells never exceeds the number of cells counted.
pub proof fn lemma_pieces_bounds(board: Grid, color: Piece, upto: int)
    requires
        0 <= upto,
    ensures
        0 <= pieces_before(board, color, upto) <= upto,
    decreases upto,
{
    if upto > 0 {
        lemma_pieces_bounds(board, color, upto - 1);
    }
}

impl Game {
    /// The grid of the example game: white has three tokens and black seven.
    pub open spec fn example_cells() -> Seq<Seq<Piece>> {
        seq![
            seq![Piece::Empty, Piece::Black, Piece::Black],
            seq![Piece::Empty, Piece::Empty, Piece::Black],
            seq![Piece::Empty, Piece::Empty, Piece::Black],
            seq![Piece::Empty, Piece::Empty, Piece::Black],
            seq![Piece::Black, Piece::Empty, Piece::Black],
            seq![Piece::White, Piece::White, Piece::White],
            seq![Piece::Empty, Piece::Empty, Piece::Empty],
            seq![Piece::Empty, Piece::Empty, Piece::Empty],
        ]
    }

    /// A game before the first token is set: white begins.
    pub fn new() -> (game: Game)
        ensures
            forall|x: int, ring: int|
                0 <= x < 8 && 0 <= ring < 3 ==> piece_at(game@.board, x, ring) == Piece::Empty,
            game@.player_turn == Piece::White,
            game@.carry_piece is None,
            game@.state == State::Setup,
            game@.setup_pieces_left == 18,
            game@.white_count == 0,
            game@.black_count == 0,
    {
        Game {
            board: [[Piece::Empty; 3]; 8],
            player_turn: Piece::White,
            carry_piece: None,
            state: State::Setup,
            setup_pieces_left: 18,
            white_count: 0,
            black_count: 0,
        }
    }

    /// A game in its end: all tokens are set, white has three tokens and black seven.
    pub fn new_example_board() -> (game: Game)
        ensures
            grid_cells(game@.board) == Game::example_cells(),
            game@.player_turn == Piece::White,
            game@.carry_piece is None,
            game@.state == State::End,
            game@.setup_pieces_left == 0,
            game@.white_count == 3,
            game@.black_count == 7,
    {
        let board = [
            [Piece::Empty, Piece::Black, Piece::Black],
            [Piece::Empty, Piece::Empty, Piece::Black],
            [Piece::Empty, Piece::Empty, Piece::Black],
            [Piece::Empty, Piece::Empty, Piece::Black],
            [Piece::Black, Piece::Empty, Piece::Black],
            [Piece::White, Piece::White, Piece::White],
            [Piece::Empty, Piece::Empty, Piece::Empty],
            [Piece::Empty, Piece::Empty, Piece::Empty],
        ];
        proof {
            assert forall|x: int| 0 <= x < 8 implies #[trigger] grid_cells(board)[x]
                =~= Game::example_cells()[x] by {}
            assert(grid_cells(board) =~= Game::example_cells());
        }
        Game {
            board,
            player_turn: Piece::White,
            carry_piece: None,
            state: State::End,
            setup_pieces_left: 0,
            white_count: 3,
            black_count: 7,
        }
    }

    /// The grid of the game.
    pub fn get_board(&self) -> (board: Grid)
        ensures
            board == self@.board,
    {
        self.board
    }

    /// Takes a new grid as it is; the tokens are not counted anew.
    pub fn set_board(&mut self, new_board: Grid)
        ensures
            final(self)@ == (GameView { board: new_board, ..old(self)@ }),
    {
        self.board = new_board;
    }

    /// Passes the turn on to the other colour.
    pub fn next_player_turn(&mut self)
        requires
            old(self)@.player_turn != Piece::Empty,
        ensures
            final(self)@ == old(self)@.turn_passed(),
    {
        if self.player_turn == Piece::White {
            self.player_turn = Piece::Black;
        } else {
            self.player_turn = Piece::White;
        }
    }

    /// What the cell on spoke `x` and `ring` holds.
    pub fn get_piece_color(&self, x: usize, ring: usize) -> (piece: Piece)
        requires
            x < 8,
            ring < 3,
        ensures
            piece == piece_at(self@.board, x as int, ring as int),
    {
        self.board[x][ring]
    }

    /// The colour whose turn it is.
    pub fn get_player_turn(&self) -> (player: Piece)
        ensures
            player == self@.player_turn,
    {
        self.player_turn
    }

    /// Sets how many tokens are still to be set.
    pub fn set_setup_pieces_left(&mut self, amount: u8)
        ensures
            final(self)@ == (GameView { setup_pieces_left: amount, ..old(self)@ }),
    {
        self.setup_pieces_left = amount;
    }

    /// How many tokens are still to be set.
    pub fn get_setup_pieces_left(&self) -> (left: u8)
        ensures
            left == self@.setup_pieces_left,
    {
        self.setup_pieces_left
    }

    /// The token that is lifted, if one is.
    pub fn get_carry_piece(&self) -> (piece: Option<CarryPiece>)
        ensures
            piece == self@.carry_piece,
    {
        self.carry_piece
    }

    /// Notes a token as lifted, or that none is.
    pub fn set_carry_piece(&mut self, params: Option<(usize, usize, Piece)>)
        ensures
            final(self)@ == (GameView {
                carry_piece: match params {
                    Some((x, ring, color)) => Some(CarryPiece { x, ring, color }),
                    None => None,
                },
                ..old(self)@
            }),
    {
        match params {
            None => {
                self.carry_piece = None;
            },
            Some((x, ring, piece_color)) => {
                self.carry_piece = Some(CarryPiece::new(x, ring, piece_color));
            },
        }
    }

    /// Puts a lifted token back on its cell.
    pub fn undo_carry(&mut self)
        requires
            old(self)@.carry_piece matches Some(piece) ==> piece.x < 8 && piece.ring < 3,
        ensures
            final(self)@ == old(self)@.carry_undone(),
    {
        match self.carry_piece {
            Some(piece) => {
                let (x, ring, piece_color) = piece.into();
                self.set_field(x, ring, piece_color);
                self.set_carry_piece(None);
            },
            None => {},
        }
    }

    /// Counts the tokens of both colours.
    fn update_piece_count(&mut self)
        ensures
            final(self)@ == old(self)@.counted(),
            final(self)@.white_count == pieces_of(old(self)@.board, Piece::White),
            final(self)@.black_count == pieces_of(old(self)@.board, Piece::Black),
            final(self)@.white_count <= 24,
            final(self)@.black_count <= 24,
    {
        let mut count_white: u8 = 0;
        let mut count_black: u8 = 0;
        let mut index: usize = 0;
        while index < 24
            invariant
                index <= 24,
                count_white == pieces_before(self.board, Piece::White, index as int),
                count_black == pieces_before(self.board, Piece::Black, index as int),
                count_white <= index,
                count_black <= index,
                *self == *old(self),
            decreases 24 - index,
        {
            let element = self.board[index / 3][index % 3];
            if element == Piece::White {
                count_white += 1;
            } else if element == Piece::Black {
                count_black += 1;
            }
            index += 1;
        }
        self.white_count = count_white;
        self.black_count = count_black;
    }

    /// The number of tokens of a colour when they were last counted.
    pub fn get_piece_count(&self, piece_color: Piece) -> (count: u8)
        requires
            piece_color != Piece::Empty,
        ensures
            count == if piece_color == Piece::White {
                self@.white_count
            } else {
                self@.black_count
            },
    {
        if piece_color == Piece::White {
            self.white_count
        } else {
            self.black_count
        }
    }

    /// Puts `piece_color` on one cell; the tokens are not counted anew.
    pub fn set_field(&mut self, x: usize, ring: usize, piece_color: Piece)
        requires
            x < 8,
            ring < 3,
        ensures
            final(self)@ == old(self)@.with_field(x as int, ring as int, piece_color),
    {
        broadcast use vstd::array::group_array_axioms;

        let mut new_board = self.board;
        new_board[x][ring] = piece_color;
        self.board = new_board;
    }

    /// What the game waits for.
    pub fn get_state(&self) -> (state: State)
        ensures
            state == self@.state,
    {
        self.state
    }

    /// Counts the tokens, asks for a state, if one is given, and lets the state follow the
    /// grid.
    pub fn update_state(&mut self, state: Option<State>)
        ensures
            final(self)@ == old(self)@.state_updated(state),
    {
        self.update_piece_count();
        match state {
            Some(asked) => {
                self.state = asked;
            },
            None => {},
        }
        if self.state != State::Take {
            if self.setup_pieces_left > 0 {
                self.state = State::Setup;
            } else if self.white_count < 3 || self.black_count < 3 || is_soft_locked(
                self.player_turn,
                self.board,
            ) {
                self.state = State::Win;
            } else if self.white_count == 3 || self.black_count == 3 {
                self.state = State::End;
            } else {
                self.state = State::Normal;
            }
        }
    }

    /// Counts one token less to set, and counts the tokens on the grid.
    pub fn reduce_setup_pieces_left(&mut self)
        requires
            old(self)@.setup_pieces_left > 0,
        ensures
            final(self)@ == old(self)@.setup_reduced(),
    {
        self.setup_pieces_left = self.setup_pieces_left - 1;
        self.update_piece_count();
    }

    /// Counts the tokens and lets the state follow the grid.
    pub fn refresh(&mut self)
        ensures
            final(self)@ == old(self)@.state_updated(None),
    {
        self.update_piece_count();
        self.update_state(None);
    }
}

} // verus!
