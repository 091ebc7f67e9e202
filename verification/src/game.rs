use crate::ai::action::is_color;
use crate::enums::{CarryPiece, State};
use crate::position::{cells, get_token_at, set_token_at, token_at, with_token, BLACK, EMPTY, WHITE};
use crate::utils::{
    black_move_count, black_token_count, extract_black_move_count_from_board,
    extract_black_token_count_from_board, extract_white_move_count_from_board,
    extract_white_token_count_from_board, insert_number_of_possible_moves_to_board,
    insert_token_count_to_board, white_move_count, white_token_count, with_fresh_move_counts,
    with_fresh_token_counts,
};
use vstd::prelude::*;

verus! {

/// The number of tokens that the two players set in all.
pub const SETUP_PIECES: u8 = 18;

/// A game in play: the board, whose turn it is, a token that was lifted, what the game
/// waits for, and how many tokens are still to be set.
pub struct Game {
    board: u64,
    player_turn: u8,
    carry_piece: Option<CarryPiece>,
    state: State,
    setup_pieces_left: u8,
}

/// What a game holds.
pub struct GameView {
    pub board: u64,
    pub player_turn: u8,
    pub carry_piece: Option<CarryPiece>,
    pub state: State,
    pub setup_pieces_left: u8,
}

impl View for Game {
    type V = GameView;

    closed spec fn view(&self) -> GameView {
        GameView {
            board: self.board,
            player_turn: self.player_turn,
            carry_piece: self.carry_piece,
            state: self.state,
            setup_pieces_left: self.setup_pieces_left,
        }
    }
}

/// The board with `token` on cell `pos` and all four counters counted anew; the board as
/// it is if the cell holds that token already.
pub open spec fn board_with(board: u64, pos: int, token: u8) -> u64 {
    if token_at(board, pos) == token {
        board
    } else {
        with_fresh_token_counts(with_fresh_move_counts(with_token(board, pos, token)))
    }
}

/// The colour that has won by what the board records, or none: a player has lost with less
/// than three tokens, or with more than three and no step; white is looked at first.
pub open spec fn winner_on(board: u64) -> u8 {
    if white_token_count(board) < 3 || (white_token_count(board) > 3 && white_move_count(board)
        == 0) {
        BLACK
    } else if black_token_count(board) < 3 || (black_token_count(board) > 3 && black_move_count(
        board,
    ) == 0) {
        WHITE
    } else {
        EMPTY
    }
}

/// The colour whose turn comes after that of `player`.
pub open spec fn turn_after(player: u8) -> u8 {
    if player == WHITE {
        BLACK
    } else {
        WHITE
    }
}

impl GameView {
    /// What a game must hold to be played: it is the turn of a colour, no more tokens are to
    /// be set than there are, and a lifted token has a colour and a cell.
    pub open spec fn wf(self) -> bool {
        &&& is_color(self.player_turn)
        &&& self.setup_pieces_left <= SETUP_PIECES
        &&& self.carry_piece matches Some(piece) ==> piece.position < 24 && is_color(piece.color)
        &&& self.state == State::Setup ==> self.setup_pieces_left > 0
    }

    /// The game with `token` on cell `pos`.
    pub open spec fn with_token_at(self, pos: int, token: u8) -> GameView {
        GameView { board: board_with(self.board, pos, token), ..self }
    }

    /// The game with the lifted token back on its cell.
    pub open spec fn carry_undone(self) -> GameView {
        match self.carry_piece {
            Some(piece) => GameView {
                carry_piece: None,
                ..self.with_token_at(piece.position as int, piece.color)
            },
            None => self,
        }
    }

    /// The game with the turn passed on.
    pub open spec fn turn_passed(self) -> GameView {
        GameView { player_turn: turn_after(self.player_turn), ..self }
    }

    /// The state after `requested` was asked for: a won game stays won; taking a token
    /// goes on until something else is asked for; else the game is set up while tokens are
    /// left to set, won if the board has a winner, and played otherwise.
    pub open spec fn state_after(self, requested: Option<State>) -> State {
        let asked = match requested {
            Some(state) => state,
            None => self.state,
        };
        if self.state == State::Win {
            State::Win
        } else if asked == State::Take {
            State::Take
        } else if self.setup_pieces_left > 0 {
            State::Setup
        } else if winner_on(self.board) != EMPTY {
            State::Win
        } else {
            State::Normal
        }
    }

    /// The game after `requested` was asked for.
    pub open spec fn state_updated(self, requested: Option<State>) -> GameView {
        GameView { state: self.state_after(requested), ..self }
    }

    /// The game with one token less to set.
    pub open spec fn setup_reduced(self) -> GameView {
        let reduced = GameView { setup_pieces_left: (self.setup_pieces_left - 1) as u8, ..self };
        if reduced.setup_pieces_left == 0 {
            reduced.state_updated(Some(State::Normal))
        } else {
            reduced
        }
    }
}

impl Default for Game {
    fn default() -> (game: Self)
        ensures
            game@ == Game::start(),
    {
        Self::new()
    }
}

impl Game {
    /// The game before the first token is set: white begins.
    pub open spec fn start() -> GameView {
        GameView {
            board: 0,
            player_turn: WHITE,
            carry_piece: None,
            state: State::Setup,
            setup_pieces_left: SETUP_PIECES,
        }
    }

    /// The cells of the example game, with all counters zero.
    pub open spec fn example_cells() -> u64 {
        0x02C0_8030_AAB0
    }

    /// A game before the first token is set.
    pub fn new() -> (game: Game)
        ensures
            game@ == Game::start(),
            game@.wf(),
    {
        Game {
            board: 0,
            player_turn: WHITE,
            carry_piece: None,
            state: State::Setup,
            setup_pieces_left: SETUP_PIECES,
        }
    }

    /// A game in which all tokens are set: white has three tokens and black seven.
    pub fn new_example_board() -> (game: Game)
        ensures
            game@ == (GameView {
                board: with_fresh_move_counts(with_fresh_token_counts(Game::example_cells())),
                player_turn: WHITE,
                carry_piece: None,
                state: State::Normal,
                setup_pieces_left: 0,
            }),
            game@.wf(),
    {
        let board: u64 = 0x02C0_8030_AAB0;
        Game {
            board: insert_number_of_possible_moves_to_board(insert_token_count_to_board(board)),
            player_turn: WHITE,
            carry_piece: None,
            state: State::Normal,
            setup_pieces_left: 0,
        }
    }

    /// Whether the game holds what it must hold to be played.
    pub fn is_playable(&self) -> (playable: bool)
        ensures
            playable == self@.wf(),
    {
        let carried = match self.carry_piece {
            Some(piece) => piece.position < 24 && (piece.color == WHITE || piece.color == BLACK),
            None => true,
        };
        (self.player_turn == WHITE || self.player_turn == BLACK) && self.setup_pieces_left
            <= SETUP_PIECES && carried && (self.state != State::Setup || self.setup_pieces_left
            > 0)
    }

    /// The board of the game.
    pub fn get_board(&self) -> (board: u64)
        ensures
            board == self@.board,
    {
        self.board
    }

    /// Takes a new board as it is; its counters are not counted anew.
    pub fn set_board(&mut self, new_board: u64)
        ensures
            final(self)@ == (GameView { board: new_board, ..old(self)@ }),
    {
        self.board = new_board
    }

    /// The colour whose turn it is.
    pub fn get_player_turn(&self) -> (player: u8)
        ensures
            player == self@.player_turn,
    {
        self.player_turn
    }

    /// Passes the turn on to the other colour.
    pub fn next_player_turn(&mut self)
        requires
            is_color(old(self)@.player_turn),
        ensures
            final(self)@ == old(self)@.turn_passed(),
    {
        if self.player_turn == WHITE {
            self.player_turn = BLACK;
        } else {
            self.player_turn = WHITE;
        }
    }

    /// The token that is lifted, if one is.
    pub fn get_carry_piece(&self) -> (piece: Option<CarryPiece>)
        ensures
            piece == self@.carry_piece,
    {
        self.carry_piece
    }

    /// Notes a token as lifted, or that none is.
    pub fn set_carry_piece(&mut self, new_carry_piece: Option<(usize, u8)>)
        ensures
            final(self)@ == (GameView {
                carry_piece: match new_carry_piece {
                    Some((position, color)) => Some(CarryPiece { position, color }),
                    None => None,
                },
                ..old(self)@
            }),
    {
        match new_carry_piece {
            None => {
                self.carry_piece = None;
            },
            Some((position, piece_color)) => {
                self.carry_piece = Some(CarryPiece::new(position, piece_color));
            },
        }
    }

    /// Puts a lifted token back on its cell.
    pub fn undo_carry(&mut self)
        requires
            old(self)@.carry_piece matches Some(piece) ==> piece.position < 24 && piece.color <= 3,
        ensures
            final(self)@ == old(self)@.carry_undone(),
    {
        match self.carry_piece {
            Some(piece) => {
                let (position, piece_color) = piece.into();
                self.set_token_at(position, piece_color);
                self.set_carry_piece(None);
            },
            None => {},
        }
    }

    /// What the game waits for.
    pub fn get_state(&self) -> (state: State)
        ensures
            state == self@.state,
    {
        self.state
    }

    /// Asks for a state, if one is given, and lets the state follow the board.
    pub fn update_state(&mut self, state: Option<State>)
        ensures
            final(self)@ == old(self)@.state_updated(state),
    {
        if self.state == State::Win {
            return ;
        }
        match state {
            Some(asked) => {
                self.state = asked;
            },
            None => {},
        }
        if self.state != State::Take {
            if self.setup_pieces_left > 0 {
                self.state = State::Setup;
            } else if self.get_winner() != EMPTY {
                self.state = State::Win;
            } else {
                self.state = State::Normal;
            }
        }
    }

    /// The colour that has won by what the board records, or none.
    pub fn get_winner(&self) -> (winner: u8)
        ensures
            winner == winner_on(self@.board),
    {
        let black_tokens = self.get_piece_count(BLACK);
        let white_tokens = self.get_piece_count(WHITE);
        let black_possible_moves = extract_black_move_count_from_board(self.board);
        let white_possible_moves = extract_white_move_count_from_board(self.board);
        if white_tokens < 3 || (white_tokens > 3 && white_possible_moves == 0) {
            BLACK
        } else if black_tokens < 3 || (black_tokens > 3 && black_possible_moves == 0) {
            WHITE
        } else {
            EMPTY
        }
    }

    /// How many tokens are still to be set.
    pub fn get_setup_pieces_left(&self) -> (left: u8)
        ensures
            left == self@.setup_pieces_left,
    {
        self.setup_pieces_left
    }

    /// The number of tokens that the board records for white, or else for black.
    pub fn get_piece_count(&self, piece_color: u8) -> (count: u8)
        ensures
            count == if piece_color == WHITE {
                white_token_count(self@.board)
            } else {
                black_token_count(self@.board)
            },
            count <= 7,
    {
        if piece_color == WHITE {
            extract_white_token_count_from_board(self.board)
        } else {
            extract_black_token_count_from_board(self.board)
        }
    }

    /// Counts one token less to set; with the last token the game goes on to be played.
    pub fn reduce_setup_pieces_left(&mut self)
        requires
            old(self)@.setup_pieces_left > 0,
        ensures
            final(self)@ == old(self)@.setup_reduced(),
    {
        let setup_pieces_left = self.setup_pieces_left - 1;
        self.setup_pieces_left = setup_pieces_left;
        if setup_pieces_left == 0 {
            self.update_state(Some(State::Normal));
        }
    }

    /// The token on cell `position`.
    pub fn get_token_at(&self, position: usize) -> (token: u8)
        requires
            position < 24,
        ensures
            token == token_at(self@.board, position as int),
    {
        get_token_at(self.board, position)
    }

    /// Puts `color` on cell `position` and counts all four counters anew.
    pub fn set_token_at(&mut self, position: usize, color: u8)
        requires
            position < 24,
            color <= 3,
        ensures
            final(self)@ == old(self)@.with_token_at(position as int, color),
    {
        let old_color = get_token_at(self.board, position);
        if old_color == color {
            return ;
        }
        let mut new_board = set_token_at(self.board, position, color);
        new_board = insert_number_of_possible_moves_to_board(new_board);
        new_board = insert_token_count_to_board(new_board);
        self.board = new_board;
    }
}

} // verus!
