use vstd::prelude::*;
use vstd::string::StringExecFns;

verus! {

/// Says that a cell or a panel field cannot be used as asked.
#[derive(Debug)]
pub struct FieldError {
    pub message: String,
}

impl FieldError {
    /// An error with a message.
    pub fn new(message: String) -> (error: FieldError)
        ensures
            error.message == message,
    {
        FieldError { message }
    }

    /// An error without a message.
    pub fn empty() -> (error: FieldError)
        ensures
            error.message@ == Seq::<char>::empty(),
    {
        FieldError { message: String::new() }
    }
}

/// A token that a player has lifted off the board: where it stood and its colour.
#[derive(Clone, Copy, Debug, PartialEq, Eq)]
pub struct CarryPiece {
    pub position: usize,
    pub color: u8,
}

impl CarryPiece {
    /// A lifted token.
    pub fn new(position: usize, color: u8) -> (piece: CarryPiece)
        ensures
            piece.position == position,
            piece.color == color,
    {
        CarryPiece { position, color }
    }

    /// The cell and the colour of the lifted token.
    pub fn into(self) -> (parts: (usize, u8))
        ensures
            parts == (self.position, self.color),
    {
        (self.position, self.color)
    }
}

/// What the game waits for: a token to be set, a token to be moved, a token to be taken,
/// or nothing any more.
#[derive(Clone, Copy, PartialEq, Eq, Structural, Debug)]
pub enum State {
    Setup,
    Normal,
    Take,
    Win,
}

impl State {
    /// The name of the state.
    pub open spec fn name(self) -> Seq<char> {
        match self {
            State::Setup => "Setup"@,
            State::Take => "Take"@,
            State::Win => "Win"@,
            State::Normal => "Normal"@,
        }
    }

    /// The state that `text` names; any other text names `Normal`.
    pub open spec fn named(text: Seq<char>) -> State {
        if text == "Setup"@ {
            State::Setup
        } else if text == "Take"@ {
            State::Take
        } else if text == "Win"@ {
            State::Win
        } else {
            State::Normal
        }
    }

    /// The name of the state.
    pub fn to_str(self) -> (text: String)
        ensures
            text@ == self.name(),
    {
        match self {
            State::Setup => String::from_str("Setup"),
            State::Take => String::from_str("Take"),
            State::Win => String::from_str("Win"),
            State::Normal => String::from_str("Normal"),
        }
    }

    /// The state that a text names; any other text names `Normal`.
    pub fn parse(string: &str) -> (state: State)
        ensures
            state == State::named(string@),
    {
        let text = string.to_owned();
        if text == String::from_str("Setup") {
            State::Setup
        } else if text == String::from_str("Take") {
            State::Take
        } else if text == String::from_str("Win") {
            State::Win
        } else {
            State::Normal
        }
    }
}

/// Reading a state's name gives the state back.
pub proof fn lemma_state_name_round_trip(state: State)
    ensures
        State::named(state.name()) == state,
{
    reveal_strlit("Setup");
    reveal_strlit("Take");
    reveal_strlit("Win");
    reveal_strlit("Normal");
    assert("Take"@.len() == 4);
    assert("Win"@.len() == 3);
    assert("Normal"@.len() == 6);
    assert("Setup"@.len() == 5);
}

/// How far ahead the computer looks for a player; `Off` leaves the player to a person.
#[derive(Clone, Copy, PartialEq, Eq, Structural, Debug)]
pub enum Difficulty {
    Off,
    Easy,
    Medium,
    Hard,
}

} // verus!
