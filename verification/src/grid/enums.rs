use vstd::prelude::*;
use vstd::string::StringExecFns;

verus! {

/// Says that a cell cannot be used as asked.
#[derive(Debug)]
pub struct FieldError {
    pub message: String,
}

impl FieldError {
    /// An error with a message.
    pub fn new(message: String) -> (error: FieldError)
        ensures
            error.message == message,
    {
        FieldError { message }
    }

    /// An error without a message.
    pub fn empty() -> (error: FieldError)
        ensures
            error.message@ == Seq::<char>::empty(),
    {
        FieldError { message: String::new() }
    }
}

/// Says that a saved game cannot be read.
#[derive(Debug)]
pub struct LoadGameError {
    pub message: String,
}

impl LoadGameError {
    /// An error with a message.
    pub fn new(message: String) -> (error: LoadGameError)
        ensures
            error.message == message,
    {
        LoadGameError { message }
    }

    /// An error without a message.
    pub fn empty() -> (error: LoadGameError)
        ensures
            error.message@ == Seq::<char>::empty(),
    {
        LoadGameError { message: String::new() }
    }
}

/// What a cell of the grid holds.
#[derive(Clone, Copy, PartialEq, Eq, Structural, Debug, Hash)]
pub enum Piece {
    Empty,
    White,
    Black,
}

impl Piece {
    /// The name of what a cell holds.
    pub open spec fn name(self) -> Seq<char> {
        match self {
            Piece::White => "White"@,
            Piece::Black => "Black"@,
            Piece::Empty => "None"@,
        }
    }

    /// What `text` names; any text but the two colours names the empty cell.
    pub open spec fn named(text: Seq<char>) -> Piece {
        if text == "White"@ {
            Piece::White
        } else if text == "Black"@ {
            Piece::Black
        } else {
            Piece::Empty
        }
    }

    /// The other colour; the empty cell stays empty.
    pub open spec fn other(self) -> Piece {
        match self {
            Piece::White => Piece::Black,
            Piece::Black => Piece::White,
            Piece::Empty => Piece::Empty,
        }
    }

    /// The name of what a cell holds.
    pub fn to_str(self) -> (text: String)
        ensures
            text@ == self.name(),
    {
        match self {
            Piece::White => String::from_str("White"),
            Piece::Black => String::from_str("Black"),
            Piece::Empty => String::from_str("None"),
        }
    }

    /// What a text names; any text but the two colours names the empty cell.
    pub fn parse(string: String) -> (piece: Piece)
        ensures
            piece == Piece::named(string@),
    {
        if string == String::from_str("White") {
            Piece::White
        } else if string == String::from_str("Black") {
            Piece::Black
        } else {
            Piece::Empty
        }
    }

    /// Converts white to black and black to white; the empty cell stays empty.
    pub fn neg(self) -> (piece: Piece)
        ensures
            piece == self.other(),
    {
        match self {
            Piece::White => Piece::Black,
            Piece::Black => Piece::White,
            Piece::Empty => Piece::Empty,
        }
    }
}

/// What the game waits for; `End` is the time in which a player with three tokens flies.
#[derive(Clone, Copy, PartialEq, Eq, Structural, Debug)]
pub enum State {
    Setup,
    Normal,
    Take,
    End,
    Win,
}

impl State {
    /// The name of the state.
    pub open spec fn name(self) -> Seq<char> {
        match self {
            State::Setup => "Setup"@,
            State::Take => "Take"@,
            State::End => "End"@,
            State::Win => "Win"@,
            State::Normal => "Normal"@,
        }
    }

    /// The state that `text` names; any other text names `Normal`.
    pub open spec fn named(text: Seq<char>) -> State {
        if text == "Setup"@ {
            State::Setup
        } else if text == "Take"@ {
            State::Take
        } else if text == "End"@ {
            State::End
        } else if text == "Win"@ {
            State::Win
        } else {
            State::Normal
        }
    }

    /// The name of the state.
    pub fn to_str(self) -> (text: String)
        ensures
            text@ == self.name(),
    {
        match self {
            State::Setup => String::from_str("Setup"),
            State::Take => String::from_str("Take"),
            State::End => String::from_str("End"),
            State::Win => String::from_str("Win"),
            State::Normal => String::from_str("Normal"),
        }
    }

    /// The state that a text names; any other text names `Normal`.
    pub fn parse(string: &str) -> (state: State)
        ensures
            state == State::named(string@),
    {
        let text = string.to_owned();
        if text == String::from_str("Setup") {
            State::Setup
        } else if text == String::from_str("Take") {
            State::Take
        } else if text == String::from_str("End") {
            State::End
        } else if text == String::from_str("Win") {
            State::Win
        } else {
            State::Normal
        }
    }
}

} // verus!
