use crate::ai::action::{forward_boards, forward_step_boards, is_color, Action};
use crate::ai::minimax::{
    always_late, game_value, lemma_game_value_range, minimax, never_late,
};
use crate::enums::{Difficulty, State};
use crate::game::Game;
use crate::position::{cells, negate_token, negated, WHITE};
use crate::rules::{action_between, get_action_from_board, lemma_action_on_board, on_board};
use crate::utils::{
    insert_number_of_possible_moves_to_board, insert_token_count_to_board,
    with_fresh_move_counts, with_fresh_token_counts,
};
use vstd::prelude::*;

pub mod action;
pub mod bookkeeping;
pub mod legality;
pub mod minimax;
pub mod recovery;

verus! {

/// The number of tokens that the two players set in all.
pub const SETUP_STEPS: u8 = 18;

/// Whether tokens are still being set or are being moved.
#[derive(Clone, Copy, PartialEq, Eq, Structural, Debug)]
pub enum PhaseType {
    Setup,
    Move,
}

/// The phase of the game at a node of the search, and how many steps were made before it.
#[derive(Clone, Copy, Debug, PartialEq, Eq)]
pub struct Phase {
    pub phase: PhaseType,
    pub step_counter: u8,
}

impl Phase {
    /// The phase after one more step: setting ends with the eighteenth token.
    pub open spec fn next(self) -> Phase {
        Phase {
            phase: if self.phase == PhaseType::Setup && self.step_counter + 1 >= SETUP_STEPS {
                PhaseType::Move
            } else {
                self.phase
            },
            step_counter: (self.step_counter + 1) as u8,
        }
    }

    /// A phase with the given step counter.
    pub fn new(phase: PhaseType, step_counter: u8) -> (made: Self)
        ensures
            made.phase == phase,
            made.step_counter == step_counter,
    {
        Phase { phase, step_counter }
    }

    /// The phase after one more step.
    pub fn increased(&self) -> (later: Phase)
        requires
            self.step_counter < 255,
        ensures
            later == self.next(),
    {
        Phase::new(
            if self.phase == PhaseType::Setup && self.step_counter + 1 >= SETUP_STEPS {
                PhaseType::Move
            } else {
                self.phase
            },
            self.step_counter + 1,
        )
    }
}

/// The step counter with which the search starts once all tokens are set.
pub const MOVE_PHASE_STEP: u8 = 20;

/// What the search found at one depth: the best turn, if there is a turn at all, and its
/// score.
#[derive(Clone, Copy, Debug, PartialEq, Eq)]
pub struct DepthResult {
    pub action: Option<Action>,
    pub score: isize,
}

/// How many depths the search goes through for a player.
pub open spec fn depth_limit(difficulty: Difficulty) -> nat {
    match difficulty {
        Difficulty::Off => 1,
        Difficulty::Easy => 1,
        Difficulty::Medium => 6,
        Difficulty::Hard => 50,
    }
}

/// The phase in which the search starts: while tokens are set, the number of tokens set so
/// far is the step counter.
pub open spec fn starting_phase(state: State, setup_pieces_left: u8) -> Phase {
    if state == State::Setup {
        Phase { phase: PhaseType::Setup, step_counter: (SETUP_STEPS - setup_pieces_left) as u8 }
    } else {
        Phase { phase: PhaseType::Move, step_counter: MOVE_PHASE_STEP }
    }
}

/// Whether `first` is better than `second` for the player to move.
pub open spec fn beats(white: bool, first: int, second: int) -> bool {
    if white {
        first > second
    } else {
        first < second
    }
}

/// The place of the best score among the first `upto` scores; of equal scores the first
/// one wins. With no score at all it is 0.
pub open spec fn first_best(scores: Seq<int>, white: bool, upto: nat) -> int
    decreases upto,
{
    if upto <= 1 {
        0
    } else {
        let earlier = first_best(scores, white, (upto - 1) as nat);
        if beats(white, scores[upto - 1], scores[earlier]) {
            upto - 1
        } else {
            earlier
        }
    }
}

/// The best of the boards `candidates` that a turn of `mover` on `board` leads to, given
/// their scores: the turn that leads to the first board with the best score. Without a
/// board there is no turn, and the score is the worst there is.
pub open spec fn best_choice(
    board: u64,
    candidates: Seq<u64>,
    scores: Seq<int>,
    mover: u8,
) -> DepthResult {
    if candidates.len() == 0 {
        DepthResult {
            action: None,
            score: if mover == WHITE {
                isize::MIN
            } else {
                isize::MAX
            },
        }
    } else {
        let best = first_best(scores, mover == WHITE, candidates.len());
        DepthResult {
            action: Some(action_between(cells(board), cells(candidates[best]), mover)),
            score: scores[best] as isize,
        }
    }
}

/// The values of the boards that a turn of `mover` leads to, each looked at `depth` turns
/// ahead with the other player to move.
pub open spec fn root_values(
    candidates: Seq<u64>,
    depth: nat,
    mover: u8,
    phase: Phase,
) -> Seq<int> {
    Seq::new(
        candidates.len(),
        |i: int| game_value(candidates[i], depth, negated(mover), phase.next()),
    )
}

/// What a search that looks `depth` turns ahead finds on `board` with `mover` to move.
pub open spec fn depth_choice(board: u64, mover: u8, phase: Phase, depth: nat) -> DepthResult {
    let candidates = forward_boards(board, mover, phase);
    best_choice(board, candidates, root_values(candidates, depth, mover, phase), mover)
}

/// The turn that the search has after it went through `depths` depths: none before the
/// first; else what the deepest search found.
pub open spec fn action_after(board: u64, mover: u8, phase: Phase, depths: nat) -> Option<Action> {
    if depths == 0 {
        None
    } else {
        depth_choice(board, mover, phase, (depths - 1) as nat).action
    }
}

/// The place of the first best score lies among the scores.
pub proof fn lemma_first_best_in_range(scores: Seq<int>, white: bool, upto: nat)
    requires
        upto >= 1,
    ensures
        0 <= first_best(scores, white, upto) < upto,
    decreases upto,
{
    if upto > 1 {
        lemma_first_best_in_range(scores, white, (upto - 1) as nat);
    }
}

/// Of equal scores the first wins: the score at the place of the first best is better than
/// every score before it, and no score is better than it.
pub proof fn lemma_first_best_is_earliest(scores: Seq<int>, white: bool, upto: nat)
    requires
        upto >= 1,
    ensures
        forall|i: int|
            0 <= i < first_best(scores, white, upto) ==> beats(
                white,
                scores[first_best(scores, white, upto)],
                #[trigger] scores[i],
            ),
        forall|i: int|
            0 <= i < upto ==> !beats(
                white,
                #[trigger] scores[i],
                scores[first_best(scores, white, upto)],
            ),
    decreases upto,
{
    if upto > 1 {
        lemma_first_best_is_earliest(scores, white, (upto - 1) as nat);
        lemma_first_best_in_range(scores, white, (upto - 1) as nat);
    }
}

/// How many depths the search goes through for a player.
pub fn maximum_depth(difficulty: Difficulty) -> (limit: usize)
    ensures
        limit == depth_limit(difficulty),
{
    match difficulty {
        Difficulty::Off => 1,
        Difficulty::Easy => 1,
        Difficulty::Medium => 6,
        Difficulty::Hard => 50,
    }
}

/// The scores of `scored` as far as they are there.
pub open spec fn scores_of(scored: Seq<(u64, Option<isize>)>) -> Seq<int> {
    Seq::new(
        scored.len(),
        |i: int|
            match scored[i].1 {
                Some(score) => score as int,
                None => 0,
            },
    )
}

/// The boards of `scored`.
pub open spec fn boards_of(scored: Seq<(u64, Option<isize>)>) -> Seq<u64> {
    Seq::new(scored.len(), |i: int| scored[i].0)
}

/// Picks the best turn of `token_type` from the boards it leads to and their scores. If the
/// search of one board was given up there is no result for this depth.
pub fn choose_best(board: u64, scored: &Vec<(u64, Option<isize>)>, token_type: u8) -> (chosen:
    Option<DepthResult>)
    ensures
        chosen is Some <==> forall|i: int| 0 <= i < scored@.len() ==> scored@[i].1 is Some,
        chosen matches Some(result) ==> result == best_choice(
            board,
            boards_of(scored@),
            scores_of(scored@),
            token_type,
        ),
{
    let white = token_type == WHITE;
    let mut best_action: Option<Action> = None;
    let mut best_score: isize = if white {
        isize::MIN
    } else {
        isize::MAX
    };
    let ghost scores = scores_of(scored@);
    let ghost boards = boards_of(scored@);
    let mut index: usize = 0;
    while index < scored.len()
        invariant
            index <= scored.len(),
            white == (token_type == WHITE),
            scores == scores_of(scored@),
            boards == boards_of(scored@),
            forall|i: int| 0 <= i < index ==> scored@[i].1 is Some,
            index == 0 ==> best_action is None && best_score == if white {
                isize::MIN
            } else {
                isize::MAX
            },
            index > 0 ==> {
                let best = first_best(scores, white, index as nat);
                &&& 0 <= best < index
                &&& best_score == scores[best]
                &&& best_action == Some(
                    action_between(cells(board), cells(boards[best]), token_type),
                )
            },
        decreases scored.len() - index,
    {
        let (candidate, found) = scored[index];
        let score = match found {
            Some(score) => score,
            None => {
                return None;
            },
        };
        proof {
            if index > 0 {
                lemma_first_best_in_range(scores, white, index as nat);
            }
        }
        if index == 0 || (white && score > best_score) || (!white && score < best_score) {
            best_action = Some(get_action_from_board(board, candidate, token_type));
            best_score = score;
        }
        index += 1;
    }
    Some(DepthResult { action: best_action, score: best_score })
}

/// Looks `depth` turns ahead from each board that a turn of `token_type` leads to, one
/// after the other, and picks the best turn. If the time is up before every board is
/// searched there is no result for this depth.
pub fn search_at_depth<F: Fn() -> u64>(
    board: u64,
    token_type: u8,
    phase: Phase,
    depth: usize,
    clock: &F,
) -> (chosen: Option<DepthResult>)
    requires
        is_color(token_type),
        phase.step_counter + 1 + depth <= 255,
        clock.requires(()),
    ensures
        chosen matches Some(result) ==> result == depth_choice(
            board,
            token_type,
            phase,
            depth as nat,
        ),
        never_late(clock) ==> chosen is Some,
        always_late(clock) && forward_boards(board, token_type, phase).len() > 0 ==> chosen is None,
        forward_boards(board, token_type, phase).len() == 0 ==> chosen is Some,
{
    let candidates = forward_step_boards(&board, token_type, phase);
    let next_player = negate_token(token_type);
    let next_phase = phase.increased();
    let mut scored: Vec<(u64, Option<isize>)> = Vec::new();
    let mut index: usize = 0;
    while index < candidates.len()
        invariant
            index <= candidates.len(),
            candidates@ == forward_boards(board, token_type, phase),
            is_color(next_player),
            next_player == negated(token_type),
            next_phase == phase.next(),
            next_phase.step_counter + depth <= 255,
            clock.requires(()),
            always_late(clock) ==> index == 0,
            scored@.len() == index,
            forall|i: int|
                0 <= i < index ==> {
                    &&& (#[trigger] scored@[i]).0 == candidates@[i]
                    &&& scored@[i].1 == Some(
                        game_value(candidates@[i], depth as nat, next_player, next_phase) as isize,
                    )
                    &&& isize::MIN <= game_value(
                        candidates@[i],
                        depth as nat,
                        next_player,
                        next_phase,
                    ) <= isize::MAX
                },
        decreases candidates.len() - index,
    {
        let candidate = candidates[index];
        let found = minimax(
            candidate,
            depth,
            isize::MIN,
            isize::MAX,
            next_player,
            next_phase,
            clock,
        );
        match found {
            Some(score) => {
                proof {
                    lemma_game_value_range(candidate, depth as nat, next_player, next_phase);
                }
                scored.push((candidate, Some(score)));
            },
            None => {
                return None;
            },
        }
        index += 1;
    }
    proof {
        assert(boards_of(scored@) =~= candidates@);
        assert(scores_of(scored@) =~= root_values(candidates@, depth as nat, token_type, phase));
    }
    choose_best(board, &scored, token_type)
}

/// How far a search that looks deeper and deeper has come: the next depth to search, the
/// number of depths to go through, the turn that the deepest finished search found, and
/// whether a search was given up.
#[derive(Clone, Copy, Debug, PartialEq, Eq)]
pub struct Deepening {
    pub depth: usize,
    pub limit: usize,
    pub best_action: Option<Action>,
    pub stopped: bool,
}

impl Deepening {
    /// The depth to search next, if the search goes on: it ends when a search was given
    /// up or all depths are gone through.
    pub open spec fn pending_depth(self) -> Option<usize> {
        if !self.stopped && self.depth < self.limit {
            Some(self.depth)
        } else {
            None
        }
    }

    /// What becomes of the search when the search at the pending depth ends with `result`:
    /// a finished search gives the turn to keep and the search goes one deeper; a search
    /// that was given up ends it all and the turn found before is kept.
    pub open spec fn recorded(self, result: Option<DepthResult>) -> Deepening {
        match result {
            Some(found) => Deepening {
                depth: (self.depth + 1) as usize,
                best_action: found.action,
                ..self
            },
            None => Deepening { stopped: true, ..self },
        }
    }

    /// A search that has not begun.
    pub fn start(difficulty: Difficulty) -> (search: Deepening)
        ensures
            search == (Deepening {
                depth: 0,
                limit: depth_limit(difficulty) as usize,
                best_action: None,
                stopped: false,
            }),
    {
        Deepening { depth: 0, limit: maximum_depth(difficulty), best_action: None, stopped: false }
    }

    /// The depth to search next, if the search goes on.
    pub fn pending(&self) -> (depth: Option<usize>)
        ensures
            depth == self.pending_depth(),
    {
        if !self.stopped && self.depth < self.limit {
            Some(self.depth)
        } else {
            None
        }
    }

    /// Takes in how the search at the pending depth ended.
    pub fn record(self, result: Option<DepthResult>) -> (search: Deepening)
        requires
            self.pending_depth() is Some,
        ensures
            search == self.recorded(result),
    {
        match result {
            Some(found) => Deepening {
                depth: self.depth + 1,
                limit: self.limit,
                best_action: found.action,
                stopped: self.stopped,
            },
            None => Deepening {
                depth: self.depth,
                limit: self.limit,
                best_action: self.best_action,
                stopped: true,
            },
        }
    }
}

/// The board on which the search for the player of `game` starts: the board of the game
/// with all counters counted anew.
pub fn starting_board(game: &Game) -> (board: u64)
    ensures
        board == with_fresh_move_counts(with_fresh_token_counts(game@.board)),
{
    insert_number_of_possible_moves_to_board(insert_token_count_to_board(game.get_board()))
}

/// The phase in which the search for the player of `game` starts.
pub fn phase_of(game: &Game) -> (phase: Phase)
    requires
        game@.setup_pieces_left <= SETUP_STEPS,
    ensures
        phase == starting_phase(game@.state, game@.setup_pieces_left),
{
    match game.get_state() {
        State::Setup => Phase::new(PhaseType::Setup, SETUP_STEPS - game.get_setup_pieces_left()),
        _ => Phase::new(PhaseType::Move, MOVE_PHASE_STEP),
    }
}

/// Chooses the turn of the player whose turn it is in `game`. The search looks ahead one
/// turn more at each depth, up to the limit that `difficulty` sets, and gives the turn that
/// the deepest finished search found; the search in which the time is up is given up. The
/// clock shows the microseconds gone by since the search for the turn began. There is no
/// turn if the player has none, or if not even the first search was finished.
pub fn compute_step<F: Fn() -> u64>(game: &Game, difficulty: Difficulty, clock: &F) -> (action:
    Option<Action>)
    requires
        is_color(game@.player_turn),
        game@.setup_pieces_left <= SETUP_STEPS,
        clock.requires(()),
    ensures
        exists|depths: nat|
            depths <= depth_limit(difficulty) && action == #[trigger] action_after(
                with_fresh_move_counts(with_fresh_token_counts(game@.board)),
                game@.player_turn,
                starting_phase(game@.state, game@.setup_pieces_left),
                depths,
            ),
        never_late(clock) ==> action == action_after(
            with_fresh_move_counts(with_fresh_token_counts(game@.board)),
            game@.player_turn,
            starting_phase(game@.state, game@.setup_pieces_left),
            depth_limit(difficulty),
        ),
        always_late(clock) ==> action is None,
        action matches Some(turn) ==> on_board(turn),
{
    let phase = phase_of(game);
    let token_type = game.get_player_turn();
    let board = starting_board(game);
    let mut search = Deepening::start(difficulty);
    loop
        invariant
            search.depth <= search.limit <= 50,
            search.limit == depth_limit(difficulty),
            is_color(token_type),
            phase.step_counter <= 20,
            clock.requires(()),
            token_type == game@.player_turn,
            phase == starting_phase(game@.state, game@.setup_pieces_left),
            board == with_fresh_move_counts(with_fresh_token_counts(game@.board)),
            search.best_action == action_after(board, token_type, phase, search.depth as nat),
            search.best_action matches Some(turn) ==> on_board(turn),
            always_late(clock) ==> search.best_action is None,
            never_late(clock) ==> !search.stopped,
        ensures
            search.pending_depth() is None,
        decreases search.limit - search.depth, if search.stopped { 0int } else { 1int },
    {
        let depth = match search.pending() {
            Some(depth) => depth,
            None => {
                break ;
            },
        };
        let result = search_at_depth(board, token_type, phase, depth, clock);
        proof {
            let candidates = forward_boards(board, token_type, phase);
            if candidates.len() > 0 {
                let scores = root_values(candidates, depth as nat, token_type, phase);
                let best = first_best(scores, token_type == WHITE, candidates.len());
                lemma_action_on_board(cells(board), cells(candidates[best]), token_type);
            }
        }
        search = search.record(result);
    }
    search.best_action
}

} // verus!
