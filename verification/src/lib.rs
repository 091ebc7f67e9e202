//! Nine men's morris: the board packed into one number, the rules of the game, and a
//! computer player that searches the game tree within a time limit.
//!
//! A board is a `u64`: 24 cells of two bits each, and above them four counters that cache
//! how many tokens and how many steps each colour has. `position` reads and writes cells,
//! `utils` keeps the counters, `graph` knows which cells are neighbours and which form a
//! mill, and `rules` says which moves and captures are allowed. `ai` lists the boards that
//! a turn leads to, scores boards, searches with alpha-beta pruning and chooses a turn;
//! its submodules also hold the proofs that the listed boards are the legal turns and that
//! the counters stay exact. `game` and `logic` are the game as a person plays it, and
//! `rendering` chooses the picture for each cell. `grid` is a second model of the board,
//! as eight spokes of three rings.

pub mod ai;
pub mod counting;
pub mod enums;
pub mod game;
pub mod graph;
pub mod grid;
pub mod logic;
pub mod position;
pub mod rendering;
pub mod rules;
pub mod utils;
