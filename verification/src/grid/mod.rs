pub mod enums;
pub mod game;
pub mod logic;
pub mod rendering;
