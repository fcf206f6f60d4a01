//! Brainfuck Joust: a compiler for the jousting dialect of Brainfuck and an
//! engine that plays two compiled bots against each other on a shared tape.
//!
//! `parse_bot` turns source text into a program whose loops point at each
//! other; `play` runs one round between two programs; `run_game` and
//! `run_complete_game` add up the points of many rounds.

mod arena;
mod bot_in_play;
mod game;
mod instruction;
mod parser;
mod resolution;
mod round;

pub use arena::Arena;
pub use bot_in_play::{BotInPlay, Mutation, Orientation, Polarity};
pub use game::{run_complete_game, run_game, AllRounds, GameResult};
pub use instruction::{Bot, Instruction};
pub use parser::{parse_bot, BracketKind, CompileError};
pub use round::{play, RoundParams, RoundResult};
