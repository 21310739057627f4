//! Rules engine of a single-player Klondike patience: the cards, the shoe
//! they are dealt from, the board with its piles, and the moves between them.
//! Every operation carries a contract over a mathematical model of the board.

pub mod card;
pub mod deck;
pub mod rules;
pub mod laws;
pub mod board;
pub mod snapshot;
pub mod turn;
