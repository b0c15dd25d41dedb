//! A two-player cooperative card game of hidden information: the card codec,
//! card-set bitmasks, the deck, the game state machine and the agents that
//! reason about what each hand slot could hold.

pub mod bits;
pub mod enums;
pub mod card;
pub mod decksubset;
pub mod board;
pub mod hint;
pub mod knowledge;
pub mod deck;
pub mod strategy;
pub mod player;
pub mod game;
pub mod strategies;
