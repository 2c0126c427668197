//! Pure game logic: cards, deck, hand value, game state machine.

pub mod deck;
pub mod game;
pub mod hand;
pub mod types;
