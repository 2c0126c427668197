//! A single-deck Blackjack engine with its game rules, deck and hand
//! arithmetic, and the data that the REST layer hands to clients.

pub mod api;
pub mod config;
pub mod engine;
