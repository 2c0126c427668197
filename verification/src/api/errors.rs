//! API error types with their HTTP status mapping.
//!
//! A unified error type for the REST API: each variant has a status
//! code, a machine-readable key and a human-readable message.

use vstd::prelude::*;

use crate::engine::types::GameError;

verus! {

/// Structured API error.
#[derive(Clone, Debug)]
pub enum ApiError {
    /// Game not found by ID.
    GameNotFound(String),
    /// Action not valid in the current game state.
    InvalidAction(String),
    /// Unexpected internal error.
    Internal(String),
}

impl ApiError {
    /// The human-readable message of the error.
    pub open spec fn text(self) -> Seq<char> {
        match self {
            ApiError::GameNotFound(id) => "game not found: "@ + id@,
            ApiError::InvalidAction(msg) => msg@,
            ApiError::Internal(msg) => "internal error: "@ + msg@,
        }
    }

    /// Whether this API error is the one that the engine error `err`
    /// becomes.
    pub open spec fn translates(self, err: GameError) -> bool {
        match err {
            GameError::InvalidAction(msg) => self matches ApiError::InvalidAction(m) && m@ == msg@,
            GameError::DeckEmpty => self matches ApiError::Internal(m) && m@ == "deck is empty"@,
            GameError::CannotSplit => self matches ApiError::InvalidAction(m) && m@
                == "cannot split: not a pair"@,
        }
    }

    /// The HTTP status code of the error.
    pub open spec fn status(self) -> u16 {
        match self {
            ApiError::GameNotFound(_) => 404,
            ApiError::InvalidAction(_) => 400,
            ApiError::Internal(_) => 500,
        }
    }

    /// The machine-readable key of the error.
    pub open spec fn key(self) -> Seq<char> {
        match self {
            ApiError::GameNotFound(_) => "game_not_found"@,
            ApiError::InvalidAction(_) => "invalid_action"@,
            ApiError::Internal(_) => "internal_error"@,
        }
    }

    /// Convert an engine error to an API error.
    pub fn from_game_error(err: GameError) -> (r: ApiError)
        ensures
            r.translates(err),
    {
        match err {
            GameError::InvalidAction(msg) => ApiError::InvalidAction(msg),
            GameError::DeckEmpty => ApiError::Internal("deck is empty".to_owned()),
            GameError::CannotSplit => ApiError::InvalidAction("cannot split: not a pair".to_owned()),
        }
    }

    /// The HTTP status code: 404 for a missing game, 400 for an invalid
    /// action, 500 for an internal error.
    pub fn status_code(&self) -> (c: u16)
        ensures
            c == self.status(),
    {
        match self {
            ApiError::GameNotFound(_) => 404,
            ApiError::InvalidAction(_) => 400,
            ApiError::Internal(_) => 500,
        }
    }

    /// The machine-readable key of the error body.
    pub fn error_key(&self) -> (k: &'static str)
        ensures
            k@ == self.key(),
    {
        match self {
            ApiError::GameNotFound(_) => "game_not_found",
            ApiError::InvalidAction(_) => "invalid_action",
            ApiError::Internal(_) => "internal_error",
        }
    }

    /// The human-readable message of the error.
    pub fn to_string(&self) -> (s: String)
        ensures
            s@ == self.text(),
    {
        match self {
            ApiError::GameNotFound(id) => "game not found: ".to_owned().concat(id.as_str()),
            ApiError::InvalidAction(msg) => msg.clone(),
            ApiError::Internal(msg) => "internal error: ".to_owned().concat(msg.as_str()),
        }
    }
}

} // verus!
