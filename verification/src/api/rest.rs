//! Bodies of the REST requests and responses.

use vstd::prelude::*;

verus! {

/// Request to create a game between two nicknames.
#[derive(Debug, Clone)]
pub struct CreateGameRequest {
    pub white: String,
    pub black: String,
}

/// The links of a new game, one for each player.
#[derive(Debug, Clone)]
pub struct CreateGameResponse {
    pub white: String,
    pub black: String,
}

/// A game as one of its players sees it.
#[derive(Debug, Clone)]
pub struct GetGameResponse {
    pub created: i64,
    pub white: String,
    pub black: String,
    pub side: String,
    pub moves: Vec<String>,
}

/// A player's move in Standard Algebraic Notation.
#[derive(Debug, Clone)]
pub struct PlayerMoveRequest {
    pub san: String,
}

/// Whether a move was recorded, and what happened.
#[derive(Debug, Clone)]
pub struct PlayerMoveResponse {
    pub status: bool,
    pub description: String,
}

} // verus!
