//! Messages pushed to players over their websocket.

use vstd::prelude::*;
use vstd::std_specs::convert::FromSpecImpl;

verus! {

/// A move in Standard Algebraic Notation.
#[derive(Debug, Clone)]
pub struct PlayerMoveMessage {
    pub san: String,
}

impl From<String> for PlayerMoveMessage {
    fn from(s: String) -> (m: PlayerMoveMessage) {
        PlayerMoveMessage { san: s }
    }
}

impl FromSpecImpl<String> for PlayerMoveMessage {
    open spec fn obeys_from_spec() -> bool {
        true
    }

    open spec fn from_spec(s: String) -> PlayerMoveMessage {
        PlayerMoveMessage { san: s }
    }
}

/// A notification for a player.
#[derive(Debug, Clone)]
pub enum Message {
    /// The opponent has moved.
    OpponentMove(PlayerMoveMessage),
}

impl From<PlayerMoveMessage> for Message {
    fn from(x: PlayerMoveMessage) -> (m: Message) {
        Message::OpponentMove(x)
    }
}

impl FromSpecImpl<PlayerMoveMessage> for Message {
    open spec fn obeys_from_spec() -> bool {
        true
    }

    open spec fn from_spec(x: PlayerMoveMessage) -> Message {
        Message::OpponentMove(x)
    }
}

} // verus!
