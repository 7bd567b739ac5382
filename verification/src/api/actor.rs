//! Messages between the web handlers, the websocket sessions and the
//! notification server.

use vstd::prelude::*;

use crate::api::ws::Message;
use crate::api::PlayerSide;
use crate::wsserver::SubscribeKey;

verus! {

/// A session has gone.
#[derive(Debug, Clone, Copy)]
pub struct DisconnectMessage {
    pub id: usize,
}

/// A session follows one side of a game.
#[derive(Debug, Clone, Copy)]
pub struct SubscribeMessage {
    /// Client id
    pub id: usize,
    pub game_id: i32,
    pub side: PlayerSide,
}

/// A message for the sessions that follow a side of a game.
#[derive(Debug, Clone)]
pub struct NotifyMessage {
    pub key: SubscribeKey,
    pub msg: Message,
}

} // verus!
