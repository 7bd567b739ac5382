//! Correspondence chess: the verified core of an anonymous correspondence
//! chess server. Games are identified by shareable slugs, moves are checked
//! against the rules of chess before they are recorded, and players that
//! watch a game are told about their opponent's moves.

pub mod api;
pub mod chess;
pub mod hashid;
pub mod models;
pub mod position;
pub mod webapp;
pub mod wsserver;
