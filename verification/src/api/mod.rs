//! Values exchanged with clients and between the server's parts.

pub mod actor;
pub mod rest;
pub mod ws;

use vstd::prelude::*;
use vstd::std_specs::convert::FromSpecImpl;

verus! {

/// Which player a game link belongs to.
#[derive(Debug, Clone, Copy, PartialEq, Eq, Hash, Structural)]
pub enum PlayerSide {
    White,
    Black,
    Neither,
}

/// The side that a number stands for in a game link: 0 is white, 1 is black,
/// any other number is no side at all.
pub open spec fn side_of_code(x: u64) -> PlayerSide {
    if x == 0 {
        PlayerSide::White
    } else if x == 1 {
        PlayerSide::Black
    } else {
        PlayerSide::Neither
    }
}

/// The side that plays against `side`; `Neither` has no opponent.
pub open spec fn opponent_of(side: PlayerSide) -> PlayerSide {
    match side {
        PlayerSide::White => PlayerSide::Black,
        PlayerSide::Black => PlayerSide::White,
        PlayerSide::Neither => PlayerSide::Neither,
    }
}

impl From<u64> for PlayerSide {
    fn from(x: u64) -> (side: PlayerSide) {
        if x == 0 {
            PlayerSide::White
        } else if x == 1 {
            PlayerSide::Black
        } else {
            PlayerSide::Neither
        }
    }
}

impl FromSpecImpl<u64> for PlayerSide {
    open spec fn obeys_from_spec() -> bool {
        true
    }

    open spec fn from_spec(x: u64) -> PlayerSide {
        side_of_code(x)
    }
}

impl PlayerSide {
    /// The opposing side.
    pub fn opponent(&self) -> (other: PlayerSide)
        ensures
            other == opponent_of(*self),
    {
        match self {
            PlayerSide::White => PlayerSide::Black,
            PlayerSide::Black => PlayerSide::White,
            PlayerSide::Neither => PlayerSide::Neither,
        }
    }
}

/// Playing against the opponent of a side is playing against that side again.
pub proof fn opponent_involutive(side: PlayerSide)
    ensures
        opponent_of(opponent_of(side)) == side,
{
}

/// A side that belongs to a player is never its own opponent.
pub proof fn opponent_differs(side: PlayerSide)
    requires
        side != PlayerSide::Neither,
    ensures
        opponent_of(side) != side,
        opponent_of(side) != PlayerSide::Neither,
{
}

} // verus!
