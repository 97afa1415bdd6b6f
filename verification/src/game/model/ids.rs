use vstd::prelude::*;

verus! {

/// Index of a territory on the board (into `GameCore::territories`).
pub type TerritoryId = usize;

/// Identifier of a player within a game.
#[derive(Copy, Clone, Debug, Eq, PartialEq, Hash, Ord, PartialOrd, Structural)]
pub struct PlayerId(pub u8);

} // verus!
