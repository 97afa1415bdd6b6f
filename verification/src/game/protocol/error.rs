use vstd::prelude::*;

verus! {

/// Why an action was refused.
#[derive(Debug, Clone, Copy, Eq, PartialEq, Structural)]
pub enum GameError {
    GameFinished,
    NotYourTurn,
    InvalidAction,
    InvalidTerritory,
    NotEnoughTroops,
    InvalidOwner,
    NotAdjacent,
    InvalidDice,
    AlreadyFortified,
    InvalidFortify,
}

} // verus!
