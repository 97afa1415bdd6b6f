use vstd::prelude::*;

use crate::game::card::CardId;
use crate::game::model::TerritoryId;

verus! {

/// A move a player asks to make.
#[derive(Debug, Clone, Copy)]
pub enum PlayerAction {
    PlaceTroops { territory: TerritoryId, count: u32 },
    Attack { from: TerritoryId, to: TerritoryId, dice: u8 },
    MoveCapturedTroops { count: u32 },
    EndAttack,
    Fortify { from: TerritoryId, to: TerritoryId, count: u32 },
    PlayCards { cards: [CardId; 3] },
    EndTurn,
}

} // verus!
