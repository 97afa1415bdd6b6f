use vstd::prelude::*;

use crate::game::card::Card;

use super::ids::PlayerId;

verus! {

/// One participant of a game, with the cards in hand and troops not yet placed.
#[derive(Clone, Debug)]
pub struct Player {
    pub id: PlayerId,
    pub cards: Vec<Card>,
    pub reserve_troops: u32,
    pub territories_owned: u32,
    pub eliminated: bool,
}

/// A player as a mathematical value: the hand is a sequence of cards.
pub struct PlayerModel {
    pub id: PlayerId,
    pub cards: Seq<Card>,
    pub reserve_troops: u32,
    pub territories_owned: u32,
    pub eliminated: bool,
}

impl View for Player {
    type V = PlayerModel;

    open spec fn view(&self) -> PlayerModel {
        PlayerModel {
            id: self.id,
            cards: self.cards@,
            reserve_troops: self.reserve_troops,
            territories_owned: self.territories_owned,
            eliminated: self.eliminated,
        }
    }
}

impl PlayerModel {
    /// Still in the game: not eliminated and holding at least one territory.
    pub open spec fn is_active(self) -> bool {
        !self.eliminated && self.territories_owned > 0
    }
}

} // verus!
