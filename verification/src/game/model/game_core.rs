use vstd::prelude::*;

use crate::game::card::Card;

use super::board::{GameMap, MapModel, TerritoryState};
use super::player::{Player, PlayerModel};

verus! {

/// Everything of a game that is not the turn phase: players, board and cards.
#[derive(Clone, Debug)]
pub struct GameCore {
    pub players: Vec<Player>,
    pub territories: Vec<TerritoryState>,
    pub deck: Vec<Card>,
    pub discard: Vec<Card>,
    pub map: GameMap,
    pub sets_turned_in: u32,
}

/// The game core as a mathematical value.
pub struct CoreModel {
    pub players: Seq<PlayerModel>,
    pub territories: Seq<TerritoryState>,
    pub deck: Seq<Card>,
    pub discard: Seq<Card>,
    pub map: MapModel,
    pub sets_turned_in: u32,
}

pub open spec fn players_view(players: Seq<Player>) -> Seq<PlayerModel> {
    players.map_values(|p: Player| p@)
}

impl View for GameCore {
    type V = CoreModel;

    open spec fn view(&self) -> CoreModel {
        CoreModel {
            players: players_view(self.players@),
            territories: self.territories@,
            deck: self.deck@,
            discard: self.discard@,
            map: self.map@,
            sets_turned_in: self.sets_turned_in,
        }
    }
}

} // verus!
