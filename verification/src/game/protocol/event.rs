use vstd::prelude::*;

use crate::game::model::{PlayerId, TerritoryId, TurnPhase};

verus! {

/// Something that happened in the game, reported to every player of the room.
#[derive(Clone, Debug)]
pub enum GameEvent {
    TroopsPlaced { territory: TerritoryId, count: u32 },
    AttackResolved {
        from: TerritoryId,
        to: TerritoryId,
        attacker_rolls: Vec<u8>,
        defender_rolls: Vec<u8>,
        attacker_losses: u8,
        defender_losses: u8,
    },
    TerritoryCaptured { territory: TerritoryId, new_owner: PlayerId },
    PlayerEliminated { player: PlayerId },
    Fortified { from: TerritoryId, to: TerritoryId, count: u32 },
    TurnEnded { next_player: PlayerId },
    PhaseChanged { current_player: PlayerId, phase: TurnPhase },
}

/// An event as a mathematical value: dice rolls are sequences.
pub enum EventModel {
    TroopsPlaced { territory: TerritoryId, count: u32 },
    AttackResolved {
        from: TerritoryId,
        to: TerritoryId,
        attacker_rolls: Seq<u8>,
        defender_rolls: Seq<u8>,
        attacker_losses: u8,
        defender_losses: u8,
    },
    TerritoryCaptured { territory: TerritoryId, new_owner: PlayerId },
    PlayerEliminated { player: PlayerId },
    Fortified { from: TerritoryId, to: TerritoryId, count: u32 },
    TurnEnded { next_player: PlayerId },
    PhaseChanged { current_player: PlayerId, phase: TurnPhase },
}

impl View for GameEvent {
    type V = EventModel;

    open spec fn view(&self) -> EventModel {
        match self {
            GameEvent::TroopsPlaced { territory, count } => EventModel::TroopsPlaced {
                territory: *territory,
                count: *count,
            },
            GameEvent::AttackResolved {
                from,
                to,
                attacker_rolls,
                defender_rolls,
                attacker_losses,
                defender_losses,
            } => EventModel::AttackResolved {
                from: *from,
                to: *to,
                attacker_rolls: attacker_rolls@,
                defender_rolls: defender_rolls@,
                attacker_losses: *attacker_losses,
                defender_losses: *defender_losses,
            },
            GameEvent::TerritoryCaptured { territory, new_owner } => EventModel::TerritoryCaptured {
                territory: *territory,
                new_owner: *new_owner,
            },
            GameEvent::PlayerEliminated { player } => EventModel::PlayerEliminated {
                player: *player,
            },
            GameEvent::Fortified { from, to, count } => EventModel::Fortified {
                from: *from,
                to: *to,
                count: *count,
            },
            GameEvent::TurnEnded { next_player } => EventModel::TurnEnded {
                next_player: *next_player,
            },
            GameEvent::PhaseChanged { current_player, phase } => EventModel::PhaseChanged {
                current_player: *current_player,
                phase: *phase,
            },
        }
    }
}

/// A list of events as mathematical values.
pub open spec fn events_view(events: Seq<GameEvent>) -> Seq<EventModel> {
    events.map_values(|e: GameEvent| e@)
}

} // verus!
