use vstd::prelude::*;

use crate::game::card::{Card, CardType};
use crate::game::model::{GamePhase, PlayerId, TurnPhase};

verus! {

/// What one player is shown of the game.
#[derive(Clone, Debug)]
pub struct GameView {
    pub you_player_id: u8,
    pub current_player_id: u8,
    pub turn_phase: TurnPhase,
    pub game_phase: GamePhase,
    pub territories: Vec<TerritoryView>,
    pub players_public: Vec<PlayerPublicView>,
    pub your_cards: Vec<CardView>,
    pub latest_combat_roll: Option<CombatRollView>,
    pub action_context: ActionContext,
}

#[derive(Clone, Copy, Debug)]
pub struct TerritoryView {
    pub id: usize,
    pub continent_id: usize,
    pub owner_player_id: u8,
    pub troops: u32,
}

/// What everybody may know of a player.
#[derive(Clone, Copy, Debug)]
pub struct PlayerPublicView {
    pub player_id: u8,
    pub territories_owned: u32,
    pub card_count: usize,
    pub eliminated: bool,
}

#[derive(Clone, Copy, Debug)]
pub struct CardView {
    pub card_id: u32,
    pub territory_id: usize,
    pub card_type: CardTypeView,
}

#[derive(Clone, Copy, Debug, Eq, PartialEq, Structural)]
pub enum CardTypeView {
    Infantry,
    Cavalry,
    Artillery,
}

/// The dice of the last attack.
#[derive(Clone, Debug)]
pub struct CombatRollView {
    pub from: usize,
    pub to: usize,
    pub attacker_rolls: Vec<u8>,
    pub defender_rolls: Vec<u8>,
    pub attacker_losses: u8,
    pub defender_losses: u8,
}

/// What the current phase lets the current player do.
#[derive(Clone, Copy, Debug)]
pub enum ActionContext {
    Setup {},
    Reinforcement { troops_remaining: u32 },
    Attack { captured_this_turn: bool },
    Fortify { used_fortify: bool },
    GameOver { winner_player_id: u8 },
}

pub open spec fn card_type_view_of(value: CardType) -> CardTypeView {
    match value {
        CardType::Infantry => CardTypeView::Infantry,
        CardType::Cavalry => CardTypeView::Cavalry,
        CardType::Artillery => CardTypeView::Artillery,
    }
}

pub open spec fn card_view_of(value: Card) -> CardView {
    CardView {
        card_id: value.id,
        territory_id: value.territory as usize,
        card_type: card_type_view_of(value.card_type),
    }
}

impl From<CardType> for CardTypeView {
    fn from(value: CardType) -> (view: Self) {
        match value {
            CardType::Infantry => CardTypeView::Infantry,
            CardType::Cavalry => CardTypeView::Cavalry,
            CardType::Artillery => CardTypeView::Artillery,
        }
    }
}

impl vstd::std_specs::convert::FromSpecImpl<CardType> for CardTypeView {
    open spec fn obeys_from_spec() -> bool {
        true
    }

    open spec fn from_spec(value: CardType) -> Self {
        card_type_view_of(value)
    }
}

impl From<Card> for CardView {
    fn from(value: Card) -> (view: Self) {
        Self {
            card_id: value.id,
            territory_id: value.territory as usize,
            card_type: CardTypeView::from(value.card_type),
        }
    }
}

impl vstd::std_specs::convert::FromSpecImpl<Card> for CardView {
    open spec fn obeys_from_spec() -> bool {
        true
    }

    open spec fn from_spec(value: Card) -> Self {
        card_view_of(value)
    }
}

pub fn player_id_to_u8(id: PlayerId) -> (value: u8)
    ensures
        value == id.0,
{
    id.0
}

} // verus!
