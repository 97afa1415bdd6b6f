pub mod card;
pub mod engine;
pub mod model;
pub mod protocol;
pub mod rules;

pub use model::{
    AttackPhase, Continent, FortifyPhase, GameCore, GameMap, GameOverState, GamePhase, GameState,
    Player, PlayerId, ReinforcementPhase, SetupPhase, TerritoryId, TerritoryState, TurnPhase,
};
pub use protocol::{
    player_id_to_u8, ActionContext, CardTypeView, CardView, CombatRollView, GameError, GameEvent,
    GameView, PlayerAction, PlayerPublicView, TerritoryView,
};
