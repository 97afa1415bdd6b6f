pub mod board;
pub mod game_core;
pub mod ids;
pub mod phase_state;
pub mod player;

pub use board::{Continent, GameMap, TerritoryState, DEFAULT_TERRITORY_COUNT};
pub use game_core::GameCore;
pub use ids::{PlayerId, TerritoryId};
pub use phase_state::{
    AttackPhase, FortifyPhase, GameOverState, GamePhase, GameState, PendingCaptureMove,
    ReinforcementPhase, SetupPhase, TurnPhase,
};
pub use player::Player;
