pub mod action;
pub mod error;
pub mod event;
pub mod view;

pub use action::PlayerAction;
pub use error::GameError;
pub use event::GameEvent;
pub use view::{
    player_id_to_u8, ActionContext, CardTypeView, CardView, CombatRollView, GameView,
    PlayerPublicView, TerritoryView,
};
