use vstd::prelude::*;

use crate::game::engine::phases::attack::{attack_step, fair_rolls};
use crate::game::engine::phases::fortify::{fortify_fits, fortify_step};
use crate::game::engine::phases::outcome::{step_view, StepView};
use crate::game::engine::phases::reinforcement::{reinforcement_fits, reinforcement_step};
use crate::game::engine::phases::setup::{setup_fits, setup_step};
use crate::game::protocol::event::EventModel;
use crate::game::protocol::{GameError, GameEvent, PlayerAction};
use crate::game::rules::combat::adjacency_covers_board;
use crate::game::rules::ownership::capture_fits;
use crate::game::rules::reinforcement::board_fits;

use super::game_core::{CoreModel, GameCore};
use super::ids::{PlayerId, TerritoryId};

verus! {

/// The turn phase together with what that phase needs to remember.
#[derive(Clone, Copy, Debug)]
pub enum GameState {
    Setup(SetupPhase),
    Reinforcement(ReinforcementPhase),
    Attack(AttackPhase),
    Fortify(FortifyPhase),
    GameOver(GameOverState),
}

/// Initial placement: `player` places reserve troops on owned territories.
#[derive(Clone, Copy, Debug)]
pub struct SetupPhase {
    pub player: PlayerId,
}

/// `player` places the troops granted at the start of the turn.
#[derive(Clone, Copy, Debug)]
pub struct ReinforcementPhase {
    pub player: PlayerId,
    pub troops_remaining: u32,
}

/// A capture whose troop move is still outstanding.
#[derive(Clone, Copy, Debug)]
pub struct PendingCaptureMove {
    pub from: TerritoryId,
    pub to: TerritoryId,
    pub min_troops: u32,
}

/// `player` attacks neighbouring enemy territories.
#[derive(Clone, Copy, Debug)]
pub struct AttackPhase {
    pub player: PlayerId,
    pub captured_this_turn: bool,
    pub pending_capture: Option<PendingCaptureMove>,
}

/// `player` may move troops once, then ends the turn.
#[derive(Clone, Copy, Debug)]
pub struct FortifyPhase {
    pub player: PlayerId,
    pub used_fortify: bool,
    pub conquered_this_turn: bool,
}

/// The game has ended with `winner` as the last player standing.
#[derive(Clone, Copy, Debug)]
pub struct GameOverState {
    pub winner: PlayerId,
}

#[derive(Clone, Copy, Debug, Eq, PartialEq, Structural)]
pub enum TurnPhase {
    Setup,
    Reinforcement,
    Attack,
    Fortify,
    GameOver,
}

#[derive(Clone, Copy, Debug, Eq, PartialEq, Structural)]
pub enum GamePhase {
    InProgress,
    Finished,
}

/// The phase a state belongs to.
pub open spec fn phase_of(state: GameState) -> TurnPhase {
    match state {
        GameState::Setup(_) => TurnPhase::Setup,
        GameState::Reinforcement(_) => TurnPhase::Reinforcement,
        GameState::Attack(_) => TurnPhase::Attack,
        GameState::Fortify(_) => TurnPhase::Fortify,
        GameState::GameOver(_) => TurnPhase::GameOver,
    }
}

/// The player whose turn it is; nobody once the game is over.
pub open spec fn player_to_move(state: GameState) -> Option<PlayerId> {
    match state {
        GameState::Setup(phase) => Some(phase.player),
        GameState::Reinforcement(phase) => Some(phase.player),
        GameState::Attack(phase) => Some(phase.player),
        GameState::Fortify(phase) => Some(phase.player),
        GameState::GameOver(_) => None,
    }
}

/// The arithmetic of an action stays within the machine's integers and the board
/// lists every territory it refers to.
pub open spec fn action_fits(
    state: GameState,
    core: CoreModel,
    player: PlayerId,
    action: PlayerAction,
) -> bool {
    match state {
        GameState::Setup(_) => board_fits(core) && setup_fits(core, action),
        GameState::Reinforcement(_) => reinforcement_fits(core, action),
        GameState::Attack(_) => adjacency_covers_board(core) && capture_fits(core.players, player),
        GameState::Fortify(_) => adjacency_covers_board(core) && board_fits(core) && fortify_fits(
            core,
            action,
        ),
        GameState::GameOver(_) => true,
    }
}

/// What an action does to the game: the current phase decides. `after` is the
/// game core afterwards and `out` the answer.
pub open spec fn game_step(
    state: GameState,
    before: CoreModel,
    after: CoreModel,
    player: PlayerId,
    action: PlayerAction,
    out: StepView,
) -> bool {
    match state {
        GameState::Setup(phase) => (after, out) == setup_step(phase, before, player, action),
        GameState::Reinforcement(phase) => (after, out) == reinforcement_step(
            phase,
            before,
            player,
            action,
        ),
        GameState::Attack(phase) => exists|a: Seq<u8>, d: Seq<u8>|
            #![trigger attack_step(phase, before, player, action, a, d)]
            fair_rolls(before, player, action, a, d) && (after, out) == attack_step(
                phase,
                before,
                player,
                action,
                a,
                d,
            ),
        GameState::Fortify(phase) => fortify_step(phase, before, after, player, action, out),
        GameState::GameOver(_) => after == before && out == Err::<
            (GameState, Seq<EventModel>),
            GameError,
        >(GameError::GameFinished),
    }
}

impl GameState {
    /// Applies `player`'s action in the current phase.
    pub fn apply_action(self, core: &mut GameCore, player: PlayerId, action: PlayerAction) -> (r:
        Result<(Self, Vec<GameEvent>), GameError>)
        requires
            action_fits(self, old(core)@, player, action),
        ensures
            game_step(self, old(core)@, final(core)@, player, action, step_view(r)),
            r is Err ==> final(core)@ == old(core)@,
            player_to_move(self) is None ==> r == Err::<(Self, Vec<GameEvent>), GameError>(
                GameError::GameFinished,
            ),
            player_to_move(self) matches Some(p) && p != player ==> r == Err::<
                (Self, Vec<GameEvent>),
                GameError,
            >(GameError::NotYourTurn),
    {
        match self {
            GameState::Reinforcement(phase) => phase.apply(core, player, action),
            GameState::Attack(phase) => phase.apply(core, player, action),
            GameState::Fortify(phase) => phase.apply(core, player, action),
            GameState::Setup(phase) => phase.apply(core, player, action),
            GameState::GameOver(_) => Err(GameError::GameFinished),
        }
    }

    pub fn turn_phase(&self) -> (phase: TurnPhase)
        ensures
            phase == phase_of(*self),
    {
        match self {
            GameState::Setup(_) => TurnPhase::Setup,
            GameState::Reinforcement(_) => TurnPhase::Reinforcement,
            GameState::Attack(_) => TurnPhase::Attack,
            GameState::Fortify(_) => TurnPhase::Fortify,
            GameState::GameOver(_) => TurnPhase::GameOver,
        }
    }
}

} // verus!
