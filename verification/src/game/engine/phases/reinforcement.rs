use vstd::prelude::*;

use crate::game::model::game_core::CoreModel;
use crate::game::model::{
    AttackPhase, GameCore, GameState, PlayerId, ReinforcementPhase, TerritoryState, TurnPhase,
};
use crate::game::protocol::event::EventModel;
use crate::game::protocol::{GameError, GameEvent, PlayerAction};
use crate::game::rules::validation::{owned_territory_check, validate_owned_territory};

use super::outcome::{add_troops, step_view, troops_fit, StepView};

verus! {

/// What the reinforcement phase does with an action: place granted troops on an
/// owned territory (moving on to the attack phase once none are left), accept a
/// card turn-in without effect, and refuse everything else.
pub open spec fn reinforcement_step(
    phase: ReinforcementPhase,
    core: CoreModel,
    player: PlayerId,
    action: PlayerAction,
) -> (CoreModel, StepView) {
    if player != phase.player {
        (core, Err(GameError::NotYourTurn))
    } else {
        match action {
            PlayerAction::PlaceTroops { territory, count } => {
                if count == 0 {
                    (core, Err(GameError::InvalidAction))
                } else if count > phase.troops_remaining {
                    (core, Err(GameError::NotEnoughTroops))
                } else if owned_territory_check(core, player, territory as int) is Err {
                    (core, Err(owned_territory_check(core, player, territory as int)->Err_0))
                } else {
                    let remaining = (phase.troops_remaining - count) as u32;
                    let placed = EventModel::TroopsPlaced { territory, count };
                    let next = add_troops(core, territory as int, count as int);
                    if remaining == 0 {
                        (
                            next,
                            Ok(
                                (
                                    GameState::Attack(
                                        AttackPhase {
                                            player,
                                            captured_this_turn: false,
                                            pending_capture: None,
                                        },
                                    ),
                                    seq![
                                        placed,
                                        EventModel::PhaseChanged {
                                            current_player: player,
                                            phase: TurnPhase::Attack,
                                        },
                                    ],
                                ),
                            ),
                        )
                    } else {
                        (
                            next,
                            Ok(
                                (
                                    GameState::Reinforcement(
                                        ReinforcementPhase { troops_remaining: remaining, ..phase },
                                    ),
                                    seq![placed],
                                ),
                            ),
                        )
                    }
                }
            },
            PlayerAction::PlayCards { .. } => (core, Ok((GameState::Reinforcement(phase), seq![]))),
            _ => (core, Err(GameError::InvalidAction)),
        }
    }
}

/// The troops an action would place fit on their territory.
pub open spec fn reinforcement_fits(core: CoreModel, action: PlayerAction) -> bool {
    match action {
        PlayerAction::PlaceTroops { territory, count } => troops_fit(
            core,
            territory as int,
            count as int,
        ),
        _ => true,
    }
}

impl ReinforcementPhase {
    pub fn apply(self, core: &mut GameCore, player: PlayerId, action: PlayerAction) -> (r: Result<
        (GameState, Vec<GameEvent>),
        GameError,
    >)
        requires
            reinforcement_fits(old(core)@, action),
        ensures
            (final(core)@, step_view(r)) == reinforcement_step(self, old(core)@, player, action),
    {
        let mut phase = self;
        if player != phase.player {
            return Err(GameError::NotYourTurn);
        }
        match action {
            PlayerAction::PlaceTroops { territory, count } => {
                if count == 0 {
                    return Err(GameError::InvalidAction);
                }
                if count > phase.troops_remaining {
                    return Err(GameError::NotEnoughTroops);
                }
                match validate_owned_territory(core, player, territory) {
                    Err(e) => {
                        return Err(e);
                    },
                    Ok(()) => {},
                }
                let ghost before = core@;
                core.territories[territory].troops = core.territories[territory].troops + count;
                assert(core@ == add_troops(before, territory as int, count as int));
                phase.troops_remaining = phase.troops_remaining - count;
                let mut events: Vec<GameEvent> = Vec::new();
                events.push(GameEvent::TroopsPlaced { territory, count });
                if phase.troops_remaining == 0 {
                    events.push(
                        GameEvent::PhaseChanged { current_player: player, phase: TurnPhase::Attack },
                    );
                    assert(crate::game::protocol::event::events_view(events@) =~= seq![
                        EventModel::TroopsPlaced { territory, count },
                        EventModel::PhaseChanged { current_player: player, phase: TurnPhase::Attack },
                    ]);
                    let r = Ok(
                        (
                            GameState::Attack(
                                AttackPhase {
                                    player,
                                    captured_this_turn: false,
                                    pending_capture: None,
                                },
                            ),
                            events,
                        ),
                    );
                    assert(step_view(r) == reinforcement_step(self, before, player, action).1);
                    return r;
                }
                assert(crate::game::protocol::event::events_view(events@) =~= seq![
                    EventModel::TroopsPlaced { territory, count },
                ]);
                let r = Ok((GameState::Reinforcement(phase), events));
                assert(step_view(r) == reinforcement_step(self, before, player, action).1);
                r
            },
            PlayerAction::PlayCards { .. } => {
                let events: Vec<GameEvent> = Vec::new();
                assert(crate::game::protocol::event::events_view(events@) =~= seq![]);
                let r = Ok((GameState::Reinforcement(phase), events));
                assert(step_view(r) == reinforcement_step(self, core@, player, action).1);
                r
            },
            _ => Err(GameError::InvalidAction),
        }
    }
}

/// The troops still to place after an answer of the reinforcement phase.
pub open spec fn troops_left(phase: ReinforcementPhase, out: StepView) -> int {
    match out {
        Ok((GameState::Reinforcement(next), _)) => next.troops_remaining as int,
        Ok(_) => 0,
        Err(_) => phase.troops_remaining as int,
    }
}

/// Reinforcing only moves granted troops onto the board: troops on the board
/// plus troops still to place stay the same.
pub proof fn lemma_reinforcement_conserves_troops(
    phase: ReinforcementPhase,
    before: CoreModel,
    player: PlayerId,
    action: PlayerAction,
)
    requires
        reinforcement_fits(before, action),
    ensures
        ({
            let (after, out) = reinforcement_step(phase, before, player, action);
            crate::game::engine::phases::fortify::total_troops(after.territories) + troops_left(
                phase,
                out,
            ) == crate::game::engine::phases::fortify::total_troops(before.territories)
                + phase.troops_remaining
        }),
{
    if player == phase.player {
        if let PlayerAction::PlaceTroops { territory, count } = action {
            if count != 0 && count <= phase.troops_remaining && owned_territory_check(
                before,
                player,
                territory as int,
            ) is Ok {
                let t = territory as int;
                crate::game::engine::phases::fortify::lemma_total_troops_update(
                    before.territories,
                    t,
                    TerritoryState {
                        troops: (before.territories[t].troops + count) as u32,
                        ..before.territories[t]
                    },
                );
            }
        }
    }
}

} // verus!
