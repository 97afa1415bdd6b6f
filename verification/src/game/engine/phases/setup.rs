use vstd::prelude::*;

use crate::game::model::game_core::CoreModel;
use crate::game::model::player::PlayerModel;
use crate::game::model::{GameCore, GameState, Player, PlayerId, ReinforcementPhase, SetupPhase, TurnPhase};
use crate::game::protocol::event::{events_view, EventModel};
use crate::game::protocol::{GameError, GameEvent, PlayerAction};
use crate::game::rules::reinforcement::{
    board_fits, calculate_reinforcements, lemma_board_fits_reinforcement, reinforcement_total,
};
use crate::game::rules::turn_order::{end_turn, next_player_after};
use crate::game::rules::validation::{
    owned_territory_check, player_index, player_position, validate_owned_territory,
};

use super::outcome::{add_troops, step_view, troops_fit, StepView};

verus! {

/// No player has reserve troops left.
pub open spec fn reserves_spent(players: Seq<PlayerModel>) -> bool {
    forall|i: int| 0 <= i < players.len() ==> #[trigger] players[i].reserve_troops == 0
}

/// What the setup phase does with an action: move reserve troops of the current
/// player onto one of the player's territories. Once nobody has reserves left, the
/// same player starts the first reinforcement phase; once only the current player
/// has run out, setup passes to the next active player. Everything else is refused.
pub open spec fn setup_step(
    phase: SetupPhase,
    core: CoreModel,
    player: PlayerId,
    action: PlayerAction,
) -> (CoreModel, StepView) {
    if player != phase.player {
        (core, Err(GameError::NotYourTurn))
    } else {
        match action {
            PlayerAction::PlaceTroops { territory, count } => {
                let pi = player_index(core.players, player);
                if count == 0 {
                    (core, Err(GameError::InvalidAction))
                } else if owned_territory_check(core, player, territory as int) is Err {
                    (core, Err(owned_territory_check(core, player, territory as int)->Err_0))
                } else if pi < 0 {
                    (core, Err(GameError::InvalidOwner))
                } else if core.players[pi].reserve_troops < count {
                    (core, Err(GameError::NotEnoughTroops))
                } else {
                    let players = core.players.update(
                        pi,
                        PlayerModel {
                            reserve_troops: (core.players[pi].reserve_troops - count) as u32,
                            ..core.players[pi]
                        },
                    );
                    let next_core = add_troops(
                        CoreModel { players, ..core },
                        territory as int,
                        count as int,
                    );
                    let placed = EventModel::TroopsPlaced { territory, count };
                    if reserves_spent(players) {
                        (
                            next_core,
                            Ok(
                                (
                                    GameState::Reinforcement(
                                        ReinforcementPhase {
                                            player,
                                            troops_remaining: reinforcement_total(
                                                next_core,
                                                player,
                                            ) as u32,
                                        },
                                    ),
                                    seq![
                                        placed,
                                        EventModel::PhaseChanged {
                                            current_player: player,
                                            phase: TurnPhase::Reinforcement,
                                        },
                                    ],
                                ),
                            ),
                        )
                    } else if players[pi].reserve_troops == 0 {
                        let next = next_player_after(players, player);
                        (
                            next_core,
                            Ok(
                                (
                                    GameState::Setup(SetupPhase { player: next }),
                                    seq![
                                        placed,
                                        EventModel::PhaseChanged {
                                            current_player: next,
                                            phase: TurnPhase::Setup,
                                        },
                                    ],
                                ),
                            ),
                        )
                    } else {
                        (next_core, Ok((GameState::Setup(phase), seq![placed])))
                    }
                }
            },
            _ => (core, Err(GameError::InvalidAction)),
        }
    }
}

/// The troops an action would place fit on their territory.
pub open spec fn setup_fits(core: CoreModel, action: PlayerAction) -> bool {
    match action {
        PlayerAction::PlaceTroops { territory, count } => troops_fit(
            core,
            territory as int,
            count as int,
        ),
        _ => true,
    }
}

/// Whether no player has reserve troops left.
fn no_reserves_left(players: &Vec<Player>) -> (spent: bool)
    ensures
        spent == reserves_spent(crate::game::model::game_core::players_view(players@)),
{
    let ghost v = crate::game::model::game_core::players_view(players@);
    let mut i: usize = 0;
    while i < players.len()
        invariant
            v == crate::game::model::game_core::players_view(players@),
            i <= players@.len(),
            forall|k: int| 0 <= k < i ==> #[trigger] v[k].reserve_troops == 0,
        decreases players@.len() - i,
    {
        assert(v[i as int] == players@[i as int]@);
        if players[i].reserve_troops != 0 {
            assert(v[i as int].reserve_troops != 0);
            return false;
        }
        i = i + 1;
    }
    true
}

impl SetupPhase {
    pub fn apply(self, core: &mut GameCore, player: PlayerId, action: PlayerAction) -> (r: Result<
        (GameState, Vec<GameEvent>),
        GameError,
    >)
        requires
            board_fits(old(core)@),
            setup_fits(old(core)@, action),
        ensures
            (final(core)@, step_view(r)) == setup_step(self, old(core)@, player, action),
    {
        if player != self.player {
            return Err(GameError::NotYourTurn);
        }
        match action {
            PlayerAction::PlaceTroops { territory, count } => {
                let ghost c0 = core@;
                let ghost pi = player_index(c0.players, player);
                if count == 0 {
                    return Err(GameError::InvalidAction);
                }
                match validate_owned_territory(core, player, territory) {
                    Err(e) => {
                        return Err(e);
                    },
                    Ok(()) => {},
                }
                let pos = match player_position(&core.players, player) {
                    None => {
                        return Err(GameError::InvalidOwner);
                    },
                    Some(i) => i,
                };
                assert(c0.players[pi] == core.players@[pos as int]@);
                if core.players[pos].reserve_troops < count {
                    return Err(GameError::NotEnoughTroops);
                }
                core.players[pos].reserve_troops = core.players[pos].reserve_troops - count;
                let ghost players = c0.players.update(
                    pi,
                    PlayerModel {
                        reserve_troops: (c0.players[pi].reserve_troops - count) as u32,
                        ..c0.players[pi]
                    },
                );
                assert(core@.players =~= players);
                let ghost c1 = core@;
                core.territories[territory].troops = core.territories[territory].troops + count;
                let ghost next_core = add_troops(
                    CoreModel { players, ..c0 },
                    territory as int,
                    count as int,
                );
                assert(core@ == next_core);

                let mut events: Vec<GameEvent> = Vec::new();
                events.push(GameEvent::TroopsPlaced { territory, count });
                if no_reserves_left(&core.players) {
                    let next_player = player;
                    proof {
                        lemma_board_fits_reinforcement(core@, next_player);
                    }
                    let troops_remaining = calculate_reinforcements(core, next_player);
                    events.push(
                        GameEvent::PhaseChanged {
                            current_player: next_player,
                            phase: TurnPhase::Reinforcement,
                        },
                    );
                    assert(events_view(events@) =~= seq![
                        EventModel::TroopsPlaced { territory, count },
                        EventModel::PhaseChanged {
                            current_player: player,
                            phase: TurnPhase::Reinforcement,
                        },
                    ]);
                    let r = Ok(
                        (
                            GameState::Reinforcement(
                                ReinforcementPhase { player: next_player, troops_remaining },
                            ),
                            events,
                        ),
                    );
                    assert(step_view(r) == setup_step(self, c0, player, action).1);
                    return r;
                }
                if core.players[pos].reserve_troops == 0 {
                    let next_player = end_turn(core, player);
                    events.push(
                        GameEvent::PhaseChanged { current_player: next_player, phase: TurnPhase::Setup },
                    );
                    assert(events_view(events@) =~= seq![
                        EventModel::TroopsPlaced { territory, count },
                        EventModel::PhaseChanged {
                            current_player: next_player,
                            phase: TurnPhase::Setup,
                        },
                    ]);
                    let r = Ok((GameState::Setup(SetupPhase { player: next_player }), events));
                    assert(step_view(r) == setup_step(self, c0, player, action).1);
                    return r;
                }
                assert(events_view(events@) =~= seq![EventModel::TroopsPlaced { territory, count }]);
                let r = Ok((GameState::Setup(self), events));
                assert(step_view(r) == setup_step(self, c0, player, action).1);
                r
            },
            _ => Err(GameError::InvalidAction),
        }
    }
}

} // verus!
