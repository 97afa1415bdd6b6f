use vstd::prelude::*;

use crate::game::model::game_core::CoreModel;
use crate::game::model::{AttackPhase, FortifyPhase, GameCore, GameState, PlayerId, TurnPhase};
use crate::game::protocol::event::{events_view, EventModel};
use crate::game::protocol::{GameError, GameEvent, PlayerAction};
use crate::game::rules::combat::{
    adjacency_covers_board, attack_check, attack_outcome, defender_dice, resolve_attack,
    sorted_desc, valid_faces,
};
use crate::game::rules::ownership::capture_fits;

use super::outcome::{step_view, StepView};

verus! {

/// What the attack phase does with an action, given the dice that an attack rolls:
/// resolve the attack (remembering a capture), or move on to fortifying.
pub open spec fn attack_step(
    phase: AttackPhase,
    core: CoreModel,
    player: PlayerId,
    action: PlayerAction,
    attacker_rolls: Seq<u8>,
    defender_rolls: Seq<u8>,
) -> (CoreModel, StepView) {
    if player != phase.player {
        (core, Err(GameError::NotYourTurn))
    } else {
        match action {
            PlayerAction::Attack { from, to, dice } => {
                match attack_check(core, player, from as int, to as int, dice as int) {
                    Err(e) => (core, Err(e)),
                    Ok(_) => {
                        let out = attack_outcome(
                            core,
                            player,
                            from,
                            to,
                            dice as u32,
                            attacker_rolls,
                            defender_rolls,
                        );
                        (
                            out.core,
                            Ok(
                                (
                                    GameState::Attack(
                                        AttackPhase {
                                            captured_this_turn: phase.captured_this_turn
                                                || out.captured,
                                            ..phase
                                        },
                                    ),
                                    out.events,
                                ),
                            ),
                        )
                    },
                }
            },
            PlayerAction::EndAttack => (
                core,
                Ok(
                    (
                        GameState::Fortify(
                            FortifyPhase {
                                player,
                                used_fortify: false,
                                conquered_this_turn: phase.captured_this_turn,
                            },
                        ),
                        seq![
                            EventModel::PhaseChanged {
                                current_player: player,
                                phase: TurnPhase::Fortify,
                            },
                        ],
                    ),
                ),
            ),
            _ => (core, Err(GameError::InvalidAction)),
        }
    }
}

/// Dice that an accepted attack can roll: as many as each side throws, each a
/// face of a die, listed from highest to lowest.
pub open spec fn fair_rolls(
    core: CoreModel,
    player: PlayerId,
    action: PlayerAction,
    attacker_rolls: Seq<u8>,
    defender_rolls: Seq<u8>,
) -> bool {
    match action {
        PlayerAction::Attack { from, to, dice } => attack_check(
            core,
            player,
            from as int,
            to as int,
            dice as int,
        ) is Ok ==> {
            &&& attacker_rolls.len() == dice
            &&& defender_rolls.len() == defender_dice(core, to as int)
            &&& valid_faces(attacker_rolls)
            &&& valid_faces(defender_rolls)
            &&& sorted_desc(attacker_rolls)
            &&& sorted_desc(defender_rolls)
        },
        _ => true,
    }
}

/// Dice of the right number for an action, all sixes: a stand-in wherever the
/// dice do not matter.
pub open spec fn sixes(core: CoreModel, action: PlayerAction) -> (Seq<u8>, Seq<u8>) {
    match action {
        PlayerAction::Attack { to, dice, .. } => (
            Seq::new(dice as nat, |i: int| 6u8),
            Seq::new(defender_dice(core, to as int) as nat, |i: int| 6u8),
        ),
        _ => (seq![], seq![]),
    }
}

impl AttackPhase {
    pub fn apply(self, core: &mut GameCore, player: PlayerId, action: PlayerAction) -> (r: Result<
        (GameState, Vec<GameEvent>),
        GameError,
    >)
        requires
            adjacency_covers_board(old(core)@),
            capture_fits(old(core)@.players, player),
        ensures
            exists|a: Seq<u8>, d: Seq<u8>|
                #![trigger attack_step(self, old(core)@, player, action, a, d)]
                fair_rolls(old(core)@, player, action, a, d) && (final(core)@, step_view(r))
                    == attack_step(self, old(core)@, player, action, a, d),
    {
        let ghost c0 = core@;
        let mut phase = self;
        if player != phase.player {
            assert(fair_rolls(c0, player, action, sixes(c0, action).0, sixes(c0, action).1));
            assert((core@, step_view(Err(GameError::NotYourTurn))) == attack_step(self, c0, player, action, sixes(c0, action).0, sixes(c0, action).1));
            return Err(GameError::NotYourTurn);
        }
        match action {
            PlayerAction::Attack { from, to, dice } => {
                match resolve_attack(core, player, from, to, dice as u32) {
                    Err(e) => {
                        assert(fair_rolls(c0, player, action, sixes(c0, action).0, sixes(c0, action).1));
                        assert((core@, step_view(Err(e))) == attack_step(self, c0, player, action, sixes(c0, action).0, sixes(c0, action).1));
                        Err(e)
                    },
                    Ok(resolution) => {
                        let ghost a = resolution.roll.attacker_rolls@;
                        let ghost d = resolution.roll.defender_rolls@;
                        if resolution.captured {
                            phase.captured_this_turn = true;
                        }
                        let r = Ok((GameState::Attack(phase), resolution.events));
                        assert(fair_rolls(c0, player, action, a, d));
                        assert((core@, step_view(r)) == attack_step(self, c0, player, action, a, d));
                        r
                    },
                }
            },
            PlayerAction::EndAttack => {
                let mut events: Vec<GameEvent> = Vec::new();
                events.push(
                    GameEvent::PhaseChanged { current_player: player, phase: TurnPhase::Fortify },
                );
                let r = Ok(
                    (
                        GameState::Fortify(
                            FortifyPhase {
                                player,
                                used_fortify: false,
                                conquered_this_turn: phase.captured_this_turn,
                            },
                        ),
                        events,
                    ),
                );
                assert(events_view(events@) =~= seq![
                    EventModel::PhaseChanged { current_player: player, phase: TurnPhase::Fortify },
                ]);
                assert(fair_rolls(c0, player, action, sixes(c0, action).0, sixes(c0, action).1));
                assert((core@, step_view(r)) == attack_step(self, c0, player, action, sixes(c0, action).0, sixes(c0, action).1));
                r
            },
            _ => {
                assert(fair_rolls(c0, player, action, sixes(c0, action).0, sixes(c0, action).1));
                assert((core@, step_view(Err(GameError::InvalidAction))) == attack_step(self, c0, player, action, sixes(c0, action).0, sixes(c0, action).1));
                Err(GameError::InvalidAction)
            },
        }
    }
}

} // verus!
