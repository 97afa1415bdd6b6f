use backend::game::card::{Card, CardType};
use backend::game::model::{
    AttackPhase, Continent, FortifyPhase, GameCore, GameMap, GameState, Player, PlayerId,
    ReinforcementPhase, SetupPhase, TerritoryState, TurnPhase,
};
use backend::game::protocol::{GameError, GameEvent, PlayerAction};

fn three_territory_core() -> GameCore {
    GameCore {
        players: vec![
            Player {
                id: PlayerId(0),
                cards: vec![],
                reserve_troops: 0,
                territories_owned: 2,
                eliminated: false,
            },
            Player {
                id: PlayerId(1),
                cards: vec![],
                reserve_troops: 0,
                territories_owned: 1,
                eliminated: false,
            },
        ],
        territories: vec![
            TerritoryState { owner: PlayerId(0), troops: 3 },
            TerritoryState { owner: PlayerId(0), troops: 1 },
            TerritoryState { owner: PlayerId(1), troops: 2 },
        ],
        deck: vec![],
        discard: vec![],
        map: GameMap {
            adjacency: vec![vec![1, 2], vec![0], vec![0]],
            continents: vec![Continent { territories: vec![0, 1, 2], bonus: 0 }],
        },
        sets_turned_in: 0,
    }
}

#[test]
fn fortify_rejects_non_adjacent_move() {
    let mut core = three_territory_core();
    core.map.adjacency[0].clear();
    let phase = FortifyPhase { player: PlayerId(0), used_fortify: false, conquered_this_turn: false };

    let result = phase.apply(&mut core, PlayerId(0), PlayerAction::Fortify { from: 0, to: 1, count: 1 });

    assert_eq!(result.unwrap_err(), GameError::NotAdjacent);
}

#[test]
fn end_turn_awards_card_after_conquest() {
    let mut core = three_territory_core();
    core.deck = vec![Card { card_type: CardType::Infantry, territory: 0, id: 7 }];

    let phase = FortifyPhase { player: PlayerId(0), used_fortify: false, conquered_this_turn: true };

    let (_state, _events) = phase
        .apply(&mut core, PlayerId(0), PlayerAction::EndTurn)
        .expect("end turn should succeed");

    assert_eq!(core.players[0].cards.len(), 1);
}

#[test]
fn reinforcement_transitions_to_attack() {
    let mut core = three_territory_core();
    let phase = ReinforcementPhase { player: PlayerId(0), troops_remaining: 3 };

    let (state, events) = phase
        .apply(&mut core, PlayerId(0), PlayerAction::PlaceTroops { territory: 0, count: 3 })
        .unwrap();

    assert!(matches!(state, GameState::Attack(_)));
    assert!(events.iter().any(|event| matches!(
        event,
        GameEvent::PhaseChanged { phase: TurnPhase::Attack, .. }
    )));
}

#[test]
fn fortify_moves_troops_once_and_keeps_the_total() {
    let mut core = three_territory_core();
    let phase = FortifyPhase { player: PlayerId(0), used_fortify: false, conquered_this_turn: false };
    let (state, events) = phase
        .apply(&mut core, PlayerId(0), PlayerAction::Fortify { from: 0, to: 1, count: 2 })
        .unwrap();
    assert_eq!(core.territories[0].troops, 1);
    assert_eq!(core.territories[1].troops, 3);
    assert!(matches!(events[0], GameEvent::Fortified { from: 0, to: 1, count: 2 }));
    let GameState::Fortify(next) = state else {
        panic!("expected fortify phase");
    };
    assert!(next.used_fortify);
    let again = next.apply(&mut core, PlayerId(0), PlayerAction::Fortify { from: 1, to: 0, count: 1 });
    assert_eq!(again.unwrap_err(), GameError::AlreadyFortified);
    assert_eq!(core.territories[0].troops + core.territories[1].troops, 4);
}

#[test]
fn fortify_refusals_name_their_reason() {
    let mut core = three_territory_core();
    let phase = FortifyPhase { player: PlayerId(0), used_fortify: false, conquered_this_turn: false };
    let cases = vec![
        (PlayerAction::Fortify { from: 0, to: 1, count: 0 }, GameError::InvalidFortify),
        (PlayerAction::Fortify { from: 0, to: 0, count: 1 }, GameError::InvalidFortify),
        (PlayerAction::Fortify { from: 0, to: 2, count: 1 }, GameError::InvalidOwner),
        (PlayerAction::Fortify { from: 0, to: 8, count: 1 }, GameError::InvalidTerritory),
        (PlayerAction::Fortify { from: 0, to: 1, count: 3 }, GameError::NotEnoughTroops),
        (PlayerAction::EndAttack, GameError::InvalidAction),
    ];
    for (action, expected) in cases {
        assert_eq!(phase.apply(&mut core, PlayerId(0), action).unwrap_err(), expected);
    }
    assert_eq!(
        phase.apply(&mut core, PlayerId(1), PlayerAction::EndTurn).unwrap_err(),
        GameError::NotYourTurn
    );
    assert_eq!(core.territories[0].troops, 3);
}

#[test]
fn end_turn_passes_to_next_player_with_reinforcements() {
    let mut core = three_territory_core();
    let phase = FortifyPhase { player: PlayerId(0), used_fortify: true, conquered_this_turn: false };
    let (state, events) = phase.apply(&mut core, PlayerId(0), PlayerAction::EndTurn).unwrap();
    let GameState::Reinforcement(next) = state else {
        panic!("expected reinforcement phase");
    };
    assert_eq!(next.player, PlayerId(1));
    assert_eq!(next.troops_remaining, 3);
    assert!(matches!(events[0], GameEvent::TurnEnded { next_player: PlayerId(1) }));
    // no conquest, no card
    assert!(core.players[0].cards.is_empty());
}

#[test]
fn end_turn_with_one_player_left_ends_the_game() {
    let mut core = three_territory_core();
    core.players[1].eliminated = true;
    core.players[1].territories_owned = 0;
    let phase = FortifyPhase { player: PlayerId(0), used_fortify: false, conquered_this_turn: false };
    let (state, events) = phase.apply(&mut core, PlayerId(0), PlayerAction::EndTurn).unwrap();
    assert!(matches!(state, GameState::GameOver(ref over) if over.winner == PlayerId(0)));
    assert!(matches!(events[0], GameEvent::PhaseChanged { phase: TurnPhase::GameOver, .. }));
    let finished = state.apply_action(&mut core, PlayerId(0), PlayerAction::EndTurn);
    assert_eq!(finished.unwrap_err(), GameError::GameFinished);
}

#[test]
fn empty_deck_is_refilled_from_the_discard_pile() {
    let mut core = three_territory_core();
    core.discard = vec![
        Card { card_type: CardType::Infantry, territory: 0, id: 1 },
        Card { card_type: CardType::Cavalry, territory: 1, id: 2 },
        Card { card_type: CardType::Artillery, territory: 2, id: 3 },
    ];
    let phase = FortifyPhase { player: PlayerId(0), used_fortify: false, conquered_this_turn: true };
    phase.apply(&mut core, PlayerId(0), PlayerAction::EndTurn).unwrap();
    assert!(core.discard.is_empty());
    assert_eq!(core.deck.len(), 2);
    assert_eq!(core.players[0].cards.len(), 1);
    let mut ids: Vec<u32> = core.deck.iter().map(|c| c.id).collect();
    ids.push(core.players[0].cards[0].id);
    ids.sort();
    assert_eq!(ids, vec![1, 2, 3]);
}

#[test]
fn reinforcement_refusals_and_card_play() {
    let mut core = three_territory_core();
    let phase = ReinforcementPhase { player: PlayerId(0), troops_remaining: 3 };
    let cases = vec![
        (PlayerAction::PlaceTroops { territory: 0, count: 0 }, GameError::InvalidAction),
        (PlayerAction::PlaceTroops { territory: 0, count: 4 }, GameError::NotEnoughTroops),
        (PlayerAction::PlaceTroops { territory: 2, count: 1 }, GameError::InvalidOwner),
        (PlayerAction::PlaceTroops { territory: 7, count: 1 }, GameError::InvalidTerritory),
        (PlayerAction::EndTurn, GameError::InvalidAction),
    ];
    for (action, expected) in cases {
        assert_eq!(phase.apply(&mut core, PlayerId(0), action).unwrap_err(), expected);
    }
    let (state, events) = phase
        .apply(&mut core, PlayerId(0), PlayerAction::PlayCards { cards: [1, 2, 3] })
        .unwrap();
    assert!(events.is_empty());
    assert!(matches!(state, GameState::Reinforcement(ref p) if p.troops_remaining == 3));
    let (state, events) = phase
        .apply(&mut core, PlayerId(0), PlayerAction::PlaceTroops { territory: 1, count: 2 })
        .unwrap();
    assert_eq!(core.territories[1].troops, 3);
    assert_eq!(events.len(), 1);
    assert!(matches!(state, GameState::Reinforcement(ref p) if p.troops_remaining == 1));
}

#[test]
fn setup_places_reserves_and_passes_the_turn() {
    let mut core = three_territory_core();
    core.players[0].reserve_troops = 2;
    core.players[1].reserve_troops = 1;
    let phase = SetupPhase { player: PlayerId(0) };
    let (state, _) = phase
        .apply(&mut core, PlayerId(0), PlayerAction::PlaceTroops { territory: 0, count: 1 })
        .unwrap();
    assert!(matches!(state, GameState::Setup(ref p) if p.player == PlayerId(0)));
    let (state, events) = phase
        .apply(&mut core, PlayerId(0), PlayerAction::PlaceTroops { territory: 1, count: 1 })
        .unwrap();
    assert!(matches!(state, GameState::Setup(ref p) if p.player == PlayerId(1)));
    assert!(matches!(events[1], GameEvent::PhaseChanged { phase: TurnPhase::Setup, .. }));
    let setup = SetupPhase { player: PlayerId(1) };
    assert_eq!(
        setup
            .apply(&mut core, PlayerId(1), PlayerAction::PlaceTroops { territory: 2, count: 2 })
            .unwrap_err(),
        GameError::NotEnoughTroops
    );
    let (state, events) = setup
        .apply(&mut core, PlayerId(1), PlayerAction::PlaceTroops { territory: 2, count: 1 })
        .unwrap();
    // everybody has placed everything: the same player starts reinforcing
    assert!(matches!(state, GameState::Reinforcement(ref p) if p.player == PlayerId(1) && p.troops_remaining == 3));
    assert!(matches!(events[1], GameEvent::PhaseChanged { phase: TurnPhase::Reinforcement, .. }));
    assert_eq!(core.territories[0].troops, 4);
    assert_eq!(core.territories[1].troops, 2);
    assert_eq!(core.territories[2].troops, 3);
}

#[test]
fn actions_out_of_turn_are_refused_unchanged() {
    let mut core = three_territory_core();
    let states = vec![
        GameState::Setup(SetupPhase { player: PlayerId(1) }),
        GameState::Reinforcement(ReinforcementPhase { player: PlayerId(1), troops_remaining: 3 }),
        GameState::Attack(AttackPhase {
            player: PlayerId(1),
            captured_this_turn: false,
            pending_capture: None,
        }),
        GameState::Fortify(FortifyPhase {
            player: PlayerId(1),
            used_fortify: false,
            conquered_this_turn: false,
        }),
    ];
    for state in states {
        let result =
            state.apply_action(&mut core, PlayerId(0), PlayerAction::PlaceTroops { territory: 0, count: 1 });
        assert_eq!(result.unwrap_err(), GameError::NotYourTurn);
        assert_eq!(state.turn_phase() == TurnPhase::GameOver, false);
    }
    assert_eq!(core.territories[0].troops, 3);
}

#[test]
fn attack_phase_resolves_and_moves_on() {
    let mut core = three_territory_core();
    let phase = AttackPhase { player: PlayerId(0), captured_this_turn: false, pending_capture: None };
    let (state, events) = phase
        .apply(&mut core, PlayerId(0), PlayerAction::Attack { from: 0, to: 2, dice: 2 })
        .unwrap();
    assert!(matches!(state, GameState::Attack(_)));
    assert!(matches!(events[0], GameEvent::AttackResolved { .. }));
    let total_losses = match &events[0] {
        GameEvent::AttackResolved { attacker_losses, defender_losses, .. } => {
            attacker_losses + defender_losses
        }
        _ => 0,
    };
    assert_eq!(total_losses, 2);
    assert_eq!(
        phase
            .apply(&mut core, PlayerId(0), PlayerAction::MoveCapturedTroops { count: 1 })
            .unwrap_err(),
        GameError::InvalidAction
    );
    let (state, events) = phase.apply(&mut core, PlayerId(0), PlayerAction::EndAttack).unwrap();
    assert!(matches!(state, GameState::Fortify(ref f) if !f.used_fortify));
    assert!(matches!(events[0], GameEvent::PhaseChanged { phase: TurnPhase::Fortify, .. }));
}
