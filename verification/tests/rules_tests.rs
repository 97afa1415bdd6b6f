use backend::game::card::{Card, CardType};
use backend::game::model::{Continent, GameCore, GameMap, Player, PlayerId, TerritoryState};
use backend::game::protocol::{GameError, GameEvent};
use backend::game::rules::combat::{resolve_attack, resolve_attack_with_rolls};
use backend::game::rules::ownership::adjust_ownership;
use backend::game::rules::reinforcement::calculate_reinforcements;
use backend::game::rules::turn_order::end_turn;
use backend::game::rules::validation::{
    get_player, get_player_mut, remaining_players, validate_owned_path, validate_owned_territory,
};

fn player(id: u8, owned: u32) -> Player {
    Player {
        id: PlayerId(id),
        cards: vec![],
        reserve_troops: 0,
        territories_owned: owned,
        eliminated: false,
    }
}

fn test_core() -> GameCore {
    GameCore {
        players: vec![player(0, 1), player(1, 1)],
        territories: vec![
            TerritoryState { owner: PlayerId(0), troops: 5 },
            TerritoryState { owner: PlayerId(1), troops: 1 },
        ],
        deck: vec![],
        discard: vec![],
        map: GameMap {
            adjacency: vec![vec![1], vec![0]],
            continents: vec![Continent { territories: vec![0, 1], bonus: 0 }],
        },
        sets_turned_in: 0,
    }
}

#[test]
fn resolve_attack_emits_combat_roll_event() {
    let mut core = test_core();
    let resolution = resolve_attack(&mut core, PlayerId(0), 0, 1, 3).unwrap();
    assert!(resolution
        .events
        .iter()
        .any(|event| matches!(event, GameEvent::AttackResolved { .. })));
    assert_eq!(resolution.roll.attacker_rolls.len(), 3);
    assert_eq!(resolution.roll.defender_rolls.len(), 1);
    assert!(resolution.roll.attacker_rolls.iter().all(|roll| (1..=6).contains(roll)));
    assert!(resolution.roll.defender_rolls.iter().all(|roll| (1..=6).contains(roll)));
}

#[test]
fn resolve_attack_rejects_too_many_dice() {
    let mut core = test_core();

    let result = resolve_attack(&mut core, PlayerId(0), 0, 1, 4);

    assert!(result.is_err());
}

#[test]
fn resolve_attack_rejects_more_dice_than_available_troops_allow() {
    let mut core = test_core();
    core.territories[0].troops = 2; // can only attack with 1 die

    let result = resolve_attack(&mut core, PlayerId(0), 0, 1, 2);

    assert!(result.is_err());
}

#[test]
fn adjust_ownership_transfers_cards_on_elimination() {
    let mut core = test_core();
    core.territories[0].troops = 3;
    core.players[1].cards = vec![
        Card { card_type: CardType::Infantry, territory: 0, id: 10 },
        Card { card_type: CardType::Cavalry, territory: 1, id: 11 },
    ];

    adjust_ownership(&mut core, PlayerId(0), PlayerId(1));

    assert_eq!(core.players[0].territories_owned, 2);
    assert_eq!(core.players[1].territories_owned, 0);
    assert!(core.players[1].eliminated);
    assert_eq!(core.players[0].cards.len(), 2);
    assert!(core.players[1].cards.is_empty());
}

#[test]
fn end_turn_skips_eliminated_players() {
    let mut core = test_core();
    core.players[1].eliminated = true;
    core.players[1].territories_owned = 0;
    assert_eq!(end_turn(&core, PlayerId(0)), PlayerId(0));
}

#[test]
fn end_turn_goes_round_the_table() {
    let mut core = test_core();
    core.players.push(player(2, 1));
    core.players.push(player(3, 0));
    assert_eq!(end_turn(&core, PlayerId(0)), PlayerId(1));
    assert_eq!(end_turn(&core, PlayerId(1)), PlayerId(2));
    // player 3 holds nothing, so the turn wraps to player 0
    assert_eq!(end_turn(&core, PlayerId(2)), PlayerId(0));
    // an unseated player hands on from seat 0
    assert_eq!(end_turn(&core, PlayerId(9)), PlayerId(1));
    core.players.clear();
    assert_eq!(end_turn(&core, PlayerId(5)), PlayerId(5));
}

#[test]
fn attack_with_known_dice_captures_territory() {
    let mut core = test_core();
    let result =
        resolve_attack_with_rolls(&mut core, PlayerId(0), 0, 1, 2, vec![2, 6], vec![5]).unwrap();
    assert_eq!(result.roll.attacker_rolls, vec![6, 2]);
    assert_eq!(result.roll.defender_rolls, vec![5]);
    assert_eq!(result.roll.attacker_losses, 0);
    assert_eq!(result.roll.defender_losses, 1);
    assert!(result.captured);
    assert_eq!(core.territories[1].owner, PlayerId(0));
    assert_eq!(core.territories[1].troops, 0);
    assert_eq!(core.territories[0].troops, 5);
    assert_eq!(core.players[0].territories_owned, 2);
    assert!(core.players[1].eliminated);
    assert_eq!(result.events.len(), 3);
    assert!(matches!(result.events[2], GameEvent::PlayerEliminated { player: PlayerId(1) }));
    let pending = result.pending_capture.unwrap();
    assert_eq!((pending.from, pending.to, pending.min_troops), (0, 1, 2));
}

#[test]
fn attack_with_known_dice_defender_wins_ties() {
    let mut core = test_core();
    core.territories[1].troops = 4;
    let result = resolve_attack_with_rolls(&mut core, PlayerId(0), 0, 1, 3, vec![3, 5, 4], vec![5, 2])
        .unwrap();
    assert_eq!(result.roll.attacker_rolls, vec![5, 4, 3]);
    assert_eq!(result.roll.defender_rolls, vec![5, 2]);
    // 5 vs 5: the defender wins the tie; 4 vs 2: the attacker wins
    assert_eq!(result.roll.attacker_losses, 1);
    assert_eq!(result.roll.defender_losses, 1);
    assert!(!result.captured);
    assert_eq!(core.territories[0].troops, 4);
    assert_eq!(core.territories[1].troops, 3);
    assert_eq!(result.events.len(), 1);
}

#[test]
fn refused_attacks_leave_the_board_alone() {
    let mut core = test_core();
    let cases: Vec<(u8, usize, usize, u32, GameError)> = vec![
        (0, 0, 5, 1, GameError::InvalidTerritory),
        (0, 0, 0, 1, GameError::InvalidAction),
        (1, 1, 0, 1, GameError::NotEnoughTroops),
        (1, 0, 1, 1, GameError::InvalidOwner),
        (0, 0, 1, 0, GameError::InvalidAction),
    ];
    for (p, from, to, dice, expected) in cases {
        let result = resolve_attack(&mut core, PlayerId(p), from, to, dice);
        assert_eq!(result.unwrap_err(), expected);
        assert_eq!(core.territories[0].troops, 5);
        assert_eq!(core.territories[1].troops, 1);
    }
    core.map.adjacency[0].clear();
    assert_eq!(resolve_attack(&mut core, PlayerId(0), 0, 1, 1).unwrap_err(), GameError::NotAdjacent);
    core.territories[1].owner = PlayerId(0);
    core.map.adjacency[0].push(1);
    assert_eq!(resolve_attack(&mut core, PlayerId(0), 0, 1, 1).unwrap_err(), GameError::InvalidAction);
}

#[test]
fn validation_helpers_answer_as_expected() {
    let mut core = test_core();
    assert_eq!(validate_owned_territory(&core, PlayerId(0), 0), Ok(()));
    assert_eq!(validate_owned_territory(&core, PlayerId(0), 1), Err(GameError::InvalidOwner));
    assert_eq!(validate_owned_territory(&core, PlayerId(0), 2), Err(GameError::InvalidTerritory));
    assert_eq!(get_player(&core, PlayerId(1)).unwrap().territories_owned, 1);
    assert_eq!(get_player(&core, PlayerId(7)).unwrap_err(), GameError::InvalidOwner);
    get_player_mut(&mut core, PlayerId(1)).unwrap().reserve_troops = 9;
    assert_eq!(core.players[1].reserve_troops, 9);
    assert!(get_player_mut(&mut core, PlayerId(7)).is_err());
    assert_eq!(remaining_players(&core), 2);
    core.players[1].eliminated = true;
    assert_eq!(remaining_players(&core), 1);
}

#[test]
fn owned_path_follows_owned_territories() {
    // a line 0 - 1 - 2 - 3 where player 0 owns 0, 1, 3 and player 1 owns 2
    let mut core = test_core();
    core.territories = vec![
        TerritoryState { owner: PlayerId(0), troops: 2 },
        TerritoryState { owner: PlayerId(0), troops: 2 },
        TerritoryState { owner: PlayerId(1), troops: 2 },
        TerritoryState { owner: PlayerId(0), troops: 2 },
    ];
    core.map.adjacency = vec![vec![1], vec![0, 2], vec![1, 3], vec![2]];
    assert_eq!(validate_owned_path(&core, PlayerId(0), 0, 1), Ok(()));
    assert_eq!(validate_owned_path(&core, PlayerId(0), 0, 3), Err(GameError::NotAdjacent));
    assert_eq!(validate_owned_path(&core, PlayerId(0), 0, 0), Err(GameError::InvalidFortify));
    assert_eq!(validate_owned_path(&core, PlayerId(0), 0, 2), Err(GameError::InvalidOwner));
    assert_eq!(validate_owned_path(&core, PlayerId(0), 0, 9), Err(GameError::InvalidTerritory));
    core.territories[2].owner = PlayerId(0);
    assert_eq!(validate_owned_path(&core, PlayerId(0), 0, 3), Ok(()));
}

#[test]
fn reinforcements_count_territories_and_continents() {
    let mut core = test_core();
    // fewer than nine territories still earn three
    assert_eq!(calculate_reinforcements(&core, PlayerId(0)), 3);
    core.territories = (0..12).map(|_| TerritoryState { owner: PlayerId(0), troops: 1 }).collect();
    core.map.adjacency = vec![vec![]; 12];
    core.map.continents = vec![
        Continent { territories: vec![0, 1, 2], bonus: 5 },
        Continent { territories: vec![3, 4], bonus: 2 },
    ];
    // 12 / 3 = 4, plus both continents
    assert_eq!(calculate_reinforcements(&core, PlayerId(0)), 11);
    core.territories[4].owner = PlayerId(1);
    // 11 / 3 = 3, plus the first continent only
    assert_eq!(calculate_reinforcements(&core, PlayerId(0)), 8);
    assert_eq!(calculate_reinforcements(&core, PlayerId(1)), 3);
}
