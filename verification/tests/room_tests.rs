use backend::game::card::{Card, CardType};
use backend::game::model::{
    AttackPhase, Continent, GameCore, GameMap, GameState, Player, PlayerId, TerritoryState,
};
use backend::game::protocol::{ActionContext, GameEvent, PlayerAction};
use backend::game::{GameError, GamePhase, TurnPhase};
use backend::rooms::commands::RoomCommand;
use backend::rooms::matchmaking::{plan_join, plan_leave, JoinPlan};
use backend::rooms::room_loop::{
    build_game_view_for_player, build_state_snapshot, continent_for_territory,
    current_player_for_state, handle_player_disconnect, initialize_game_runtime,
    latest_combat_from_events, should_advance_turn_for_disconnect, DirectMessage, RoomRuntime,
};
use backend::rooms::service::{
    refresh_error_reply, resolve_seat, submit_error_from, submit_error_reply, RefreshStateError,
    SubmitActionError,
};
use backend::transport::websocket::ErrorCode;

#[test]
fn per_player_view_only_includes_private_cards_for_viewer() {
    let core = GameCore {
        players: vec![
            Player {
                id: PlayerId(0),
                cards: vec![Card { card_type: CardType::Infantry, territory: 0, id: 10 }],
                reserve_troops: 0,
                territories_owned: 1,
                eliminated: false,
            },
            Player {
                id: PlayerId(1),
                cards: vec![Card { card_type: CardType::Cavalry, territory: 1, id: 11 }],
                reserve_troops: 0,
                territories_owned: 1,
                eliminated: false,
            },
        ],
        territories: vec![
            TerritoryState { owner: PlayerId(0), troops: 3 },
            TerritoryState { owner: PlayerId(1), troops: 2 },
        ],
        deck: vec![],
        discard: vec![],
        map: GameMap {
            adjacency: vec![vec![1], vec![0]],
            continents: vec![Continent { territories: vec![0, 1], bonus: 0 }],
        },
        sets_turned_in: 0,
    };
    let state = GameState::Attack(AttackPhase {
        player: PlayerId(0),
        captured_this_turn: false,
        pending_capture: None,
    });

    let view_for_p0 = build_game_view_for_player(&core, &state, PlayerId(0), None);
    assert_eq!(view_for_p0.your_cards.len(), 1);
    assert_eq!(view_for_p0.your_cards[0].card_id, 10);
    assert_eq!(view_for_p0.players_public.len(), 2);
    assert_eq!(view_for_p0.players_public[1].card_count, 1);
}

#[test]
fn extracts_latest_combat_roll_from_attack_event() {
    let events = vec![GameEvent::AttackResolved {
        from: 1,
        to: 2,
        attacker_rolls: vec![6, 5],
        defender_rolls: vec![4],
        attacker_losses: 0,
        defender_losses: 1,
    }];
    let roll = latest_combat_from_events(&events).expect("expected combat roll");
    assert_eq!(roll.from, 1);
    assert_eq!(roll.to, 2);
    assert_eq!(roll.attacker_rolls, vec![6, 5]);
    assert_eq!(roll.defender_rolls, vec![4]);
    assert_eq!(roll.attacker_losses, 0);
    assert_eq!(roll.defender_losses, 1);
}

#[test]
fn latest_combat_roll_is_the_last_attack() {
    let events = vec![
        GameEvent::AttackResolved {
            from: 1,
            to: 2,
            attacker_rolls: vec![1],
            defender_rolls: vec![1],
            attacker_losses: 1,
            defender_losses: 0,
        },
        GameEvent::AttackResolved {
            from: 3,
            to: 4,
            attacker_rolls: vec![6],
            defender_rolls: vec![2],
            attacker_losses: 0,
            defender_losses: 1,
        },
        GameEvent::TerritoryCaptured { territory: 4, new_owner: PlayerId(0) },
    ];
    let roll = latest_combat_from_events(&events).unwrap();
    assert_eq!((roll.from, roll.to), (3, 4));
    assert!(latest_combat_from_events(&events[2..]).is_none());
}

#[test]
fn initial_game_deals_territories_round_the_seats() {
    let ids = vec![PlayerId(0), PlayerId(1), PlayerId(2), PlayerId(3)];
    let (core, state) = initialize_game_runtime(&ids);
    assert_eq!(core.territories.len(), 42);
    assert_eq!(core.territories[5].owner, PlayerId(1));
    assert!(core.territories.iter().all(|t| t.troops == 1));
    let owned: Vec<u32> = core.players.iter().map(|p| p.territories_owned).collect();
    assert_eq!(owned, vec![11, 11, 10, 10]);
    assert!(core.players.iter().all(|p| p.reserve_troops == 10 && p.cards.is_empty()));
    assert_eq!(core.deck.len(), 42);
    assert_eq!(core.map.adjacency.len(), 42);
    assert_eq!(core.map.adjacency[0], vec![1, 3, 30]);
    assert_eq!(core.map.continents.len(), 6);
    assert!(matches!(state, GameState::Setup(ref s) if s.player == PlayerId(0)));
    let (empty, state) = initialize_game_runtime(&[]);
    assert!(empty.territories.is_empty() && empty.players.is_empty());
    assert!(matches!(state, GameState::Setup(ref s) if s.player == PlayerId(0)));
}

#[test]
fn default_map_borders_go_both_ways() {
    let map = GameMap::default_static();
    for (t, row) in map.adjacency.iter().enumerate() {
        for w in row.windows(2) {
            assert!(w[0] < w[1]);
        }
        for &u in row {
            assert!(map.adjacency[u].contains(&t));
        }
    }
    assert_eq!(map.adjacency[21], vec![20, 23, 25, 26, 31, 32]);
    let bonuses: Vec<u32> = map.continents.iter().map(|c| c.bonus).collect();
    assert_eq!(bonuses, vec![5, 2, 3, 5, 7, 2]);
    assert_eq!(continent_for_territory(&map, 13), 2);
    assert_eq!(continent_for_territory(&map, 99), 0);
}

#[test]
fn disconnect_keeps_one_troop_and_eliminates() {
    let ids = vec![PlayerId(0), PlayerId(1)];
    let (mut core, state) = initialize_game_runtime(&ids);
    core.territories[0].troops = 7;
    handle_player_disconnect(&mut core, PlayerId(0));
    assert_eq!(core.territories[0].troops, 1);
    assert!(core.players[0].eliminated);
    assert_eq!(core.players[0].territories_owned, 0);
    assert_eq!(current_player_for_state(&state), Some(PlayerId(0)));
    assert!(should_advance_turn_for_disconnect(&state, PlayerId(0)));
    assert!(!should_advance_turn_for_disconnect(&state, PlayerId(1)));
}

#[test]
fn state_snapshot_names_the_player_to_move() {
    let ids = vec![PlayerId(0), PlayerId(1)];
    let (core, state) = initialize_game_runtime(&ids);
    let snapshot = build_state_snapshot(&core, &state, "room-x".to_string());
    assert_eq!(snapshot.game_id, "room-x");
    assert_eq!(snapshot.current_player, 0);
    assert_eq!(snapshot.turn_phase, TurnPhase::Setup);
    assert_eq!(snapshot.game_phase, GamePhase::InProgress);
    assert_eq!(snapshot.territories.len(), 42);
    assert_eq!(snapshot.territories[1].owner, 1);
}

#[test]
fn room_disconnect_of_current_player_advances_turn() {
    let ids = vec![PlayerId(0), PlayerId(1)];
    let (mut room, first) = RoomRuntime::start(&ids);
    assert!(first.broadcast_state);
    assert_eq!(room.state_version, 1);
    let reply = room.handle_command(RoomCommand::Disconnect { player_id: PlayerId(0) });
    assert!(reply.broadcast_state);
    assert!(!reply.close_room);
    assert_eq!(room.state_version, 2);
    assert!(matches!(room.game_state, GameState::Reinforcement(ref p) if p.player == PlayerId(1)));
    assert!(matches!(
        reply.events[0],
        GameEvent::PhaseChanged { current_player: PlayerId(1), phase: TurnPhase::Reinforcement }
    ));
    let reply = room.handle_command(RoomCommand::Disconnect { player_id: PlayerId(1) });
    assert!(reply.close_room);
}

#[test]
fn room_rejects_actions_from_strangers_and_bad_actions() {
    let ids = vec![PlayerId(0), PlayerId(1)];
    let (mut room, _) = RoomRuntime::start(&ids);
    let reply = room.handle_command(RoomCommand::PlayerAction {
        player_id: PlayerId(0),
        action: PlayerAction::EndTurn,
    });
    assert!(matches!(reply.direct, Some(DirectMessage::ActionError(PlayerId(0), GameError::InvalidAction))));
    assert_eq!(room.state_version, 1);
    let reply = room.handle_command(RoomCommand::PlayerAction {
        player_id: PlayerId(7),
        action: PlayerAction::EndTurn,
    });
    assert!(matches!(reply.direct, Some(DirectMessage::NotConnected(PlayerId(7)))));
    let reply = room.handle_command(RoomCommand::RefreshState { player_id: PlayerId(1) });
    assert!(matches!(reply.direct, Some(DirectMessage::Refresh(PlayerId(1)))));
    let reply = room.handle_command(RoomCommand::RefreshState { player_id: PlayerId(5) });
    assert!(reply.direct.is_none());
    let place = RoomCommand::PlayerAction {
        player_id: PlayerId(0),
        action: PlayerAction::PlaceTroops { territory: 0, count: 2 },
    };
    assert!(room.fits(&place));
    let reply = room.handle_command(place);
    assert!(reply.broadcast_state);
    assert_eq!(room.state_version, 2);
    assert_eq!(room.core.territories[0].troops, 3);
    let huge = RoomCommand::PlayerAction {
        player_id: PlayerId(0),
        action: PlayerAction::PlaceTroops { territory: 0, count: u32::MAX },
    };
    assert!(!room.fits(&huge));
}

#[test]
fn view_context_follows_the_phase() {
    let ids = vec![PlayerId(0), PlayerId(1)];
    let (core, state) = initialize_game_runtime(&ids);
    let view = build_game_view_for_player(&core, &state, PlayerId(1), None);
    assert_eq!(view.you_player_id, 1);
    assert_eq!(view.current_player_id, 0);
    assert!(matches!(view.action_context, ActionContext::Setup {}));
    assert_eq!(view.territories.len(), 42);
    assert_eq!(view.territories[40].continent_id, 5);
    assert!(view.your_cards.is_empty());
    let stranger = build_game_view_for_player(&core, &state, PlayerId(9), None);
    assert!(stranger.your_cards.is_empty());
}

#[test]
fn matchmaking_fills_rooms_of_four() {
    let mut queued: Vec<String> = vec!["a".to_string(), "b".to_string()];
    assert_eq!(plan_join(&queued, &"a".to_string()), JoinPlan::AlreadyQueued);
    assert_eq!(plan_join(&queued, &"c".to_string()), JoinPlan::Waiting { players_waiting: 3 });
    queued.push("c".to_string());
    assert_eq!(
        plan_join(&queued, &"d".to_string()),
        JoinPlan::StartRoom { players_waiting: 4, remaining: 0 }
    );
    assert_eq!(plan_leave(&queued, &"b".to_string()), vec![0, 2]);
    assert_eq!(plan_leave(&queued, &"z".to_string()), vec![0, 1, 2]);
}

#[test]
fn service_errors_map_to_protocol_errors() {
    assert_eq!(submit_error_from(RefreshStateError::NotInRoom), SubmitActionError::NotInRoom);
    assert_eq!(submit_error_from(RefreshStateError::RoomNotFound), SubmitActionError::RoomNotFound);
    assert_eq!(submit_error_from(RefreshStateError::SendFailed), SubmitActionError::SendFailed);
    let (code, message) = submit_error_reply(SubmitActionError::RoomNotFound);
    assert_eq!(code, ErrorCode::RoomNotFound);
    assert_eq!(message, "Cannot submit action: room was not found");
    let (code, _) = submit_error_reply(SubmitActionError::NotInRoom);
    assert_eq!(code, ErrorCode::UnauthorizedRoomAccess);
    let (code, message) = refresh_error_reply(RefreshStateError::SendFailed);
    assert_eq!(code, ErrorCode::GameActionRejected);
    assert_eq!(message, "Cannot refresh state: room command channel unavailable");
}

#[test]
fn submit_action_returns_not_in_room_error() {
    let seats = vec![("in-room".to_string(), PlayerId(0))];
    assert_eq!(
        resolve_seat(Some(&seats), &"outsider".to_string()).map_err(submit_error_from),
        Err(SubmitActionError::NotInRoom)
    );
}

#[test]
fn room_membership_finds_the_seat_or_says_why_not() {
    let seats = vec![
        ("a".to_string(), PlayerId(0)),
        ("b".to_string(), PlayerId(1)),
        ("c".to_string(), PlayerId(2)),
    ];
    assert_eq!(resolve_seat(Some(&seats), &"b".to_string()), Ok(PlayerId(1)));
    assert_eq!(resolve_seat(Some(&seats), &"c".to_string()), Ok(PlayerId(2)));
    assert_eq!(resolve_seat(None, &"a".to_string()), Err(RefreshStateError::RoomNotFound));
    assert_eq!(resolve_seat(Some(&vec![]), &"a".to_string()), Err(RefreshStateError::NotInRoom));
}
