//! The decisions of a game room: what a command does to the room's game and what
//! the room tells its players. Sending the messages is the server's business.
use vstd::prelude::*;

use crate::game::card::new_standard_deck;
use crate::game::model::board::{default_continents, default_border, strictly_increasing, MapModel};
use crate::game::model::game_core::{players_view, CoreModel};
use crate::game::model::phase_state::{phase_of, player_to_move};
use crate::game::model::player::PlayerModel;
use crate::game::model::DEFAULT_TERRITORY_COUNT;
use crate::game::protocol::event::{events_view, EventModel};
use crate::game::protocol::view::card_view_of;
use crate::game::engine::phases::outcome::step_view;
use crate::game::model::phase_state::{action_fits, game_step};
use crate::game::rules::combat::{adjacency_covers_board, copy_rolls};
use crate::game::rules::holdings::{
    holdings_sound, ids_distinct, lemma_step_keeps_holdings, owners_seated, counts_bounded,
};
use crate::game::rules::ownership::capture_fits;
use crate::game::rules::reinforcement::{
    board_fits, calculate_reinforcements, lemma_board_fits_reinforcement, reinforcement_total,
    owned_count, lemma_owned_count_bounded,
};
use crate::game::rules::turn_order::{end_turn, next_player_after};
use crate::game::rules::validation::{lemma_player_index, player_index, player_position};
use crate::game::{GameError, PlayerAction, ReinforcementPhase, TurnPhase};
use super::commands::RoomCommand;
use crate::game::{
    ActionContext, CardView, CombatRollView, GameCore, GameEvent, GameMap, GamePhase, GameState,
    GameView, Player, PlayerId, PlayerPublicView, TerritoryState, TerritoryView,
};
use crate::transport::websocket::{StateSnapshot, TerritorySnapshot};

verus! {

pub fn current_player_for_state(state: &GameState) -> (player: Option<PlayerId>)
    ensures
        player == player_to_move(*state),
{
    match state {
        GameState::Setup(phase) => Some(phase.player),
        GameState::Reinforcement(phase) => Some(phase.player),
        GameState::Attack(phase) => Some(phase.player),
        GameState::Fortify(phase) => Some(phase.player),
        GameState::GameOver(_) => None,
    }
}

/// A leaving player whose turn it is hands the turn on.
pub fn should_advance_turn_for_disconnect(state: &GameState, player_id: PlayerId) -> (advance: bool)
    ensures
        advance == (player_to_move(*state) == Some(player_id)),
{
    match current_player_for_state(state) {
        Some(p) => p == player_id,
        None => false,
    }
}

/// The game after `id` left: each of the player's territories keeps a single troop,
/// and the player (the first seat with that id) is eliminated with no territories.
pub open spec fn after_disconnect(core: CoreModel, id: PlayerId) -> CoreModel {
    let ts = core.territories;
    let pi = player_index(core.players, id);
    CoreModel {
        territories: Seq::new(
            ts.len(),
            |t: int|
                if ts[t].owner == id {
                    TerritoryState { troops: 1, ..ts[t] }
                } else {
                    ts[t]
                },
        ),
        players: if pi >= 0 {
            core.players.update(
                pi,
                PlayerModel { eliminated: true, territories_owned: 0, ..core.players[pi] },
            )
        } else {
            core.players
        },
        ..core
    }
}

pub fn handle_player_disconnect(core: &mut GameCore, player_id: PlayerId)
    ensures
        final(core)@ == after_disconnect(old(core)@, player_id),
{
    let ghost c0 = core@;
    let mut t: usize = 0;
    while t < core.territories.len()
        invariant
            core@.players == c0.players,
            core@.deck == c0.deck,
            core@.discard == c0.discard,
            core@.map == c0.map,
            core@.sets_turned_in == c0.sets_turned_in,
            core@.territories.len() == c0.territories.len(),
            t <= c0.territories.len(),
            forall|k: int|
                0 <= k < c0.territories.len() ==> #[trigger] core@.territories[k] == if k < t
                    && c0.territories[k].owner == player_id {
                    TerritoryState { troops: 1, ..c0.territories[k] }
                } else {
                    c0.territories[k]
                },
        decreases c0.territories.len() - t,
    {
        if core.territories[t].owner == player_id {
            core.territories[t].troops = 1;
        }
        t = t + 1;
    }
    match player_position(&core.players, player_id) {
        Some(i) => {
            core.players[i].eliminated = true;
            core.players[i].territories_owned = 0;
        },
        None => {},
    }
    assert(core@.territories =~= after_disconnect(c0, player_id).territories);
    assert(core@.players =~= after_disconnect(c0, player_id).players);
}

/// Index of the first continent from `c` on that lists territory `t`, or 0 when none does.
pub open spec fn continent_of_from(map: MapModel, t: usize, c: int) -> int
    decreases map.continents.len() - c,
{
    if c < 0 || c >= map.continents.len() {
        0
    } else if map.continents[c].territories.contains(t) {
        c
    } else {
        continent_of_from(map, t, c + 1)
    }
}

/// The continent a territory is shown in: the first that lists it, or 0.
pub open spec fn continent_of(map: MapModel, t: usize) -> int {
    continent_of_from(map, t, 0)
}

pub fn continent_for_territory(map: &GameMap, territory_id: usize) -> (c: usize)
    ensures
        c == continent_of(map@, territory_id),
{
    let ghost m = map@;
    let mut c: usize = 0;
    while c < map.continents.len()
        invariant
            m == map@,
            c <= m.continents.len(),
            continent_of_from(m, territory_id, 0) == continent_of_from(m, territory_id, c as int),
        decreases m.continents.len() - c,
    {
        assert(map.continents@[c as int]@ == m.continents[c as int]);
        let members = &map.continents[c].territories;
        let mut k: usize = 0;
        let mut found = false;
        while k < members.len() && !found
            invariant
                k <= members@.len(),
                found ==> members@.contains(territory_id),
                !found ==> forall|j: int| 0 <= j < k ==> members@[j] != territory_id,
            decreases members@.len() - k,
        {
            if members[k] == territory_id {
                assert(members@[k as int] == territory_id);
                found = true;
            }
            k = k + 1;
        }
        if found {
            return c;
        }
        c = c + 1;
    }
    0
}

/// Index of the last attack among the first `n` events, or -1 when there is none.
pub open spec fn last_attack_before(events: Seq<EventModel>, n: int) -> int
    decreases n,
{
    if n <= 0 {
        -1
    } else if events[n - 1] is AttackResolved {
        n - 1
    } else {
        last_attack_before(events, n - 1)
    }
}

/// The dice of an attack event, as shown to the players.
pub open spec fn roll_matches(view: CombatRollView, event: EventModel) -> bool {
    match event {
        EventModel::AttackResolved {
            from,
            to,
            attacker_rolls,
            defender_rolls,
            attacker_losses,
            defender_losses,
        } => {
            &&& view.from == from
            &&& view.to == to
            &&& view.attacker_rolls@ == attacker_rolls
            &&& view.defender_rolls@ == defender_rolls
            &&& view.attacker_losses == attacker_losses
            &&& view.defender_losses == defender_losses
        },
        _ => false,
    }
}

/// The dice of the last attack among the events, if any.
pub fn latest_combat_from_events(events: &[GameEvent]) -> (roll: Option<CombatRollView>)
    ensures
        ({
            let evs = events_view(events@);
            let k = last_attack_before(evs, evs.len() as int);
            match roll {
                Some(v) => 0 <= k < evs.len() && roll_matches(v, evs[k]),
                None => k == -1,
            }
        }),
{
    let ghost evs = events_view(events@);
    let mut i: usize = events.len();
    while i > 0
        invariant
            evs == events_view(events@),
            i <= events@.len(),
            last_attack_before(evs, evs.len() as int) == last_attack_before(evs, i as int),
        decreases i,
    {
        let event = &events[i - 1];
        assert(evs[i - 1] == events@[i - 1]@);
        match event {
            GameEvent::AttackResolved {
                from,
                to,
                attacker_rolls,
                defender_rolls,
                attacker_losses,
                defender_losses,
            } => {
                return Some(
                    CombatRollView {
                        from: *from,
                        to: *to,
                        attacker_rolls: copy_rolls(attacker_rolls),
                        defender_rolls: copy_rolls(defender_rolls),
                        attacker_losses: *attacker_losses,
                        defender_losses: *defender_losses,
                    },
                );
            },
            _ => {},
        }
        i = i - 1;
    }
    None
}

/// What the current phase lets the current player do.
pub open spec fn context_of(state: GameState) -> ActionContext {
    match state {
        GameState::Setup(_) => ActionContext::Setup {  },
        GameState::Reinforcement(phase) => ActionContext::Reinforcement {
            troops_remaining: phase.troops_remaining,
        },
        GameState::Attack(phase) => ActionContext::Attack {
            captured_this_turn: phase.captured_this_turn,
        },
        GameState::Fortify(phase) => ActionContext::Fortify { used_fortify: phase.used_fortify },
        GameState::GameOver(phase) => ActionContext::GameOver { winner_player_id: phase.winner.0 },
    }
}

/// Finished once the game is over, in progress before.
pub open spec fn game_phase_of(state: GameState) -> GamePhase {
    if state is GameOver {
        GamePhase::Finished
    } else {
        GamePhase::InProgress
    }
}

/// What everybody sees of a player.
pub open spec fn public_view_of(p: PlayerModel) -> PlayerPublicView {
    PlayerPublicView {
        player_id: p.id.0,
        territories_owned: p.territories_owned,
        card_count: p.cards.len() as usize,
        eliminated: p.eliminated,
    }
}

/// The view of the game that `viewer` gets: the whole board, what is public of
/// every player, and the viewer's own cards only.
pub open spec fn view_matches(
    view: GameView,
    core: CoreModel,
    state: GameState,
    viewer: PlayerId,
    latest_combat_roll: Option<CombatRollView>,
) -> bool {
    let vi = player_index(core.players, viewer);
    &&& view.you_player_id == viewer.0
    &&& view.current_player_id == (match player_to_move(state) {
        Some(p) => p,
        None => viewer,
    }).0
    &&& view.turn_phase == phase_of(state)
    &&& view.game_phase == game_phase_of(state)
    &&& view.territories@.len() == core.territories.len()
    &&& forall|t: int|
        0 <= t < core.territories.len() ==> #[trigger] view.territories@[t] == (TerritoryView {
            id: t as usize,
            continent_id: continent_of(core.map, t as usize) as usize,
            owner_player_id: core.territories[t].owner.0,
            troops: core.territories[t].troops,
        })
    &&& view.players_public@.len() == core.players.len()
    &&& forall|i: int|
        0 <= i < core.players.len() ==> #[trigger] view.players_public@[i] == public_view_of(
            core.players[i],
        )
    &&& view.your_cards@ == (if vi >= 0 {
        core.players[vi].cards.map_values(|c| card_view_of(c))
    } else {
        Seq::empty()
    })
    &&& view.latest_combat_roll == latest_combat_roll
    &&& view.action_context == context_of(state)
}

pub fn build_game_view_for_player(
    core: &GameCore,
    state: &GameState,
    viewer: PlayerId,
    latest_combat_roll: Option<CombatRollView>,
) -> (view: GameView)
    ensures
        view_matches(view, core@, *state, viewer, latest_combat_roll),
{
    let ghost c = core@;
    let current_player = match current_player_for_state(state) {
        Some(p) => p,
        None => viewer,
    };
    let game_phase = match state {
        GameState::GameOver(_) => GamePhase::Finished,
        _ => GamePhase::InProgress,
    };

    let mut territories: Vec<TerritoryView> = Vec::new();
    let mut t: usize = 0;
    while t < core.territories.len()
        invariant
            c == core@,
            t <= c.territories.len(),
            territories@.len() == t,
            forall|k: int|
                0 <= k < t ==> #[trigger] territories@[k] == (TerritoryView {
                    id: k as usize,
                    continent_id: continent_of(c.map, k as usize) as usize,
                    owner_player_id: c.territories[k].owner.0,
                    troops: c.territories[k].troops,
                }),
        decreases c.territories.len() - t,
    {
        let territory = core.territories[t];
        territories.push(
            TerritoryView {
                id: t,
                continent_id: continent_for_territory(&core.map, t),
                owner_player_id: territory.owner.0,
                troops: territory.troops,
            },
        );
        t = t + 1;
    }

    let mut players_public: Vec<PlayerPublicView> = Vec::new();
    let mut i: usize = 0;
    while i < core.players.len()
        invariant
            c == core@,
            i <= c.players.len(),
            players_public@.len() == i,
            forall|k: int|
                0 <= k < i ==> #[trigger] players_public@[k] == public_view_of(c.players[k]),
        decreases c.players.len() - i,
    {
        let player = &core.players[i];
        assert(c.players[i as int] == player@);
        players_public.push(
            PlayerPublicView {
                player_id: player.id.0,
                territories_owned: player.territories_owned,
                card_count: player.cards.len(),
                eliminated: player.eliminated,
            },
        );
        i = i + 1;
    }

    let mut your_cards: Vec<CardView> = Vec::new();
    match player_position(&core.players, viewer) {
        Some(vi) => {
            let cards = &core.players[vi].cards;
            assert(cards@ == c.players[vi as int].cards);
            let mut k: usize = 0;
            while k < cards.len()
                invariant
                    k <= cards@.len(),
                    your_cards@ == cards@.take(k as int).map_values(|card| card_view_of(card)),
                decreases cards@.len() - k,
            {
                your_cards.push(CardView::from(cards[k]));
                assert(cards@.take(k as int + 1) == cards@.take(k as int).push(cards@[k as int]));
                assert(your_cards@ =~= cards@.take(k as int + 1).map_values(
                    |card| card_view_of(card),
                ));
                k = k + 1;
            }
            assert(cards@.take(k as int) == cards@);
        },
        None => {},
    }

    let action_context = match state {
        GameState::Setup(_) => ActionContext::Setup {  },
        GameState::Reinforcement(phase) => ActionContext::Reinforcement {
            troops_remaining: phase.troops_remaining,
        },
        GameState::Attack(phase) => ActionContext::Attack {
            captured_this_turn: phase.captured_this_turn,
        },
        GameState::Fortify(phase) => ActionContext::Fortify { used_fortify: phase.used_fortify },
        GameState::GameOver(phase) => ActionContext::GameOver { winner_player_id: phase.winner.0 },
    };

    GameView {
        you_player_id: viewer.0,
        current_player_id: current_player.0,
        turn_phase: state.turn_phase(),
        game_phase,
        territories,
        players_public,
        your_cards,
        latest_combat_roll,
        action_context,
    }
}

/// The player a state update names: the player to move, or the winner.
pub open spec fn snapshot_player(state: GameState) -> PlayerId {
    match state {
        GameState::GameOver(phase) => phase.winner,
        _ => player_to_move(state)->Some_0,
    }
}

/// The state update sent to every player after a change.
pub fn build_state_snapshot(core: &GameCore, state: &GameState, game_id: String) -> (snapshot:
    StateSnapshot)
    ensures
        snapshot.game_id == game_id,
        snapshot.current_player == snapshot_player(*state).0,
        snapshot.turn_phase == phase_of(*state),
        snapshot.game_phase == game_phase_of(*state),
        snapshot.territories@.len() == core@.territories.len(),
        forall|t: int|
            0 <= t < core@.territories.len() ==> #[trigger] snapshot.territories@[t] == (
            TerritorySnapshot {
                owner: core@.territories[t].owner.0,
                troops: core@.territories[t].troops,
            }),
{
    let current_player = match state {
        GameState::Setup(phase) => phase.player,
        GameState::Reinforcement(phase) => phase.player,
        GameState::Attack(phase) => phase.player,
        GameState::Fortify(phase) => phase.player,
        GameState::GameOver(phase) => phase.winner,
    };
    let game_phase = match state {
        GameState::GameOver(_) => GamePhase::Finished,
        _ => GamePhase::InProgress,
    };
    let mut territories: Vec<TerritorySnapshot> = Vec::new();
    let mut t: usize = 0;
    while t < core.territories.len()
        invariant
            t <= core@.territories.len(),
            territories@.len() == t,
            forall|k: int|
                0 <= k < t ==> #[trigger] territories@[k] == (TerritorySnapshot {
                    owner: core@.territories[k].owner.0,
                    troops: core@.territories[k].troops,
                }),
        decreases core@.territories.len() - t,
    {
        territories.push(
            TerritorySnapshot {
                owner: core.territories[t].owner.0,
                troops: core.territories[t].troops,
            },
        );
        t = t + 1;
    }
    StateSnapshot {
        game_id,
        current_player: current_player.0,
        turn_phase: state.turn_phase(),
        game_phase,
        territories,
    }
}

/// How many of the territories `0..total` fall to seat `i` when they are dealt
/// round the `n` seats in turn.
pub open spec fn seat_share(total: int, n: int, i: int) -> nat
    decreases total,
{
    if total <= 0 {
        0
    } else {
        seat_share(total - 1, n, i) + if (total - 1) % n == i {
            1nat
        } else {
            0nat
        }
    }
}

pub proof fn lemma_seat_share_bounded(total: int, n: int, i: int)
    requires
        total >= 0,
    ensures
        seat_share(total, n, i) <= total,
    decreases total,
{
    if total > 0 {
        lemma_seat_share_bounded(total - 1, n, i);
    }
}

/// The game a room starts with for players `ids` (in seat order): the 42
/// territories dealt round the seats with one troop each, ten reserve troops per
/// player, a standard deck, the built-in map, and the first seat to place troops.
pub open spec fn initial_game(ids: Seq<PlayerId>, core: CoreModel, state: GameState) -> bool {
    let n = ids.len() as int;
    &&& core.territories.len() == if n == 0 {
        0
    } else {
        DEFAULT_TERRITORY_COUNT as int
    }
    &&& forall|t: int|
        0 <= t < core.territories.len() ==> #[trigger] core.territories[t] == (TerritoryState {
            owner: ids[t % n],
            troops: 1,
        })
    &&& core.players.len() == n
    &&& forall|i: int|
        0 <= i < n ==> #[trigger] core.players[i] == (PlayerModel {
            id: ids[i],
            cards: Seq::empty(),
            reserve_troops: 10,
            territories_owned: seat_share(DEFAULT_TERRITORY_COUNT as int, n, i) as u32,
            eliminated: false,
        })
    &&& core.deck.len() == DEFAULT_TERRITORY_COUNT
    &&& forall|i: int|
        0 <= i < DEFAULT_TERRITORY_COUNT ==> #[trigger] core.deck[i] == (crate::game::card::Card {
            card_type: crate::game::card::standard_card_type(i, DEFAULT_TERRITORY_COUNT as int),
            territory: i as u32,
            id: i as u32,
        })
    &&& core.discard == Seq::<crate::game::card::Card>::empty()
    &&& crate::game::model::board::is_default_map(core.map)
    &&& core.sets_turned_in == 0
    &&& state == GameState::Setup(
        crate::game::SetupPhase {
            player: if n > 0 {
                ids[0]
            } else {
                PlayerId(0)
            },
        },
    )
}

pub fn initialize_game_runtime(ids: &[PlayerId]) -> (game: (GameCore, GameState))
    ensures
        initial_game(ids@, game.0@, game.1),
{
    let territory_count = DEFAULT_TERRITORY_COUNT;
    let n = ids.len();
    let mut owned: Vec<u32> = Vec::new();
    while owned.len() < n
        invariant
            owned@.len() <= n,
            forall|i: int| 0 <= i < owned@.len() ==> #[trigger] owned@[i] == 0,
        decreases n - owned@.len(),
    {
        owned.push(0);
    }
    let mut territories: Vec<TerritoryState> = Vec::new();
    if n > 0 {
        let mut t: usize = 0;
        while t < territory_count
            invariant
                n == ids@.len(),
                n > 0,
                territory_count == DEFAULT_TERRITORY_COUNT,
                t <= territory_count,
                owned@.len() == n,
                territories@.len() == t,
                forall|k: int|
                    0 <= k < t ==> #[trigger] territories@[k] == (TerritoryState {
                        owner: ids@[k % (n as int)],
                        troops: 1,
                    }),
                forall|i: int|
                    0 <= i < n ==> #[trigger] owned@[i] == seat_share(t as int, n as int, i),
            decreases territory_count - t,
        {
            let owner_idx = t % n;
            proof {
                lemma_seat_share_bounded(t as int, n as int, owner_idx as int);
            }
            owned.set(owner_idx, owned[owner_idx] + 1);
            territories.push(TerritoryState { owner: ids[owner_idx], troops: 1 });
            t = t + 1;
        }
    }
    let mut game_players: Vec<Player> = Vec::new();
    let mut i: usize = 0;
    while i < n
        invariant
            n == ids@.len(),
            i <= n,
            owned@.len() == n,
            n > 0 ==> forall|j: int|
                0 <= j < n ==> #[trigger] owned@[j] == seat_share(
                    DEFAULT_TERRITORY_COUNT as int,
                    n as int,
                    j,
                ),
            game_players@.len() == i,
            forall|j: int|
                0 <= j < i ==> #[trigger] game_players@[j]@ == (PlayerModel {
                    id: ids@[j],
                    cards: Seq::empty(),
                    reserve_troops: 10,
                    territories_owned: seat_share(DEFAULT_TERRITORY_COUNT as int, n as int, j) as u32,
                    eliminated: false,
                }),
        decreases n - i,
    {
        game_players.push(
            Player {
                id: ids[i],
                cards: Vec::new(),
                reserve_troops: 10,
                territories_owned: owned[i],
                eliminated: false,
            },
        );
        i = i + 1;
    }
    let mut indices: Vec<u32> = Vec::new();
    let mut k: u32 = 0;
    while k < 42
        invariant
            k <= 42,
            indices@.len() == k,
            forall|j: int| 0 <= j < k ==> #[trigger] indices@[j] == j,
        decreases 42 - k,
    {
        indices.push(k);
        k = k + 1;
    }
    let deck = new_standard_deck(indices.as_slice());
    let core = GameCore {
        players: game_players,
        territories,
        deck,
        discard: Vec::new(),
        map: GameMap::default_static(),
        sets_turned_in: 0,
    };
    let first_player = if n > 0 {
        ids[0]
    } else {
        PlayerId(0)
    };
    assert(core@.players.len() == n);
    (core, GameState::Setup(crate::game::SetupPhase { player: first_player }))
}

/// A message for one player of the room.
#[derive(Debug, Clone, Copy)]
pub enum DirectMessage {
    /// The current state update and game view, on the player's request.
    Refresh(PlayerId),
    /// The player's action was refused.
    ActionError(PlayerId, GameError),
    /// The player is not connected to the room.
    NotConnected(PlayerId),
}

/// What the room sends after a command, in this order: the events to every
/// player, then (when `broadcast_state`) a state update and a game view to every
/// player, then the direct message; and whether the room closes afterwards.
#[derive(Debug)]
pub struct RoomReply {
    pub events: Vec<GameEvent>,
    pub broadcast_state: bool,
    pub direct: Option<DirectMessage>,
    pub close_room: bool,
}

/// Dealing territories round the seats gives each player at most the territories
/// the player then holds.
pub proof fn lemma_share_within_holdings(
    ids: Seq<PlayerId>,
    territories: Seq<TerritoryState>,
    total: int,
    i: int,
)
    requires
        ids.len() > 0,
        0 <= i < ids.len(),
        0 <= total <= territories.len(),
        forall|t: int|
            0 <= t < territories.len() ==> #[trigger] territories[t] == (TerritoryState {
                owner: ids[t % (ids.len() as int)],
                troops: 1,
            }),
    ensures
        seat_share(total, ids.len() as int, i) <= owned_count(territories.take(total), ids[i]),
    decreases total,
{
    if total > 0 {
        lemma_share_within_holdings(ids, territories, total - 1, i);
        assert(territories.take(total).drop_last() == territories.take(total - 1));
        let n = ids.len() as int;
        if (total - 1) % n == i {
            assert(territories.take(total).last() == territories[total - 1]);
        }
    }
}

/// A freshly started room is sound.
pub proof fn lemma_initial_game_sound(ids: Seq<PlayerId>, core: CoreModel, state: GameState)
    requires
        ids.len() > 0,
        forall|i: int, j: int| 0 <= i < ids.len() && 0 <= j < ids.len() && i != j ==> ids[i] != ids[j],
        initial_game(ids, core, state),
    ensures
        room_sound(core),
{
    let n = ids.len() as int;
    let ps = core.players;
    let ts = core.territories;
    assert(ids_distinct(ps)) by {
        assert forall|i: int, j: int|
            0 <= i < ps.len() && 0 <= j < ps.len() && i != j implies ps[i].id != ps[j].id by {
            assert(ps[i].id == ids[i] && ps[j].id == ids[j]);
        }
    }
    assert forall|t: int| 0 <= t < ts.len() implies player_index(ps, #[trigger] ts[t].owner) >= 0 by {
        lemma_player_index(ps, ts[t].owner);
        let k = t % n;
        assert(ps[k].id == ids[k]);
    }
    assert forall|i: int| 0 <= i < ps.len() implies #[trigger] ps[i].territories_owned <= owned_count(
        ts,
        ps[i].id,
    ) by {
        lemma_share_within_holdings(ids, ts, 42, i);
        assert(ts.take(42) == ts);
        lemma_seat_share_bounded(42, n, i);
        assert(ps[i].id == ids[i]);
    }
    let conts = core.map.continents;
    assert(conts == default_continents());
    assert forall|c: int, k: int|
        0 <= c < conts.len() && 0 <= k < conts[c].territories.len() implies #[trigger] conts[c].territories[k]
        < ts.len() by {
        assert(default_continents()[c].territories[k] < 42);
    }
    reveal_with_fuel(crate::game::rules::reinforcement::bonus_total, 7);
    assert(crate::game::rules::reinforcement::bonus_total(default_continents()) == 24);
}

/// The state of a running room.
#[derive(Debug)]
pub struct RoomRuntime {
    pub core: GameCore,
    pub game_state: GameState,
    /// Every player the room started with.
    pub seats: Vec<PlayerId>,
    /// The players still connected.
    pub connected: Vec<PlayerId>,
    pub latest_combat_roll: Option<CombatRollView>,
    pub state_version: u64,
}

/// The game core can go on being played: sound bookkeeping and a sound board.
pub open spec fn room_sound(core: CoreModel) -> bool {
    &&& holdings_sound(core)
    &&& board_fits(core)
    &&& adjacency_covers_board(core)
}

/// `s` without any entry `x`.
pub open spec fn without(s: Seq<PlayerId>, x: PlayerId) -> Seq<PlayerId>
    decreases s.len(),
{
    if s.len() == 0 {
        s
    } else if s.last() != x {
        without(s.drop_last(), x).push(s.last())
    } else {
        without(s.drop_last(), x)
    }
}

impl RoomRuntime {
    pub open spec fn well_formed(&self) -> bool {
        room_sound(self.core@)
    }

    /// The arithmetic of the command stays within the machine's integers.
    pub open spec fn command_fits(&self, cmd: RoomCommand) -> bool {
        &&& self.state_version < u64::MAX
        &&& match cmd {
            RoomCommand::PlayerAction { player_id, action } => action_fits(
                self.game_state,
                self.core@,
                player_id,
                action,
            ),
            _ => true,
        }
    }

    /// Whether `command_fits` holds.
    pub fn fits(&self, cmd: &RoomCommand) -> (ok: bool)
        requires
            self.well_formed(),
        ensures
            ok == self.command_fits(*cmd),
    {
        if self.state_version == u64::MAX {
            return false;
        }
        proof {
            self.lemma_sound_room_fits_capture(*cmd);
        }
        match cmd {
            RoomCommand::PlayerAction { player_id, action } => {
                let (territory, count) = match (self.game_state, *action) {
                    (GameState::Setup(_), PlayerAction::PlaceTroops { territory, count }) => (
                        territory,
                        count,
                    ),
                    (
                        GameState::Reinforcement(_),
                        PlayerAction::PlaceTroops { territory, count },
                    ) => (territory, count),
                    (GameState::Fortify(_), PlayerAction::Fortify { to, count, .. }) => (to, count),
                    _ => {
                        return true;
                    },
                };
                if territory < self.core.territories.len() {
                    self.core.territories[territory].troops <= u32::MAX - count
                } else {
                    true
                }
            },
            _ => true,
        }
    }

    proof fn lemma_sound_room_fits_capture(&self, cmd: RoomCommand)
        requires
            self.well_formed(),
        ensures
            cmd matches RoomCommand::PlayerAction { player_id, .. } ==> capture_fits(
                self.core@.players,
                player_id,
            ),
    {
        if let RoomCommand::PlayerAction { player_id, .. } = cmd {
            let ps = self.core@.players;
            lemma_player_index(ps, player_id);
            let pi = player_index(ps, player_id);
            if pi >= 0 {
                lemma_owned_count_bounded(self.core@.territories, player_id);
                assert(ps[pi].territories_owned <= owned_count(self.core@.territories, ps[pi].id));
            }
        }
    }

    /// Opens a room for the players `ids` (distinct, at least one): the initial
    /// game, everybody connected, state version 1, and a first state broadcast.
    pub fn start(ids: &[PlayerId]) -> (started: (RoomRuntime, RoomReply))
        requires
            ids@.len() > 0,
            forall|i: int, j: int|
                0 <= i < ids@.len() && 0 <= j < ids@.len() && i != j ==> ids@[i] != ids@[j],
        ensures
            started.0.well_formed(),
            initial_game(ids@, started.0.core@, started.0.game_state),
            started.0.seats@ == ids@,
            started.0.connected@ == ids@,
            started.0.latest_combat_roll is None,
            started.0.state_version == 1,
            started.1.events@.len() == 0,
            started.1.broadcast_state,
            started.1.direct is None,
            !started.1.close_room,
    {
        let (core, game_state) = initialize_game_runtime(ids);
        let seats = vstd::slice::slice_to_vec(ids);
        let connected = vstd::slice::slice_to_vec(ids);
        proof {
            lemma_initial_game_sound(ids@, core@, game_state);
        }
        (
            RoomRuntime {
                core,
                game_state,
                seats,
                connected,
                latest_combat_roll: None,
                state_version: 1,
            },
            RoomReply {
                events: Vec::new(),
                broadcast_state: true,
                direct: None,
                close_room: false,
            },
        )
    }

    /// Handles one command sent to the room.
    pub fn handle_command(&mut self, cmd: RoomCommand) -> (reply: RoomReply)
        requires
            old(self).well_formed(),
            old(self).command_fits(cmd),
        ensures
            final(self).well_formed(),
            final(self).seats@ == old(self).seats@,
            match cmd {
                RoomCommand::RefreshState { player_id } => refresh_matches(
                    *old(self),
                    *final(self),
                    player_id,
                    reply,
                ),
                RoomCommand::Disconnect { player_id } => disconnect_matches(
                    *old(self),
                    *final(self),
                    player_id,
                    reply,
                ),
                RoomCommand::PlayerAction { player_id, action } => action_matches(
                    *old(self),
                    *final(self),
                    player_id,
                    action,
                    reply,
                ),
            },
    {
        match cmd {
            RoomCommand::RefreshState { player_id } => self.refresh(player_id),
            RoomCommand::Disconnect { player_id } => self.disconnect(player_id),
            RoomCommand::PlayerAction { player_id, action } => self.act(player_id, action),
        }
    }

    fn refresh(&self, player_id: PlayerId) -> (reply: RoomReply)
        ensures
            refresh_matches(*self, *self, player_id, reply),
    {
        let direct = if contains_player(&self.seats, player_id) {
            Some(DirectMessage::Refresh(player_id))
        } else {
            None
        };
        RoomReply { events: Vec::new(), broadcast_state: false, direct, close_room: false }
    }

    fn disconnect(&mut self, player_id: PlayerId) -> (reply: RoomReply)
        requires
            old(self).well_formed(),
            old(self).state_version < u64::MAX,
        ensures
            final(self).well_formed(),
            final(self).seats@ == old(self).seats@,
            disconnect_matches(*old(self), *final(self), player_id, reply),
    {
        let ghost c0 = self.core@;
        self.connected = without_player(&self.connected, player_id);
        handle_player_disconnect(&mut self.core, player_id);
        proof {
            lemma_disconnect_keeps_room_sound(c0, player_id);
        }
        let mut reply = RoomReply {
            events: Vec::new(),
            broadcast_state: false,
            direct: None,
            close_room: false,
        };
        if should_advance_turn_for_disconnect(&self.game_state, player_id) {
            if self.connected.len() == 0 {
                reply.close_room = true;
                return reply;
            }
            let next_player = end_turn(&self.core, player_id);
            proof {
                lemma_board_fits_reinforcement(self.core@, next_player);
            }
            let troops_remaining = calculate_reinforcements(&self.core, next_player);
            self.game_state = GameState::Reinforcement(
                ReinforcementPhase { player: next_player, troops_remaining },
            );
            self.state_version = self.state_version + 1;
            reply.events.push(
                GameEvent::PhaseChanged {
                    current_player: next_player,
                    phase: self.game_state.turn_phase(),
                },
            );
            reply.broadcast_state = true;
            assert(events_view(reply.events@) =~= seq![
                EventModel::PhaseChanged {
                    current_player: next_player,
                    phase: TurnPhase::Reinforcement,
                },
            ]);
        }
        if self.connected.len() == 0 {
            reply.close_room = true;
        }
        reply
    }

    fn act(&mut self, player_id: PlayerId, action: PlayerAction) -> (reply: RoomReply)
        requires
            old(self).well_formed(),
            old(self).state_version < u64::MAX,
            action_fits(old(self).game_state, old(self).core@, player_id, action),
        ensures
            final(self).well_formed(),
            final(self).seats@ == old(self).seats@,
            action_matches(*old(self), *final(self), player_id, action, reply),
    {
        if !contains_player(&self.connected, player_id) {
            return RoomReply {
                events: Vec::new(),
                broadcast_state: false,
                direct: Some(DirectMessage::NotConnected(player_id)),
                close_room: false,
            };
        }
        let ghost c0 = self.core@;
        let state = self.game_state;
        let r = state.apply_action(&mut self.core, player_id, action);
        proof {
            lemma_step_keeps_holdings(state, c0, self.core@, player_id, action, step_view(r));
        }
        let ghost out = step_view(r);
        assert(game_step(state, c0, self.core@, player_id, action, out));
        match r {
            Ok((next_state, events)) => {
                self.game_state = next_state;
                let latest = latest_combat_from_events(events.as_slice());
                match latest {
                    Some(roll) => {
                        self.latest_combat_roll = Some(roll);
                    },
                    None => {},
                }
                self.state_version = self.state_version + 1;
                let close_room = match next_state {
                    GameState::GameOver(_) => true,
                    _ => false,
                };
                let ghost evs = events_view(events@);
                let reply = RoomReply { events, broadcast_state: true, direct: None, close_room };
                proof {
                    assert(out == Ok::<(GameState, Seq<EventModel>), GameError>((next_state, evs)));
                    let k = last_attack_before(evs, evs.len() as int);
                    if k >= 0 {
                        assert(self.latest_combat_roll matches Some(v) && roll_matches(v, evs[k]));
                    } else {
                        assert(self.latest_combat_roll == old(self).latest_combat_roll);
                    }
                    assert(self.connected@ == old(self).connected@);
                    assert(old(self).connected@.contains(player_id));
                    assert(close_room == (next_state is GameOver));
                    assert(game_step(old(self).game_state, old(self).core@, self.core@, player_id, action, out));
                    assert(action_matches(*old(self), *self, player_id, action, reply));
                }
                reply
            },
            Err(err) => RoomReply {
                events: Vec::new(),
                broadcast_state: false,
                direct: Some(DirectMessage::ActionError(player_id, err)),
                close_room: false,
            },
        }
    }
}

/// A refresh changes nothing and is answered to the player when seated.
pub open spec fn refresh_matches(
    before: RoomRuntime,
    after: RoomRuntime,
    player_id: PlayerId,
    reply: RoomReply,
) -> bool {
    &&& after.core@ == before.core@
    &&& after.game_state == before.game_state
    &&& after.connected@ == before.connected@
    &&& after.latest_combat_roll == before.latest_combat_roll
    &&& after.state_version == before.state_version
    &&& reply.events@.len() == 0
    &&& !reply.broadcast_state
    &&& !reply.close_room
    &&& reply.direct == if before.seats@.contains(player_id) {
        Some(DirectMessage::Refresh(player_id))
    } else {
        None
    }
}

/// What a disconnect does to the room: the player leaves the connected set and the
/// game (`after_disconnect`); if it was the player's turn and somebody is still
/// connected, the turn passes to the next active player with a fresh
/// reinforcement phase; the room closes once nobody is connected.
pub open spec fn disconnect_matches(
    before: RoomRuntime,
    after: RoomRuntime,
    player_id: PlayerId,
    reply: RoomReply,
) -> bool {
    let connected = without(before.connected@, player_id);
    let core = after_disconnect(before.core@, player_id);
    &&& after.connected@ == connected
    &&& after.core@ == core
    &&& after.latest_combat_roll == before.latest_combat_roll
    &&& reply.direct is None
    &&& reply.close_room == (connected.len() == 0)
    &&& if player_to_move(before.game_state) == Some(player_id) && connected.len() > 0 {
        let next = next_player_after(core.players, player_id);
        &&& after.game_state == GameState::Reinforcement(
            ReinforcementPhase {
                player: next,
                troops_remaining: reinforcement_total(core, next) as u32,
            },
        )
        &&& after.state_version == before.state_version + 1
        &&& events_view(reply.events@) == seq![
            EventModel::PhaseChanged { current_player: next, phase: TurnPhase::Reinforcement },
        ]
        &&& reply.broadcast_state
    } else {
        &&& after.game_state == before.game_state
        &&& after.state_version == before.state_version
        &&& reply.events@.len() == 0
        &&& !reply.broadcast_state
    }
}

/// What an action sent to the room does: refused for a player who is not
/// connected; otherwise the game takes the step (`game_step`). An accepted action
/// moves to the next state, bumps the state version, remembers the dice of the
/// last attack among its events, broadcasts the events and the new state, and
/// closes the room once the game is over; a refused one is answered to the player.
pub open spec fn action_matches(
    before: RoomRuntime,
    after: RoomRuntime,
    player_id: PlayerId,
    action: PlayerAction,
    reply: RoomReply,
) -> bool {
    &&& after.connected@ == before.connected@
    &&& if !before.connected@.contains(player_id) {
        &&& after.core@ == before.core@
        &&& after.game_state == before.game_state
        &&& after.latest_combat_roll == before.latest_combat_roll
        &&& after.state_version == before.state_version
        &&& reply.events@.len() == 0
        &&& !reply.broadcast_state
        &&& !reply.close_room
        &&& reply.direct == Some(DirectMessage::NotConnected(player_id))
    } else {
        exists|out: crate::game::engine::phases::outcome::StepView|
            #![trigger game_step(before.game_state, before.core@, after.core@, player_id, action, out)]
            game_step(before.game_state, before.core@, after.core@, player_id, action, out)
                && match out {
                Ok((next, evs)) => {
                    let k = last_attack_before(evs, evs.len() as int);
                    &&& after.game_state == next
                    &&& events_view(reply.events@) == evs
                    &&& reply.broadcast_state
                    &&& reply.direct is None
                    &&& reply.close_room == (next is GameOver)
                    &&& after.state_version == before.state_version + 1
                    &&& if k >= 0 {
                        after.latest_combat_roll matches Some(v) && roll_matches(v, evs[k])
                    } else {
                        after.latest_combat_roll == before.latest_combat_roll
                    }
                },
                Err(e) => {
                    &&& after.core@ == before.core@
                    &&& after.game_state == before.game_state
                    &&& after.latest_combat_roll == before.latest_combat_roll
                    &&& after.state_version == before.state_version
                    &&& reply.events@.len() == 0
                    &&& !reply.broadcast_state
                    &&& !reply.close_room
                    &&& reply.direct == Some(DirectMessage::ActionError(player_id, e))
                },
            }
    }
}

/// Whether `id` is among `players`.
fn contains_player(players: &Vec<PlayerId>, id: PlayerId) -> (found: bool)
    ensures
        found == players@.contains(id),
{
    let mut i: usize = 0;
    while i < players.len()
        invariant
            i <= players@.len(),
            forall|k: int| 0 <= k < i ==> players@[k] != id,
        decreases players@.len() - i,
    {
        if players[i] == id {
            assert(players@[i as int] == id);
            return true;
        }
        i = i + 1;
    }
    false
}

/// `players` without any entry `id`.
fn without_player(players: &Vec<PlayerId>, id: PlayerId) -> (rest: Vec<PlayerId>)
    ensures
        rest@ == without(players@, id),
{
    let mut rest: Vec<PlayerId> = Vec::new();
    let mut i: usize = 0;
    while i < players.len()
        invariant
            i <= players@.len(),
            rest@ == without(players@.take(i as int), id),
        decreases players@.len() - i,
    {
        assert(players@.take(i as int + 1).drop_last() == players@.take(i as int));
        assert(players@.take(i as int + 1).last() == players@[i as int]);
        if players[i] != id {
            rest.push(players[i]);
        }
        assert(rest@ == without(players@.take(i as int + 1), id));
        i = i + 1;
    }
    assert(players@.take(i as int) == players@);
    rest
}

/// A player leaving keeps the game playable.
pub proof fn lemma_disconnect_keeps_room_sound(core: CoreModel, id: PlayerId)
    requires
        room_sound(core),
    ensures
        room_sound(after_disconnect(core, id)),
{
    let after = after_disconnect(core, id);
    let ps = core.players;
    let pa = after.players;
    lemma_player_index(ps, id);
    assert(crate::game::rules::holdings::same_owners(core.territories, after.territories));
    assert forall|p: PlayerId| owned_count(after.territories, p) == owned_count(core.territories, p) by {
        crate::game::rules::holdings::lemma_owned_count_same_owners(
            core.territories,
            after.territories,
            p,
        );
    }
    assert forall|p: PlayerId| player_index(pa, p) == player_index(ps, p) by {
        crate::game::rules::holdings::lemma_player_index_same_ids(pa, ps, p, 0);
    }
    assert(ids_distinct(pa));
    assert forall|t: int| 0 <= t < after.territories.len() implies player_index(
        pa,
        #[trigger] after.territories[t].owner,
    ) >= 0 by {
        assert(after.territories[t].owner == core.territories[t].owner);
    }
    assert forall|i: int| 0 <= i < pa.len() implies #[trigger] pa[i].territories_owned
        <= owned_count(after.territories, pa[i].id) by {
        assert(pa[i].id == ps[i].id);
    }
}

/// When a disconnect passes the turn on, the new reinforcement phase belongs to
/// the next player in turn order and holds that player's own reinforcements.
pub proof fn lemma_disconnect_passes_own_reinforcements(
    before: RoomRuntime,
    after: RoomRuntime,
    player_id: PlayerId,
    reply: RoomReply,
)
    requires
        before.well_formed(),
        disconnect_matches(before, after, player_id, reply),
        after.game_state != before.game_state,
    ensures
        after.game_state matches GameState::Reinforcement(next) && {
            &&& next.player == next_player_after(after.core@.players, player_id)
            &&& next.troops_remaining == reinforcement_total(after.core@, next.player)
        },
{
    let core = after_disconnect(before.core@, player_id);
    lemma_disconnect_keeps_room_sound(before.core@, player_id);
    lemma_board_fits_reinforcement(core, next_player_after(core.players, player_id));
}

} // verus!
