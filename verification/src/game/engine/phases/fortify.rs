use vstd::prelude::*;

use crate::game::card::Card;
use crate::game::model::game_core::CoreModel;
use crate::game::model::player::PlayerModel;
use crate::game::model::{
    FortifyPhase, GameCore, GameOverState, GameState, PlayerId, ReinforcementPhase, TerritoryState,
    TurnPhase,
};
use crate::game::protocol::event::{events_view, EventModel};
use crate::game::protocol::{GameError, GameEvent, PlayerAction};
use crate::game::rules::combat::{adjacency_covers_board, contains_territory};
use crate::game::rules::reinforcement::{
    board_fits, calculate_reinforcements, continent_bonus_sum, lemma_board_fits_reinforcement,
    lemma_reinforcement_base_plus_bonuses, owned_count, reinforcement_total,
};
use crate::game::rules::turn_order::{end_turn, next_player_after};
use crate::game::rules::validation::{
    count_active, owned_territory_check, player_index, player_position, remaining_players,
    validate_owned_territory,
};

use super::outcome::{step_view, troops_fit, StepView};

verus! {

broadcast use vstd::seq_lib::group_to_multiset_ensures;

/// What checking a fortification answers.
pub open spec fn fortify_check(
    phase: FortifyPhase,
    core: CoreModel,
    player: PlayerId,
    from: int,
    to: int,
    count: int,
) -> Result<(), GameError> {
    if phase.used_fortify {
        Err(GameError::AlreadyFortified)
    } else if count == 0 {
        Err(GameError::InvalidFortify)
    } else if owned_territory_check(core, player, from) is Err {
        owned_territory_check(core, player, from)
    } else if owned_territory_check(core, player, to) is Err {
        owned_territory_check(core, player, to)
    } else if from == to {
        Err(GameError::InvalidFortify)
    } else if !core.map.adjacency[from].contains(to as usize) {
        Err(GameError::NotAdjacent)
    } else if core.territories[from].troops <= count {
        Err(GameError::NotEnoughTroops)
    } else {
        Ok(())
    }
}

/// `core` after moving `count` troops from `from` to `to`.
pub open spec fn troops_moved(core: CoreModel, from: int, to: int, count: int) -> CoreModel {
    let t0 = core.territories;
    let t1 = t0.update(from, TerritoryState { troops: (t0[from].troops - count) as u32, ..t0[from] });
    let t2 = t1.update(to, TerritoryState { troops: (t1[to].troops + count) as u32, ..t1[to] });
    CoreModel { territories: t2, ..core }
}

/// The deck runs out and the discard pile is shuffled into a new deck.
pub open spec fn refills(core: CoreModel) -> bool {
    core.deck.len() == 0 && core.discard.len() > 0
}

/// A pile a card can be drawn from: the deck, or (when the deck is empty) any
/// reordering of the discard pile.
pub open spec fn pile_ok(core: CoreModel, pile: Seq<Card>) -> bool {
    if refills(core) {
        pile.to_multiset() == core.discard.to_multiset()
    } else {
        pile == core.deck
    }
}

/// `core` after drawing the top (last) card of `pile` for `player`: the card goes to
/// the first player with that id, or is lost when there is none; nothing is drawn
/// from an empty pile.
pub open spec fn drawn_from(core: CoreModel, player: PlayerId, pile: Seq<Card>) -> CoreModel {
    let discard = if refills(core) {
        Seq::<Card>::empty()
    } else {
        core.discard
    };
    if pile.len() == 0 {
        CoreModel { deck: pile, discard, ..core }
    } else {
        let pi = player_index(core.players, player);
        let players = if pi >= 0 {
            core.players.update(
                pi,
                PlayerModel { cards: core.players[pi].cards.push(pile.last()), ..core.players[pi] },
            )
        } else {
            core.players
        };
        CoreModel { deck: pile.drop_last(), discard, players, ..core }
    }
}

/// `after` is `before` once `player` has been handed a territory card.
pub open spec fn card_awarded(before: CoreModel, after: CoreModel, player: PlayerId) -> bool {
    exists|pile: Seq<Card>|
        #![trigger drawn_from(before, player, pile)]
        pile_ok(before, pile) && after == drawn_from(before, player, pile)
}

/// How a turn ends on `core`: the next active player gets the reinforcement phase,
/// unless only one player is left, who has won.
pub open spec fn turn_end(core: CoreModel, player: PlayerId) -> StepView {
    let next = next_player_after(core.players, player);
    if count_active(core.players) == 1 {
        Ok(
            (
                GameState::GameOver(GameOverState { winner: next }),
                seq![EventModel::PhaseChanged { current_player: next, phase: TurnPhase::GameOver }],
            ),
        )
    } else {
        Ok(
            (
                GameState::Reinforcement(
                    ReinforcementPhase {
                        player: next,
                        troops_remaining: reinforcement_total(core, next) as u32,
                    },
                ),
                seq![
                    EventModel::TurnEnded { next_player: next },
                    EventModel::PhaseChanged {
                        current_player: next,
                        phase: TurnPhase::Reinforcement,
                    },
                ],
            ),
        )
    }
}

/// What the fortify phase does with an action: one troop move between adjacent
/// owned territories, or the end of the turn (with a card for a conqueror).
pub open spec fn fortify_step(
    phase: FortifyPhase,
    before: CoreModel,
    after: CoreModel,
    player: PlayerId,
    action: PlayerAction,
    out: StepView,
) -> bool {
    if player != phase.player {
        after == before && out == Err::<(GameState, Seq<EventModel>), GameError>(
            GameError::NotYourTurn,
        )
    } else {
        match action {
            PlayerAction::Fortify { from, to, count } => match fortify_check(
                phase,
                before,
                player,
                from as int,
                to as int,
                count as int,
            ) {
                Err(e) => after == before && out == Err::<
                    (GameState, Seq<EventModel>),
                    GameError,
                >(e),
                Ok(_) => after == troops_moved(before, from as int, to as int, count as int) && out
                    == Ok::<(GameState, Seq<EventModel>), GameError>(
                    (
                        GameState::Fortify(FortifyPhase { used_fortify: true, ..phase }),
                        seq![EventModel::Fortified { from, to, count }],
                    ),
                ),
            },
            PlayerAction::EndTurn => {
                &&& if phase.conquered_this_turn {
                    card_awarded(before, after, player)
                } else {
                    after == before
                }
                &&& out == turn_end(after, player)
            },
            _ => after == before && out == Err::<(GameState, Seq<EventModel>), GameError>(
                GameError::InvalidAction,
            ),
        }
    }
}

/// The troops a fortification would move fit on their destination.
pub open spec fn fortify_fits(core: CoreModel, action: PlayerAction) -> bool {
    match action {
        PlayerAction::Fortify { to, count, .. } => troops_fit(core, to as int, count as int),
        _ => true,
    }
}

/// Reorders the cards with `rand`'s `SliceRandom::shuffle` and the thread-local
/// generator (`rand::rng()`). The contract claims only that the same cards come
/// back (as a multiset); which order comes is left open.
#[verifier::external_body]
fn shuffle_cards(cards: &mut Vec<Card>)
    ensures
        final(cards)@.to_multiset() == old(cards)@.to_multiset(),
{
    rand::seq::SliceRandom::shuffle(cards.as_mut_slice(), &mut rand::rng());
}

/// Draws the top card of the deck for `player` (given to the first player with that
/// id, lost when there is none); nothing happens when the deck is empty.
pub fn draw_card_for(core: &mut GameCore, player: PlayerId)
    ensures
        final(core)@ == (CoreModel { discard: old(core)@.discard, ..drawn_from(
            CoreModel { discard: Seq::empty(), ..old(core)@ },
            player,
            old(core)@.deck,
        ) }),
{
    let ghost c0 = core@;
    let card = match core.deck.pop() {
        None => {
            assert(core@ =~= (CoreModel { discard: c0.discard, ..drawn_from(
                CoreModel { discard: Seq::empty(), ..c0 },
                player,
                c0.deck,
            ) }));
            return;
        },
        Some(card) => card,
    };
    match player_position(&core.players, player) {
        Some(i) => {
            core.players[i].cards.push(card);
            assert(core@.players =~= c0.players.update(
                i as int,
                PlayerModel { cards: c0.players[i as int].cards.push(card), ..c0.players[i as int] },
            ));
        },
        None => {},
    }
}

fn award_territory_card(core: &mut GameCore, player: PlayerId)
    ensures
        card_awarded(old(core)@, final(core)@, player),
{
    let ghost c0 = core@;
    if core.deck.len() == 0 && core.discard.len() > 0 {
        core.deck.append(&mut core.discard);
        shuffle_cards(&mut core.deck);
    }
    let ghost pile = core.deck@;
    assert(pile_ok(c0, pile));
    draw_card_for(core, player);
    assert(core@ == drawn_from(c0, player, pile));
}

impl FortifyPhase {
    pub fn apply(self, core: &mut GameCore, player: PlayerId, action: PlayerAction) -> (r: Result<
        (GameState, Vec<GameEvent>),
        GameError,
    >)
        requires
            adjacency_covers_board(old(core)@),
            board_fits(old(core)@),
            fortify_fits(old(core)@, action),
        ensures
            fortify_step(self, old(core)@, final(core)@, player, action, step_view(r)),
    {
        let ghost c0 = core@;
        let mut phase = self;
        if player != phase.player {
            return Err(GameError::NotYourTurn);
        }
        match action {
            PlayerAction::Fortify { from, to, count } => {
                if phase.used_fortify {
                    return Err(GameError::AlreadyFortified);
                }
                if count == 0 {
                    return Err(GameError::InvalidFortify);
                }
                match validate_owned_territory(core, player, from) {
                    Err(e) => {
                        return Err(e);
                    },
                    Ok(()) => {},
                }
                match validate_owned_territory(core, player, to) {
                    Err(e) => {
                        return Err(e);
                    },
                    Ok(()) => {},
                }
                if from == to {
                    return Err(GameError::InvalidFortify);
                }
                assert(core.map.adjacency@[from as int]@ == c0.map.adjacency[from as int]);
                if !contains_territory(&core.map.adjacency[from], to) {
                    return Err(GameError::NotAdjacent);
                }
                if core.territories[from].troops <= count {
                    return Err(GameError::NotEnoughTroops);
                }
                core.territories[from].troops = core.territories[from].troops - count;
                core.territories[to].troops = core.territories[to].troops + count;
                assert(core@ == troops_moved(c0, from as int, to as int, count as int));
                phase.used_fortify = true;
                let mut events: Vec<GameEvent> = Vec::new();
                events.push(GameEvent::Fortified { from, to, count });
                assert(events_view(events@) =~= seq![EventModel::Fortified { from, to, count }]);
                Ok((GameState::Fortify(phase), events))
            },
            PlayerAction::EndTurn => {
                if phase.conquered_this_turn {
                    award_territory_card(core, player);
                }
                let ghost c1 = core@;
                assert(c1.territories == c0.territories && c1.map == c0.map);
                let next_player = end_turn(core, player);
                if remaining_players(core) == 1 {
                    let mut events: Vec<GameEvent> = Vec::new();
                    events.push(
                        GameEvent::PhaseChanged {
                            current_player: next_player,
                            phase: TurnPhase::GameOver,
                        },
                    );
                    assert(events_view(events@) =~= seq![
                        EventModel::PhaseChanged {
                            current_player: next_player,
                            phase: TurnPhase::GameOver,
                        },
                    ]);
                    return Ok((GameState::GameOver(GameOverState { winner: next_player }), events));
                }
                proof {
                    lemma_board_fits_reinforcement(core@, next_player);
                }
                let troops_remaining = calculate_reinforcements(core, next_player);
                let mut events: Vec<GameEvent> = Vec::new();
                events.push(GameEvent::TurnEnded { next_player });
                events.push(
                    GameEvent::PhaseChanged {
                        current_player: next_player,
                        phase: TurnPhase::Reinforcement,
                    },
                );
                assert(events_view(events@) =~= seq![
                    EventModel::TurnEnded { next_player },
                    EventModel::PhaseChanged {
                        current_player: next_player,
                        phase: TurnPhase::Reinforcement,
                    },
                ]);
                Ok(
                    (
                        GameState::Reinforcement(
                            ReinforcementPhase { player: next_player, troops_remaining },
                        ),
                        events,
                    ),
                )
            },
            _ => Err(GameError::InvalidAction),
        }
    }
}

/// All troops on the board.
pub open spec fn total_troops(territories: Seq<TerritoryState>) -> int
    decreases territories.len(),
{
    if territories.len() == 0 {
        0
    } else {
        total_troops(territories.drop_last()) + territories.last().troops
    }
}

pub proof fn lemma_total_troops_update(ts: Seq<TerritoryState>, i: int, s: TerritoryState)
    requires
        0 <= i < ts.len(),
    ensures
        total_troops(ts.update(i, s)) == total_troops(ts) - ts[i].troops + s.troops,
    decreases ts.len(),
{
    if i < ts.len() - 1 {
        lemma_total_troops_update(ts.drop_last(), i, s);
        assert(ts.update(i, s).drop_last() == ts.drop_last().update(i, s));
    } else {
        assert(ts.update(i, s).drop_last() == ts.drop_last());
    }
}

/// The fortify phase never creates or destroys troops: a fortification moves
/// them, and ending the turn leaves the board as it is.
pub proof fn lemma_fortify_conserves_troops(
    phase: FortifyPhase,
    before: CoreModel,
    after: CoreModel,
    player: PlayerId,
    action: PlayerAction,
    out: StepView,
)
    requires
        fortify_step(phase, before, after, player, action, out),
        fortify_fits(before, action),
    ensures
        total_troops(after.territories) == total_troops(before.territories),
{
    if player == phase.player {
        match action {
            PlayerAction::Fortify { from, to, count } => {
                if fortify_check(phase, before, player, from as int, to as int, count as int) is Ok {
                    let t0 = before.territories;
                    let t1 = t0.update(
                        from as int,
                        TerritoryState {
                            troops: (t0[from as int].troops - count) as u32,
                            ..t0[from as int]
                        },
                    );
                    lemma_total_troops_update(
                        t0,
                        from as int,
                        TerritoryState {
                            troops: (t0[from as int].troops - count) as u32,
                            ..t0[from as int]
                        },
                    );
                    lemma_total_troops_update(
                        t1,
                        to as int,
                        TerritoryState {
                            troops: (t1[to as int].troops + count) as u32,
                            ..t1[to as int]
                        },
                    );
                }
            },
            PlayerAction::EndTurn => {
                if phase.conquered_this_turn {
                    let pile = choose|pile: Seq<Card>|
                        #![trigger drawn_from(before, player, pile)]
                        pile_ok(before, pile) && after == drawn_from(before, player, pile);
                }
            },
            _ => {},
        }
    }
}

/// Ending the turn hands it on: when the game goes on, the new reinforcement
/// phase belongs to the next player in turn order, and its troops are that
/// player's own reinforcements (a third of its territories, at least 3, plus the
/// bonus of every continent it owns entirely) on the board as the turn ended.
pub proof fn lemma_turn_passes_with_own_reinforcements(
    phase: FortifyPhase,
    before: CoreModel,
    after: CoreModel,
    player: PlayerId,
    out: StepView,
)
    requires
        fortify_step(phase, before, after, player, PlayerAction::EndTurn, out),
        board_fits(before),
        player == phase.player,
    ensures
        after.territories == before.territories,
        after.map == before.map,
        match out {
            Ok((GameState::Reinforcement(next), _)) => {
                &&& next.player == next_player_after(after.players, player)
                &&& next.troops_remaining == reinforcement_total(after, next.player)
                &&& reinforcement_total(after, next.player) - continent_bonus_sum(
                    after.territories,
                    after.map.continents,
                    next.player,
                ) >= owned_count(after.territories, next.player) / 3
            },
            Ok((GameState::GameOver(g), _)) => count_active(after.players) == 1,
            _ => false,
        },
{
    if phase.conquered_this_turn {
        let pile = choose|pile: Seq<Card>|
            #![trigger drawn_from(before, player, pile)]
            pile_ok(before, pile) && after == drawn_from(before, player, pile);
    }
    assert(board_fits(after));
    let next = next_player_after(after.players, player);
    lemma_board_fits_reinforcement(after, next);
    lemma_reinforcement_base_plus_bonuses(after, next);
}

} // verus!
