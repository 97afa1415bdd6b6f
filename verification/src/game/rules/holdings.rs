use vstd::prelude::*;

use crate::game::engine::phases::attack::{attack_step, fair_rolls};
use crate::game::engine::phases::fortify::{card_awarded, drawn_from, fortify_step, troops_moved};
use crate::game::engine::phases::outcome::{add_troops, StepView};
use crate::game::engine::phases::reinforcement::reinforcement_step;
use crate::game::engine::phases::setup::setup_step;
use crate::game::model::game_core::CoreModel;
use crate::game::model::phase_state::game_step;
use crate::game::model::player::PlayerModel;
use crate::game::model::{GameState, PlayerId, TerritoryState};
use crate::game::protocol::PlayerAction;

use super::combat::{attack_check, attack_outcome};
use super::ownership::players_after_capture;
use super::reinforcement::{lemma_owned_count_bounded, owned_count};
use super::validation::{lemma_player_index, player_index};

verus! {

/// No two players share an id.
pub open spec fn ids_distinct(players: Seq<PlayerModel>) -> bool {
    forall|i: int, j: int|
        0 <= i < players.len() && 0 <= j < players.len() && i != j ==> players[i].id
            != players[j].id
}

/// Every territory belongs to a seated player.
pub open spec fn owners_seated(core: CoreModel) -> bool {
    forall|t: int|
        0 <= t < core.territories.len() ==> player_index(
            core.players,
            #[trigger] core.territories[t].owner,
        ) >= 0
}

/// Each player's territory count is exactly the number of territories they hold.
pub open spec fn counts_exact(core: CoreModel) -> bool {
    forall|i: int|
        0 <= i < core.players.len() ==> #[trigger] core.players[i].territories_owned == owned_count(
            core.territories,
            core.players[i].id,
        )
}

/// No player's territory count exceeds the territories they hold.
pub open spec fn counts_bounded(core: CoreModel) -> bool {
    forall|i: int|
        0 <= i < core.players.len() ==> #[trigger] core.players[i].territories_owned <= owned_count(
            core.territories,
            core.players[i].id,
        )
}

/// The bookkeeping of who holds what is sound: distinct ids, every owner seated,
/// no count above the holdings, and a board small enough to count on in a `u32`.
pub open spec fn holdings_sound(core: CoreModel) -> bool {
    &&& ids_distinct(core.players)
    &&& owners_seated(core)
    &&& counts_bounded(core)
    &&& core.territories.len() < u32::MAX
}

/// The players of `after` are those of `before` in the same seats with the same ids
/// and territory counts.
pub open spec fn same_seats(before: Seq<PlayerModel>, after: Seq<PlayerModel>) -> bool {
    &&& after.len() == before.len()
    &&& forall|i: int|
        0 <= i < before.len() ==> #[trigger] after[i].id == before[i].id
            && after[i].territories_owned == before[i].territories_owned
}

/// The territories of `after` are those of `before` with the same owners.
pub open spec fn same_owners(before: Seq<TerritoryState>, after: Seq<TerritoryState>) -> bool {
    &&& after.len() == before.len()
    &&& forall|t: int| 0 <= t < before.len() ==> #[trigger] after[t].owner == before[t].owner
}

pub proof fn lemma_owned_count_same_owners(
    before: Seq<TerritoryState>,
    after: Seq<TerritoryState>,
    p: PlayerId,
)
    requires
        same_owners(before, after),
    ensures
        owned_count(after, p) == owned_count(before, p),
    decreases before.len(),
{
    if before.len() > 0 {
        assert(same_owners(before.drop_last(), after.drop_last()));
        lemma_owned_count_same_owners(before.drop_last(), after.drop_last(), p);
    }
}

pub proof fn lemma_owned_count_update(
    ts: Seq<TerritoryState>,
    i: int,
    s: TerritoryState,
    p: PlayerId,
)
    requires
        0 <= i < ts.len(),
    ensures
        owned_count(ts.update(i, s), p) + (if ts[i].owner == p {
            1int
        } else {
            0int
        }) == owned_count(ts, p) + (if s.owner == p {
            1int
        } else {
            0int
        }),
    decreases ts.len(),
{
    if i == ts.len() - 1 {
        assert(ts.update(i, s).drop_last() == ts.drop_last());
    } else {
        lemma_owned_count_update(ts.drop_last(), i, s, p);
        assert(ts.update(i, s).drop_last() == ts.drop_last().update(i, s));
    }
}

/// Holding a territory makes the count of holdings positive.
pub proof fn lemma_owned_count_positive(ts: Seq<TerritoryState>, t: int)
    requires
        0 <= t < ts.len(),
    ensures
        owned_count(ts, ts[t].owner) >= 1,
    decreases ts.len(),
{
    if t < ts.len() - 1 {
        lemma_owned_count_positive(ts.drop_last(), t);
    }
}

/// Players with the same ids in the same seats are found at the same index.
pub proof fn lemma_player_index_same_ids(
    a: Seq<PlayerModel>,
    b: Seq<PlayerModel>,
    p: PlayerId,
    k: int,
)
    requires
        a.len() == b.len(),
        forall|i: int| 0 <= i < a.len() ==> #[trigger] a[i].id == b[i].id,
    ensures
        super::validation::player_index_from(a, p, k) == super::validation::player_index_from(b, p, k),
    decreases a.len() - k,
{
    if 0 <= k < a.len() {
        lemma_player_index_same_ids(a, b, p, k + 1);
    }
}

/// Bookkeeping is unaffected when seats and owners stay as they were.
pub proof fn lemma_holdings_unchanged(before: CoreModel, after: CoreModel)
    requires
        same_seats(before.players, after.players),
        same_owners(before.territories, after.territories),
    ensures
        holdings_sound(before) ==> holdings_sound(after),
        counts_exact(before) ==> counts_exact(after),
{
    assert forall|p: PlayerId| player_index(after.players, p) == player_index(before.players, p) by {
        lemma_player_index_same_ids(after.players, before.players, p, 0);
    }
    assert forall|p: PlayerId| owned_count(after.territories, p) == owned_count(before.territories, p) by {
        lemma_owned_count_same_owners(before.territories, after.territories, p);
    }
    if holdings_sound(before) {
        assert forall|t: int| 0 <= t < after.territories.len() implies player_index(
            after.players,
            #[trigger] after.territories[t].owner,
        ) >= 0 by {
            assert(after.territories[t].owner == before.territories[t].owner);
        }
        assert forall|i: int| 0 <= i < after.players.len() implies #[trigger] after.players[i].territories_owned
            <= owned_count(after.territories, after.players[i].id) by {
            assert(after.players[i].id == before.players[i].id);
        }
    }
    if counts_exact(before) {
        assert forall|i: int| 0 <= i < after.players.len() implies #[trigger] after.players[i].territories_owned
            == owned_count(after.territories, after.players[i].id) by {
            assert(after.players[i].id == before.players[i].id);
        }
    }
}

/// Capturing a territory keeps the bookkeeping sound, and exact when it was exact.
pub proof fn lemma_capture_keeps_holdings(
    core: CoreModel,
    player: PlayerId,
    from: usize,
    to: usize,
    dice: u32,
    a: Seq<u8>,
    d: Seq<u8>,
)
    requires
        holdings_sound(core),
        attack_check(core, player, from as int, to as int, dice as int) is Ok,
    ensures
        holdings_sound(attack_outcome(core, player, from, to, dice, a, d).core),
        counts_exact(core) ==> counts_exact(attack_outcome(core, player, from, to, dice, a, d).core),
        attack_outcome(core, player, from, to, dice, a, d).core.territories.len()
            == core.territories.len(),
        attack_outcome(core, player, from, to, dice, a, d).core.map == core.map,
{
    let out = attack_outcome(core, player, from, to, dice, a, d);
    let ts = core.territories;
    let ps = core.players;
    let after = out.core;
    if !out.captured {
        lemma_holdings_unchanged(core, after);
    } else {
        let defender = ts[to as int].owner;
        let ai = player_index(ps, player);
        let di = player_index(ps, defender);
        lemma_player_index(ps, player);
        lemma_player_index(ps, defender);
        assert(ai >= 0);
        assert(di >= 0);
        assert(ai != di);
        lemma_owned_count_positive(ts, to as int);
        lemma_owned_count_bounded(ts, player);
        assert(ps[ai].territories_owned <= owned_count(ts, player));
        let ta = after.territories;
        // The territory changes hands; the others keep their owners.
        let mid = ts.update(to as int, TerritoryState { owner: player, troops: 0 });
        assert(same_owners(mid, ta));
        assert forall|p: PlayerId| #[trigger] owned_count(ta, p) == owned_count(mid, p) by {
            lemma_owned_count_same_owners(mid, ta, p);
        }
        assert forall|p: PlayerId|
            #[trigger] owned_count(mid, p) + (if defender == p {
                1int
            } else {
                0int
            }) == owned_count(ts, p) + (if player == p {
                1int
            } else {
                0int
            }) by {
            lemma_owned_count_update(ts, to as int, TerritoryState { owner: player, troops: 0 }, p);
        }
        let pa = after.players;
        assert(pa == players_after_capture(ps, player, defender));
        assert(pa.len() == ps.len());
        assert forall|i: int| 0 <= i < ps.len() implies #[trigger] pa[i].id == ps[i].id by {}
        assert forall|p: PlayerId| player_index(pa, p) == player_index(ps, p) by {
            lemma_player_index_same_ids(pa, ps, p, 0);
        }
        assert(ids_distinct(pa));
        assert forall|t: int| 0 <= t < ta.len() implies player_index(pa, #[trigger] ta[t].owner) >= 0 by {
            if t != to as int {
                assert(ta[t].owner == ts[t].owner);
            }
        }
        assert forall|i: int| 0 <= i < pa.len() implies #[trigger] pa[i].territories_owned
            <= owned_count(ta, pa[i].id) by {
            assert(ps[i].territories_owned <= owned_count(ts, ps[i].id));
            if i != ai && i != di {
                assert(ps[i].id != player && ps[i].id != defender);
            }
        }
        if counts_exact(core) {
            assert forall|i: int| 0 <= i < pa.len() implies #[trigger] pa[i].territories_owned
                == owned_count(ta, pa[i].id) by {
                assert(ps[i].territories_owned == owned_count(ts, ps[i].id));
                if i == ai {
                    assert(pa[ai].territories_owned == ps[ai].territories_owned + 1);
                    assert(owned_count(ta, player) == owned_count(mid, player));
                    assert(owned_count(mid, player) == owned_count(ts, player) + 1);
                } else if i == di {
                    assert(ps[di].territories_owned >= 1);
                    assert(pa[di].territories_owned == ps[di].territories_owned - 1);
                    assert(owned_count(ta, defender) == owned_count(mid, defender));
                    assert(owned_count(mid, defender) + 1 == owned_count(ts, defender));
                } else {
                    assert(ps[i].id != player && ps[i].id != defender);
                }
            }
        }
    }
}

/// Every action keeps the bookkeeping of holdings sound, and keeps each player's
/// territory count equal to the territories the player holds once it is so.
pub proof fn lemma_step_keeps_holdings(
    state: GameState,
    before: CoreModel,
    after: CoreModel,
    player: PlayerId,
    action: PlayerAction,
    out: StepView,
)
    requires
        holdings_sound(before),
        game_step(state, before, after, player, action, out),
    ensures
        holdings_sound(after),
        counts_exact(before) ==> counts_exact(after),
        after.territories.len() == before.territories.len(),
        after.map == before.map,
{
    match state {
        GameState::Setup(phase) => {
            lemma_player_index(before.players, player);
            if after != before {
                assert(same_seats(before.players, after.players));
                assert(same_owners(before.territories, after.territories));
            }
            lemma_holdings_unchanged(before, after);
        },
        GameState::Reinforcement(phase) => {
            assert(same_seats(before.players, after.players));
            assert(same_owners(before.territories, after.territories));
            lemma_holdings_unchanged(before, after);
        },
        GameState::Attack(phase) => {
            let (a, d) = choose|a: Seq<u8>, d: Seq<u8>|
                #![trigger attack_step(phase, before, player, action, a, d)]
                fair_rolls(before, player, action, a, d) && (after, out) == attack_step(
                    phase,
                    before,
                    player,
                    action,
                    a,
                    d,
                );
            match action {
                PlayerAction::Attack { from, to, dice } => {
                    if player == phase.player && attack_check(
                        before,
                        player,
                        from as int,
                        to as int,
                        dice as int,
                    ) is Ok {
                        lemma_capture_keeps_holdings(before, player, from, to, dice as u32, a, d);
                    } else {
                        lemma_holdings_unchanged(before, after);
                    }
                },
                _ => {
                    lemma_holdings_unchanged(before, after);
                },
            }
        },
        GameState::Fortify(phase) => {
            if player == phase.player {
                match action {
                    PlayerAction::EndTurn => {
                        if phase.conquered_this_turn {
                            let pile = choose|pile: Seq<crate::game::card::Card>|
                                #![trigger drawn_from(before, player, pile)]
                                crate::game::engine::phases::fortify::pile_ok(before, pile)
                                    && after == drawn_from(before, player, pile);
                            lemma_player_index(before.players, player);
                        }
                        assert(same_seats(before.players, after.players));
                        assert(same_owners(before.territories, after.territories));
                    },
                    _ => {
                        assert(same_seats(before.players, after.players));
                        assert(same_owners(before.territories, after.territories));
                    },
                }
            }
            lemma_holdings_unchanged(before, after);
        },
        GameState::GameOver(_) => {
            lemma_holdings_unchanged(before, after);
        },
    }
}

} // verus!
