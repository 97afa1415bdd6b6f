use vstd::prelude::*;

use crate::game::model::player::PlayerModel;
use crate::game::model::{GameCore, PlayerId};

use super::validation::{lemma_player_index, player_index, player_position};

verus! {

/// Index of the first active player found walking forward from `cur`, trying
/// offsets `step`, `step + 1`, ... up to the number of players (wrapping around), or -1.
pub open spec fn next_active_index(players: Seq<PlayerModel>, cur: int, step: int) -> int
    decreases players.len() + 1 - step,
{
    if step < 1 || step > players.len() {
        -1
    } else {
        let idx = (cur + step) % (players.len() as int);
        if players[idx].is_active() {
            idx
        } else {
            next_active_index(players, cur, step + 1)
        }
    }
}

/// Whose turn follows `player`'s: the next active player in seating order after
/// `player` (after seat 0 when `player` is not seated), coming back round to
/// `player`'s own seat last; `player` itself when nobody is active.
pub open spec fn next_player_after(players: Seq<PlayerModel>, player: PlayerId) -> PlayerId {
    if players.len() == 0 {
        player
    } else {
        let pi = player_index(players, player);
        let cur = if pi >= 0 {
            pi
        } else {
            0
        };
        let k = next_active_index(players, cur, 1);
        if k >= 0 {
            players[k].id
        } else {
            player
        }
    }
}

pub proof fn lemma_next_active_index(players: Seq<PlayerModel>, cur: int, step: int)
    requires
        players.len() > 0,
    ensures
        next_active_index(players, cur, step) == -1 || (0 <= next_active_index(players, cur, step)
            < players.len() && players[next_active_index(players, cur, step)].is_active()),
    decreases players.len() + 1 - step,
{
    if 1 <= step <= players.len() {
        lemma_next_active_index(players, cur, step + 1);
    }
}

/// The player who moves after `player`: always an active player, or `player` itself.
pub proof fn lemma_next_player_is_active_or_same(players: Seq<PlayerModel>, player: PlayerId)
    ensures
        next_player_after(players, player) == player || exists|i: int|
            0 <= i < players.len() && players[i].id == next_player_after(players, player)
                && #[trigger] players[i].is_active(),
{
    if players.len() > 0 {
        lemma_player_index(players, player);
        let pi = player_index(players, player);
        let cur = if pi >= 0 {
            pi
        } else {
            0
        };
        lemma_next_active_index(players, cur, 1);
        let k = next_active_index(players, cur, 1);
        if k >= 0 {
            assert(players[k].is_active());
        }
    }
}

pub fn end_turn(core: &GameCore, player: PlayerId) -> (next: PlayerId)
    ensures
        next == next_player_after(core@.players, player),
{
    let ghost v = core@.players;
    if core.players.len() == 0 {
        return player;
    }
    let current_index = match player_position(&core.players, player) {
        Some(i) => i,
        None => 0,
    };
    let len = core.players.len();
    let mut offset: usize = 0;
    while offset < len
        invariant
            v == core@.players,
            len == v.len(),
            len > 0,
            current_index < len,
            current_index as int == if player_index(v, player) >= 0 {
                player_index(v, player)
            } else {
                0
            },
            offset <= len,
            next_active_index(v, current_index as int, 1) == next_active_index(
                v,
                current_index as int,
                offset + 1,
            ),
        decreases len - offset,
    {
        let step = offset + 1;
        let idx = if step < len - current_index {
            current_index + step
        } else {
            step - (len - current_index)
        };
        assert(idx as int == (current_index + step) % (len as int)) by (nonlinear_arith)
            requires
                current_index < len,
                1 <= step <= len,
                idx as int == if current_index + step < len {
                    current_index + step
                } else {
                    current_index + step - len
                },
        ;
        let candidate = &core.players[idx];
        assert(v[idx as int] == core.players@[idx as int]@);
        if !candidate.eliminated && candidate.territories_owned > 0 {
            assert(next_active_index(v, current_index as int, step as int) == idx as int);
            return candidate.id;
        }
        offset = offset + 1;
    }
    player
}

/// The seat `j` places forward from seat `cur` at a table of `n`.
pub open spec fn seat_after(n: int, cur: int, j: int) -> int {
    (cur + j) % n
}

/// Every seat from `lo` up to (not including) `hi` places after `cur` is inactive.
pub open spec fn seats_inactive(players: Seq<PlayerModel>, cur: int, lo: int, hi: int) -> bool {
    forall|j: int|
        lo <= j < hi ==> !(#[trigger] players[seat_after(players.len() as int, cur, j)]).is_active()
}

proof fn lemma_next_active_index_first(players: Seq<PlayerModel>, cur: int, step: int)
    requires
        players.len() > 0,
        step >= 1,
    ensures
        ({
            let n = players.len() as int;
            let r = next_active_index(players, cur, step);
            &&& r == -1 ==> seats_inactive(players, cur, step, n + 1)
            &&& r != -1 ==> exists|s: int|
                #![trigger seat_after(n, cur, s)]
                step <= s <= n && r == seat_after(n, cur, s) && seats_inactive(players, cur, step, s)
        }),
    decreases players.len() + 1 - step,
{
    let n = players.len() as int;
    if step <= n {
        lemma_next_active_index_first(players, cur, step + 1);
        let r = next_active_index(players, cur, step);
        if players[seat_after(n, cur, step)].is_active() {
            assert(r == seat_after(n, cur, step));
            assert(seats_inactive(players, cur, step, step));
        } else if r != -1 {
            let s = choose|s: int|
                #![trigger seat_after(n, cur, s)]
                step + 1 <= s <= n && r == seat_after(n, cur, s) && seats_inactive(
                    players,
                    cur,
                    step + 1,
                    s,
                );
            assert(seats_inactive(players, cur, step, s));
            assert(r == seat_after(n, cur, s));
        } else {
            assert(seats_inactive(players, cur, step, n + 1));
        }
    } else {
        assert(seats_inactive(players, cur, step, n + 1));
    }
}

/// Turn order goes round the table: the player after a seated `player` is the
/// first active player found walking the seats forward from `player`'s seat
/// (wrapping around); every seat passed over on the way is inactive, and when
/// no seat is active the turn stays with `player`.
pub proof fn lemma_next_player_is_first_active_after(players: Seq<PlayerModel>, player: PlayerId)
    requires
        player_index(players, player) >= 0,
    ensures
        ({
            let n = players.len() as int;
            let cur = player_index(players, player);
            let next = next_player_after(players, player);
            ||| (next == player && seats_inactive(players, cur, 1, n + 1))
            ||| exists|s: int|
                #![trigger seat_after(n, cur, s)]
                1 <= s <= n && players[seat_after(n, cur, s)].id == next && players[seat_after(
                    n,
                    cur,
                    s,
                )].is_active() && seats_inactive(players, cur, 1, s)
        }),
{
    lemma_player_index(players, player);
    let cur = player_index(players, player);
    lemma_next_active_index_first(players, cur, 1);
    lemma_next_active_index(players, cur, 1);
}

} // verus!
