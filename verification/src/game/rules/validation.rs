use vstd::prelude::*;

use std::collections::VecDeque;

use crate::game::model::game_core::{players_view, CoreModel};
use crate::game::model::player::PlayerModel;
use crate::game::model::{GameCore, Player, PlayerId, TerritoryId};
use crate::game::protocol::GameError;

verus! {

/// Index of the first player at or after `k` whose id is `id`, or -1 when there is none.
pub open spec fn player_index_from(players: Seq<PlayerModel>, id: PlayerId, k: int) -> int
    decreases players.len() - k,
{
    if k < 0 || k >= players.len() {
        -1
    } else if players[k].id == id {
        k
    } else {
        player_index_from(players, id, k + 1)
    }
}

/// Index of the first player whose id is `id`, or -1 when there is none.
pub open spec fn player_index(players: Seq<PlayerModel>, id: PlayerId) -> int {
    player_index_from(players, id, 0)
}

pub proof fn lemma_player_index_from(players: Seq<PlayerModel>, id: PlayerId, k: int)
    requires
        0 <= k <= players.len(),
    ensures
        ({
            let r = player_index_from(players, id, k);
            ||| (r == -1 && forall|j: int| k <= j < players.len() ==> players[j].id != id)
            ||| (k <= r < players.len() && players[r].id == id && forall|j: int|
                k <= j < r ==> players[j].id != id)
        }),
    decreases players.len() - k,
{
    if k < players.len() && players[k].id != id {
        lemma_player_index_from(players, id, k + 1);
    }
}

/// The first index of `id`: there it stands, and nowhere before it.
pub proof fn lemma_player_index(players: Seq<PlayerModel>, id: PlayerId)
    ensures
        ({
            let r = player_index(players, id);
            ||| (r == -1 && forall|j: int| 0 <= j < players.len() ==> players[j].id != id)
            ||| (0 <= r < players.len() && players[r].id == id && forall|j: int|
                0 <= j < r ==> players[j].id != id)
        }),
{
    lemma_player_index_from(players, id, 0);
}

/// Where the first player with id `id` stands in `players`.
pub(crate) fn player_position(players: &Vec<Player>, id: PlayerId) -> (pos: Option<usize>)
    ensures
        match pos {
            Some(i) => i as int == player_index(players_view(players@), id) && i < players@.len(),
            None => player_index(players_view(players@), id) == -1,
        },
{
    let ghost v = players_view(players@);
    let mut i: usize = 0;
    while i < players.len()
        invariant
            v == players_view(players@),
            i <= players@.len(),
            player_index_from(v, id, 0) == player_index_from(v, id, i as int),
        decreases players@.len() - i,
    {
        assert(v[i as int] == players@[i as int]@);
        if players[i].id == id {
            return Some(i);
        }
        i = i + 1;
    }
    None
}

/// What checking that `player` owns `territory` answers.
pub open spec fn owned_territory_check(core: CoreModel, player: PlayerId, territory: int) -> Result<
    (),
    GameError,
> {
    if territory >= core.territories.len() {
        Err(GameError::InvalidTerritory)
    } else if core.territories[territory].owner != player {
        Err(GameError::InvalidOwner)
    } else {
        Ok(())
    }
}

pub fn validate_owned_territory(core: &GameCore, player: PlayerId, territory: TerritoryId) -> (r:
    Result<(), GameError>)
    ensures
        r == owned_territory_check(core@, player, territory as int),
{
    if territory >= core.territories.len() {
        return Err(GameError::InvalidTerritory);
    }
    if core.territories[territory].owner != player {
        return Err(GameError::InvalidOwner);
    }
    Ok(())
}

pub fn get_player(core: &GameCore, player: PlayerId) -> (r: Result<&Player, GameError>)
    ensures
        match r {
            Ok(p) => {
                &&& 0 <= player_index(core@.players, player)
                &&& *p == core.players@[player_index(core@.players, player)]
            },
            Err(e) => e == GameError::InvalidOwner && player_index(core@.players, player) == -1,
        },
{
    match player_position(&core.players, player) {
        Some(i) => Ok(&core.players[i]),
        None => Err(GameError::InvalidOwner),
    }
}

pub fn get_player_mut(core: &mut GameCore, player: PlayerId) -> (r: Result<&mut Player, GameError>)
    ensures
        match r {
            Ok(p) => {
                let i = player_index(old(core)@.players, player);
                &&& 0 <= i
                &&& *p == old(core).players@[i]
                &&& final(core).players@ == old(core).players@.update(i, *final(p))
                &&& final(core).territories == old(core).territories
                &&& final(core).deck == old(core).deck
                &&& final(core).discard == old(core).discard
                &&& final(core).map == old(core).map
                &&& final(core).sets_turned_in == old(core).sets_turned_in
            },
            Err(e) => {
                &&& e == GameError::InvalidOwner
                &&& player_index(old(core)@.players, player) == -1
                &&& *final(core) == *old(core)
            },
        },
{
    match player_position(&core.players, player) {
        Some(i) => Ok(&mut core.players[i]),
        None => Err(GameError::InvalidOwner),
    }
}

/// How many players are still in the game.
pub open spec fn count_active(players: Seq<PlayerModel>) -> nat
    decreases players.len(),
{
    if players.len() == 0 {
        0
    } else {
        count_active(players.drop_last()) + if players.last().is_active() {
            1nat
        } else {
            0nat
        }
    }
}

pub fn remaining_players(core: &GameCore) -> (n: usize)
    ensures
        n == count_active(core@.players),
{
    let ghost v = core@.players;
    let mut n: usize = 0;
    let mut i: usize = 0;
    while i < core.players.len()
        invariant
            v == core@.players,
            i <= v.len(),
            n == count_active(v.take(i as int)),
            n <= i,
        decreases v.len() - i,
    {
        assert(v.take(i as int + 1).drop_last() == v.take(i as int));
        assert(v[i as int] == core.players@[i as int]@);
        let p = &core.players[i];
        if !p.eliminated && p.territories_owned > 0 {
            n = n + 1;
        }
        i = i + 1;
    }
    assert(v.take(i as int) == v);
    n
}

/// Every neighbour listed for a board territory is itself on the board, and every
/// board territory has a row of neighbours.
pub open spec fn adjacency_on_board(core: CoreModel) -> bool {
    &&& core.map.adjacency.len() >= core.territories.len()
    &&& forall|t: int, k: int|
        0 <= t < core.territories.len() && 0 <= k < core.map.adjacency[t].len()
            ==> #[trigger] core.map.adjacency[t][k] < core.territories.len()
}

/// A walk over territories that `player` owns, each step to a listed neighbour.
pub open spec fn owned_path(core: CoreModel, player: PlayerId, path: Seq<usize>) -> bool {
    &&& path.len() >= 1
    &&& forall|i: int|
        0 <= i < path.len() ==> #[trigger] path[i] < core.territories.len()
            && core.territories[path[i] as int].owner == player
    &&& forall|i: int|
        0 < i < path.len() ==> #[trigger] core.map.adjacency[path[i - 1] as int].contains(path[i])
}

/// `player` can walk from `from` to `to` over owned territories.
pub open spec fn connected_by_owned(core: CoreModel, player: PlayerId, from: int, to: int) -> bool {
    exists|path: Seq<usize>|
        #![trigger owned_path(core, player, path)]
        owned_path(core, player, path) && path[0] == from && path.last() == to
}

/// What checking a troop route from `from` to `to` answers: both ends owned and
/// distinct, joined by territories of `player`.
pub open spec fn owned_route_check(core: CoreModel, player: PlayerId, from: int, to: int) -> Result<
    (),
    GameError,
> {
    if from == to {
        Err(GameError::InvalidFortify)
    } else if owned_territory_check(core, player, from) is Err {
        owned_territory_check(core, player, from)
    } else if owned_territory_check(core, player, to) is Err {
        owned_territory_check(core, player, to)
    } else if connected_by_owned(core, player, from, to) {
        Ok(())
    } else {
        Err(GameError::NotAdjacent)
    }
}

/// A set of territories that every owned neighbour of a member also belongs to.
pub open spec fn closed_under_owned_steps(core: CoreModel, player: PlayerId, s: Set<int>) -> bool {
    forall|v: int, k: int|
        #![trigger s.contains(v), core.map.adjacency[v][k]]
        s.contains(v) && 0 <= k < core.map.adjacency[v].len()
            && core.territories[core.map.adjacency[v][k] as int].owner == player ==> s.contains(
            core.map.adjacency[v][k] as int,
        )
}

/// A closed set holding the start of an owned walk holds the whole walk.
pub proof fn lemma_closed_set_holds_walk(
    core: CoreModel,
    player: PlayerId,
    s: Set<int>,
    path: Seq<usize>,
    i: int,
)
    requires
        owned_path(core, player, path),
        closed_under_owned_steps(core, player, s),
        s.contains(path[0] as int),
        0 <= i < path.len(),
    ensures
        s.contains(path[i] as int),
    decreases i,
{
    if i > 0 {
        lemma_closed_set_holds_walk(core, player, s, path, i - 1);
        let prev = path[i - 1] as int;
        assert(core.map.adjacency[path[i - 1] as int].contains(path[i]));
        let k = choose|k: int|
            0 <= k < core.map.adjacency[prev].len() && core.map.adjacency[prev][k] == path[i];
        assert(core.map.adjacency[prev][k] == path[i]);
    }
}

/*
Breadth-first search:
    1. start at from
    2. only traverse adjacent territories owned by player
    3. if to is reachable, it's valid
*/
pub fn validate_owned_path(core: &GameCore, player: PlayerId, from: usize, to: usize) -> (r: Result<
    (),
    GameError,
>)
    requires
        adjacency_on_board(core@),
    ensures
        r == owned_route_check(core@, player, from as int, to as int),
{
    if from == to {
        return Err(GameError::InvalidFortify);
    }
    match validate_owned_territory(core, player, from) {
        Err(e) => {
            return Err(e);
        },
        Ok(()) => {},
    }
    match validate_owned_territory(core, player, to) {
        Err(e) => {
            return Err(e);
        },
        Ok(()) => {},
    }
    let ghost c = core@;
    let n = core.territories.len();
    let mut visited: Vec<bool> = Vec::new();
    while visited.len() < n
        invariant
            visited@.len() <= n,
            forall|v: int| 0 <= v < visited@.len() ==> !#[trigger] visited@[v],
        decreases n - visited@.len(),
    {
        visited.push(false);
    }
    let mut queue: VecDeque<usize> = VecDeque::new();
    visited.set(from, true);
    queue.push_back(from);
    let ghost mut seen: Set<int> = Set::empty().insert(from as int);
    let ghost mut done: Set<int> = Set::empty();
    let ghost mut witness: Map<int, Seq<usize>> = Map::empty().insert(from as int, seq![from]);
    proof {
        vstd::set_lib::lemma_int_range(0, n as int);
        assert(queue@[0] == from);
        assert forall|v: int| 0 <= v < n && #[trigger] visited@[v] implies v == from as int by {}
    }
    loop
        invariant
            c == core@,
            adjacency_on_board(c),
            n == c.territories.len(),
            from < n,
            to < n,
            from != to,
            visited@.len() == n,
            visited@[from as int],
            vstd::set_lib::set_int_range(0, n as int).finite(),
            vstd::set_lib::set_int_range(0, n as int).len() == n,
            forall|v: int| #[trigger] seen.contains(v) <==> (0 <= v < n && visited@[v]),
            forall|i: int| 0 <= i < queue@.len() ==> #[trigger] queue@[i] < n && visited@[queue@[i] as int],
            forall|v: int|
                0 <= v < n && #[trigger] visited@[v] ==> done.contains(v) || queue@.contains(v as usize),
            forall|v: int| #[trigger] done.contains(v) ==> 0 <= v < n && visited@[v],
            closed_under_owned_steps_within(c, player, done, visited@),
            !done.contains(to as int),
            forall|v: int|
                0 <= v < n && #[trigger] visited@[v] ==> witness.dom().contains(v) && owned_path(
                    c,
                    player,
                    witness[v],
                ) && witness[v][0] == from && witness[v].last() == v,
        ensures
            queue@.len() == 0,
            c == core@,
            n == c.territories.len(),
            visited@.len() == n,
            visited@[from as int],
            forall|v: int|
                0 <= v < n && #[trigger] visited@[v] ==> done.contains(v) || queue@.contains(v as usize),
            forall|v: int| #[trigger] done.contains(v) ==> 0 <= v < n && visited@[v],
            closed_under_owned_steps_within(c, player, done, visited@),
            !done.contains(to as int),
        decreases n - seen.len(), queue@.len(),
    {
        proof {
            assert(seen.subset_of(vstd::set_lib::set_int_range(0, n as int)));
            vstd::set_lib::lemma_len_subset(seen, vstd::set_lib::set_int_range(0, n as int));
        }
        let ghost q0 = queue@;
        let curr = match queue.pop_front() {
            None => {
                break;
            },
            Some(curr) => curr,
        };
        let ghost seen0 = seen;
        let ghost qlen0 = queue@.len();
        proof {
            assert forall|v: int|
                0 <= v < n && #[trigger] visited@[v] implies done.contains(v) || queue@.contains(
                v as usize,
            ) || v == curr by {
                if q0.contains(v as usize) && v != curr {
                    let i = choose|i: int| 0 <= i < q0.len() && q0[i] == v as usize;
                    assert(i > 0);
                    assert(queue@[i - 1] == v as usize);
                }
            }
        }
        if curr == to {
            assert(owned_path(c, player, witness[to as int]));
            return Ok(());
        }
        assert(visited@[curr as int]);
        let row = &core.map.adjacency[curr];
        assert(row@ == c.map.adjacency[curr as int]);
        let mut j: usize = 0;
        while j < row.len()
            invariant
                c == core@,
                adjacency_on_board(c),
                row@ == c.map.adjacency[curr as int],
                n == c.territories.len(),
                curr < n,
                from < n,
                to < n,
                curr != to,
                visited@.len() == n,
                visited@[curr as int],
                visited@[from as int],
                j <= row@.len(),
                vstd::set_lib::set_int_range(0, n as int).finite(),
                vstd::set_lib::set_int_range(0, n as int).len() == n,
                seen.finite(),
                seen.len() <= n,
                seen.len() >= seen0.len(),
                seen.len() == seen0.len() ==> queue@.len() == qlen0,
                forall|v: int| #[trigger] seen.contains(v) <==> (0 <= v < n && visited@[v]),
                forall|i: int|
                    0 <= i < queue@.len() ==> #[trigger] queue@[i] < n && visited@[queue@[i] as int],
                forall|v: int|
                    0 <= v < n && #[trigger] visited@[v] ==> done.contains(v) || queue@.contains(
                        v as usize,
                    ) || v == curr,
                forall|v: int| #[trigger] done.contains(v) ==> 0 <= v < n && visited@[v],
                closed_under_owned_steps_within(c, player, done, visited@),
                !done.contains(to as int),
                forall|k: int|
                    0 <= k < j && c.territories[#[trigger] row@[k] as int].owner == player
                        ==> visited@[row@[k] as int],
                forall|v: int|
                    0 <= v < n && #[trigger] visited@[v] ==> witness.dom().contains(v) && owned_path(
                        c,
                        player,
                        witness[v],
                    ) && witness[v][0] == from && witness[v].last() == v,
            decreases row@.len() - j,
        {
            let neighbor = row[j];
            assert(c.map.adjacency[curr as int][j as int] < c.territories.len());
            if !visited[neighbor] && core.territories[neighbor].owner == player {
                proof {
                    let wp = witness[curr as int];
                    let np = wp.push(neighbor);
                    assert(np[np.len() - 2] == curr);
                    assert(row@.contains(neighbor));
                    assert forall|i: int| 0 < i < np.len() implies #[trigger] c.map.adjacency[np[i - 1] as int].contains(
                        np[i],
                    ) by {
                        if i < wp.len() {
                            assert(np[i - 1] == wp[i - 1] && np[i] == wp[i]);
                        }
                    }
                    witness = witness.insert(neighbor as int, np);
                    assert(!seen.contains(neighbor as int));
                    seen = seen.insert(neighbor as int);
                }
                let ghost qb = queue@;
                visited.set(neighbor, true);
                queue.push_back(neighbor);
                proof {
                    assert(seen.subset_of(vstd::set_lib::set_int_range(0, n as int)));
                    vstd::set_lib::lemma_len_subset(seen, vstd::set_lib::set_int_range(0, n as int));
                    assert forall|v: int| #[trigger] qb.contains(v as usize) implies queue@.contains(v as usize) by {
                        let i = choose|i: int| 0 <= i < qb.len() && qb[i] == v as usize;
                        assert(queue@[i] == v as usize);
                    }
                    assert(queue@[queue@.len() - 1] == neighbor);
                }
            }
            j = j + 1;
        }
        proof {
            done = done.insert(curr as int);
            assert forall|v: int, k: int|
                #![trigger done.contains(v), c.map.adjacency[v][k]]
                done.contains(v) && 0 <= k < c.map.adjacency[v].len()
                    && c.territories[c.map.adjacency[v][k] as int].owner == player implies visited@[c.map.adjacency[v][k] as int] by {
                if v == curr as int {
                    assert(row@[k] == c.map.adjacency[v][k]);
                }
            }
        }
    }
    proof {
        assert forall|v: int| 0 <= v < n && visited@[v] implies done.contains(v) by {
            assert(!queue@.contains(v as usize));
        }
        assert(closed_under_owned_steps(c, player, done)) by {
            assert forall|v: int, k: int|
                #![trigger done.contains(v), c.map.adjacency[v][k]]
                done.contains(v) && 0 <= k < c.map.adjacency[v].len()
                    && c.territories[c.map.adjacency[v][k] as int].owner == player implies done.contains(
                c.map.adjacency[v][k] as int,
            ) by {
                assert(c.map.adjacency[v][k] < n);
                assert(visited@[c.map.adjacency[v][k] as int]);
            }
        }
        if connected_by_owned(c, player, from as int, to as int) {
            let path = choose|path: Seq<usize>|
                owned_path(c, player, path) && path[0] == from && path.last() == to;
            lemma_closed_set_holds_walk(c, player, done, path, path.len() - 1);
        }
    }
    Err(GameError::NotAdjacent)
}

/// Every owned neighbour of a member of `s` has been visited.
pub open spec fn closed_under_owned_steps_within(
    core: CoreModel,
    player: PlayerId,
    s: Set<int>,
    visited: Seq<bool>,
) -> bool {
    forall|v: int, k: int|
        #![trigger s.contains(v), core.map.adjacency[v][k]]
        s.contains(v) && 0 <= k < core.map.adjacency[v].len()
            && core.territories[core.map.adjacency[v][k] as int].owner == player
            ==> visited[core.map.adjacency[v][k] as int]
}

} // verus!
