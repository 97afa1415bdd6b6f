use vstd::prelude::*;

use crate::game::model::board::ContinentModel;
use crate::game::model::game_core::CoreModel;
use crate::game::model::{GameCore, PlayerId, TerritoryState};

verus! {

/// How many of `territories` `player` owns.
pub open spec fn owned_count(territories: Seq<TerritoryState>, player: PlayerId) -> nat
    decreases territories.len(),
{
    if territories.len() == 0 {
        0
    } else {
        owned_count(territories.drop_last(), player) + if territories.last().owner == player {
            1nat
        } else {
            0nat
        }
    }
}

/// `player` owns every territory of the list.
pub open spec fn owns_all(
    territories: Seq<TerritoryState>,
    members: Seq<usize>,
    player: PlayerId,
) -> bool {
    forall|k: int| 0 <= k < members.len() ==> #[trigger] territories[members[k] as int].owner == player
}

/// The bonuses of the continents that `player` owns entirely.
pub open spec fn continent_bonus_sum(
    territories: Seq<TerritoryState>,
    continents: Seq<ContinentModel>,
    player: PlayerId,
) -> nat
    decreases continents.len(),
{
    if continents.len() == 0 {
        0
    } else {
        continent_bonus_sum(territories, continents.drop_last(), player) + if owns_all(
            territories,
            continents.last().territories,
            player,
        ) {
            continents.last().bonus as nat
        } else {
            0nat
        }
    }
}

/// The sum of all continent bonuses.
pub open spec fn bonus_total(continents: Seq<ContinentModel>) -> nat
    decreases continents.len(),
{
    if continents.len() == 0 {
        0
    } else {
        bonus_total(continents.drop_last()) + continents.last().bonus as nat
    }
}

/// Every territory a continent lists is on the board.
pub open spec fn continents_on_board(core: CoreModel) -> bool {
    forall|c: int, k: int|
        0 <= c < core.map.continents.len() && 0 <= k < core.map.continents[c].territories.len()
            ==> #[trigger] core.map.continents[c].territories[k] < core.territories.len()
}

/// The board is sound for counting reinforcements: continents list board
/// territories, and a third of the board plus every bonus fits in a `u32`.
pub open spec fn board_fits(core: CoreModel) -> bool {
    &&& continents_on_board(core)
    &&& core.territories.len() <= u32::MAX
    &&& core.territories.len() / 3 + 3 + bonus_total(core.map.continents) <= u32::MAX
}

/// Troops granted at the start of a turn: a third of the territories owned
/// (at least 3) plus the bonus of every continent owned entirely.
pub open spec fn reinforcement_total(core: CoreModel, player: PlayerId) -> int {
    let owned = owned_count(core.territories, player) as u32;
    let base = if owned / 3 > 3 {
        owned / 3
    } else {
        3
    };
    base + continent_bonus_sum(core.territories, core.map.continents, player)
}

pub proof fn lemma_bonus_sum_bounded(
    territories: Seq<TerritoryState>,
    continents: Seq<ContinentModel>,
    player: PlayerId,
)
    ensures
        continent_bonus_sum(territories, continents, player) <= bonus_total(continents),
    decreases continents.len(),
{
    if continents.len() > 0 {
        lemma_bonus_sum_bounded(territories, continents.drop_last(), player);
    }
}

pub proof fn lemma_owned_count_bounded(territories: Seq<TerritoryState>, player: PlayerId)
    ensures
        owned_count(territories, player) <= territories.len(),
    decreases territories.len(),
{
    if territories.len() > 0 {
        lemma_owned_count_bounded(territories.drop_last(), player);
    }
}

/// Whatever the ownership, the troops granted stay within a bound that depends on
/// the board alone.
pub proof fn lemma_reinforcement_bounded(core: CoreModel, player: PlayerId)
    requires
        core.territories.len() <= u32::MAX,
    ensures
        3 <= reinforcement_total(core, player) <= core.territories.len() / 3 + 3 + bonus_total(
            core.map.continents,
        ),
{
    lemma_bonus_sum_bounded(core.territories, core.map.continents, player);
    lemma_owned_count_bounded(core.territories, player);
    let owned = owned_count(core.territories, player);
    assert((owned as u32) == owned);
    assert(owned / 3 <= core.territories.len() / 3) by (nonlinear_arith)
        requires
            owned <= core.territories.len(),
    ;
}

/// On a sound board the reinforcements of any player can be counted.
pub proof fn lemma_board_fits_reinforcement(core: CoreModel, player: PlayerId)
    requires
        board_fits(core),
    ensures
        reinforcement_total(core, player) <= u32::MAX,
{
    lemma_reinforcement_bounded(core, player);
}

pub fn calculate_reinforcements(core: &GameCore, player: PlayerId) -> (troops: u32)
    requires
        continents_on_board(core@),
        reinforcement_total(core@, player) <= u32::MAX,
    ensures
        troops == reinforcement_total(core@, player),
        troops >= 3,
{
    let ghost terr = core@.territories;
    let mut owned_usize: usize = 0;
    let mut i: usize = 0;
    while i < core.territories.len()
        invariant
            terr == core@.territories,
            i <= terr.len(),
            owned_usize == owned_count(terr.take(i as int), player),
            owned_usize <= i,
        decreases terr.len() - i,
    {
        assert(terr.take(i as int + 1).drop_last() == terr.take(i as int));
        if core.territories[i].owner == player {
            owned_usize = owned_usize + 1;
        }
        i = i + 1;
    }
    assert(terr.take(i as int) == terr);
    let owned = #[verifier::truncate] (owned_usize as u32);
    let base = if owned / 3 > 3 {
        owned / 3
    } else {
        3
    };
    let ghost conts = core@.map.continents;
    proof {
        lemma_bonus_sum_bounded(terr, conts, player);
    }
    let mut continent_bonus: u32 = 0;
    let mut c: usize = 0;
    while c < core.map.continents.len()
        invariant
            terr == core@.territories,
            conts == core@.map.continents,
            continents_on_board(core@),
            c <= conts.len(),
            continent_bonus == continent_bonus_sum(terr, conts.take(c as int), player),
            base + continent_bonus_sum(terr, conts, player) <= u32::MAX,
        decreases conts.len() - c,
    {
        let ghost members = conts[c as int].territories;
        let continent = &core.map.continents[c];
        assert(continent.territories@ == members);
        let mut all_owned = true;
        let mut k: usize = 0;
        while k < continent.territories.len() && all_owned
            invariant
                terr == core@.territories,
                members == continent.territories@,
                c < conts.len(),
                conts == core@.map.continents,
                members == conts[c as int].territories,
                continents_on_board(core@),
                k <= members.len(),
                all_owned ==> forall|j: int|
                    0 <= j < k ==> #[trigger] terr[members[j] as int].owner == player,
                !all_owned ==> 0 < k && terr[members[k - 1] as int].owner != player,
            decreases members.len() - k,
        {
            let t = continent.territories[k];
            assert(core@.map.continents[c as int].territories[k as int] < core@.territories.len());
            if core.territories[t].owner != player {
                all_owned = false;
            }
            k = k + 1;
        }
        assert(all_owned == owns_all(terr, members, player));
        assert(conts.take(c as int + 1).drop_last() == conts.take(c as int));
        proof {
            lemma_bonus_sum_bounded(terr, conts.take(c as int + 1), player);
            lemma_bonus_prefix_bounded(terr, conts, c as int + 1, player);
        }
        if all_owned {
            continent_bonus = continent_bonus + continent.bonus;
        }
        c = c + 1;
    }
    assert(conts.take(c as int) == conts);
    base + continent_bonus
}

/// A prefix of the continents never earns more than all of them.
pub proof fn lemma_bonus_prefix_bounded(
    territories: Seq<TerritoryState>,
    continents: Seq<ContinentModel>,
    n: int,
    player: PlayerId,
)
    requires
        0 <= n <= continents.len(),
    ensures
        continent_bonus_sum(territories, continents.take(n), player) <= continent_bonus_sum(
            territories,
            continents,
            player,
        ),
    decreases continents.len() - n,
{
    if n < continents.len() {
        lemma_bonus_prefix_bounded(territories, continents, n + 1, player);
        assert(continents.take(n + 1).drop_last() == continents.take(n));
    } else {
        assert(continents.take(n) == continents);
    }
}

/// Continent bonuses come on top of the base: what is left of the reinforcements
/// once the bonus of every continent owned entirely is taken away is a third of
/// the territories owned, or 3 when that is more.
pub proof fn lemma_reinforcement_base_plus_bonuses(core: CoreModel, player: PlayerId)
    requires
        core.territories.len() <= u32::MAX,
    ensures
        ({
            let owned = owned_count(core.territories, player);
            let base = reinforcement_total(core, player) - continent_bonus_sum(
                core.territories,
                core.map.continents,
                player,
            );
            &&& base >= 3
            &&& base >= owned / 3
            &&& base == 3 || base == owned / 3
        }),
{
    lemma_owned_count_bounded(core.territories, player);
    let owned = owned_count(core.territories, player);
    assert((owned as u32) == owned);
}

/// Owning a continent entirely earns at least its bonus.
pub proof fn lemma_owned_continent_counts(
    territories: Seq<TerritoryState>,
    continents: Seq<ContinentModel>,
    player: PlayerId,
    c: int,
)
    requires
        0 <= c < continents.len(),
        owns_all(territories, continents[c].territories, player),
    ensures
        continent_bonus_sum(territories, continents, player) >= continents[c].bonus,
    decreases continents.len(),
{
    if c < continents.len() - 1 {
        lemma_owned_continent_counts(territories, continents.drop_last(), player, c);
    }
}

/// Continents not owned entirely earn nothing: a player who owns no continent
/// entirely gets no bonus.
pub proof fn lemma_no_continent_no_bonus(
    territories: Seq<TerritoryState>,
    continents: Seq<ContinentModel>,
    player: PlayerId,
)
    requires
        forall|c: int|
            0 <= c < continents.len() ==> !owns_all(
                territories,
                #[trigger] continents[c].territories,
                player,
            ),
    ensures
        continent_bonus_sum(territories, continents, player) == 0,
    decreases continents.len(),
{
    if continents.len() > 0 {
        assert forall|c: int| 0 <= c < continents.drop_last().len() implies !owns_all(
            territories,
            #[trigger] continents.drop_last()[c].territories,
            player,
        ) by {
            assert(continents.drop_last()[c] == continents[c]);
        }
        lemma_no_continent_no_bonus(territories, continents.drop_last(), player);
        assert(continents.last() == continents[continents.len() - 1]);
    }
}

/// A player who owns a whole continent gets at least 3 plus that continent's bonus.
pub proof fn lemma_whole_continent_adds_bonus(core: CoreModel, player: PlayerId, c: int)
    requires
        core.territories.len() <= u32::MAX,
        0 <= c < core.map.continents.len(),
        owns_all(core.territories, core.map.continents[c].territories, player),
    ensures
        reinforcement_total(core, player) >= 3 + core.map.continents[c].bonus,
{
    lemma_reinforcement_base_plus_bonuses(core, player);
    lemma_owned_continent_counts(core.territories, core.map.continents, player, c);
}

/// The board positions of the territories `player` owns.
pub open spec fn territories_of(territories: Seq<TerritoryState>, player: PlayerId) -> Set<int> {
    Set::new(|t: int| 0 <= t < territories.len() && territories[t].owner == player)
}

/// The territory count used for reinforcements is the number of board positions
/// the player owns.
pub proof fn lemma_owned_count_is_territories_owned(
    territories: Seq<TerritoryState>,
    player: PlayerId,
)
    ensures
        territories_of(territories, player).finite(),
        owned_count(territories, player) == territories_of(territories, player).len(),
    decreases territories.len(),
{
    if territories.len() == 0 {
        assert(territories_of(territories, player) =~= Set::empty());
    } else {
        let rest = territories.drop_last();
        lemma_owned_count_is_territories_owned(rest, player);
        let last = territories.len() - 1;
        if territories.last().owner == player {
            assert(territories_of(territories, player) =~= territories_of(rest, player).insert(last));
        } else {
            assert(territories_of(territories, player) =~= territories_of(rest, player));
        }
    }
}

} // verus!
