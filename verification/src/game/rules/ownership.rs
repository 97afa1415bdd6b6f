use vstd::prelude::*;

use crate::game::model::game_core::CoreModel;
use crate::game::model::player::PlayerModel;
use crate::game::model::{GameCore, PlayerId};

use super::validation::{lemma_player_index, player_index, player_position};

verus! {

/// The players after `attacker` took a territory from `defender`: the attacker
/// holds one more territory, the defender one fewer (never below zero); a defender
/// left with none is eliminated and hands all cards to the attacker. Nothing
/// changes unless both are seated.
pub open spec fn players_after_capture(
    players: Seq<PlayerModel>,
    attacker: PlayerId,
    defender: PlayerId,
) -> Seq<PlayerModel> {
    let ai = player_index(players, attacker);
    let di = player_index(players, defender);
    if ai < 0 || di < 0 {
        players
    } else {
        let p1 = players.update(
            ai,
            PlayerModel { territories_owned: (players[ai].territories_owned + 1) as u32, ..players[ai] },
        );
        let left: u32 = if p1[di].territories_owned == 0 {
            0
        } else {
            (p1[di].territories_owned - 1) as u32
        };
        let p2 = p1.update(di, PlayerModel { territories_owned: left, ..p1[di] });
        if left == 0 {
            let taken = p2[di].cards;
            let p3 = p2.update(di, PlayerModel { eliminated: true, cards: Seq::empty(), ..p2[di] });
            p3.update(ai, PlayerModel { cards: p3[ai].cards + taken, ..p3[ai] })
        } else {
            p2
        }
    }
}

/// `core` with its players replaced.
pub open spec fn with_players(core: CoreModel, players: Seq<PlayerModel>) -> CoreModel {
    CoreModel { players, ..core }
}

/// The attacker's territory count can grow by one without overflow.
pub open spec fn capture_fits(players: Seq<PlayerModel>, attacker: PlayerId) -> bool {
    player_index(players, attacker) >= 0 ==> players[player_index(players, attacker)].territories_owned
        < u32::MAX
}

pub fn adjust_ownership(core: &mut GameCore, attacker: PlayerId, defender: PlayerId)
    requires
        capture_fits(old(core)@.players, attacker),
    ensures
        final(core)@ == with_players(
            old(core)@,
            players_after_capture(old(core)@.players, attacker, defender),
        ),
{
    let ghost before = core@;
    let attacker_idx = match player_position(&core.players, attacker) {
        Some(i) => i,
        None => {
            return;
        },
    };
    let defender_idx = match player_position(&core.players, defender) {
        Some(i) => i,
        None => {
            return;
        },
    };
    let ghost p1 = before.players.update(
        attacker_idx as int,
        PlayerModel {
            territories_owned: (before.players[attacker_idx as int].territories_owned + 1) as u32,
            ..before.players[attacker_idx as int]
        },
    );
    core.players[attacker_idx].territories_owned = core.players[attacker_idx].territories_owned + 1;
    assert(core@.players =~= p1);
    core.players[defender_idx].territories_owned = core.players[defender_idx].territories_owned.saturating_sub(
        1,
    );
    let ghost p2 = p1.update(
        defender_idx as int,
        PlayerModel {
            territories_owned: core.players[defender_idx as int].territories_owned,
            ..p1[defender_idx as int]
        },
    );
    assert(core@.players =~= p2);
    if core.players[defender_idx].territories_owned == 0 {
        core.players[defender_idx].eliminated = true;
        let mut transferred: Vec<crate::game::card::Card> = Vec::new();
        std::mem::swap(&mut transferred, &mut core.players[defender_idx].cards);
        let ghost p3 = p2.update(
            defender_idx as int,
            PlayerModel { eliminated: true, cards: Seq::empty(), ..p2[defender_idx as int] },
        );
        assert(core@.players =~= p3);
        assert(transferred@ == p2[defender_idx as int].cards);
        core.players[attacker_idx].cards.append(&mut transferred);
        assert(core@.players =~= p3.update(
            attacker_idx as int,
            PlayerModel {
                cards: p3[attacker_idx as int].cards + p2[defender_idx as int].cards,
                ..p3[attacker_idx as int]
            },
        ));
    }
}

/// A capture moves one territory from the defender's count to the attacker's.
/// The defender is eliminated, and hands its cards to the attacker, exactly when
/// its count reaches 0; a defender still holding territories keeps its status
/// and its hand, and the attacker's hand is unchanged. Nobody else changes.
pub proof fn lemma_capture_eliminates_only_emptied_defender(
    players: Seq<PlayerModel>,
    attacker: PlayerId,
    defender: PlayerId,
)
    requires
        attacker != defender,
        capture_fits(players, attacker),
        player_index(players, attacker) >= 0,
        player_index(players, defender) >= 0,
    ensures
        ({
            let r = players_after_capture(players, attacker, defender);
            let ai = player_index(players, attacker);
            let di = player_index(players, defender);
            &&& r.len() == players.len()
            &&& r[ai].id == attacker && r[di].id == defender
            &&& r[ai].territories_owned == players[ai].territories_owned + 1
            &&& r[ai].eliminated == players[ai].eliminated
            &&& players[di].territories_owned > 0 ==> r[di].territories_owned + 1
                == players[di].territories_owned
            &&& players[di].territories_owned == 0 ==> r[di].territories_owned == 0
            &&& r[di].territories_owned > 0 ==> {
                &&& r[di].eliminated == players[di].eliminated
                &&& r[di].cards == players[di].cards
                &&& r[ai].cards == players[ai].cards
            }
            &&& r[di].territories_owned == 0 ==> {
                &&& r[di].eliminated
                &&& r[di].cards.len() == 0
                &&& r[ai].cards == players[ai].cards + players[di].cards
            }
            &&& forall|k: int| 0 <= k < players.len() && k != ai && k != di ==> r[k] == players[k]
        }),
{
    lemma_player_index(players, attacker);
    lemma_player_index(players, defender);
}

/// A capture by or from someone without a seat changes nobody.
pub proof fn lemma_capture_without_seat_changes_nothing(
    players: Seq<PlayerModel>,
    attacker: PlayerId,
    defender: PlayerId,
)
    requires
        player_index(players, attacker) < 0 || player_index(players, defender) < 0,
    ensures
        players_after_capture(players, attacker, defender) == players,
{
}

} // verus!
