use vstd::prelude::*;

use crate::game::model::game_core::CoreModel;
use crate::game::model::{GameCore, PlayerId, TerritoryId, TerritoryState};
use crate::game::protocol::event::{events_view, EventModel};
use crate::game::protocol::{GameError, GameEvent};

use super::ownership::{adjust_ownership, capture_fits, players_after_capture};
use super::validation::{player_index, player_position};

verus! {

broadcast use vstd::seq_lib::group_to_multiset_ensures;

/// A capture whose troop move is still outstanding, as reported by an attack.
#[derive(Debug, Clone, Copy)]
pub struct PendingCaptureMoveResult {
    pub from: TerritoryId,
    pub to: TerritoryId,
    pub min_troops: u32,
}

/// Everything an attack produced.
#[derive(Debug)]
pub struct AttackResolution {
    pub events: Vec<GameEvent>,
    pub captured: bool,
    pub roll: CombatRoll,
    pub pending_capture: Option<PendingCaptureMoveResult>,
}

/// The dice of one attack, each side's rolls from highest to lowest, and the losses.
#[derive(Debug, Clone)]
pub struct CombatRoll {
    pub from: TerritoryId,
    pub to: TerritoryId,
    pub attacker_rolls: Vec<u8>,
    pub defender_rolls: Vec<u8>,
    pub attacker_losses: u8,
    pub defender_losses: u8,
}

/// Every territory of the board has a row in the adjacency list.
pub open spec fn adjacency_covers_board(core: CoreModel) -> bool {
    core.map.adjacency.len() >= core.territories.len()
}

pub open spec fn min_int(a: int, b: int) -> int {
    if a < b {
        a
    } else {
        b
    }
}

/// What checking an attack of `player` from `from` to `to` with `dice` dice answers.
pub open spec fn attack_check(
    core: CoreModel,
    player: PlayerId,
    from: int,
    to: int,
    dice: int,
) -> Result<(), GameError> {
    if from >= core.territories.len() || to >= core.territories.len() {
        Err(GameError::InvalidTerritory)
    } else if from == to {
        Err(GameError::InvalidAction)
    } else if !core.map.adjacency[from].contains(to as usize) {
        Err(GameError::NotAdjacent)
    } else if core.territories[from].owner != player {
        Err(GameError::InvalidOwner)
    } else if core.territories[to].owner == player {
        Err(GameError::InvalidAction)
    } else if core.territories[from].troops <= 1 {
        Err(GameError::NotEnoughTroops)
    } else if !(1 <= dice <= 3) {
        Err(GameError::InvalidAction)
    } else if dice > min_int(3, core.territories[from].troops - 1) {
        Err(GameError::InvalidAction)
    } else {
        Ok(())
    }
}

/// The defender rolls one die per troop, at most two.
pub open spec fn defender_dice(core: CoreModel, to: int) -> int {
    min_int(core.territories[to].troops as int, 2)
}

/// Rolls listed from highest to lowest.
pub open spec fn sorted_desc(s: Seq<u8>) -> bool {
    forall|i: int, j: int| 0 <= i <= j < s.len() ==> s[i] >= s[j]
}

/// Every roll is a face of a six-sided die.
pub open spec fn valid_faces(s: Seq<u8>) -> bool {
    forall|i: int| 0 <= i < s.len() ==> 1 <= #[trigger] s[i] <= 6
}

/// Among the first `n` pairs of dice, how many the attacker won (strictly higher roll).
pub open spec fn attacker_wins(a: Seq<u8>, d: Seq<u8>, n: int) -> nat
    decreases n,
{
    if n <= 0 {
        0
    } else {
        attacker_wins(a, d, n - 1) + if a[n - 1] > d[n - 1] {
            1nat
        } else {
            0nat
        }
    }
}

/// What an attack does to the game once the dice are known.
pub struct AttackOutcome {
    pub core: CoreModel,
    pub events: Seq<EventModel>,
    pub captured: bool,
    pub attacker_losses: u8,
    pub defender_losses: u8,
    pub pending_capture: Option<PendingCaptureMoveResult>,
}

/// The outcome of an attack with the sorted rolls `a` (attacker) and `d` (defender):
/// dice are paired from the highest down; each pair the attacker wins costs the
/// defender a troop, each other pair costs the attacker one. A defender left with no
/// troops loses the territory to the attacker (with no troops on it yet).
pub open spec fn attack_outcome(
    core: CoreModel,
    player: PlayerId,
    from: TerritoryId,
    to: TerritoryId,
    dice: u32,
    a: Seq<u8>,
    d: Seq<u8>,
) -> AttackOutcome {
    let n = min_int(a.len() as int, d.len() as int);
    let dl = attacker_wins(a, d, n);
    let al = n - dl;
    let t0 = core.territories;
    let t1 = t0.update(
        from as int,
        TerritoryState { troops: (t0[from as int].troops - al) as u32, ..t0[from as int] },
    );
    let left: u32 = if t1[to as int].troops >= dl {
        (t1[to as int].troops - dl) as u32
    } else {
        0
    };
    let t2 = t1.update(to as int, TerritoryState { troops: left, ..t1[to as int] });
    let resolved = EventModel::AttackResolved {
        from,
        to,
        attacker_rolls: a,
        defender_rolls: d,
        attacker_losses: al as u8,
        defender_losses: dl as u8,
    };
    if left == 0 {
        let defender = t2[to as int].owner;
        let t3 = t2.update(to as int, TerritoryState { owner: player, troops: 0 });
        let players = players_after_capture(core.players, player, defender);
        let di = player_index(players, defender);
        let eliminated = di >= 0 && players[di].territories_owned == 0;
        let captured_events = seq![
            resolved,
            EventModel::TerritoryCaptured { territory: to, new_owner: player },
        ];
        AttackOutcome {
            core: CoreModel { players, territories: t3, ..core },
            events: if eliminated {
                captured_events.push(EventModel::PlayerEliminated { player: defender })
            } else {
                captured_events
            },
            captured: true,
            attacker_losses: al as u8,
            defender_losses: dl as u8,
            pending_capture: Some(PendingCaptureMoveResult { from, to, min_troops: dice }),
        }
    } else {
        AttackOutcome {
            core: CoreModel { territories: t2, ..core },
            events: seq![resolved],
            captured: false,
            attacker_losses: al as u8,
            defender_losses: dl as u8,
            pending_capture: None,
        }
    }
}

/// The resolution matches the outcome of the attack with its own (sorted) dice.
pub open spec fn resolution_matches(
    res: AttackResolution,
    old_core: CoreModel,
    new_core: CoreModel,
    player: PlayerId,
    from: TerritoryId,
    to: TerritoryId,
    dice: u32,
) -> bool {
    let out = attack_outcome(
        old_core,
        player,
        from,
        to,
        dice,
        res.roll.attacker_rolls@,
        res.roll.defender_rolls@,
    );
    &&& new_core == out.core
    &&& events_view(res.events@) == out.events
    &&& res.captured == out.captured
    &&& res.roll.from == from
    &&& res.roll.to == to
    &&& res.roll.attacker_losses == out.attacker_losses
    &&& res.roll.defender_losses == out.defender_losses
    &&& res.pending_capture == out.pending_capture
}

/// Checks an attack; on success answers how many dice the defender rolls.
pub fn check_attack(
    core: &GameCore,
    player: PlayerId,
    from: TerritoryId,
    to: TerritoryId,
    attacker_dice: u32,
) -> (r: Result<u32, GameError>)
    requires
        adjacency_covers_board(core@),
    ensures
        match attack_check(core@, player, from as int, to as int, attacker_dice as int) {
            Ok(_) => r == Ok::<u32, GameError>(defender_dice(core@, to as int) as u32),
            Err(e) => r == Err::<u32, GameError>(e),
        },
{
    if from >= core.territories.len() || to >= core.territories.len() {
        return Err(GameError::InvalidTerritory);
    }
    if from == to {
        return Err(GameError::InvalidAction);
    }
    let ghost row = core@.map.adjacency[from as int];
    assert(core.map.adjacency@[from as int]@ == row);
    if !contains_territory(&core.map.adjacency[from], to) {
        return Err(GameError::NotAdjacent);
    }
    if core.territories[from].owner != player {
        return Err(GameError::InvalidOwner);
    }
    if core.territories[to].owner == player {
        return Err(GameError::InvalidAction);
    }
    if core.territories[from].troops <= 1 {
        return Err(GameError::NotEnoughTroops);
    }
    if !(1 <= attacker_dice && attacker_dice <= 3) {
        return Err(GameError::InvalidAction);
    }
    let spare = core.territories[from].troops - 1;
    let max_attack_dice = if spare < 3 {
        spare
    } else {
        3
    };
    if attacker_dice > max_attack_dice {
        return Err(GameError::InvalidAction);
    }
    let defend = core.territories[to].troops;
    Ok(
        if defend < 2 {
            defend
        } else {
            2
        },
    )
}

/// Whether `row` lists territory `t`.
pub(crate) fn contains_territory(row: &Vec<TerritoryId>, t: TerritoryId) -> (found: bool)
    ensures
        found == row@.contains(t),
{
    let mut i: usize = 0;
    while i < row.len()
        invariant
            i <= row@.len(),
            forall|k: int| 0 <= k < i ==> row@[k] != t,
        decreases row@.len() - i,
    {
        if row[i] == t {
            assert(row@[i as int] == t);
            return true;
        }
        i = i + 1;
    }
    false
}

/// Puts `x` into the descending list `sorted`, keeping it descending.
fn insert_descending(sorted: &mut Vec<u8>, x: u8)
    requires
        sorted_desc(old(sorted)@),
    ensures
        sorted_desc(final(sorted)@),
        final(sorted)@.to_multiset() == old(sorted)@.to_multiset().insert(x),
{
    let mut p: usize = 0;
    while p < sorted.len() && sorted[p] >= x
        invariant
            p <= sorted@.len(),
            forall|k: int| 0 <= k < p ==> sorted@[k] >= x,
        decreases sorted@.len() - p,
    {
        p = p + 1;
    }
    let ghost before = sorted@;
    sorted.insert(p, x);
    proof {
        before.insert_ensures(p as int, x);
        assert forall|i: int, j: int| 0 <= i <= j < sorted@.len() implies sorted@[i] >= sorted@[j] by {
            if i < p as int && j < p as int {
            } else if i < p as int && j == p as int {
            } else if i < p as int {
                assert(sorted@[j] == before[j - 1]);
            } else if i == p as int && j > i {
                assert(sorted@[j] == before[j - 1]);
                assert(p < before.len() && before[p as int] < x);
            } else if i > p as int {
                assert(sorted@[j] == before[j - 1]);
                assert(sorted@[i] == before[i - 1]);
            }
        }
    }
}

/// The rolls from highest to lowest.
fn sort_descending(rolls: &Vec<u8>) -> (sorted: Vec<u8>)
    ensures
        sorted_desc(sorted@),
        sorted@.to_multiset() == rolls@.to_multiset(),
        sorted@.len() == rolls@.len(),
{
    let mut sorted: Vec<u8> = Vec::new();
    let mut i: usize = 0;
    while i < rolls.len()
        invariant
            i <= rolls@.len(),
            sorted_desc(sorted@),
            sorted@.to_multiset() == rolls@.take(i as int).to_multiset(),
        decreases rolls@.len() - i,
    {
        insert_descending(&mut sorted, rolls[i]);
        assert(rolls@.take(i as int + 1) == rolls@.take(i as int).push(rolls@[i as int]));
        i = i + 1;
    }
    assert(rolls@.take(i as int) == rolls@);
    proof {
        vstd::seq_lib::to_multiset_len(sorted@);
        vstd::seq_lib::to_multiset_len(rolls@);
    }
    sorted
}

/// A sorted permutation of a list is unique: its i-th entry is fixed by the list.
pub proof fn lemma_sorted_permutation_unique(s: Seq<u8>, t: Seq<u8>)
    requires
        sorted_desc(s),
        sorted_desc(t),
        s.to_multiset() == t.to_multiset(),
    ensures
        s == t,
    decreases s.len(),
{
    vstd::seq_lib::to_multiset_len(s);
    vstd::seq_lib::to_multiset_len(t);
    if s.len() > 0 {
        // The first entry of each is the largest of the common multiset.
        assert(s.to_multiset().count(s[0]) > 0) by {
            assert(s.contains(s[0]));
        }
        assert(t.contains(s[0]));
        assert(t.to_multiset().count(t[0]) > 0) by {
            assert(t.contains(t[0]));
        }
        assert(s.to_multiset().count(t[0]) > 0);
        assert(s.contains(t[0]));
        let i = choose|i: int| 0 <= i < t.len() && t[i] == s[0];
        let j = choose|j: int| 0 <= j < s.len() && s[j] == t[0];
        assert(s[0] == t[0]);
        assert(s.remove(0).to_multiset() == t.remove(0).to_multiset());
        lemma_sorted_permutation_unique(s.remove(0), t.remove(0));
        assert(s =~= seq![s[0]] + s.remove(0));
        assert(t =~= seq![t[0]] + t.remove(0));
    }
}

fn count_attacker_wins(a: &Vec<u8>, d: &Vec<u8>) -> (wins: u8)
    requires
        a@.len() <= 3,
    ensures
        wins == attacker_wins(a@, d@, min_int(a@.len() as int, d@.len() as int)),
        wins <= min_int(a@.len() as int, d@.len() as int),
{
    let n = if a.len() < d.len() {
        a.len()
    } else {
        d.len()
    };
    let mut wins: u8 = 0;
    let mut i: usize = 0;
    while i < n
        invariant
            n == min_int(a@.len() as int, d@.len() as int),
            n <= 3,
            i <= n,
            wins == attacker_wins(a@, d@, i as int),
            wins <= i,
        decreases n - i,
    {
        if a[i] > d[i] {
            wins = wins + 1;
        }
        i = i + 1;
    }
    wins
}

/// Resolves an attack with the given dice (in any order): rejects it as
/// `attack_check` says, leaving the game untouched, or sorts both sides' dice
/// from highest to lowest and applies the outcome.
pub fn resolve_attack_with_rolls(
    core: &mut GameCore,
    player: PlayerId,
    from: TerritoryId,
    to: TerritoryId,
    attacker_dice: u32,
    attacker_rolls: Vec<u8>,
    defender_rolls: Vec<u8>,
) -> (r: Result<AttackResolution, GameError>)
    requires
        adjacency_covers_board(old(core)@),
        capture_fits(old(core)@.players, player),
        attack_check(old(core)@, player, from as int, to as int, attacker_dice as int) is Ok ==> {
            &&& attacker_rolls@.len() == attacker_dice
            &&& defender_rolls@.len() == defender_dice(old(core)@, to as int)
        },
    ensures
        match attack_check(old(core)@, player, from as int, to as int, attacker_dice as int) {
            Err(e) => r matches Err(e2) && e2 == e && final(core)@ == old(core)@,
            Ok(_) => r matches Ok(res) && {
                &&& sorted_desc(res.roll.attacker_rolls@)
                &&& sorted_desc(res.roll.defender_rolls@)
                &&& res.roll.attacker_rolls@.to_multiset() == attacker_rolls@.to_multiset()
                &&& res.roll.defender_rolls@.to_multiset() == defender_rolls@.to_multiset()
                &&& resolution_matches(res, old(core)@, final(core)@, player, from, to, attacker_dice)
                &&& res.roll.defender_losses == ranks_won(
                    res.roll.attacker_rolls@,
                    res.roll.defender_rolls@,
                    min_int(
                        res.roll.attacker_rolls@.len() as int,
                        res.roll.defender_rolls@.len() as int,
                    ),
                ).len()
                &&& res.roll.attacker_losses == ranks_lost(
                    res.roll.attacker_rolls@,
                    res.roll.defender_rolls@,
                    min_int(
                        res.roll.attacker_rolls@.len() as int,
                        res.roll.defender_rolls@.len() as int,
                    ),
                ).len()
            },
        },
{
    match check_attack(core, player, from, to, attacker_dice) {
        Err(e) => {
            return Err(e);
        },
        Ok(_) => {},
    }
    let ghost c0 = core@;
    let attacker_sorted = sort_descending(&attacker_rolls);
    let defender_sorted = sort_descending(&defender_rolls);
    let ghost a = attacker_sorted@;
    let ghost d = defender_sorted@;
    let defender_losses = count_attacker_wins(&attacker_sorted, &defender_sorted);
    let pairs: u8 = if attacker_sorted.len() < defender_sorted.len() {
        attacker_sorted.len() as u8
    } else {
        defender_sorted.len() as u8
    };
    let attacker_losses: u8 = pairs - defender_losses;
    let ghost out = attack_outcome(c0, player, from, to, attacker_dice, a, d);
    proof {
        lemma_attack_losses_by_rank(c0, player, from, to, attacker_dice, a, d);
    }

    let from_troops = core.territories[from].troops - attacker_losses as u32;
    core.territories[from].troops = from_troops;
    let to_troops = core.territories[to].troops.saturating_sub(defender_losses as u32);
    core.territories[to].troops = to_troops;

    let mut events: Vec<GameEvent> = Vec::new();
    events.push(
        GameEvent::AttackResolved {
            from,
            to,
            attacker_rolls: copy_rolls(&attacker_sorted),
            defender_rolls: copy_rolls(&defender_sorted),
            attacker_losses,
            defender_losses,
        },
    );
    let mut captured = false;
    let mut pending_capture: Option<PendingCaptureMoveResult> = None;

    if core.territories[to].troops == 0 {
        captured = true;
        let defender_id = core.territories[to].owner;
        core.territories[to].owner = player;
        core.territories[to].troops = 0;
        assert(core@.territories == out.core.territories);
        adjust_ownership(core, player, defender_id);
        events.push(GameEvent::TerritoryCaptured { territory: to, new_owner: player });
        match player_position(&core.players, defender_id) {
            Some(di) => {
                if core.players[di].territories_owned == 0 {
                    events.push(GameEvent::PlayerEliminated { player: defender_id });
                }
            },
            None => {},
        }
        pending_capture = Some(PendingCaptureMoveResult { from, to, min_troops: attacker_dice });
    } else {
        assert(core@.territories == out.core.territories);
    }
    assert(events_view(events@) == out.events);
    Ok(
        AttackResolution {
            events,
            captured,
            roll: CombatRoll {
                from,
                to,
                attacker_rolls: attacker_sorted,
                defender_rolls: defender_sorted,
                attacker_losses,
                defender_losses,
            },
            pending_capture,
        },
    )
}

/// Draws one face of a six-sided die from the thread-local generator of `rand`
/// (`rand::rng()` then `Rng::random_range(1..=6)`). The contract claims only that
/// the face lies in 1..=6; which face comes is left open.
#[verifier::external_body]
fn roll_die() -> (face: u8)
    ensures
        1 <= face <= 6,
{
    rand::Rng::random_range(&mut rand::rng(), 1..=6u8)
}

/// `n` independent die rolls.
fn roll_dice(n: u32) -> (rolls: Vec<u8>)
    ensures
        rolls@.len() == n,
        valid_faces(rolls@),
{
    let mut rolls: Vec<u8> = Vec::new();
    let mut i: u32 = 0;
    while i < n
        invariant
            i <= n,
            rolls@.len() == i,
            valid_faces(rolls@),
        decreases n - i,
    {
        let face = roll_die();
        rolls.push(face);
        i = i + 1;
    }
    rolls
}

/// Reordering dice keeps every face a face of a die.
pub proof fn lemma_faces_survive_reordering(s: Seq<u8>, t: Seq<u8>)
    requires
        valid_faces(s),
        s.to_multiset() == t.to_multiset(),
    ensures
        valid_faces(t),
{
    assert forall|i: int| 0 <= i < t.len() implies 1 <= #[trigger] t[i] <= 6 by {
        assert(t.contains(t[i]));
        assert(t.to_multiset().count(t[i]) > 0);
        assert(s.contains(t[i]));
    }
}

/// Resolves an attack, rolling the dice: the attacker rolls `attacker_dice` dice,
/// the defender one per troop (at most two). Rejected attacks leave the game untouched.
pub fn resolve_attack(
    core: &mut GameCore,
    player: PlayerId,
    from: TerritoryId,
    to: TerritoryId,
    attacker_dice: u32,
) -> (r: Result<AttackResolution, GameError>)
    requires
        adjacency_covers_board(old(core)@),
        capture_fits(old(core)@.players, player),
    ensures
        match attack_check(old(core)@, player, from as int, to as int, attacker_dice as int) {
            Err(e) => r matches Err(e2) && e2 == e && final(core)@ == old(core)@,
            Ok(_) => r matches Ok(res) && {
                &&& res.roll.attacker_rolls@.len() == attacker_dice
                &&& res.roll.defender_rolls@.len() == defender_dice(old(core)@, to as int)
                &&& valid_faces(res.roll.attacker_rolls@)
                &&& valid_faces(res.roll.defender_rolls@)
                &&& sorted_desc(res.roll.attacker_rolls@)
                &&& sorted_desc(res.roll.defender_rolls@)
                &&& resolution_matches(res, old(core)@, final(core)@, player, from, to, attacker_dice)
                &&& res.roll.defender_losses == ranks_won(
                    res.roll.attacker_rolls@,
                    res.roll.defender_rolls@,
                    min_int(
                        res.roll.attacker_rolls@.len() as int,
                        res.roll.defender_rolls@.len() as int,
                    ),
                ).len()
                &&& res.roll.attacker_losses == ranks_lost(
                    res.roll.attacker_rolls@,
                    res.roll.defender_rolls@,
                    min_int(
                        res.roll.attacker_rolls@.len() as int,
                        res.roll.defender_rolls@.len() as int,
                    ),
                ).len()
            },
        },
{
    let defend_dice = match check_attack(core, player, from, to, attacker_dice) {
        Err(e) => {
            return Err(e);
        },
        Ok(n) => n,
    };
    let attacker_rolls = roll_dice(attacker_dice);
    let defender_rolls = roll_dice(defend_dice);
    let ghost a = attacker_rolls@;
    let ghost d = defender_rolls@;
    let r = resolve_attack_with_rolls(
        core,
        player,
        from,
        to,
        attacker_dice,
        attacker_rolls,
        defender_rolls,
    );
    proof {
        if let Ok(ref res) = r {
            lemma_faces_survive_reordering(a, res.roll.attacker_rolls@);
            lemma_faces_survive_reordering(d, res.roll.defender_rolls@);
            vstd::seq_lib::to_multiset_len(a);
            vstd::seq_lib::to_multiset_len(d);
            vstd::seq_lib::to_multiset_len(res.roll.attacker_rolls@);
            vstd::seq_lib::to_multiset_len(res.roll.defender_rolls@);
        }
    }
    r
}

/// A copy of a list of dice.
pub(crate) fn copy_rolls(rolls: &Vec<u8>) -> (copy: Vec<u8>)
    ensures
        copy@ == rolls@,
{
    let mut copy: Vec<u8> = Vec::new();
    let mut i: usize = 0;
    while i < rolls.len()
        invariant
            i <= rolls@.len(),
            copy@ == rolls@.take(i as int),
        decreases rolls@.len() - i,
    {
        copy.push(rolls[i]);
        assert(rolls@.take(i as int + 1) == rolls@.take(i as int).push(rolls@[i as int]));
        i = i + 1;
    }
    assert(rolls@.take(i as int) == rolls@);
    copy
}

pub proof fn lemma_attacker_wins_bounded(a: Seq<u8>, d: Seq<u8>, n: int)
    requires
        n >= 0,
    ensures
        attacker_wins(a, d, n) <= n,
    decreases n,
{
    if n > 0 {
        lemma_attacker_wins_bounded(a, d, n - 1);
    }
}

/// An accepted attack with fairly thrown dice: every pair of dice costs exactly
/// one troop to one side; the attacking territory keeps at least one troop; a
/// captured territory passes to the attacker with no troops on it yet, and a
/// territory that holds out keeps its owner and at least one troop.
pub proof fn lemma_attack_outcome_facts(
    core: CoreModel,
    player: PlayerId,
    from: TerritoryId,
    to: TerritoryId,
    dice: u32,
    a: Seq<u8>,
    d: Seq<u8>,
)
    requires
        attack_check(core, player, from as int, to as int, dice as int) is Ok,
        a.len() == dice,
        d.len() == defender_dice(core, to as int),
    ensures
        ({
            let out = attack_outcome(core, player, from, to, dice, a, d);
            &&& out.attacker_losses + out.defender_losses == min_int(a.len() as int, d.len() as int)
            &&& out.core.territories[from as int].troops >= 1
            &&& out.core.territories[from as int].owner == player
            &&& out.captured ==> out.core.territories[to as int] == (TerritoryState {
                owner: player,
                troops: 0,
            })
            &&& !out.captured ==> out.core.territories[to as int].owner == core.territories[to as int].owner
                && out.core.territories[to as int].troops >= 1
            &&& out.core.territories.len() == core.territories.len()
        }),
{
    let n = min_int(a.len() as int, d.len() as int);
    lemma_attacker_wins_bounded(a, d, n);
}

/// The ranks below `n` at which the attacker's die is strictly higher.
pub open spec fn ranks_won(a: Seq<u8>, d: Seq<u8>, n: int) -> Set<int> {
    Set::new(|i: int| 0 <= i < n && a[i] > d[i])
}

/// The ranks below `n` at which the defender's die is as high or higher.
pub open spec fn ranks_lost(a: Seq<u8>, d: Seq<u8>, n: int) -> Set<int> {
    Set::new(|i: int| 0 <= i < n && a[i] <= d[i])
}

proof fn lemma_rank_counts(a: Seq<u8>, d: Seq<u8>, n: int)
    requires
        n >= 0,
    ensures
        ranks_won(a, d, n).finite(),
        ranks_lost(a, d, n).finite(),
        ranks_won(a, d, n).len() == attacker_wins(a, d, n),
        ranks_lost(a, d, n).len() == n - attacker_wins(a, d, n),
    decreases n,
{
    if n == 0 {
        assert(ranks_won(a, d, n) =~= Set::empty());
        assert(ranks_lost(a, d, n) =~= Set::empty());
    } else {
        lemma_rank_counts(a, d, n - 1);
        if a[n - 1] > d[n - 1] {
            assert(ranks_won(a, d, n) =~= ranks_won(a, d, n - 1).insert(n - 1));
            assert(ranks_lost(a, d, n) =~= ranks_lost(a, d, n - 1));
        } else {
            assert(ranks_won(a, d, n) =~= ranks_won(a, d, n - 1));
            assert(ranks_lost(a, d, n) =~= ranks_lost(a, d, n - 1).insert(n - 1));
        }
    }
}

/// Dice are compared rank by rank, highest against highest: with both sides'
/// dice listed from highest to lowest, the defender loses one troop for every
/// rank (up to the shorter side) where the attacker's die is strictly higher, and
/// the attacker loses one for every other rank (ties go to the defender).
pub proof fn lemma_attack_losses_by_rank(
    core: CoreModel,
    player: PlayerId,
    from: TerritoryId,
    to: TerritoryId,
    dice: u32,
    a: Seq<u8>,
    d: Seq<u8>,
)
    requires
        attack_check(core, player, from as int, to as int, dice as int) is Ok,
        a.len() == dice,
        d.len() == defender_dice(core, to as int),
    ensures
        ({
            let out = attack_outcome(core, player, from, to, dice, a, d);
            let n = min_int(a.len() as int, d.len() as int);
            &&& ranks_won(a, d, n).finite() && ranks_lost(a, d, n).finite()
            &&& out.defender_losses == ranks_won(a, d, n).len()
            &&& out.attacker_losses == ranks_lost(a, d, n).len()
            &&& ranks_lost(a, d, n).len() + ranks_won(a, d, n).len() == n
        }),
{
    let n = min_int(a.len() as int, d.len() as int);
    lemma_attacker_wins_bounded(a, d, n);
    lemma_rank_counts(a, d, n);
}

/// A defender whose every die is beaten rank by rank loses a troop for each of
/// its dice and the attacker loses none; a defender left with no troops loses
/// the territory to the attacker.
pub proof fn lemma_sweep_captures(
    core: CoreModel,
    player: PlayerId,
    from: TerritoryId,
    to: TerritoryId,
    dice: u32,
    a: Seq<u8>,
    d: Seq<u8>,
)
    requires
        attack_check(core, player, from as int, to as int, dice as int) is Ok,
        a.len() == dice,
        d.len() == defender_dice(core, to as int),
        d.len() <= a.len(),
        forall|i: int| 0 <= i < d.len() ==> a[i] > d[i],
    ensures
        ({
            let out = attack_outcome(core, player, from, to, dice, a, d);
            &&& out.defender_losses == d.len()
            &&& out.attacker_losses == 0
            &&& (core.territories[to as int].troops == d.len()) == out.captured
            &&& out.captured ==> out.core.territories[to as int].owner == player
        }),
{
    let n = d.len() as int;
    lemma_rank_counts(a, d, n);
    assert(ranks_won(a, d, n) =~= vstd::set_lib::set_int_range(0, n));
    vstd::set_lib::lemma_int_range(0, n);
    lemma_attacker_wins_bounded(a, d, n);
}

} // verus!
