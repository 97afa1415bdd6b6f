//! Matchmaking decisions: who waits in the queue and when a room can start.
use vstd::prelude::*;

verus! {

/// Number of players a room starts with.
pub const ROOM_SIZE: usize = 4;

/// What joining the queue leads to.
#[derive(Debug, Clone, Copy, Eq, PartialEq, Structural)]
pub enum JoinPlan {
    /// The client is already waiting; nothing happens.
    AlreadyQueued,
    /// The client joins; everybody waiting is told how many wait.
    Waiting { players_waiting: u32 },
    /// The client joins, everybody waiting is told how many wait, then the first
    /// `ROOM_SIZE` clients leave the queue for a new room and those still waiting
    /// are told how many remain.
    StartRoom { players_waiting: u32, remaining: u32 },
}

/// Some waiting client has this id.
pub open spec fn is_queued(queued: Seq<String>, client_id: String) -> bool {
    exists|i: int| 0 <= i < queued.len() && #[trigger] queued[i]@ == client_id@
}

/// The plan for `client_id` joining a queue holding `queued` (client ids, in order).
pub open spec fn join_plan(queued: Seq<String>, client_id: String) -> JoinPlan {
    let waiting = queued.len() + 1;
    if is_queued(queued, client_id) {
        JoinPlan::AlreadyQueued
    } else if waiting >= ROOM_SIZE {
        JoinPlan::StartRoom {
            players_waiting: waiting as u32,
            remaining: (waiting - ROOM_SIZE) as u32,
        }
    } else {
        JoinPlan::Waiting { players_waiting: waiting as u32 }
    }
}

fn position_of(queued: &Vec<String>, client_id: &String) -> (pos: Option<usize>)
    ensures
        match pos {
            Some(i) => i < queued@.len() && queued@[i as int]@ == client_id@,
            None => !is_queued(queued@, *client_id),
        },
{
    let mut i: usize = 0;
    while i < queued.len()
        invariant
            i <= queued@.len(),
            forall|k: int| 0 <= k < i ==> queued@[k]@ != client_id@,
        decreases queued@.len() - i,
    {
        if queued[i] == *client_id {
            return Some(i);
        }
        i = i + 1;
    }
    None
}

pub fn plan_join(queued: &Vec<String>, client_id: &String) -> (plan: JoinPlan)
    requires
        queued@.len() < usize::MAX,
    ensures
        plan == join_plan(queued@, *client_id),
{
    if position_of(queued, client_id).is_some() {
        return JoinPlan::AlreadyQueued;
    }
    let waiting = queued.len() + 1;
    if waiting >= ROOM_SIZE {
        JoinPlan::StartRoom {
            players_waiting: #[verifier::truncate] (waiting as u32),
            remaining: #[verifier::truncate] ((waiting - ROOM_SIZE) as u32),
        }
    } else {
        JoinPlan::Waiting { players_waiting: waiting as u32 }
    }
}

/// The seats of the queue that stay when `client_id` leaves.
pub open spec fn kept_after_leave(queued: Seq<String>, client_id: String) -> Seq<usize>
    decreases queued.len(),
{
    if queued.len() == 0 {
        Seq::empty()
    } else if queued.last()@ != client_id@ {
        kept_after_leave(queued.drop_last(), client_id).push((queued.len() - 1) as usize)
    } else {
        kept_after_leave(queued.drop_last(), client_id)
    }
}

/// The positions (in order) of the waiting clients that stay when `client_id`
/// leaves the queue; those still waiting are told the new count when anyone left.
pub fn plan_leave(queued: &Vec<String>, client_id: &String) -> (kept: Vec<usize>)
    ensures
        kept@ == kept_after_leave(queued@, *client_id),
{
    let mut kept: Vec<usize> = Vec::new();
    let mut i: usize = 0;
    while i < queued.len()
        invariant
            i <= queued@.len(),
            kept@ == kept_after_leave(queued@.take(i as int), *client_id),
        decreases queued@.len() - i,
    {
        assert(queued@.take(i as int + 1).drop_last() == queued@.take(i as int));
        assert(queued@.take(i as int + 1).last() == queued@[i as int]);
        if queued[i] != *client_id {
            kept.push(i);
        }
        i = i + 1;
    }
    assert(queued@.take(i as int) == queued@);
    kept
}

} // verus!
