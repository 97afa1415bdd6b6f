//! Errors of the room services and how they are reported to a client.
use vstd::prelude::*;

use crate::game::PlayerId;
use crate::transport::websocket::ErrorCode;

verus! {

/// Why an action could not be handed to its room.
#[derive(Debug, Clone, Copy, Eq, PartialEq, Structural)]
pub enum SubmitActionError {
    RoomNotFound,
    NotInRoom,
    SendFailed,
}

/// Why a state refresh could not be handed to its room.
#[derive(Debug, Clone, Copy, Eq, PartialEq, Structural)]
pub enum RefreshStateError {
    RoomNotFound,
    NotInRoom,
    SendFailed,
}

pub open spec fn submit_error_of(err: RefreshStateError) -> SubmitActionError {
    match err {
        RefreshStateError::RoomNotFound => SubmitActionError::RoomNotFound,
        RefreshStateError::NotInRoom => SubmitActionError::NotInRoom,
        RefreshStateError::SendFailed => SubmitActionError::SendFailed,
    }
}

/// The same failure, reported for an action rather than a refresh.
pub fn submit_error_from(err: RefreshStateError) -> (e: SubmitActionError)
    ensures
        e == submit_error_of(err),
{
    match err {
        RefreshStateError::RoomNotFound => SubmitActionError::RoomNotFound,
        RefreshStateError::NotInRoom => SubmitActionError::NotInRoom,
        RefreshStateError::SendFailed => SubmitActionError::SendFailed,
    }
}

/// The protocol error a client gets when its action cannot reach the room.
pub fn submit_error_reply(err: SubmitActionError) -> (reply: (ErrorCode, String))
    ensures
        reply.0 == match err {
            SubmitActionError::RoomNotFound => ErrorCode::RoomNotFound,
            SubmitActionError::NotInRoom => ErrorCode::UnauthorizedRoomAccess,
            SubmitActionError::SendFailed => ErrorCode::GameActionRejected,
        },
        reply.1@ == match err {
            SubmitActionError::RoomNotFound => "Cannot submit action: room was not found"@,
            SubmitActionError::NotInRoom => "Cannot submit action: client is not in room"@,
            SubmitActionError::SendFailed => "Cannot submit action: room command channel unavailable"@,
        },
{
    match err {
        SubmitActionError::RoomNotFound => (
            ErrorCode::RoomNotFound,
            "Cannot submit action: room was not found".to_owned(),
        ),
        SubmitActionError::NotInRoom => (
            ErrorCode::UnauthorizedRoomAccess,
            "Cannot submit action: client is not in room".to_owned(),
        ),
        SubmitActionError::SendFailed => (
            ErrorCode::GameActionRejected,
            "Cannot submit action: room command channel unavailable".to_owned(),
        ),
    }
}

/// The protocol error a client gets when its refresh cannot reach the room.
pub fn refresh_error_reply(err: RefreshStateError) -> (reply: (ErrorCode, String))
    ensures
        reply.0 == match err {
            RefreshStateError::RoomNotFound => ErrorCode::RoomNotFound,
            RefreshStateError::NotInRoom => ErrorCode::UnauthorizedRoomAccess,
            RefreshStateError::SendFailed => ErrorCode::GameActionRejected,
        },
        reply.1@ == match err {
            RefreshStateError::RoomNotFound => "Cannot refresh state: room was not found"@,
            RefreshStateError::NotInRoom => "Cannot refresh state: client is not in room"@,
            RefreshStateError::SendFailed => "Cannot refresh state: room command channel unavailable"@,
        },
{
    match err {
        RefreshStateError::RoomNotFound => (
            ErrorCode::RoomNotFound,
            "Cannot refresh state: room was not found".to_owned(),
        ),
        RefreshStateError::NotInRoom => (
            ErrorCode::UnauthorizedRoomAccess,
            "Cannot refresh state: client is not in room".to_owned(),
        ),
        RefreshStateError::SendFailed => (
            ErrorCode::GameActionRejected,
            "Cannot refresh state: room command channel unavailable".to_owned(),
        ),
    }
}

/// The seat of `client_id` in a room whose players are `seats` (client id and
/// seat, in order): the first entry with that client id.
pub open spec fn seat_found(seats: Seq<(String, PlayerId)>, client_id: Seq<char>, i: int) -> bool {
    &&& 0 <= i < seats.len()
    &&& seats[i].0@ == client_id
    &&& forall|k: int| 0 <= k < i ==> #[trigger] seats[k].0@ != client_id
}

fn seat_index(seats: &Vec<(String, PlayerId)>, client_id: &String) -> (found: Option<usize>)
    ensures
        match found {
            Some(i) => seat_found(seats@, client_id@, i as int),
            None => forall|k: int| 0 <= k < seats@.len() ==> #[trigger] seats@[k].0@ != client_id@,
        },
{
    let mut i: usize = 0;
    while i < seats.len()
        invariant
            i <= seats@.len(),
            forall|k: int| 0 <= k < i ==> #[trigger] seats@[k].0@ != client_id@,
        decreases seats@.len() - i,
    {
        if seats[i].0 == *client_id {
            return Some(i);
        }
        i = i + 1;
    }
    None
}

/// Whom a room's command is from: `room` is the room named in the request, if it
/// exists, as its players' client ids and seats. A missing room and a client that
/// is not seated there are refused; otherwise the client's seat answers.
pub fn resolve_seat(room: Option<&Vec<(String, PlayerId)>>, client_id: &String) -> (r: Result<
    PlayerId,
    RefreshStateError,
>)
    ensures
        room is None ==> r == Err::<PlayerId, RefreshStateError>(RefreshStateError::RoomNotFound),
        room matches Some(seats) ==> match r {
            Ok(p) => exists|i: int| seat_found(seats@, client_id@, i) && seats@[i].1 == p,
            Err(e) => e == RefreshStateError::NotInRoom && forall|k: int|
                0 <= k < seats@.len() ==> #[trigger] seats@[k].0@ != client_id@,
        },
{
    match room {
        None => Err(RefreshStateError::RoomNotFound),
        Some(seats) => match seat_index(seats, client_id) {
            Some(i) => Ok(seats[i].1),
            None => Err(RefreshStateError::NotInRoom),
        },
    }
}

} // verus!
