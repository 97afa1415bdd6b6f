//! The shapes of the messages exchanged with clients. Turning them into and out of
//! JSON is the server's business; here they are plain values.
use vstd::prelude::*;

use crate::game::{GameEvent, GameView, GamePhase, PlayerAction, TurnPhase};

verus! {

/// Envelope shape to interface with the frontend: a message type, a protocol
/// version and the payload.
pub struct ServerEnvelope<T> {
    pub type_: String,
    pub version: u8,
    pub payload: T,
}

pub struct ClientHelloPayload {
    pub client_id: String,
}

pub struct GameStartPayload {
    pub game_id: String,
    pub player_index: u32,
}

pub struct QueueUpdatePayload {
    pub players_waiting: u32,
}

/// Server to client: a single chat message.
pub struct ChatMessagePayload {
    pub scope: String,
    pub game_id: Option<String>,
    pub from: String,
    pub message: String,
    pub timestamp_ms: u64,
}

/// Client to server: a chat message to send.
pub struct ChatSendPayload {
    pub scope: String,
    pub game_id: Option<String>,
    pub message: String,
}

pub struct GameActionPayload {
    pub game_id: String,
    pub action: PlayerAction,
}

pub struct StateRefreshPayload {
    pub game_id: String,
}

#[derive(Clone, Copy, Debug)]
pub struct TerritorySnapshot {
    pub owner: u8,
    pub troops: u32,
}

pub struct StateSnapshot {
    pub game_id: String,
    pub current_player: u8,
    pub turn_phase: TurnPhase,
    pub game_phase: GamePhase,
    pub territories: Vec<TerritorySnapshot>,
}

pub struct StateUpdatePayload {
    pub state_version: u64,
    pub state: StateSnapshot,
}

pub struct GameEventPayload {
    pub game_id: String,
    pub event: GameEvent,
}

pub struct GameViewPayload {
    pub game_id: String,
    pub state_version: u64,
    pub view: GameView,
}

#[derive(Clone, Copy, Debug, Eq, PartialEq, Structural)]
pub enum ErrorCode {
    InvalidEnvelope,
    UnknownMessageType,
    InvalidPayload,
    UnauthorizedRoomAccess,
    RoomNotFound,
    GameActionRejected,
}

pub struct ActionErrorPayload {
    pub game_id: String,
    pub code: ErrorCode,
    pub message: String,
}

pub struct ProtocolErrorPayload {
    pub code: ErrorCode,
    pub message: String,
}

} // verus!
