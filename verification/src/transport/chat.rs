//! Which chat messages a client may send, and the message that goes out for one.
use vstd::prelude::*;

use super::websocket::{ChatMessagePayload, ChatSendPayload};

verus! {

/// What `str::trim` gives back for a string with these characters: the string
/// without its leading and trailing Unicode whitespace.
pub uninterp spec fn trimmed(s: Seq<char>) -> Seq<char>;

/// Calls `str::trim` and copies the result into a `String`. The contract names
/// the result and claims only that it depends on the characters alone; which
/// characters count as whitespace is left to std.
#[verifier::external_body]
fn trim_message(s: &String) -> (t: String)
    ensures
        t@ == trimmed(s@),
{
    s.trim().to_string()
}

/// A chat message may go to the lobby, or to a game it names.
pub open spec fn chat_scope_ok(scope: Seq<char>, game_id: Option<String>) -> bool {
    &&& (scope == "lobby"@ || scope == "game"@)
    &&& (scope == "game"@ ==> game_id is Some)
}

/// The chat message that goes out when client `from` sends `payload` at
/// `timestamp_ms`: none unless the scope is the lobby or a named game and the
/// message is not blank; the text goes out trimmed.
pub fn chat_message_for(payload: &ChatSendPayload, from: String, timestamp_ms: u64) -> (msg:
    Option<ChatMessagePayload>)
    ensures
        msg is Some <==> chat_scope_ok(payload.scope@, payload.game_id) && trimmed(
            payload.message@,
        ).len() > 0,
        msg matches Some(m) ==> {
            &&& m.scope@ == payload.scope@
            &&& m.game_id == payload.game_id
            &&& m.from == from
            &&& m.message@ == trimmed(payload.message@)
            &&& m.timestamp_ms == timestamp_ms
        },
{
    let lobby = "lobby".to_owned();
    let game = "game".to_owned();
    let scope_ok = payload.scope == lobby || payload.scope == game;
    let game_ok = !(payload.scope == game) || payload.game_id.is_some();
    let message = trim_message(&payload.message);
    if scope_ok && game_ok && !message.as_str().is_empty() {
        let game_id = match &payload.game_id {
            Some(g) => Some(g.clone()),
            None => None,
        };
        Some(
            ChatMessagePayload {
                scope: payload.scope.clone(),
                game_id,
                from,
                message,
                timestamp_ms,
            },
        )
    } else {
        None
    }
}

} // verus!
