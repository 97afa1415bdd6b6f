use backend::transport::chat::chat_message_for;
use backend::transport::websocket::ChatSendPayload;

fn send(scope: &str, game_id: Option<&str>, message: &str) -> ChatSendPayload {
    ChatSendPayload {
        scope: scope.to_string(),
        game_id: game_id.map(|g| g.to_string()),
        message: message.to_string(),
    }
}

#[test]
fn lobby_chat_goes_out_trimmed() {
    let msg = chat_message_for(&send("lobby", None, "  hello there \n"), "c1".to_string(), 42)
        .expect("lobby message is allowed");
    assert_eq!(msg.scope, "lobby");
    assert_eq!(msg.game_id, None);
    assert_eq!(msg.from, "c1");
    assert_eq!(msg.message, "hello there");
    assert_eq!(msg.timestamp_ms, 42);
}

#[test]
fn game_chat_keeps_its_game_id() {
    let msg = chat_message_for(&send("game", Some("g-7"), "gg"), "c2".to_string(), 7)
        .expect("game message with a game id is allowed");
    assert_eq!(msg.scope, "game");
    assert_eq!(msg.game_id.as_deref(), Some("g-7"));
    assert_eq!(msg.message, "gg");
}

#[test]
fn game_chat_without_game_id_is_dropped() {
    assert!(chat_message_for(&send("game", None, "hi"), "c".to_string(), 0).is_none());
}

#[test]
fn chat_with_unknown_scope_is_dropped() {
    assert!(chat_message_for(&send("team", Some("g"), "hi"), "c".to_string(), 0).is_none());
}

#[test]
fn blank_chat_message_is_dropped() {
    assert!(chat_message_for(&send("lobby", None, " \t\n "), "c".to_string(), 0).is_none());
    assert!(chat_message_for(&send("lobby", None, ""), "c".to_string(), 0).is_none());
}
