pub mod chat;
pub mod websocket;
