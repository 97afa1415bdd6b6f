pub mod commands;
pub mod room_loop;
pub mod matchmaking;
pub mod service;
