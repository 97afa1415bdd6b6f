//! Game logic of a Risk-style multiplayer strategy game: the board, cards, the
//! turn phases and their rules, the per-room game loop decisions and the
//! message shapes exchanged with clients.

pub mod game;
pub mod rooms;
pub mod transport;
