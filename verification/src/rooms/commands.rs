use vstd::prelude::*;

use crate::game::{PlayerAction, PlayerId};

verus! {

/// Command sent into a room from the app and room services.
#[derive(Debug, Clone, Copy)]
pub enum RoomCommand {
    PlayerAction { player_id: PlayerId, action: PlayerAction },
    RefreshState { player_id: PlayerId },
    Disconnect { player_id: PlayerId },
}

} // verus!
