use vstd::prelude::*;

use crate::game::model::game_core::CoreModel;
use crate::game::model::{GameState, TerritoryState};
use crate::game::protocol::event::{events_view, EventModel};
use crate::game::protocol::{GameError, GameEvent};

verus! {

/// The answer to an action as a mathematical value.
pub type StepView = Result<(GameState, Seq<EventModel>), GameError>;

/// The answer to an action with its events as mathematical values.
pub open spec fn step_view(r: Result<(GameState, Vec<GameEvent>), GameError>) -> StepView {
    match r {
        Ok((s, evs)) => Ok((s, events_view(evs@))),
        Err(e) => Err(e),
    }
}

/// `core` with `count` more troops on territory `t`.
pub open spec fn add_troops(core: CoreModel, t: int, count: int) -> CoreModel {
    CoreModel {
        territories: core.territories.update(
            t,
            TerritoryState {
                troops: (core.territories[t].troops + count) as u32,
                ..core.territories[t]
            },
        ),
        ..core
    }
}

/// Adding `count` troops to territory `t` (when it is on the board) stays within `u32`.
pub open spec fn troops_fit(core: CoreModel, t: int, count: int) -> bool {
    0 <= t < core.territories.len() ==> core.territories[t].troops + count <= u32::MAX
}

} // verus!
