pub mod attack;
pub mod fortify;
pub mod outcome;
pub mod reinforcement;
pub mod setup;
