pub mod collisions;
pub mod player_input;
pub mod setup;
pub mod simulation;
pub mod snapshot;
pub mod timed_life;
