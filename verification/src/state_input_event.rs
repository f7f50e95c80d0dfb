//! What a player's input means to the world.
use vstd::prelude::*;
use crate::direction::Direction;
use crate::vec2::Vec2;

verus! {

/// Something outside the world that the world may have to react to. Key
/// presses and mouse clicks have been translated away by the time one of
/// these is made.
#[derive(Clone, Copy, Debug, PartialEq, Eq, Structural)]
pub enum StateInputEvent {
    /// Turns the view by `delta`.
    RotateView { delta: Vec2 },
    /// Makes the player move in the direction given in view coordinates,
    /// one step per axis and movement control held.
    MovePlayerRelative { delta: Vec2 },
    PlayerInteract1,
    PlayerInteract2,
    Jump,
    /// A shoot control is being held.
    Charge(Direction),
    /// A shoot control was let go.
    Shoot(Direction),
}

} // verus!
