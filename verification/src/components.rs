//! The data that can be attached to an entity.
use vstd::prelude::*;
use vstd::std_specs::convert::FromSpecImpl;
use crate::collision::collision_mesh::CollisionMeshIdentifier;
use crate::vec2::Vec2;

verus! {

/// Where an entity is, in thousandths of a world unit.
#[derive(Clone, Copy, Debug, PartialEq, Eq, Structural)]
pub struct Position {
    pub x: i32,
    pub y: i32,
}

impl From<Vec2> for Position {
    fn from(vec: Vec2) -> (position: Position) {
        Position { x: vec.x, y: vec.y }
    }
}

impl FromSpecImpl<Vec2> for Position {
    open spec fn obeys_from_spec() -> bool {
        true
    }

    open spec fn from_spec(vec: Vec2) -> Position {
        Position { x: vec.x, y: vec.y }
    }
}

impl From<Position> for Vec2 {
    fn from(pos: Position) -> (vec: Vec2) {
        Vec2 { x: pos.x, y: pos.y }
    }
}

impl FromSpecImpl<Position> for Vec2 {
    open spec fn obeys_from_spec() -> bool {
        true
    }

    open spec fn from_spec(pos: Position) -> Vec2 {
        Vec2 { x: pos.x, y: pos.y }
    }
}

/// How fast an entity moves, in thousandths of a world unit per second.
#[derive(Clone, Copy, Debug, PartialEq, Eq, Structural)]
pub struct Velocity {
    pub dx: i32,
    pub dy: i32,
}

impl From<Vec2> for Velocity {
    fn from(vec: Vec2) -> (velocity: Velocity) {
        Velocity { dx: vec.x, dy: vec.y }
    }
}

impl FromSpecImpl<Vec2> for Velocity {
    open spec fn obeys_from_spec() -> bool {
        true
    }

    open spec fn from_spec(vec: Vec2) -> Velocity {
        Velocity { dx: vec.x, dy: vec.y }
    }
}

impl From<Velocity> for Vec2 {
    fn from(vel: Velocity) -> (vec: Vec2) {
        Vec2 { x: vel.dx, y: vel.dy }
    }
}

impl FromSpecImpl<Velocity> for Vec2 {
    open spec fn obeys_from_spec() -> bool {
        true
    }

    open spec fn from_spec(vel: Velocity) -> Vec2 {
        Vec2 { x: vel.dx, y: vel.dy }
    }
}

/// What the renderer draws for an entity: a model by name, one of its
/// animations, and the time in milliseconds at which that animation began.
#[derive(Debug)]
pub struct Asset {
    pub name: String,
    pub animation: usize,
    pub animation_start_time: u64,
}

impl Clone for Asset {
    fn clone(&self) -> (copy: Asset)
        ensures
            copy == *self,
    {
        Asset {
            name: self.name.clone(),
            animation: self.animation,
            animation_start_time: self.animation_start_time,
        }
    }
}

/// The time an entity has left to live, in milliseconds. The entity is
/// removed in the sweep that follows the tick in which this reaches zero.
#[derive(Copy, Clone, Debug, PartialEq, Eq, Structural)]
pub struct TimedLife {
    pub millis_left: i32,
}

/// Marks an entity whose velocity decays.
#[derive(Copy, Clone, Debug, PartialEq, Eq, Structural)]
pub struct Friction {}

/// An entity's collision shape: a shared mesh at the entity's own size,
/// given as a fixed-point factor.
#[derive(Copy, Clone, Debug, PartialEq, Eq, Structural)]
pub struct Collider {
    pub collision_mesh: CollisionMeshIdentifier,
    pub size: i32,
}

/// The sides that an entity can be on.
#[derive(Copy, Clone, Debug, PartialEq, Eq, Structural)]
pub enum Team {
    PLAYER,
    ENEMY,
}

/// Which side an entity is on, and whether it collides with its own side.
#[derive(Copy, Clone, Debug, PartialEq, Eq, Structural)]
pub struct Status {
    pub collides_with_own_team: bool,
    pub team: Team,
}

impl Default for Status {
    fn default() -> (status: Status)
        ensures
            status == (Status { collides_with_own_team: false, team: Team::ENEMY }),
    {
        Status { collides_with_own_team: false, team: Team::ENEMY }
    }
}

/// Makes an entity wander at random while being drawn back to `center`.
/// `speed` is in thousandths of a world unit per second; `centering_speed`
/// is the fixed-point fraction of the offset from `center` that is added to
/// the velocity each tick.
#[derive(Debug, Copy, Clone, PartialEq, Eq, Structural)]
pub struct AiRandomWalk {
    pub speed: i32,
    pub centering_speed: i32,
    pub center: Vec2,
}

} // verus!
