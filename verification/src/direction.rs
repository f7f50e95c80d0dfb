//! The four axis directions.
use vstd::prelude::*;
use vstd::std_specs::convert::FromSpecImpl;
use crate::vec2::Vec2;

verus! {

/// A direction along one of the two axes; up is the direction of growing y.
#[derive(Clone, Copy, Debug, PartialEq, Eq, Structural)]
pub enum Direction {
    Up,
    Right,
    Down,
    Left,
}

impl Direction {
    /// The vector of length one that points along the direction.
    pub open spec fn unit_spec(self) -> Vec2 {
        match self {
            Direction::Up => Vec2 { x: 0, y: 1 },
            Direction::Right => Vec2 { x: 1, y: 0 },
            Direction::Down => Vec2 { x: 0, y: -1i32 },
            Direction::Left => Vec2 { x: -1i32, y: 0 },
        }
    }

    /// The direction's name as it appears in asset and binding names.
    pub open spec fn lowercase_spec(self) -> Seq<char> {
        match self {
            Direction::Up => "up"@,
            Direction::Right => "right"@,
            Direction::Down => "down"@,
            Direction::Left => "left"@,
        }
    }

    /// The direction's name in lower case.
    pub fn lowercase(self) -> (name: &'static str)
        ensures
            name@ == self.lowercase_spec(),
    {
        match self {
            Direction::Up => "up",
            Direction::Right => "right",
            Direction::Left => "left",
            Direction::Down => "down",
        }
    }
}

impl From<Direction> for Vec2 {
    fn from(direction: Direction) -> (v: Vec2) {
        match direction {
            Direction::Up => Vec2 { x: 0, y: 1 },
            Direction::Right => Vec2 { x: 1, y: 0 },
            Direction::Down => Vec2 { x: 0, y: -1 },
            Direction::Left => Vec2 { x: -1, y: 0 },
        }
    }
}

impl FromSpecImpl<Direction> for Vec2 {
    open spec fn obeys_from_spec() -> bool {
        true
    }

    open spec fn from_spec(direction: Direction) -> Vec2 {
        direction.unit_spec()
    }
}

/// The four unit vectors are distinct, and each has length one.
pub proof fn lemma_units_are_distinct(a: Direction, b: Direction)
    ensures
        a.unit_spec() == b.unit_spec() <==> a == b,
        a.unit_spec().dot_spec(a.unit_spec()) == 1,
{
}

} // verus!
