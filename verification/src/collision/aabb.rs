//! Axis-aligned boxes: overlap, enclosure and minimum separation.
use vstd::prelude::*;
use crate::direction::Direction;
use crate::units::{clamp, div_toward_zero, magnitude, saturate, scale_by_ratio, UNIT};
use crate::vec2::Vec2;

verus! {

/// An axis-aligned box given by its least and greatest coordinate on each
/// axis. A box whose least coordinate exceeds its greatest on some axis is
/// empty and overlaps nothing.
#[derive(Copy, Clone, Debug, PartialEq, Eq, Structural)]
pub struct Aabb {
    pub min_x: i32,
    pub min_y: i32,
    pub max_x: i32,
    pub max_y: i32,
}

/// The corners of a box, named by compass direction.
#[derive(Debug, Copy, Clone, PartialEq, Eq, Structural)]
pub enum AabbCorner {
    Sw,
    Se,
    Ne,
    Nw,
}

impl Aabb {
    /// The interiors of the two boxes meet: on both axes each box starts
    /// before the other ends.
    pub open spec fn overlaps(self, other: Aabb) -> bool {
        &&& self.min_x < other.max_x
        &&& self.min_y < other.max_y
        &&& self.max_x > other.min_x
        &&& self.max_y > other.min_y
    }

    /// Where the corner lies.
    pub open spec fn corner_spec(self, corner: AabbCorner) -> Vec2 {
        match corner {
            AabbCorner::Sw => Vec2 { x: self.min_x, y: self.min_y },
            AabbCorner::Se => Vec2 { x: self.max_x, y: self.min_y },
            AabbCorner::Nw => Vec2 { x: self.min_x, y: self.max_y },
            AabbCorner::Ne => Vec2 { x: self.max_x, y: self.max_y },
        }
    }

    /// The point lies strictly inside the box.
    pub open spec fn contains_point(self, point: Vec2) -> bool {
        &&& point.x > self.min_x
        &&& point.y > self.min_y
        &&& point.x < self.max_x
        &&& point.y < self.max_y
    }

    /// `self` reaches at least as far as `inner` on all four sides.
    pub open spec fn bounds(self, inner: Aabb) -> bool {
        &&& self.min_x <= inner.min_x
        &&& self.min_y <= inner.min_y
        &&& self.max_x >= inner.max_x
        &&& self.max_y >= inner.max_y
    }

    /// Each side of `self` coincides with the same side of some box of
    /// `boxes`.
    pub open spec fn touches_each_side(self, boxes: Seq<Aabb>) -> bool {
        &&& exists|i: int| 0 <= i < boxes.len() && self.min_x == (#[trigger] boxes[i]).min_x
        &&& exists|i: int| 0 <= i < boxes.len() && self.min_y == (#[trigger] boxes[i]).min_y
        &&& exists|i: int| 0 <= i < boxes.len() && self.max_x == (#[trigger] boxes[i]).max_x
        &&& exists|i: int| 0 <= i < boxes.len() && self.max_y == (#[trigger] boxes[i]).max_y
    }

    /// How far `self` must move in `direction` for the facing sides of the
    /// two boxes to meet; negative when that side of `other` lies the other
    /// way.
    pub open spec fn push(self, other: Aabb, direction: Direction) -> int {
        match direction {
            Direction::Right => other.max_x - self.min_x,
            Direction::Left => other.min_x - self.max_x,
            Direction::Up => other.max_y - self.min_y,
            Direction::Down => other.min_y - self.max_y,
        }
    }

    /// The length of the push in `direction`.
    pub open spec fn depth(self, other: Aabb, direction: Direction) -> int {
        magnitude(self.push(other, direction))
    }

    /// The direction of the shortest push; among equally short pushes the
    /// first of right, left, up, down.
    pub open spec fn separating_direction(self, other: Aabb) -> Direction {
        let right = self.depth(other, Direction::Right);
        let left = self.depth(other, Direction::Left);
        let up = self.depth(other, Direction::Up);
        let down = self.depth(other, Direction::Down);
        if right <= left && right <= up && right <= down {
            Direction::Right
        } else if left <= up && left <= down {
            Direction::Left
        } else if up <= down {
            Direction::Up
        } else {
            Direction::Down
        }
    }

    /// The length of the shortest push.
    pub open spec fn separating_depth(self, other: Aabb) -> int {
        self.depth(other, self.separating_direction(other))
    }

    /// The shortest push as a vector along its axis, saturated.
    pub open spec fn separating_vector(self, other: Aabb) -> Vec2 {
        self.separating_direction(other).unit_spec().scaled_spec(self.separating_depth(other))
    }

    /// The box moved by `offset`, each coordinate saturating.
    pub open spec fn translate_spec(self, offset: Vec2) -> Aabb {
        Aabb {
            min_x: clamp(self.min_x + offset.x) as i32,
            min_y: clamp(self.min_y + offset.y) as i32,
            max_x: clamp(self.max_x + offset.x) as i32,
            max_y: clamp(self.max_y + offset.y) as i32,
        }
    }

    /// The box with each coordinate multiplied by the fixed-point `factor`,
    /// rounded toward zero and saturated.
    pub open spec fn scale_spec(self, factor: i32) -> Aabb {
        Aabb {
            min_x: clamp(div_toward_zero(self.min_x * factor, UNIT as int)) as i32,
            min_y: clamp(div_toward_zero(self.min_y * factor, UNIT as int)) as i32,
            max_x: clamp(div_toward_zero(self.max_x * factor, UNIT as int)) as i32,
            max_y: clamp(div_toward_zero(self.max_y * factor, UNIT as int)) as i32,
        }
    }

    /// Whether the two boxes overlap.
    pub fn is_colliding(&self, aabb: &Aabb) -> (hit: bool)
        ensures
            hit == self.overlaps(*aabb),
    {
        self.min_x < aabb.max_x && self.min_y < aabb.max_y && self.max_x > aabb.min_x
            && self.max_y > aabb.min_y
    }

    /// Where the corner lies.
    pub fn get_corner(&self, corner: AabbCorner) -> (point: Vec2)
        ensures
            point == self.corner_spec(corner),
    {
        match corner {
            AabbCorner::Sw => Vec2 { x: self.min_x, y: self.min_y },
            AabbCorner::Se => Vec2 { x: self.max_x, y: self.min_y },
            AabbCorner::Nw => Vec2 { x: self.min_x, y: self.max_y },
            AabbCorner::Ne => Vec2 { x: self.max_x, y: self.max_y },
        }
    }

    /// Whether the point lies strictly inside the box.
    pub fn is_inside(&self, point: Vec2) -> (inside: bool)
        ensures
            inside == self.contains_point(point),
    {
        point.x > self.min_x && point.y > self.min_y && point.x < self.max_x && point.y
            < self.max_y
    }

    /// The smallest box that bounds every box of a non-empty slice.
    pub fn surrounding_aabb(aabbs: &[Aabb]) -> (hull: Aabb)
        requires
            aabbs.len() > 0,
        ensures
            forall|i: int| 0 <= i < aabbs.len() ==> hull.bounds(#[trigger] aabbs[i]),
            hull.touches_each_side(aabbs@),
    {
        let mut hull = aabbs[0];
        let mut i: usize = 1;
        while i < aabbs.len()
            invariant
                1 <= i <= aabbs.len(),
                forall|j: int| 0 <= j < i ==> hull.bounds(#[trigger] aabbs[j]),
                exists|j: int| 0 <= j < i && hull.min_x == (#[trigger] aabbs[j]).min_x,
                exists|j: int| 0 <= j < i && hull.min_y == (#[trigger] aabbs[j]).min_y,
                exists|j: int| 0 <= j < i && hull.max_x == (#[trigger] aabbs[j]).max_x,
                exists|j: int| 0 <= j < i && hull.max_y == (#[trigger] aabbs[j]).max_y,
            decreases aabbs.len() - i,
        {
            let next = aabbs[i];
            if next.min_x < hull.min_x {
                hull.min_x = next.min_x;
            }
            if next.min_y < hull.min_y {
                hull.min_y = next.min_y;
            }
            if next.max_x > hull.max_x {
                hull.max_x = next.max_x;
            }
            if next.max_y > hull.max_y {
                hull.max_y = next.max_y;
            }
            i += 1;
        }
        hull
    }

    /// The shortest axis-aligned move of `self` that brings a side of it
    /// onto the facing side of `aabb`.
    pub fn closest_intersection_vector(&self, aabb: &Aabb) -> (vector: Vec2)
        ensures
            vector == self.separating_vector(*aabb),
    {
        let right: i64 = distance(aabb.max_x, self.min_x);
        let left: i64 = distance(aabb.min_x, self.max_x);
        let up: i64 = distance(aabb.max_y, self.min_y);
        let down: i64 = distance(aabb.min_y, self.max_y);
        if right <= left && right <= up && right <= down {
            Vec2 { x: saturate(right), y: 0 }
        } else if left <= up && left <= down {
            Vec2 { x: saturate(-left), y: 0 }
        } else if up <= down {
            Vec2 { x: 0, y: saturate(up) }
        } else {
            Vec2 { x: 0, y: saturate(-down) }
        }
    }

    /// The box moved by `offset`.
    pub fn translate(self, offset: Vec2) -> (moved: Aabb)
        ensures
            moved == self.translate_spec(offset),
    {
        Aabb {
            min_x: saturate(self.min_x as i64 + offset.x as i64),
            min_y: saturate(self.min_y as i64 + offset.y as i64),
            max_x: saturate(self.max_x as i64 + offset.x as i64),
            max_y: saturate(self.max_y as i64 + offset.y as i64),
        }
    }

    /// The box scaled about the origin by the fixed-point `factor`.
    pub fn scale(self, factor: i32) -> (scaled: Aabb)
        ensures
            scaled == self.scale_spec(factor),
    {
        Aabb {
            min_x: scale_by_ratio(self.min_x, factor as i64, UNIT as i64),
            min_y: scale_by_ratio(self.min_y, factor as i64, UNIT as i64),
            max_x: scale_by_ratio(self.max_x, factor as i64, UNIT as i64),
            max_y: scale_by_ratio(self.max_y, factor as i64, UNIT as i64),
        }
    }
}

/// The distance between two coordinates.
fn distance(to: i32, from: i32) -> (d: i64)
    ensures
        d == magnitude(to - from),
{
    let difference: i64 = to as i64 - from as i64;
    if difference >= 0 {
        difference
    } else {
        -difference
    }
}

/// Overlap does not depend on the order of the two boxes.
pub proof fn lemma_overlap_is_symmetric(a: Aabb, b: Aabb)
    ensures
        a.overlaps(b) == b.overlaps(a),
{
}

/// Moving an overlapping box by its separating vector leaves it clear of the
/// other box, provided the vector's length can be represented.
pub proof fn lemma_separation_clears_overlap(a: Aabb, b: Aabb)
    requires
        a.overlaps(b),
        a.separating_depth(b) <= i32::MAX,
    ensures
        !a.translate_spec(a.separating_vector(b)).overlaps(b),
{
}

/// For overlapping boxes no separating vector is shorter than the one
/// chosen, whichever direction it points in.
pub proof fn lemma_separation_is_shortest(a: Aabb, b: Aabb, direction: Direction)
    ensures
        a.separating_depth(b) <= a.depth(b, direction),
{
}

} // verus!
