//! Static counter-clockwise triangles and their tests against boxes.
//!
//! The overlap test is approximate: it reports a hit only when a corner of
//! the box lies inside the triangle. A box that crosses a triangle without
//! putting a corner inside it is missed, which is tolerable while relative
//! motion per tick is small.
use vstd::prelude::*;
use crate::collision::aabb::{Aabb, AabbCorner};
use crate::units::{
    clamp, div_toward_zero, floor_sqrt, isqrt, lemma_product_bound, lemma_quotient_bound,
    saturate_wide, UNIT,
};
use crate::vec2::Vec2;

verus! {

/// A point counts as outside a side once its cross product with the side
/// reaches one square world unit.
pub const EDGE_SLACK: i64 = 1_000_000;

/// The number of (side, box corner) pairs.
pub const CANDIDATES: usize = 12;

/// A triangle of the static world. Its corners run counter-clockwise.
#[derive(Debug)]
pub struct Triangle {
    a: Vec2,
    b: Vec2,
    c: Vec2,
    surrounding_aabb: Aabb,
}

/// Sides of a triangle: A to B, B to C, and C to A.
#[derive(Debug, Clone, Copy, PartialEq, Eq, Structural)]
pub enum TriangleSide {
    Ab,
    Bc,
    Ca,
}

/// The corners of a triangle.
#[derive(Debug, Clone, Copy, PartialEq, Eq, Structural)]
pub enum TriangleCorner {
    A,
    B,
    C,
}

impl TriangleSide {
    pub open spec fn start_corner_spec(self) -> TriangleCorner {
        match self {
            TriangleSide::Ab => TriangleCorner::A,
            TriangleSide::Bc => TriangleCorner::B,
            TriangleSide::Ca => TriangleCorner::C,
        }
    }

    pub open spec fn end_corner_spec(self) -> TriangleCorner {
        match self {
            TriangleSide::Ab => TriangleCorner::B,
            TriangleSide::Bc => TriangleCorner::C,
            TriangleSide::Ca => TriangleCorner::A,
        }
    }

    /// The side that starts where `self` ends.
    pub open spec fn next_spec(self) -> TriangleSide {
        match self {
            TriangleSide::Ab => TriangleSide::Bc,
            TriangleSide::Bc => TriangleSide::Ca,
            TriangleSide::Ca => TriangleSide::Ab,
        }
    }

    /// The corner at which the side starts.
    pub fn get_start_corner(self) -> (corner: TriangleCorner)
        ensures
            corner == self.start_corner_spec(),
    {
        match self {
            Self::Ab => TriangleCorner::A,
            Self::Bc => TriangleCorner::B,
            Self::Ca => TriangleCorner::C,
        }
    }

    /// The corner at which the side ends.
    pub fn get_end_corner(self) -> (corner: TriangleCorner)
        ensures
            corner == self.end_corner_spec(),
    {
        match self {
            Self::Ab => TriangleCorner::B,
            Self::Bc => TriangleCorner::C,
            Self::Ca => TriangleCorner::A,
        }
    }
}

/// The sides form a cycle: each ends at the corner where the next starts, and
/// a side never starts and ends at the same corner.
pub proof fn lemma_sides_form_a_cycle(side: TriangleSide)
    ensures
        side.end_corner_spec() == side.next_spec().start_corner_spec(),
        side.start_corner_spec() != side.end_corner_spec(),
        side.next_spec().next_spec().next_spec() == side,
{
}

/// Twice the signed area of the triangle `a`, `b`, `c`: positive when the
/// corners run counter-clockwise.
pub open spec fn doubled_area(a: Vec2, b: Vec2, c: Vec2) -> int {
    (a.x * b.y - b.x * a.y) + (b.x * c.y - c.x * b.y) + (c.x * a.y - a.x * c.y)
}

/// The least of three numbers.
pub open spec fn least(x: int, y: int, z: int) -> int {
    if x <= y && x <= z {
        x
    } else if y <= z {
        y
    } else {
        z
    }
}

/// The greatest of three numbers.
pub open spec fn greatest(x: int, y: int, z: int) -> int {
    if x >= y && x >= z {
        x
    } else if y >= z {
        y
    } else {
        z
    }
}

/// The smallest box that holds the three points.
pub open spec fn hull_of(a: Vec2, b: Vec2, c: Vec2) -> Aabb {
    Aabb {
        min_x: least(a.x as int, b.x as int, c.x as int) as i32,
        min_y: least(a.y as int, b.y as int, c.y as int) as i32,
        max_x: greatest(a.x as int, b.x as int, c.x as int) as i32,
        max_y: greatest(a.y as int, b.y as int, c.y as int) as i32,
    }
}

/// The side with the given number in the order Ab, Bc, Ca.
pub open spec fn side_at(index: int) -> TriangleSide {
    if index == 0 {
        TriangleSide::Ab
    } else if index == 1 {
        TriangleSide::Bc
    } else {
        TriangleSide::Ca
    }
}

/// The box corner with the given number in the order Sw, Se, Ne, Nw.
pub open spec fn corner_at(index: int) -> AabbCorner {
    if index == 0 {
        AabbCorner::Sw
    } else if index == 1 {
        AabbCorner::Se
    } else if index == 2 {
        AabbCorner::Ne
    } else {
        AabbCorner::Nw
    }
}

impl Triangle {
    #[verifier::type_invariant]
    spec fn well_formed(self) -> bool {
        &&& self.surrounding_aabb == hull_of(self.a, self.b, self.c)
        &&& doubled_area(self.a, self.b, self.c) >= 0
    }

    /// Where the corner lies.
    pub closed spec fn corner_spec(self, corner: TriangleCorner) -> Vec2 {
        match corner {
            TriangleCorner::A => self.a,
            TriangleCorner::B => self.b,
            TriangleCorner::C => self.c,
        }
    }

    /// The smallest box that holds the triangle.
    pub open spec fn bounding_box(self) -> Aabb {
        hull_of(
            self.corner_spec(TriangleCorner::A),
            self.corner_spec(TriangleCorner::B),
            self.corner_spec(TriangleCorner::C),
        )
    }

    /// The x component of the side's outward normal: the side's direction
    /// turned a quarter clockwise, at the side's own length.
    pub open spec fn normal_x(self, side: TriangleSide) -> int {
        self.corner_spec(side.end_corner_spec()).y - self.corner_spec(side.start_corner_spec()).y
    }

    /// The y component of the side's outward normal.
    pub open spec fn normal_y(self, side: TriangleSide) -> int {
        self.corner_spec(side.start_corner_spec()).x - self.corner_spec(side.end_corner_spec()).x
    }

    /// How far `point` lies beyond the line through `side`, measured along
    /// the outward normal and multiplied by the side's length. Negative or
    /// zero for points on the triangle's side of the line.
    pub open spec fn side_excess(self, side: TriangleSide, point: Vec2) -> int {
        let start = self.corner_spec(side.start_corner_spec());
        self.normal_x(side) * (point.x - start.x) + self.normal_y(side) * (point.y - start.y)
    }

    /// `point` is within the slack of every side's inner half-plane.
    pub open spec fn contains_point(self, point: Vec2) -> bool {
        &&& self.side_excess(TriangleSide::Ab, point) < EDGE_SLACK
        &&& self.side_excess(TriangleSide::Bc, point) < EDGE_SLACK
        &&& self.side_excess(TriangleSide::Ca, point) < EDGE_SLACK
    }

    /// Some corner of `aabb` is inside the triangle.
    pub open spec fn holds_corner_of(self, aabb: Aabb) -> bool {
        ||| self.contains_point(aabb.corner_spec(AabbCorner::Sw))
        ||| self.contains_point(aabb.corner_spec(AabbCorner::Se))
        ||| self.contains_point(aabb.corner_spec(AabbCorner::Ne))
        ||| self.contains_point(aabb.corner_spec(AabbCorner::Nw))
    }

    /// The approximate overlap test: the box meets the triangle's bounding
    /// box and has a corner inside the triangle.
    pub open spec fn overlaps(self, aabb: Aabb) -> bool {
        self.bounding_box().overlaps(aabb) && self.holds_corner_of(aabb)
    }

    /// The whole part of the side's length.
    pub open spec fn side_length(self, side: TriangleSide) -> int {
        floor_sqrt(
            self.normal_x(side) * self.normal_x(side) + self.normal_y(side) * self.normal_y(side),
        )
    }

    /// How deep `point` lies behind `side`, for a point inside the triangle
    /// and a side of non-zero length. A point in the slack just outside the
    /// side has a negative depth; one more than a world unit outside has
    /// none.
    pub open spec fn penetration(self, side: TriangleSide, point: Vec2) -> Option<int> {
        let length = self.side_length(side);
        let depth = div_toward_zero(-self.side_excess(side, point), length);
        if self.contains_point(point) && length > 0 && depth >= -UNIT {
            Some(depth)
        } else {
            None
        }
    }

    /// The move along the outward normal of `side` over the distance
    /// `depth`; no move for a negative depth.
    pub open spec fn push_out(self, side: TriangleSide, depth: int) -> Vec2 {
        let length = self.side_length(side);
        let distance = if depth > 0 {
            depth
        } else {
            0
        };
        Vec2 {
            x: clamp(div_toward_zero(self.normal_x(side) * distance, length)) as i32,
            y: clamp(div_toward_zero(self.normal_y(side) * distance, length)) as i32,
        }
    }

    /// The penetration of the pair with the given number; pairs are numbered
    /// side by side, and corner by corner within a side.
    pub open spec fn candidate(self, aabb: Aabb, rank: int) -> Option<int> {
        self.penetration(side_at(rank / 4), aabb.corner_spec(corner_at(rank % 4)))
    }

    /// Pair `rank` has a penetration, no pair has a smaller one, and no
    /// earlier pair has the same.
    pub open spec fn is_best(self, aabb: Aabb, rank: int) -> bool {
        &&& 0 <= rank < CANDIDATES
        &&& self.candidate(aabb, rank) is Some
        &&& forall|other: int|
            0 <= other < CANDIDATES && (#[trigger] self.candidate(aabb, other)) is Some ==> {
                ||| self.candidate(aabb, rank)->0 < self.candidate(aabb, other)->0
                ||| self.candidate(aabb, rank)->0 == self.candidate(aabb, other)->0 && rank
                    <= other
            }
    }

    /// No pair has a penetration.
    pub open spec fn has_no_candidate(self, aabb: Aabb) -> bool {
        forall|rank: int|
            0 <= rank < CANDIDATES ==> (#[trigger] self.candidate(aabb, rank)) is None
    }

    /// The move that pair `rank` asks for.
    pub open spec fn candidate_vector(self, aabb: Aabb, rank: int) -> Vec2 {
        self.push_out(side_at(rank / 4), self.candidate(aabb, rank)->0)
    }

    /// The move that takes `aabb` out of the triangle: the move that the
    /// first pair of least penetration asks for, or, where no pair has a
    /// penetration, the shortest move of the box out of the bounding box.
    pub open spec fn separating_vector(self, aabb: Aabb) -> Vec2 {
        if self.has_no_candidate(aabb) {
            aabb.separating_vector(self.bounding_box())
        } else {
            self.candidate_vector(aabb, choose|rank: int| self.is_best(aabb, rank))
        }
    }

    /// The triangle on the three points, with `b` and `c` exchanged if they
    /// were given clockwise.
    pub fn new(a: Vec2, b: Vec2, c: Vec2) -> (triangle: Triangle)
        ensures
            triangle.corner_spec(TriangleCorner::A) == a,
            doubled_area(a, b, c) > 0 ==> triangle.corner_spec(TriangleCorner::B) == b
                && triangle.corner_spec(TriangleCorner::C) == c,
            doubled_area(a, b, c) <= 0 ==> triangle.corner_spec(TriangleCorner::B) == c
                && triangle.corner_spec(TriangleCorner::C) == b,
            doubled_area(
                triangle.corner_spec(TriangleCorner::A),
                triangle.corner_spec(TriangleCorner::B),
                triangle.corner_spec(TriangleCorner::C),
            ) >= 0,
    {
        let area = signed_area(a, b, c);
        let (second, third) = if area <= 0 {
            (c, b)
        } else {
            (b, c)
        };
        proof {
            lemma_area_flips(a, b, c);
        }
        let surrounding_aabb = Aabb {
            min_x: min3(a.x, second.x, third.x),
            min_y: min3(a.y, second.y, third.y),
            max_x: max3(a.x, second.x, third.x),
            max_y: max3(a.y, second.y, third.y),
        };
        Triangle { a, b: second, c: third, surrounding_aabb }
    }

    /// Where the corner lies.
    pub fn get_corner(&self, corner: TriangleCorner) -> (point: Vec2)
        ensures
            point == self.corner_spec(corner),
    {
        match corner {
            TriangleCorner::A => self.a,
            TriangleCorner::B => self.b,
            TriangleCorner::C => self.c,
        }
    }

    /// The smallest box that holds the triangle.
    pub fn surrounding_aabb(&self) -> (hull: Aabb)
        ensures
            hull == self.bounding_box(),
    {
        proof {
            use_type_invariant(self);
        }
        self.surrounding_aabb
    }

    fn excess(&self, side: TriangleSide, point: &Vec2) -> (e: i128)
        ensures
            e == self.side_excess(side, *point),
            -0x2_0000_0000_0000_0000 <= e <= 0x2_0000_0000_0000_0000,
    {
        let start = self.get_corner(side.get_start_corner());
        let end = self.get_corner(side.get_end_corner());
        let normal_x: i128 = end.y as i128 - start.y as i128;
        let normal_y: i128 = start.x as i128 - end.x as i128;
        let offset_x: i128 = point.x as i128 - start.x as i128;
        let offset_y: i128 = point.y as i128 - start.y as i128;
        proof {
            lemma_product_bound(normal_x as int, offset_x as int, 0x1_0000_0000, 0x1_0000_0000);
            lemma_product_bound(normal_y as int, offset_y as int, 0x1_0000_0000, 0x1_0000_0000);
        }
        normal_x * offset_x + normal_y * offset_y
    }

    /// Whether the point is inside the triangle, up to the slack.
    pub fn is_point_inside(&self, point: &Vec2) -> (inside: bool)
        ensures
            inside == self.contains_point(*point),
    {
        self.excess(TriangleSide::Ab, point) < EDGE_SLACK as i128 && self.excess(
            TriangleSide::Bc,
            point,
        ) < EDGE_SLACK as i128 && self.excess(TriangleSide::Ca, point) < EDGE_SLACK as i128
    }

    /// Whether the box overlaps the triangle, by the approximate test.
    pub fn is_colliding(&self, aabb: &Aabb) -> (hit: bool)
        ensures
            hit == self.overlaps(*aabb),
    {
        proof {
            use_type_invariant(self);
        }
        if !self.surrounding_aabb.is_colliding(aabb) {
            return false;
        }
        self.is_point_inside(&aabb.get_corner(AabbCorner::Sw)) || self.is_point_inside(
            &aabb.get_corner(AabbCorner::Se),
        ) || self.is_point_inside(&aabb.get_corner(AabbCorner::Ne)) || self.is_point_inside(
            &aabb.get_corner(AabbCorner::Nw),
        )
    }

    fn length_of(&self, side: TriangleSide) -> (length: i128)
        ensures
            length == self.side_length(side),
            0 <= length < 0x100_0000_0000,
    {
        let start = self.get_corner(side.get_start_corner());
        let end = self.get_corner(side.get_end_corner());
        let normal_x: i128 = end.y as i128 - start.y as i128;
        let normal_y: i128 = start.x as i128 - end.x as i128;
        proof {
            lemma_product_bound(normal_x as int, normal_x as int, 0x1_0000_0000, 0x1_0000_0000);
            lemma_product_bound(normal_y as int, normal_y as int, 0x1_0000_0000, 0x1_0000_0000);
            assert(normal_x * normal_x >= 0) by (nonlinear_arith);
            assert(normal_y * normal_y >= 0) by (nonlinear_arith);
        }
        let squared: i128 = normal_x * normal_x + normal_y * normal_y;
        let root = isqrt(squared as u128);
        proof {
            assert(root < 0x100_0000_0000) by (nonlinear_arith)
                requires
                    root * root <= squared,
                    squared <= 0x2_0000_0000_0000_0000,
                    root >= 0,
            ;
        }
        root as i128
    }

    fn penetration_of(&self, side: TriangleSide, point: &Vec2) -> (depth: Option<i128>)
        ensures
            depth is Some == self.penetration(side, *point) is Some,
            depth is Some ==> depth->0 == self.penetration(side, *point)->0,
            depth is Some ==> -UNIT <= depth->0 <= 0x2_0000_0000_0000_0000,
    {
        if !self.is_point_inside(point) {
            return None;
        }
        let length = self.length_of(side);
        if length == 0 {
            return None;
        }
        let inward: i128 = -self.excess(side, point);
        proof {
            lemma_quotient_bound(inward as int, length as int, 0x2_0000_0000_0000_0000);
        }
        let depth: i128 = inward / length;
        if depth >= -(UNIT as i128) {
            Some(depth)
        } else {
            None
        }
    }

    fn push_out_by(&self, side: TriangleSide, depth: i128) -> (vector: Vec2)
        requires
            self.side_length(side) > 0,
            depth <= 0x2_0000_0000_0000_0000,
        ensures
            vector == self.push_out(side, depth as int),
    {
        let start = self.get_corner(side.get_start_corner());
        let end = self.get_corner(side.get_end_corner());
        let normal_x: i128 = end.y as i128 - start.y as i128;
        let normal_y: i128 = start.x as i128 - end.x as i128;
        let length = self.length_of(side);
        let distance: i128 = if depth > 0 {
            depth
        } else {
            0
        };
        proof {
            lemma_product_bound(
                normal_x as int,
                distance as int,
                0x1_0000_0000,
                0x2_0000_0000_0000_0000,
            );
            lemma_product_bound(
                normal_y as int,
                distance as int,
                0x1_0000_0000,
                0x2_0000_0000_0000_0000,
            );
        }
        Vec2 {
            x: saturate_wide(normal_x * distance / length),
            y: saturate_wide(normal_y * distance / length),
        }
    }

    /// The move that takes the box out of the triangle through the side that
    /// its corners have penetrated least; the first such pair of side and
    /// corner decides. Where no corner has a penetration, the shortest move
    /// of the box out of the triangle's bounding box.
    pub fn closest_intersection_vector(&self, aabb: &Aabb) -> (vector: Vec2)
        ensures
            vector == self.separating_vector(*aabb),
    {
        let mut chosen: usize = CANDIDATES;
        let mut least_depth: i128 = 0;
        let mut rank: usize = 0;
        while rank < CANDIDATES
            invariant
                rank <= CANDIDATES,
                chosen == CANDIDATES ==> forall|seen: int|
                    0 <= seen < rank ==> (#[trigger] self.candidate(*aabb, seen)) is None,
                chosen != CANDIDATES ==> {
                    &&& chosen < rank
                    &&& self.candidate(*aabb, chosen as int) == Some(least_depth as int)
                    &&& -UNIT <= least_depth <= 0x2_0000_0000_0000_0000
                    &&& forall|seen: int|
                        0 <= seen < rank && (#[trigger] self.candidate(*aabb, seen)) is Some ==> {
                            ||| least_depth < self.candidate(*aabb, seen)->0
                            ||| least_depth == self.candidate(*aabb, seen)->0 && chosen <= seen
                        }
                },
            decreases CANDIDATES - rank,
        {
            let side = side_from_index(rank / 4);
            let corner = aabb.get_corner(corner_from_index(rank % 4));
            let depth = self.penetration_of(side, &corner);
            match depth {
                Some(found) => {
                    if chosen == CANDIDATES || found < least_depth {
                        chosen = rank;
                        least_depth = found;
                    }
                },
                None => {},
            }
            rank += 1;
        }
        if chosen < CANDIDATES {
            proof {
                assert(self.is_best(*aabb, chosen as int));
                lemma_best_is_unique(
                    *self,
                    *aabb,
                    chosen as int,
                    choose|rank: int| self.is_best(*aabb, rank),
                );
            }
            self.push_out_by(side_from_index(chosen / 4), least_depth)
        } else {
            proof {
                use_type_invariant(self);
            }
            aabb.closest_intersection_vector(&self.surrounding_aabb)
        }
    }
}

fn side_from_index(index: usize) -> (side: TriangleSide)
    ensures
        side == side_at(index as int),
{
    if index == 0 {
        TriangleSide::Ab
    } else if index == 1 {
        TriangleSide::Bc
    } else {
        TriangleSide::Ca
    }
}

fn corner_from_index(index: usize) -> (corner: AabbCorner)
    ensures
        corner == corner_at(index as int),
{
    if index == 0 {
        AabbCorner::Sw
    } else if index == 1 {
        AabbCorner::Se
    } else if index == 2 {
        AabbCorner::Ne
    } else {
        AabbCorner::Nw
    }
}

fn min3(x: i32, y: i32, z: i32) -> (m: i32)
    ensures
        m == least(x as int, y as int, z as int),
{
    if x <= y && x <= z {
        x
    } else if y <= z {
        y
    } else {
        z
    }
}

fn max3(x: i32, y: i32, z: i32) -> (m: i32)
    ensures
        m == greatest(x as int, y as int, z as int),
{
    if x >= y && x >= z {
        x
    } else if y >= z {
        y
    } else {
        z
    }
}

fn signed_area(a: Vec2, b: Vec2, c: Vec2) -> (area: i128)
    ensures
        area == doubled_area(a, b, c),
{
    proof {
        lemma_product_bound(a.x as int, b.y as int, 0x8000_0000, 0x8000_0000);
        lemma_product_bound(b.x as int, a.y as int, 0x8000_0000, 0x8000_0000);
        lemma_product_bound(b.x as int, c.y as int, 0x8000_0000, 0x8000_0000);
        lemma_product_bound(c.x as int, b.y as int, 0x8000_0000, 0x8000_0000);
        lemma_product_bound(c.x as int, a.y as int, 0x8000_0000, 0x8000_0000);
        lemma_product_bound(a.x as int, c.y as int, 0x8000_0000, 0x8000_0000);
    }
    (a.x as i128 * b.y as i128 - b.x as i128 * a.y as i128) + (b.x as i128 * c.y as i128 - c.x
        as i128 * b.y as i128) + (c.x as i128 * a.y as i128 - a.x as i128 * c.y as i128)
}

/// At most one pair is the first of least penetration.
pub proof fn lemma_best_is_unique(triangle: Triangle, aabb: Aabb, first: int, second: int)
    requires
        triangle.is_best(aabb, first),
        triangle.is_best(aabb, second),
    ensures
        first == second,
{
    assert(triangle.candidate(aabb, first) is Some);
    assert(triangle.candidate(aabb, second) is Some);
}

/// Exchanging two corners reverses the sign of the area.
pub proof fn lemma_area_flips(a: Vec2, b: Vec2, c: Vec2)
    ensures
        doubled_area(a, c, b) == -doubled_area(a, b, c),
{
    assert(doubled_area(a, c, b) == -doubled_area(a, b, c)) by (nonlinear_arith)
        requires
            doubled_area(a, c, b) == (a.x * c.y - c.x * a.y) + (c.x * b.y - b.x * c.y) + (b.x
                * a.y - a.x * b.y),
            doubled_area(a, b, c) == (a.x * b.y - b.x * a.y) + (b.x * c.y - c.x * b.y) + (c.x
                * a.y - a.x * c.y),
    ;
}

} // verus!
