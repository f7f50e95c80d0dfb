//! Two-dimensional vectors with fixed-point components.
use vstd::prelude::*;
use crate::units::{add_saturating, clamp, lemma_product_bound, saturate, sub_saturating};

verus! {

/// A displacement, a velocity or a direction in the plane.
#[derive(Clone, Copy, Debug, PartialEq, Eq, Structural)]
pub struct Vec2 {
    pub x: i32,
    pub y: i32,
}

impl Vec2 {
    /// The component-wise saturating sum.
    pub open spec fn plus_spec(self, other: Vec2) -> Vec2 {
        Vec2 { x: clamp(self.x + other.x) as i32, y: clamp(self.y + other.y) as i32 }
    }

    /// The component-wise saturating difference.
    pub open spec fn minus_spec(self, other: Vec2) -> Vec2 {
        Vec2 { x: clamp(self.x - other.x) as i32, y: clamp(self.y - other.y) as i32 }
    }

    /// Each component multiplied by `factor`, saturating.
    pub open spec fn scaled_spec(self, factor: int) -> Vec2 {
        Vec2 { x: clamp(self.x * factor) as i32, y: clamp(self.y * factor) as i32 }
    }

    /// The inner product, as a mathematical integer.
    pub open spec fn dot_spec(self, other: Vec2) -> int {
        self.x * other.x + self.y * other.y
    }

    /// The vector with the given components.
    pub fn new(x: i32, y: i32) -> (v: Vec2)
        ensures
            v == (Vec2 { x, y }),
    {
        Vec2 { x, y }
    }

    /// The sum of the two vectors, saturating.
    pub fn plus(self, other: Vec2) -> (v: Vec2)
        ensures
            v == self.plus_spec(other),
    {
        Vec2 { x: add_saturating(self.x, other.x), y: add_saturating(self.y, other.y) }
    }

    /// The difference of the two vectors, saturating.
    pub fn minus(self, other: Vec2) -> (v: Vec2)
        ensures
            v == self.minus_spec(other),
    {
        Vec2 { x: sub_saturating(self.x, other.x), y: sub_saturating(self.y, other.y) }
    }

    /// The vector multiplied by a whole number, saturating.
    pub fn scaled(self, factor: i32) -> (v: Vec2)
        ensures
            v == self.scaled_spec(factor as int),
    {
        proof {
            lemma_product_bound(self.x as int, factor as int, 0x8000_0000, 0x8000_0000);
            lemma_product_bound(self.y as int, factor as int, 0x8000_0000, 0x8000_0000);
        }
        Vec2 {
            x: saturate(self.x as i64 * factor as i64),
            y: saturate(self.y as i64 * factor as i64),
        }
    }

    /// The inner product of the two vectors.
    pub fn dot(self, other: Vec2) -> (d: i128)
        ensures
            d == self.dot_spec(other),
    {
        proof {
            lemma_product_bound(self.x as int, other.x as int, 0x8000_0000, 0x8000_0000);
            lemma_product_bound(self.y as int, other.y as int, 0x8000_0000, 0x8000_0000);
        }
        self.x as i128 * other.x as i128 + self.y as i128 * other.y as i128
    }

    /// The square of the vector's length.
    pub fn magnitude_squared(self) -> (m: i128)
        ensures
            m == self.dot_spec(self),
            m >= 0,
    {
        proof {
            lemma_square_is_not_negative(self);
        }
        self.dot(self)
    }

}

/// A vector's inner product with itself is never negative.
pub proof fn lemma_square_is_not_negative(v: Vec2)
    ensures
        v.dot_spec(v) >= 0,
{
    assert(v.x * v.x >= 0 && v.y * v.y >= 0) by (nonlinear_arith);
}

} // verus!
