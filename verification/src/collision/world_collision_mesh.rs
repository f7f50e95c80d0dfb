//! The static geometry of the world.
use vstd::prelude::*;
use crate::collision::aabb::Aabb;
use crate::collision::triangle::Triangle;
use crate::vec2::{lemma_square_is_not_negative, Vec2};

verus! {

/// The triangles that make up the world's fixed obstacles.
pub struct WorldCollisionMesh {
    triangles: Vec<Triangle>,
}

impl View for WorldCollisionMesh {
    type V = Seq<Triangle>;

    closed spec fn view(&self) -> Seq<Triangle> {
        self.triangles@
    }
}

impl WorldCollisionMesh {
    /// How strongly triangle `index` pushes the box: the squared length of
    /// its separating vector, or nothing where it does not overlap the box.
    pub open spec fn push_strength(&self, aabb: Aabb, index: int) -> int {
        let vector = self@[index].separating_vector(aabb);
        if self@[index].overlaps(aabb) {
            vector.dot_spec(vector)
        } else {
            0
        }
    }

    /// Triangle `index` pushes the box, no triangle pushes it harder, and no
    /// earlier triangle as hard.
    pub open spec fn is_strongest(&self, aabb: Aabb, index: int) -> bool {
        &&& 0 <= index < self@.len()
        &&& self.push_strength(aabb, index) > 0
        &&& forall|other: int|
            0 <= other < self@.len() ==> {
                ||| (#[trigger] self.push_strength(aabb, other)) < self.push_strength(
                    aabb,
                    index,
                )
                ||| self.push_strength(aabb, other) == self.push_strength(aabb, index) && index
                    <= other
            }
    }

    /// No triangle pushes the box.
    pub open spec fn is_clear_of(&self, aabb: Aabb) -> bool {
        forall|index: int|
            0 <= index < self@.len() ==> (#[trigger] self.push_strength(aabb, index)) == 0
    }

    /// The separating vector of the first triangle that pushes the box
    /// hardest; nothing where no triangle pushes the box.
    pub open spec fn collision_spec(&self, aabb: Aabb) -> Option<Vec2> {
        if self.is_clear_of(aabb) {
            None
        } else {
            Some(
                self@[choose|index: int| self.is_strongest(aabb, index)].separating_vector(aabb),
            )
        }
    }

    /// The static world made of the given triangles.
    pub fn new(triangles: Vec<Triangle>) -> (mesh: WorldCollisionMesh)
        ensures
            mesh@ == triangles@,
    {
        WorldCollisionMesh { triangles }
    }

    /// The separating vector of the triangle that pushes the box hardest,
    /// the first of them where several push equally hard; nothing where no
    /// triangle pushes the box at all.
    pub fn find_collision(&self, aabb: &Aabb) -> (found: Option<Vec2>)
        ensures
            found == self.collision_spec(*aabb),
    {
        let mut intersection_vector: Option<Vec2> = None;
        let mut intersection_dist: i128 = 0;
        let ghost mut strongest: int = -1;
        let mut i: usize = 0;
        proof {
            assert forall|seen: int| 0 <= seen < self@.len() implies (#[trigger] self.push_strength(
                *aabb,
                seen,
            )) >= 0 by {
                lemma_square_is_not_negative(self@[seen].separating_vector(*aabb));
            }
        }
        while i < self.triangles.len()
            invariant
                i <= self.triangles.len(),
                intersection_dist >= 0,
                forall|seen: int|
                    0 <= seen < i ==> (#[trigger] self.push_strength(*aabb, seen))
                        <= intersection_dist,
                forall|seen: int|
                    0 <= seen < self@.len() ==> (#[trigger] self.push_strength(*aabb, seen)) >= 0,
                intersection_vector is None <==> intersection_dist == 0,
                intersection_vector is Some ==> {
                    &&& 0 <= strongest < i
                    &&& self.push_strength(*aabb, strongest) == intersection_dist
                    &&& intersection_vector == Some(self@[strongest].separating_vector(*aabb))
                    &&& forall|seen: int|
                        0 <= seen < strongest ==> (#[trigger] self.push_strength(*aabb, seen))
                            < intersection_dist
                },
            decreases self.triangles.len() - i,
        {
            let triangle = &self.triangles[i];
            if triangle.is_colliding(aabb) {
                let test_intersection_vector = triangle.closest_intersection_vector(aabb);
                let strength = test_intersection_vector.magnitude_squared();
                if strength > intersection_dist {
                    intersection_dist = strength;
                    intersection_vector = Some(test_intersection_vector);
                    proof {
                        strongest = i as int;
                    }
                }
            }
            i += 1;
        }
        proof {
            if intersection_vector is Some {
                assert(self.is_strongest(*aabb, strongest));
                assert(self.push_strength(*aabb, strongest) > 0);
                lemma_strongest_is_unique(
                    *self,
                    *aabb,
                    strongest,
                    choose|index: int| self.is_strongest(*aabb, index),
                );
            }
        }
        intersection_vector
    }
}

/// At most one triangle is the first that pushes hardest.
pub proof fn lemma_strongest_is_unique(
    mesh: WorldCollisionMesh,
    aabb: Aabb,
    first: int,
    second: int,
)
    requires
        mesh.is_strongest(aabb, first),
        mesh.is_strongest(aabb, second),
    ensures
        first == second,
{
    assert(mesh.push_strength(aabb, first) >= mesh.push_strength(aabb, second));
    assert(mesh.push_strength(aabb, second) >= mesh.push_strength(aabb, first));
}

} // verus!
