//! Shared collision shapes and the arena that owns them.
use vstd::prelude::*;
use crate::collision::aabb::Aabb;
use crate::vec2::Vec2;

verus! {

/// A collision shape. Stored shapes are centred on the origin at unit size;
/// an entity's instance of a shape is obtained with [`CollisionMesh::transform`].
#[derive(Clone, Copy, Debug, PartialEq, Eq, Structural)]
pub struct CollisionMesh {
    pub aabb: Aabb,
}

impl CollisionMesh {
    /// The shape scaled by the fixed-point factor `scaling` and then moved
    /// by `translation`.
    pub open spec fn transform_spec(self, translation: Vec2, scaling: i32) -> CollisionMesh {
        CollisionMesh { aabb: self.aabb.scale_spec(scaling).translate_spec(translation) }
    }

    pub fn new(aabb: Aabb) -> (mesh: CollisionMesh)
        ensures
            mesh.aabb == aabb,
    {
        CollisionMesh { aabb }
    }

    /// Whether the two shapes overlap.
    pub fn is_colliding(&self, mesh: &CollisionMesh) -> (hit: bool)
        ensures
            hit == self.aabb.overlaps(mesh.aabb),
    {
        self.aabb.is_colliding(&mesh.aabb)
    }

    /// The shape at the given size and place. The shape itself is left as
    /// it is.
    pub fn transform(&self, translation: Vec2, scaling: i32) -> (instance: CollisionMesh)
        ensures
            instance == self.transform_spec(translation, scaling),
    {
        CollisionMesh { aabb: self.aabb.scale(scaling).translate(translation) }
    }

    /// The shortest axis-aligned move of `self` out of `mesh`.
    pub fn closest_intersection_vector(&self, mesh: &CollisionMesh) -> (vector: Vec2)
        ensures
            vector == self.aabb.separating_vector(mesh.aabb),
    {
        self.aabb.closest_intersection_vector(&mesh.aabb)
    }
}

/// The stable name of a shape held by a [`CollisionMeshManager`].
#[derive(Clone, Copy, Debug, PartialEq, Eq, Hash, Structural)]
pub struct CollisionMeshIdentifier {
    index: usize,
}

impl CollisionMeshIdentifier {
    /// The position of the named shape in the manager's sequence.
    pub closed spec fn position(self) -> int {
        self.index as int
    }
}

/// An append-only arena of shapes. A shape is never changed or removed once
/// it has been added, so an identifier stays valid for the arena's lifetime.
pub struct CollisionMeshManager {
    meshes: Vec<CollisionMesh>,
}

impl View for CollisionMeshManager {
    type V = Seq<CollisionMesh>;

    closed spec fn view(&self) -> Seq<CollisionMesh> {
        self.meshes@
    }
}

impl CollisionMeshManager {
    /// `identifier` names a shape of this arena.
    pub open spec fn contains(&self, identifier: CollisionMeshIdentifier) -> bool {
        0 <= identifier.position() < self@.len()
    }

    /// An arena without shapes.
    pub fn new() -> (manager: CollisionMeshManager)
        ensures
            manager@ == Seq::<CollisionMesh>::empty(),
    {
        CollisionMeshManager { meshes: Vec::new() }
    }

    /// Adds a shape behind all others and returns its name.
    pub fn add_collision_mesh(&mut self, mesh: CollisionMesh) -> (identifier:
        CollisionMeshIdentifier)
        ensures
            final(self)@ == old(self)@.push(mesh),
            identifier.position() == old(self)@.len(),
    {
        let identifier = CollisionMeshIdentifier { index: self.meshes.len() };
        self.meshes.push(mesh);
        identifier
    }

    /// Whether `identifier` names a shape of this arena.
    pub fn has_collision_mesh(&self, identifier: CollisionMeshIdentifier) -> (known: bool)
        ensures
            known == self.contains(identifier),
    {
        identifier.index < self.meshes.len()
    }

    /// The named shape at the given place and size. The stored shape is left
    /// as it is.
    pub fn get_collision_mesh(
        &self,
        identifier: CollisionMeshIdentifier,
        translation: Vec2,
        scaling: i32,
    ) -> (instance: CollisionMesh)
        requires
            self.contains(identifier),
        ensures
            instance == self@[identifier.position()].transform_spec(translation, scaling),
    {
        self.meshes[identifier.index].transform(translation, scaling)
    }
}

/// Adding a shape keeps every earlier identifier valid and naming the same
/// shape.
pub proof fn lemma_identifiers_are_stable(
    before: Seq<CollisionMesh>,
    mesh: CollisionMesh,
    identifier: CollisionMeshIdentifier,
)
    requires
        0 <= identifier.position() < before.len(),
    ensures
        identifier.position() < before.push(mesh).len(),
        before.push(mesh)[identifier.position()] == before[identifier.position()],
{
}

} // verus!
