pub mod aabb;
pub mod collision_mesh;
pub mod triangle;
pub mod world_collision_mesh;

pub use aabb::Aabb;
pub use collision_mesh::{CollisionMesh, CollisionMeshIdentifier, CollisionMeshManager};
pub use triangle::Triangle;
pub use world_collision_mesh::WorldCollisionMesh;
