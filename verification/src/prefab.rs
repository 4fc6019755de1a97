//! Spawnable entity descriptions: a closed set of optional components that
//! a driver attaches to a freshly spawned entity, and the empty prefab
//! placeholder.

use vstd::prelude::*;
use crate::animation::AnimationController;
use crate::mesh::MeshRender;
use crate::particle::ParticleEmitter;
use crate::physics::RigidBodyComponent;
use crate::transform::{LocalTransform, Transform};

verus! {

/// A prefab that spawns nothing; stands in where an asset slot needs a
/// default value.
#[derive(Debug, Clone, Copy, PartialEq, Eq, Structural)]
pub struct EmptyPrefab;

/// A saved entity: for each component of the closed component set, an
/// optional value. The driver spawns an entity and attaches exactly the
/// components that are present; when both a transform and a rigid-body
/// description are present it also registers the body with the collision
/// world, stamping the new entity's bits for correlation.
#[derive(Debug)]
pub struct SerializedEntity {
    pub transform: Option<Transform>,
    pub local_transform: Option<LocalTransform>,
    pub rigid_body: Option<RigidBodyComponent>,
    pub mesh_render: Option<MeshRender>,
    pub animations: Option<AnimationController>,
    pub emitter: Option<ParticleEmitter>,
}

impl Default for SerializedEntity {
    fn default() -> (e: SerializedEntity)
        ensures
            e.transform is None,
            e.local_transform is None,
            e.rigid_body is None,
            e.mesh_render is None,
            e.animations is None,
            e.emitter is None,
    {
        SerializedEntity {
            transform: None,
            local_transform: None,
            rigid_body: None,
            mesh_render: None,
            animations: None,
            emitter: None,
        }
    }
}

} // verus!
