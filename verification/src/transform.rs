//! Entity placement components: a world-space transform, a parent-relative
//! transform, and the parent/child links between entities.

use vstd::prelude::*;
use crate::geom2::Vector2i;

verus! {

/// World-space placement of an entity: translation and scale in
/// milli-units, rotation in milli-turns.
#[derive(Debug, Clone, Copy, PartialEq, Eq, Structural)]
pub struct Transform {
    pub translation: Vector2i,
    pub scale: Vector2i,
    pub rotation: i64,
    /// Set when the transform has changed since it was last consumed.
    pub dirty: bool,
}

impl Transform {
    /// Move by `translation` and mark the transform dirty.
    pub fn translate(&mut self, translation: Vector2i)
        requires
            i64::MIN <= old(self).translation.x + translation.x <= i64::MAX,
            i64::MIN <= old(self).translation.y + translation.y <= i64::MAX,
        ensures
            *final(self) == (Transform {
                translation: Vector2i {
                    x: (old(self).translation.x + translation.x) as i64,
                    y: (old(self).translation.y + translation.y) as i64,
                },
                dirty: true,
                ..*old(self)
            }),
    {
        self.translation = Vector2i {
            x: self.translation.x + translation.x,
            y: self.translation.y + translation.y,
        };
        self.dirty = true;
    }
}

impl Default for Transform {
    fn default() -> (t: Transform)
        ensures
            t == (Transform {
                translation: Vector2i { x: 0, y: 0 },
                scale: Vector2i { x: 0, y: 0 },
                rotation: 0,
                dirty: false,
            }),
    {
        Transform {
            translation: Vector2i { x: 0, y: 0 },
            scale: Vector2i { x: 0, y: 0 },
            rotation: 0,
            dirty: false,
        }
    }
}

/// Placement relative to the parent entity's transform.
#[derive(Debug, Clone, Copy, PartialEq, Eq, Structural)]
pub struct LocalTransform {
    pub translation: Vector2i,
    pub scale: Vector2i,
    pub rotation: i64,
    pub dirty: bool,
}

impl LocalTransform {
    pub fn new(translation: Vector2i, rotation: i64, scale: Vector2i) -> (t: LocalTransform)
        ensures
            t == (LocalTransform { translation, scale, rotation, dirty: true }),
    {
        LocalTransform { translation, scale, rotation, dirty: true }
    }
}

impl From<Transform> for LocalTransform {
    fn from(t: Transform) -> (r: LocalTransform) {
        LocalTransform {
            translation: t.translation,
            scale: t.scale,
            rotation: t.rotation,
            dirty: true,
        }
    }
}

impl vstd::std_specs::convert::FromSpecImpl<Transform> for LocalTransform {
    open spec fn obeys_from_spec() -> bool {
        true
    }

    open spec fn from_spec(t: Transform) -> LocalTransform {
        LocalTransform {
            translation: t.translation,
            scale: t.scale,
            rotation: t.rotation,
            dirty: true,
        }
    }
}

/// The default dirtiness of a freshly loaded transform: dirty, so the first
/// tick propagates it.
pub fn default_dirty() -> (b: bool)
    ensures
        b,
{
    true
}

/// Link to the owning parent entity, by its handle bits.
#[derive(Debug, Clone, Copy, PartialEq, Eq, Structural)]
pub struct HasParent {
    pub entity: u64,
}

/// Links to the owned child entities, by their handle bits.
#[derive(Debug, Clone)]
pub struct HasChildren {
    pub children: Vec<u64>,
}

} // verus!
