//! Plain data shared with native scripts: colours, physics handles and events.
use vstd::prelude::*;

verus! {

/// An 8-bit RGBA colour.
#[derive(Debug, Clone, Copy, PartialEq, Eq, Structural)]
pub struct NColour {
    pub r: u8,
    pub g: u8,
    pub b: u8,
    pub a: u8,
}

/// A generational arena index, split into its two halves.
#[derive(Debug, Clone, Copy, PartialEq, Eq, Structural)]
pub struct IndexNative {
    pub index: u32,
    pub generation: u32,
}

/// A collider, with the entity that owns it.
#[derive(Debug, Clone, Copy, PartialEq, Eq, Structural)]
pub struct NCollider {
    pub index: IndexNative,
    pub entity_id: u64,
    pub id: u32,
}

/// A rigid body, with the entity that owns it.
#[derive(Debug, Clone, Copy, PartialEq, Eq, Structural)]
pub struct RigidBodyContext {
    pub index: IndexNative,
    pub entity_id: u64,
}

/// How a shape cast ended.
#[derive(Debug, Clone, Copy, PartialEq, Eq, Structural)]
pub enum NShapeCastStatus {
    OutOfIterations,
    Converged,
    Failed,
    PenetratingOrWithinTargetDist,
}

/// Whether two colliders started or stopped touching.
#[derive(Debug, Clone, Copy, PartialEq, Eq, Structural)]
pub enum CollisionEventType {
    Started,
    Stopped,
}

/// A collision between two colliders.
#[derive(Debug, Clone, Copy, PartialEq, Eq, Structural)]
pub struct CollisionEvent {
    pub event_type: CollisionEventType,
    pub collider1: NCollider,
    pub collider2: NCollider,
    pub flags: u64,
}

impl CollisionEvent {
    /// The entity owning the first collider.
    pub fn collider1_entity_id(&self) -> (r: u64)
        ensures
            r == self.collider1.entity_id,
    {
        self.collider1.entity_id
    }

    /// The entity owning the second collider.
    pub fn collider2_entity_id(&self) -> (r: u64)
        ensures
            r == self.collider2.entity_id,
    {
        self.collider2.entity_id
    }
}

} // verus!
