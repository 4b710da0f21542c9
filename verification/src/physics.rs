//! Physics data shared with the engine: body kinds and collision events.
use vstd::prelude::*;

verus! {

#[verifier::external_type_specification]
#[verifier::external_body]
pub struct ExEntity(hecs::Entity);

/// Rigid body type.
#[derive(Debug, Clone, Copy, PartialEq, Eq, Structural)]
pub enum RigidBodyType {
    Dynamic,
    Kinematic,
    Static,
}

/// Whether a collision started or stopped this step.
#[derive(Debug, Clone, Copy, PartialEq, Eq, Structural)]
pub enum CollisionEventType {
    Started,
    Stopped,
}

/// Collision event produced by the physics step, mapped back to ECS entities.
#[derive(Debug, Clone, Copy)]
pub struct CollisionEvent {
    pub entity_a: hecs::Entity,
    pub entity_b: hecs::Entity,
    pub event_type: CollisionEventType,
}

} // verus!
