//! The rigid-body engine as this crate sees it.
//!
//! The engine's collections are carried as they are. Two things are said of them:
//! which colliders without a parent body a collider set holds, each with its shape
//! and translation, and which bodies a body set holds. Every function below that
//! has no body of its own to verify wraps engine calls and states what they do to
//! those two.
use vstd::prelude::*;
use bevy_rapier2d::math::Real;
use bevy_rapier2d::rapier::dynamics;
use bevy_rapier2d::rapier::dynamics::{
    CCDSolver, ImpulseJointSet, IntegrationParameters, IslandManager, MultibodyJointSet,
    RigidBodyBuilder, RigidBodyHandle, RigidBodySet,
};
use bevy_rapier2d::rapier::geometry::{
    BroadPhase, ColliderBuilder, ColliderHandle, ColliderSet, NarrowPhase, SharedShape,
};
use bevy_rapier2d::rapier::na::Vector2;
use bevy_rapier2d::rapier::pipeline::PhysicsPipeline;
use crate::shape::CoefficientCombineRule;
use crate::units::Point;

verus! {

/// The engine's set of colliders.
#[verifier::external_type_specification]
#[verifier::external_body]
pub struct ExColliderSet(ColliderSet);

/// The engine's set of rigid bodies.
#[verifier::external_type_specification]
#[verifier::external_body]
pub struct ExRigidBodySet(RigidBodySet);

/// The engine's set of impulse joints; the shadow world has none.
#[verifier::external_type_specification]
#[verifier::external_body]
pub struct ExImpulseJointSet(ImpulseJointSet);

/// The engine's set of multibody joints; the shadow world has none.
#[verifier::external_type_specification]
#[verifier::external_body]
pub struct ExMultibodyJointSet(MultibodyJointSet);

/// The engine's pipeline, which runs a step.
#[verifier::external_type_specification]
#[verifier::external_body]
pub struct ExPhysicsPipeline(PhysicsPipeline);

/// The engine's record of which bodies are awake.
#[verifier::external_type_specification]
#[verifier::external_body]
pub struct ExIslandManager(IslandManager);

/// The engine's broad phase, which finds pairs that may touch.
#[verifier::external_type_specification]
#[verifier::external_body]
pub struct ExBroadPhase(BroadPhase);

/// The engine's narrow phase, which finds the contacts of those pairs.
#[verifier::external_type_specification]
#[verifier::external_body]
pub struct ExNarrowPhase(NarrowPhase);

/// The engine's solver of continuous collision detection.
#[verifier::external_type_specification]
#[verifier::external_body]
pub struct ExCCDSolver(CCDSolver);

/// The engine's name for a collider: a slot and the generation of its tenant.
#[derive(Clone, Copy, Debug, PartialEq, Eq, Structural)]
pub struct ColliderId {
    pub index: u32,
    pub generation: u32,
}

/// The engine's name for a rigid body: a slot and the generation of its tenant.
#[derive(Clone, Copy, Debug, PartialEq, Eq, Structural)]
pub struct BodyId {
    pub index: u32,
    pub generation: u32,
}

/// A collider that is attached to no body: it never moves by itself.
pub struct Fixture {
    /// Its shape, in physics units.
    pub shape: SharedShape,
    /// Its translation, in physics units.
    pub translation: Point,
}

/// The first contact pair that the engine lists for a collider.
#[derive(Clone, Copy, Debug, PartialEq, Eq)]
pub struct Contact {
    /// One collider of the pair.
    pub collider1: ColliderId,
    /// The other collider of the pair.
    pub collider2: ColliderId,
    /// How many contact points the pair's first manifold has, if it has a manifold.
    pub first_manifold_points: Option<usize>,
}

/// The colliders of the set that have no parent body.
pub uninterp spec fn fixed_colliders(set: ColliderSet) -> Map<ColliderId, Fixture>;

/// The bodies of the set.
pub uninterp spec fn bodies(set: RigidBodySet) -> Set<BodyId>;

/// `ColliderSet::new` makes a set without colliders.
pub assume_specification[ ColliderSet::new ]() -> (r: ColliderSet)
    ensures
        fixed_colliders(r).dom() == Set::<ColliderId>::empty(),
;

/// `RigidBodySet::new` makes a set without bodies.
pub assume_specification[ RigidBodySet::new ]() -> (r: RigidBodySet)
    ensures
        bodies(r) == Set::<BodyId>::empty(),
;

/// `ImpulseJointSet::new`. Nothing is claimed of the new set of impulse joints.
pub assume_specification[ ImpulseJointSet::new ]() -> (r: ImpulseJointSet);

/// `MultibodyJointSet::new`. Nothing is claimed of the new set of multibody joints.
pub assume_specification[ MultibodyJointSet::new ]() -> (r: MultibodyJointSet);

/// `PhysicsPipeline::new`. Nothing is claimed of the new pipeline.
pub assume_specification[ PhysicsPipeline::new ]() -> (r: PhysicsPipeline);

/// `IslandManager::new`. Nothing is claimed of the new island manager.
pub assume_specification[ IslandManager::new ]() -> (r: IslandManager);

/// `BroadPhase::new`. Nothing is claimed of the new broad phase.
pub assume_specification[ BroadPhase::new ]() -> (r: BroadPhase);

/// `NarrowPhase::new`. Nothing is claimed of the new narrow phase.
pub assume_specification[ NarrowPhase::new ]() -> (r: NarrowPhase);

/// `CCDSolver::new`. Nothing is claimed of the new solver of continuous collision detection.
pub assume_specification[ CCDSolver::new ]() -> (r: CCDSolver);

/// `ColliderBuilder::new(shape).translation(..).build()` handed to
/// `ColliderSet::insert`. Claimed: the set gains one collider without a parent, of
/// that shape and translation, under a handle that named no such collider before;
/// the others stay as they were.
#[verifier::external_body]
pub(crate) fn insert_fixed(set: &mut ColliderSet, shape: SharedShape, translation: Point) -> (id:
    ColliderId)
    ensures
        !fixed_colliders(*old(set)).contains_key(id),
        fixed_colliders(*final(set)) == fixed_colliders(*old(set)).insert(
            id,
            Fixture { shape, translation },
        ),
{
    let at = Vector2::new(Real::from_bits(translation.x), Real::from_bits(translation.y));
    let handle = set.insert(ColliderBuilder::new(shape).translation(at).build());
    let (index, generation) = handle.into_raw_parts();
    ColliderId { index, generation }
}

/// `Collider::set_shape` on what `ColliderSet::get_mut` finds. Claimed: a collider
/// without a parent that the handle names gets the shape and keeps its
/// translation; nothing else changes, and an unknown handle changes nothing.
#[verifier::external_body]
pub(crate) fn set_shape(set: &mut ColliderSet, id: ColliderId, shape: SharedShape)
    ensures
        fixed_colliders(*final(set)) == (if fixed_colliders(*old(set)).contains_key(id) {
            fixed_colliders(*old(set)).insert(
                id,
                Fixture { shape, translation: fixed_colliders(*old(set))[id].translation },
            )
        } else {
            fixed_colliders(*old(set))
        }),
{
    if let Some(collider) = set.get_mut(ColliderHandle::from_raw_parts(id.index, id.generation)) {
        collider.set_shape(shape);
    }
}

/// `Collider::set_translation` on what `ColliderSet::get_mut` finds. Claimed: a
/// collider without a parent that the handle names gets the translation and keeps
/// its shape; nothing else changes, and an unknown handle changes nothing.
#[verifier::external_body]
pub(crate) fn set_translation(set: &mut ColliderSet, id: ColliderId, translation: Point)
    ensures
        fixed_colliders(*final(set)) == (if fixed_colliders(*old(set)).contains_key(id) {
            fixed_colliders(*old(set)).insert(
                id,
                Fixture { shape: fixed_colliders(*old(set))[id].shape, translation },
            )
        } else {
            fixed_colliders(*old(set))
        }),
{
    let to = Vector2::new(Real::from_bits(translation.x), Real::from_bits(translation.y));
    if let Some(collider) = set.get_mut(ColliderHandle::from_raw_parts(id.index, id.generation)) {
        collider.set_translation(to);
    }
}

/// `ColliderSet::remove`, waking the parent up. Claimed: the collider that the
/// handle names leaves the set, the others stay as they were, and no body is added
/// or removed.
#[verifier::external_body]
pub(crate) fn remove_collider(
    set: &mut ColliderSet,
    islands: &mut IslandManager,
    body_set: &mut RigidBodySet,
    id: ColliderId,
)
    ensures
        fixed_colliders(*final(set)) == fixed_colliders(*old(set)).remove(id),
        bodies(*final(body_set)) == bodies(*old(body_set)),
{
    let handle = ColliderHandle::from_raw_parts(id.index, id.generation);
    set.remove(handle, islands, body_set, true);
}

/// `RigidBodyBuilder::dynamic().translation(..).linvel(..).build()` handed to
/// `RigidBodySet::insert`. Claimed: the set gains one body, under a handle that
/// named none before.
#[verifier::external_body]
pub(crate) fn insert_dynamic_body(body_set: &mut RigidBodySet, translation: Point, linvel: Point) -> (id:
    BodyId)
    ensures
        !bodies(*old(body_set)).contains(id),
        bodies(*final(body_set)) == bodies(*old(body_set)).insert(id),
{
    let at = Vector2::new(Real::from_bits(translation.x), Real::from_bits(translation.y));
    let velocity = Vector2::new(Real::from_bits(linvel.x), Real::from_bits(linvel.y));
    let body = RigidBodyBuilder::dynamic().translation(at).linvel(velocity).build();
    let (index, generation) = body_set.insert(body).into_raw_parts();
    BodyId { index, generation }
}

/// `ColliderBuilder::new(shape).restitution(..).restitution_combine_rule(..).build()`
/// handed to `ColliderSet::insert_with_parent`, which panics where the set lacks
/// the parent. Claimed: the new collider has a parent, so the colliders without one
/// stay as they were and its handle names none of them; no body is added or
/// removed.
#[verifier::external_body]
pub(crate) fn attach_collider(
    set: &mut ColliderSet,
    body_set: &mut RigidBodySet,
    parent: BodyId,
    shape: SharedShape,
    restitution: u32,
    rule: CoefficientCombineRule,
) -> (id: ColliderId)
    requires
        bodies(*old(body_set)).contains(parent),
    ensures
        !fixed_colliders(*old(set)).contains_key(id),
        fixed_colliders(*final(set)) == fixed_colliders(*old(set)),
        bodies(*final(body_set)) == bodies(*old(body_set)),
{
    let by = match rule {
        CoefficientCombineRule::Average => dynamics::CoefficientCombineRule::Average,
        CoefficientCombineRule::Min => dynamics::CoefficientCombineRule::Min,
        CoefficientCombineRule::Multiply => dynamics::CoefficientCombineRule::Multiply,
        CoefficientCombineRule::Max => dynamics::CoefficientCombineRule::Max,
    };
    let bounce = Real::from_bits(restitution);
    let made = ColliderBuilder::new(shape).restitution(bounce).restitution_combine_rule(by).build();
    let parent = RigidBodyHandle::from_raw_parts(parent.index, parent.generation);
    let (index, generation) = set.insert_with_parent(made, parent, body_set).into_raw_parts();
    ColliderId { index, generation }
}

/// `PhysicsPipeline::step` with the engine's default integration parameters, whose
/// time step is a sixtieth of a second, no query pipeline, no hooks and no event
/// handler. Claimed: a step adds and removes neither body nor collider, and leaves
/// the shape and translation of every collider without a parent alone.
#[verifier::external_body]
pub(crate) fn step(
    pipeline: &mut PhysicsPipeline,
    gravity: Point,
    islands: &mut IslandManager,
    broad_phase: &mut BroadPhase,
    narrow_phase: &mut NarrowPhase,
    body_set: &mut RigidBodySet,
    set: &mut ColliderSet,
    impulse_joints: &mut ImpulseJointSet,
    multibody_joints: &mut MultibodyJointSet,
    ccd_solver: &mut CCDSolver,
)
    ensures
        fixed_colliders(*final(set)) == fixed_colliders(*old(set)),
        bodies(*final(body_set)) == bodies(*old(body_set)),
{
    let pull = Vector2::new(Real::from_bits(gravity.x), Real::from_bits(gravity.y));
    let parameters = IntegrationParameters::default();
    pipeline.step(
        &pull, &parameters, islands, broad_phase, narrow_phase, body_set, set,
        impulse_joints, multibody_joints, ccd_solver, None, &(), &(),
    );
}

/// `RigidBody::translation` of the body that indexing the set by the handle gives;
/// the indexing panics where the set lacks the body. Nothing is claimed of the
/// translation.
#[verifier::external_body]
pub(crate) fn body_translation(body_set: &RigidBodySet, id: BodyId) -> (r: Point)
    requires
        bodies(*body_set).contains(id),
{
    let at = body_set[RigidBodyHandle::from_raw_parts(id.index, id.generation)].translation();
    Point { x: at.x.to_bits(), y: at.y.to_bits() }
}

/// The first pair of `NarrowPhase::contacts_with`, if there is one. Nothing is
/// claimed of it.
#[verifier::external_body]
pub(crate) fn first_contact(narrow_phase: &NarrowPhase, id: ColliderId) -> (r: Option<Contact>) {
    let handle = ColliderHandle::from_raw_parts(id.index, id.generation);
    let pair = narrow_phase.contacts_with(handle).next()?;
    let (index1, generation1) = pair.collider1.into_raw_parts();
    let (index2, generation2) = pair.collider2.into_raw_parts();
    Some(Contact {
        collider1: ColliderId { index: index1, generation: generation1 },
        collider2: ColliderId { index: index2, generation: generation2 },
        first_manifold_points: pair.manifolds.first().map(|manifold| manifold.points.len()),
    })
}

/// `RigidBodySet::remove`, taking the attached colliders along. Claimed: the body
/// that the handle names leaves the set, the others stay; the colliders without a
/// parent stay as they were.
#[verifier::external_body]
pub(crate) fn remove_body(
    body_set: &mut RigidBodySet,
    islands: &mut IslandManager,
    set: &mut ColliderSet,
    impulse_joints: &mut ImpulseJointSet,
    multibody_joints: &mut MultibodyJointSet,
    id: BodyId,
)
    ensures
        bodies(*final(body_set)) == bodies(*old(body_set)).remove(id),
        fixed_colliders(*final(set)) == fixed_colliders(*old(set)),
{
    let handle = RigidBodyHandle::from_raw_parts(id.index, id.generation);
    body_set.remove(handle, islands, set, impulse_joints, multibody_joints, true);
}

/// `RigidBodySet::len`: how many bodies the set holds.
#[verifier::external_body]
pub(crate) fn body_count(body_set: &RigidBodySet) -> (r: usize)
    ensures
        r == bodies(*body_set).len(),
{
    body_set.len()
}

} // verus!
