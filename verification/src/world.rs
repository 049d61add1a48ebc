//! The shadow world: a private copy of the level's static colliders, in which a
//! launch can be flown ahead of time without touching the live world.
use vstd::prelude::*;
use bevy_rapier2d::rapier::dynamics::{
    CCDSolver, ImpulseJointSet, IslandManager, MultibodyJointSet, RigidBodySet,
};
use bevy_rapier2d::rapier::geometry::{BroadPhase, ColliderSet, NarrowPhase, SharedShape};
use bevy_rapier2d::rapier::pipeline::PhysicsPipeline;
use crate::engine::{
    attach_collider, bodies, body_count, body_translation, first_contact, fixed_colliders,
    insert_dynamic_body, insert_fixed, remove_body, remove_collider, set_shape, set_translation,
    step, BodyId, ColliderId, Fixture,
};
use crate::shape::{scale_shape, scaled_shape, CoefficientCombineRule, Restitution, Shape};
use crate::store::{entries, EntityMap};
use crate::trace::{lemma_trace_inv, trace_inv, trace_of, Observation, TrajectoryRecorder};
use crate::units::{physics_number, physics_point, Point, Scale, ONE};

verus! {

/// The engine's shape of a live shape, in physics units.
pub open spec fn mirrored_shape(shape: Shape, scale: u32, subdivisions: u32) -> SharedShape {
    scaled_shape(shape, physics_number(ONE, scale), subdivisions)
}

/// The mirror with one more entity; an entity that is mirrored already stays as
/// it is.
pub open spec fn with_added(
    mirror: Map<u64, Fixture>,
    scale: u32,
    subdivisions: u32,
    entity: u64,
    shape: Shape,
    translation: Point,
) -> Map<u64, Fixture> {
    if mirror.contains_key(entity) {
        mirror
    } else {
        mirror.insert(
            entity,
            Fixture {
                shape: mirrored_shape(shape, scale, subdivisions),
                translation: physics_point(translation, scale),
            },
        )
    }
}

/// The mirror with the shape of one entity replaced; an entity that is not
/// mirrored changes nothing.
pub open spec fn with_shape(
    mirror: Map<u64, Fixture>,
    scale: u32,
    subdivisions: u32,
    entity: u64,
    shape: Shape,
) -> Map<u64, Fixture> {
    if mirror.contains_key(entity) {
        mirror.insert(
            entity,
            Fixture {
                shape: mirrored_shape(shape, scale, subdivisions),
                translation: mirror[entity].translation,
            },
        )
    } else {
        mirror
    }
}

/// The mirror with one entity moved; an entity that is not mirrored changes
/// nothing.
pub open spec fn with_translation(
    mirror: Map<u64, Fixture>,
    scale: u32,
    entity: u64,
    translation: Point,
) -> Map<u64, Fixture> {
    if mirror.contains_key(entity) {
        mirror.insert(
            entity,
            Fixture {
                shape: mirror[entity].shape,
                translation: physics_point(translation, scale),
            },
        )
    } else {
        mirror
    }
}

/// The mirror without one entity; an entity that is not mirrored changes nothing.
pub open spec fn without(mirror: Map<u64, Fixture>, entity: u64) -> Map<u64, Fixture> {
    mirror.remove(entity)
}

/// Removing an entity a second time changes nothing.
pub proof fn lemma_remove_idempotent(mirror: Map<u64, Fixture>, entity: u64)
    ensures
        without(without(mirror, entity), entity) == without(mirror, entity),
        !without(mirror, entity).contains_key(entity),
{
    assert(without(without(mirror, entity), entity) =~= without(mirror, entity));
}

/// The positions and contact points are those of a flight of at most `max_steps`
/// steps that went on until its steps were used up or `max_collisions` obstacles
/// were recorded.
pub open spec fn is_flight(
    positions: Seq<Point>,
    contact_points: Seq<Point>,
    max_collisions: nat,
    max_steps: nat,
) -> bool {
    exists|ball: ColliderId, seen: Seq<Observation>|
        {
            let trace = #[trigger] trace_of(max_collisions, ball, seen);
            &&& seen.len() == positions.len()
            &&& seen.len() <= max_steps
            &&& trace.positions == positions
            &&& trace.contact_points == contact_points
            &&& (seen.len() == max_steps || trace.remaining == 0)
        }
}

/// The shadow world.
pub struct TrajectoryWorld {
    scale: Scale,
    scaled_shape_subdivision: u32,
    colliders: EntityMap,
    collider_set: ColliderSet,
    rigid_body_set: RigidBodySet,
    impulse_joint_set: ImpulseJointSet,
    multibody_joint_set: MultibodyJointSet,
    physics_pipeline: PhysicsPipeline,
    island_manager: IslandManager,
    broad_phase: BroadPhase,
    narrow_phase: NarrowPhase,
    ccd_solver: CCDSolver,
    gravity: Point,
}

impl TrajectoryWorld {
    /// The factor between render units and physics units.
    pub closed spec fn scale(&self) -> u32 {
        self.scale@
    }

    /// Into how many pieces a curved outline is cut where a shape is scaled.
    pub closed spec fn subdivisions(&self) -> u32 {
        self.scaled_shape_subdivision
    }

    /// The gravity, in physics units.
    pub closed spec fn gravity(&self) -> Point {
        self.gravity
    }

    /// The mirror: each mirrored live entity with its static collider.
    pub closed spec fn mirror(&self) -> Map<u64, Fixture> {
        Map::new(
            |entity: u64| entries(self.colliders).contains_key(entity),
            |entity: u64| fixed_colliders(self.collider_set)[entries(self.colliders)[entity]],
        )
    }

    /// The rigid bodies of the world.
    pub closed spec fn bodies(&self) -> Set<BodyId> {
        bodies(self.rigid_body_set)
    }

    /// Every mirrored entity has a static collider of its own, the world holds no
    /// other static collider, and its entities and bodies can be counted.
    pub closed spec fn wf(&self) -> bool {
        let held = entries(self.colliders);
        let fixed = fixed_colliders(self.collider_set);
        &&& held.dom().finite()
        &&& bodies(self.rigid_body_set).finite()
        &&& forall|entity: u64| #[trigger]
            held.contains_key(entity) ==> fixed.contains_key(held[entity])
        &&& forall|a: u64, b: u64|
            #![trigger held[a], held[b]]
            held.contains_key(a) && held.contains_key(b) && a != b ==> held[a] != held[b]
        &&& forall|id: ColliderId| #[trigger]
            fixed.contains_key(id) ==> exists|entity: u64| #[trigger]
                held.contains_key(entity) && held[entity] == id
    }

    /// The scale, the subdivisions and the gravity of two worlds are the same.
    pub open spec fn same_setup(&self, other: &TrajectoryWorld) -> bool {
        &&& self.scale() == other.scale()
        &&& self.subdivisions() == other.subdivisions()
        &&& self.gravity() == other.gravity()
    }

    /// A world that mirrors nothing yet and holds no body; `gravity` is in physics
    /// units.
    pub fn new(scale: Scale, scaled_shape_subdivision: u32, gravity: Point) -> (r: TrajectoryWorld)
        ensures
            r.wf(),
            r.scale() == scale@,
            r.subdivisions() == scaled_shape_subdivision,
            r.gravity() == gravity,
            r.mirror() == Map::<u64, Fixture>::empty(),
            r.bodies() == Set::<BodyId>::empty(),
    {
        let r = TrajectoryWorld {
            scale,
            scaled_shape_subdivision,
            colliders: EntityMap::new(),
            collider_set: ColliderSet::new(),
            rigid_body_set: RigidBodySet::new(),
            physics_pipeline: PhysicsPipeline::new(),
            island_manager: IslandManager::new(),
            broad_phase: BroadPhase::new(),
            narrow_phase: NarrowPhase::new(),
            impulse_joint_set: ImpulseJointSet::new(),
            multibody_joint_set: MultibodyJointSet::new(),
            ccd_solver: CCDSolver::new(),
            gravity,
        };
        assert(r.mirror() =~= Map::<u64, Fixture>::empty());
        r
    }

    /// Whether the entity is mirrored.
    pub fn contains(&self, entity: u64) -> (r: bool)
        ensures
            r == self.mirror().contains_key(entity),
    {
        self.colliders.get(entity).is_some()
    }

    /// How many entities are mirrored.
    pub fn len(&self) -> (r: usize)
        requires
            self.wf(),
        ensures
            r == self.mirror().dom().len(),
            self.mirror().dom().finite(),
    {
        assert(self.mirror().dom() =~= entries(self.colliders).dom());
        self.colliders.len()
    }

    /// How many rigid bodies the world holds.
    pub fn body_count(&self) -> (r: usize)
        requires
            self.wf(),
        ensures
            r == self.bodies().len(),
            self.bodies().finite(),
    {
        body_count(&self.rigid_body_set)
    }

    /// Removes the entity's collider from the mirror; an entity that is not
    /// mirrored changes nothing.
    pub fn remove_collider(&mut self, entity: u64)
        requires
            old(self).wf(),
        ensures
            final(self).wf(),
            final(self).same_setup(old(self)),
            final(self).bodies() == old(self).bodies(),
            final(self).mirror() == without(old(self).mirror(), entity),
    {
        match self.colliders.get(entity) {
            Some(id) => {
                remove_collider(
                    &mut self.collider_set,
                    &mut self.island_manager,
                    &mut self.rigid_body_set,
                    id,
                );
            },
            None => {},
        }
        self.colliders.remove(entity);
        proof {
            let held = entries(self.colliders);
            let fixed = fixed_colliders(self.collider_set);
            let held0 = entries(old(self).colliders);
            let fixed0 = fixed_colliders(old(self).collider_set);
            assert forall|id: ColliderId| #[trigger] fixed.contains_key(id) implies exists|
                other: u64,
            | #[trigger]
                held.contains_key(other) && held[other] == id by {
                assert(fixed0.contains_key(id));
                let other = choose|other: u64| #[trigger]
                    held0.contains_key(other) && held0[other] == id;
                assert(held.contains_key(other) && held[other] == id);
            }
            assert forall|other: u64| #[trigger] held.contains_key(other) implies fixed.contains_key(
                held[other],
            ) by {
                assert(held0.contains_key(other));
                if held0.contains_key(entity) {
                    assert(held0[other] != held0[entity]);
                }
            }
            assert(final(self).mirror() =~= without(old(self).mirror(), entity)) by {
                assert forall|other: u64| #[trigger] held.contains_key(other) implies fixed[held[other]]
                    == fixed0[held0[other]] by {
                    assert(held0.contains_key(other));
                    if held0.contains_key(entity) {
                        assert(held0[other] != held0[entity]);
                    }
                }
            }
        }
    }

    /// Mirrors a live entity's collider as a static collider; an entity that is
    /// mirrored already changes nothing.
    pub fn add_collider(&mut self, entity: u64, shape: Shape, translation: Point)
        requires
            old(self).wf(),
            shape.wf(),
        ensures
            final(self).wf(),
            final(self).same_setup(old(self)),
            final(self).bodies() == old(self).bodies(),
            final(self).mirror() == with_added(
                old(self).mirror(),
                old(self).scale(),
                old(self).subdivisions(),
                entity,
                shape,
                translation,
            ),
    {
        if self.colliders.get(entity).is_some() {
            return ;
        }
        let scaled = scale_shape(shape, self.scale.shape_factor(), self.scaled_shape_subdivision);
        let at = self.scale.to_physics(translation);
        let id = insert_fixed(&mut self.collider_set, scaled, at);
        self.colliders.insert(entity, id);
        proof {
            let held = entries(self.colliders);
            let fixed = fixed_colliders(self.collider_set);
            let held0 = entries(old(self).colliders);
            let fixed0 = fixed_colliders(old(self).collider_set);
            assert(held.dom() =~= held0.dom().insert(entity));
            assert forall|other: u64| held0.contains_key(other) implies #[trigger] held0[other]
                != id by {
                assert(fixed0.contains_key(held0[other]));
            }
            assert forall|a: u64, b: u64|
                #![trigger held[a], held[b]]
                held.contains_key(a) && held.contains_key(b) && a != b implies held[a]
                != held[b] by {
                if a != entity && b != entity {
                    assert(held0.contains_key(a) && held0.contains_key(b));
                    assert(held0[a] != held0[b]);
                } else if a != entity {
                    assert(held0.contains_key(a));
                    assert(held0[a] != id);
                } else {
                    assert(held0.contains_key(b));
                    assert(held0[b] != id);
                }
            }
            assert forall|h: ColliderId| #[trigger] fixed.contains_key(h) implies exists|other: u64|
             #[trigger]
                held.contains_key(other) && held[other] == h by {
                if h == id {
                    assert(held.contains_key(entity) && held[entity] == h);
                } else {
                    assert(fixed0.contains_key(h));
                    let other = choose|other: u64| #[trigger]
                        held0.contains_key(other) && held0[other] == h;
                    assert(held.contains_key(other) && held[other] == h);
                }
            }
            assert(final(self).mirror() =~= with_added(
                old(self).mirror(),
                old(self).scale(),
                old(self).subdivisions(),
                entity,
                shape,
                translation,
            )) by {
                assert forall|other: u64| held0.contains_key(other) implies fixed[held[other]]
                    == fixed0[#[trigger] held0[other]] by {
                    assert(held0[other] != id);
                }
            }
        }
    }

    /// Replaces the shape of an entity's collider; an entity that is not mirrored
    /// changes nothing.
    pub fn update_collider(&mut self, entity: u64, shape: Shape)
        requires
            old(self).wf(),
            shape.wf(),
        ensures
            final(self).wf(),
            final(self).same_setup(old(self)),
            final(self).bodies() == old(self).bodies(),
            final(self).mirror() == with_shape(
                old(self).mirror(),
                old(self).scale(),
                old(self).subdivisions(),
                entity,
                shape,
            ),
    {
        match self.colliders.get(entity) {
            Some(id) => {
                let scaled = scale_shape(
                    shape,
                    self.scale.shape_factor(),
                    self.scaled_shape_subdivision,
                );
                set_shape(&mut self.collider_set, id, scaled);
                proof {
                    assert(fixed_colliders(self.collider_set).dom() =~= fixed_colliders(
                        old(self).collider_set,
                    ).dom());
                    self.lemma_one_replaced(old(self), entity);
                }
            },
            None => {
                assert(final(self).mirror() =~= old(self).mirror());
            },
        }
    }

    /// Moves an entity's collider; an entity that is not mirrored changes nothing.
    pub fn move_collider(&mut self, entity: u64, translation: Point)
        requires
            old(self).wf(),
        ensures
            final(self).wf(),
            final(self).same_setup(old(self)),
            final(self).bodies() == old(self).bodies(),
            final(self).mirror() == with_translation(
                old(self).mirror(),
                old(self).scale(),
                entity,
                translation,
            ),
    {
        match self.colliders.get(entity) {
            Some(id) => {
                let at = self.scale.to_physics(translation);
                set_translation(&mut self.collider_set, id, at);
                proof {
                    assert(fixed_colliders(self.collider_set).dom() =~= fixed_colliders(
                        old(self).collider_set,
                    ).dom());
                    self.lemma_one_replaced(old(self), entity);
                }
            },
            None => {
                assert(final(self).mirror() =~= old(self).mirror());
            },
        }
    }

    /// Flies a launch ahead of time: a ball of the given shape and bounciness
    /// starts at `start_pos` with velocity `linvel`, both in render units, and the
    /// engine is stepped until `max_trajectory_points` steps are taken or
    /// `max_collisions` obstacles are recorded. Returns the ball's position after
    /// each step and its position at the first true contact with each obstacle, in
    /// render units. Where the ball touches an obstacle, the larger of the two
    /// restitution coefficients counts, whatever rule `restitution` names. The
    /// ball is gone from the world when the call returns.
    pub fn simulate_body_trajectory(
        &mut self,
        start_pos: Point,
        linvel: Point,
        shape: Shape,
        restitution: &Restitution,
        max_collisions: usize,
        max_trajectory_points: usize,
    ) -> (r: (Vec<Point>, Vec<Point>))
        requires
            old(self).wf(),
            shape.wf(),
            max_collisions >= 1,
            max_trajectory_points >= 1,
        ensures
            final(self).wf(),
            final(self).same_setup(old(self)),
            final(self).mirror() == old(self).mirror(),
            final(self).bodies() == old(self).bodies(),
            is_flight(r.0@, r.1@, max_collisions as nat, max_trajectory_points as nat),
            1 <= r.0@.len() <= max_trajectory_points,
            r.1@.len() <= max_collisions,
            r.1@.len() <= r.0@.len(),
            r.0@.len() < max_trajectory_points ==> r.1@.len() == max_collisions,
            r.1@.len() == max_collisions ==> r.0@.last() == r.1@.last(),
    {
        let body = insert_dynamic_body(
            &mut self.rigid_body_set,
            self.scale.to_physics(start_pos),
            self.scale.to_physics(linvel),
        );
        let ball_shape = scale_shape(
            shape,
            self.scale.shape_factor(),
            self.scaled_shape_subdivision,
        );
        let ball = attach_collider(
            &mut self.collider_set,
            &mut self.rigid_body_set,
            body,
            ball_shape,
            restitution.coefficient,
            CoefficientCombineRule::Max,
        );
        let mut recorder = TrajectoryRecorder::new(ball, max_collisions);
        let ghost mut seen: Seq<Observation> = Seq::empty();
        let mut steps: usize = 0;
        let mut more = true;
        while steps < max_trajectory_points && more
            invariant
                steps <= max_trajectory_points,
                max_collisions >= 1,
                seen.len() == steps,
                recorder@.positions.len() == steps,
                recorder.wf(),
                recorder.ball() == ball,
                recorder@ == trace_of(max_collisions as nat, ball, seen),
                more == (recorder@.remaining > 0),
                self.same_setup(old(self)),
                entries(self.colliders) == entries(old(self).colliders),
                fixed_colliders(self.collider_set) == fixed_colliders(old(self).collider_set),
                bodies(self.rigid_body_set) == bodies(old(self).rigid_body_set).insert(body),
            decreases max_trajectory_points - steps,
        {
            step(
                &mut self.physics_pipeline,
                self.gravity,
                &mut self.island_manager,
                &mut self.broad_phase,
                &mut self.narrow_phase,
                &mut self.rigid_body_set,
                &mut self.collider_set,
                &mut self.impulse_joint_set,
                &mut self.multibody_joint_set,
                &mut self.ccd_solver,
            );
            let position = self.scale.to_render(body_translation(&self.rigid_body_set, body));
            let contact = first_contact(&self.narrow_phase, ball);
            let observation = Observation { position, contact };
            more = recorder.record(observation);
            proof {
                assert(seen.push(observation).drop_last() =~= seen);
                seen = seen.push(observation);
            }
            steps = steps + 1;
        }
        remove_body(
            &mut self.rigid_body_set,
            &mut self.island_manager,
            &mut self.collider_set,
            &mut self.impulse_joint_set,
            &mut self.multibody_joint_set,
            body,
        );
        let r = recorder.finish();
        proof {
            lemma_trace_inv(max_collisions as nat, ball, seen);
            assert(bodies(self.rigid_body_set) =~= bodies(old(self).rigid_body_set));
            assert(final(self).mirror() =~= old(self).mirror());
            let trace = trace_of(max_collisions as nat, ball, seen);
            assert(trace_inv(max_collisions as nat, ball, seen, trace));
            assert(seen.len() == r.0@.len());
            assert(trace.positions == r.0@ && trace.contact_points == r.1@);
            assert(seen.len() == max_trajectory_points || trace.remaining == 0);
            assert(is_flight(r.0@, r.1@, max_collisions as nat, max_trajectory_points as nat));
        }
        r
    }

    /// Where one mirrored entity's collider was replaced in place, the world is
    /// sound as before and its mirror differs at that entity alone.
    proof fn lemma_one_replaced(&self, before: &TrajectoryWorld, entity: u64)
        requires
            before.wf(),
            entries(before.colliders).contains_key(entity),
            entries(self.colliders) == entries(before.colliders),
            bodies(self.rigid_body_set) == bodies(before.rigid_body_set),
            fixed_colliders(self.collider_set).dom() == fixed_colliders(before.collider_set).dom(),
            forall|id: ColliderId|
                id != entries(before.colliders)[entity] && fixed_colliders(
                    before.collider_set,
                ).contains_key(id) ==> #[trigger] fixed_colliders(self.collider_set)[id]
                    == fixed_colliders(before.collider_set)[id],
        ensures
            self.wf(),
            self.mirror() == before.mirror().insert(
                entity,
                fixed_colliders(self.collider_set)[entries(before.colliders)[entity]],
            ),
    {
        let held = entries(before.colliders);
        let fixed = fixed_colliders(self.collider_set);
        let fixed0 = fixed_colliders(before.collider_set);
        assert forall|id: ColliderId| #[trigger] fixed.contains_key(id) implies exists|other: u64|
         #[trigger]
            held.contains_key(other) && held[other] == id by {
            assert(fixed0.contains_key(id));
        }
        assert forall|other: u64| #[trigger] held.contains_key(other) implies fixed.contains_key(
            held[other],
        ) by {
            assert(fixed0.contains_key(held[other]));
        }
        assert(self.mirror() =~= before.mirror().insert(entity, fixed[held[entity]])) by {
            assert forall|other: u64| held.contains_key(other) && other != entity implies fixed[held[other]]
                == fixed0[#[trigger] held[other]] by {
                assert(held[other] != held[entity]);
                assert(fixed0.contains_key(held[other]));
            }
        }
    }
}

/// The shadow world of a game session: the live world's gravity, in render units,
/// is brought into physics units once, here.
pub fn init_trajectory_world(scale: Scale, scaled_shape_subdivision: u32, gravity: Point) -> (r:
    TrajectoryWorld)
    ensures
        r.wf(),
        r.scale() == scale@,
        r.subdivisions() == scaled_shape_subdivision,
        r.gravity() == physics_point(gravity, scale@),
        r.mirror() == Map::<u64, Fixture>::empty(),
        r.bodies() == Set::<BodyId>::empty(),
{
    TrajectoryWorld::new(scale, scaled_shape_subdivision, scale.to_physics(gravity))
}

} // verus!
