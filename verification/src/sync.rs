//! Keeping the mirror in step with the live world, once per frame.
//!
//! The live world reports four kinds of change. They are replayed in a fixed
//! order: new shapes, then moves, then additions, then removals. Updates thus
//! reach colliders that still exist, and an entity that is added and changed in
//! one frame arrives in its final state.
use vstd::prelude::*;
use crate::engine::Fixture;
use crate::shape::Shape;
use crate::units::Point;
use crate::world::{with_added, with_shape, with_translation, without, TrajectoryWorld};

verus! {

/// A live entity whose collider has a new shape.
#[derive(Clone, Copy, Debug)]
pub struct Reshaped {
    pub entity: u64,
    pub shape: Shape,
}

/// A live entity with a collider that has moved.
#[derive(Clone, Copy, Debug)]
pub struct Moved {
    pub entity: u64,
    pub translation: Point,
}

/// A live entity that has been given a collider.
#[derive(Clone, Copy, Debug)]
pub struct Added {
    pub entity: u64,
    pub translation: Point,
    pub shape: Shape,
}

/// The mirror after the new shapes, in order. The ball is what is being
/// predicted and no obstacle: its new shape is passed over.
pub open spec fn after_reshapes(
    mirror: Map<u64, Fixture>,
    scale: u32,
    subdivisions: u32,
    ball: Option<u64>,
    reshaped: Seq<Reshaped>,
) -> Map<u64, Fixture>
    decreases reshaped.len(),
{
    if reshaped.len() == 0 {
        mirror
    } else {
        let before = after_reshapes(mirror, scale, subdivisions, ball, reshaped.drop_last());
        if ball == Some(reshaped.last().entity) {
            before
        } else {
            with_shape(before, scale, subdivisions, reshaped.last().entity, reshaped.last().shape)
        }
    }
}

/// The mirror after the moves, in order.
pub open spec fn after_moves(mirror: Map<u64, Fixture>, scale: u32, moved: Seq<Moved>) -> Map<
    u64,
    Fixture,
>
    decreases moved.len(),
{
    if moved.len() == 0 {
        mirror
    } else {
        with_translation(
            after_moves(mirror, scale, moved.drop_last()),
            scale,
            moved.last().entity,
            moved.last().translation,
        )
    }
}

/// The mirror after the additions, in order.
pub open spec fn after_additions(
    mirror: Map<u64, Fixture>,
    scale: u32,
    subdivisions: u32,
    added: Seq<Added>,
) -> Map<u64, Fixture>
    decreases added.len(),
{
    if added.len() == 0 {
        mirror
    } else {
        with_added(
            after_additions(mirror, scale, subdivisions, added.drop_last()),
            scale,
            subdivisions,
            added.last().entity,
            added.last().shape,
            added.last().translation,
        )
    }
}

/// The mirror after the removals, in order.
pub open spec fn after_removals(mirror: Map<u64, Fixture>, removed: Seq<u64>) -> Map<u64, Fixture>
    decreases removed.len(),
{
    if removed.len() == 0 {
        mirror
    } else {
        without(after_removals(mirror, removed.drop_last()), removed.last())
    }
}

/// The mirror after one frame's changes.
pub open spec fn synced(
    mirror: Map<u64, Fixture>,
    scale: u32,
    subdivisions: u32,
    ball: Option<u64>,
    reshaped: Seq<Reshaped>,
    moved: Seq<Moved>,
    added: Seq<Added>,
    removed: Seq<u64>,
) -> Map<u64, Fixture> {
    after_removals(
        after_additions(
            after_moves(
                after_reshapes(mirror, scale, subdivisions, ball, reshaped),
                scale,
                moved,
            ),
            scale,
            subdivisions,
            added,
        ),
        removed,
    )
}

/// The entities that were given a collider.
pub open spec fn added_entities(added: Seq<Added>) -> Set<u64> {
    Set::new(|entity: u64| exists|i: int| 0 <= i < added.len() && (#[trigger] added[i]).entity == entity)
}

/// Every shape of the frame's changes has a scaled form.
pub open spec fn shapes_wf(reshaped: Seq<Reshaped>, added: Seq<Added>) -> bool {
    &&& forall|i: int| 0 <= i < reshaped.len() ==> (#[trigger] reshaped[i]).shape.wf()
    &&& forall|i: int| 0 <= i < added.len() ==> (#[trigger] added[i]).shape.wf()
}

/// New shapes change no entity set.
pub proof fn lemma_reshapes_keep_entities(
    mirror: Map<u64, Fixture>,
    scale: u32,
    subdivisions: u32,
    ball: Option<u64>,
    reshaped: Seq<Reshaped>,
)
    ensures
        after_reshapes(mirror, scale, subdivisions, ball, reshaped).dom() == mirror.dom(),
    decreases reshaped.len(),
{
    if reshaped.len() > 0 {
        lemma_reshapes_keep_entities(mirror, scale, subdivisions, ball, reshaped.drop_last());
        assert(after_reshapes(mirror, scale, subdivisions, ball, reshaped).dom() =~= mirror.dom());
    }
}

/// Moves change no entity set.
pub proof fn lemma_moves_keep_entities(mirror: Map<u64, Fixture>, scale: u32, moved: Seq<Moved>)
    ensures
        after_moves(mirror, scale, moved).dom() == mirror.dom(),
    decreases moved.len(),
{
    if moved.len() > 0 {
        lemma_moves_keep_entities(mirror, scale, moved.drop_last());
        assert(after_moves(mirror, scale, moved).dom() =~= mirror.dom());
    }
}

/// After the additions the mirror holds what it held and what was added.
pub proof fn lemma_additions_entities(
    mirror: Map<u64, Fixture>,
    scale: u32,
    subdivisions: u32,
    added: Seq<Added>,
)
    ensures
        after_additions(mirror, scale, subdivisions, added).dom() == mirror.dom().union(
            added_entities(added),
        ),
    decreases added.len(),
{
    let after = after_additions(mirror, scale, subdivisions, added);
    if added.len() == 0 {
        assert(after.dom() =~= mirror.dom().union(added_entities(added)));
    } else {
        let earlier = added.drop_last();
        lemma_additions_entities(mirror, scale, subdivisions, earlier);
        assert forall|entity: u64| added_entities(added).contains(entity) implies added_entities(
            earlier,
        ).contains(entity) || entity == added.last().entity by {
            let i = choose|i: int| 0 <= i < added.len() && (#[trigger] added[i]).entity == entity;
            if i < earlier.len() {
                assert(earlier[i].entity == entity);
            }
        }
        assert forall|entity: u64| added_entities(earlier).contains(entity) implies added_entities(
            added,
        ).contains(entity) by {
            let i = choose|i: int| 0 <= i < earlier.len() && (#[trigger] earlier[i]).entity == entity;
            assert(added[i].entity == entity);
        }
        assert(added_entities(added).contains(added.last().entity)) by {
            assert(added[added.len() - 1].entity == added.last().entity);
        }
        assert(after.dom() =~= mirror.dom().union(added_entities(added)));
    }
}

/// After the removals the mirror holds what it held, without what was removed.
pub proof fn lemma_removals_entities(mirror: Map<u64, Fixture>, removed: Seq<u64>)
    ensures
        after_removals(mirror, removed).dom() == mirror.dom().difference(removed.to_set()),
    decreases removed.len(),
{
    let after = after_removals(mirror, removed);
    if removed.len() == 0 {
        assert(after.dom() =~= mirror.dom().difference(removed.to_set()));
    } else {
        let earlier = removed.drop_last();
        lemma_removals_entities(mirror, earlier);
        assert forall|entity: u64| removed.to_set().contains(entity) implies earlier.to_set().contains(
            entity,
        ) || entity == removed.last() by {
            let i = choose|i: int| 0 <= i < removed.len() && removed[i] == entity;
            if i < earlier.len() {
                assert(earlier[i] == entity);
            }
        }
        assert forall|entity: u64| earlier.to_set().contains(entity) implies removed.to_set().contains(
            entity,
        ) by {
            let i = choose|i: int| 0 <= i < earlier.len() && earlier[i] == entity;
            assert(removed[i] == entity);
        }
        assert(removed.to_set().contains(removed.last())) by {
            assert(removed[removed.len() - 1] == removed.last());
        }
        assert(after.dom() =~= mirror.dom().difference(removed.to_set()));
    }
}

/// Mirror consistency: where the mirror holds just the live world's entities with
/// a collider before a frame, and the live world then gains the added entities and
/// loses the removed ones, the mirror holds just the live world's entities with a
/// collider after the frame's changes are replayed.
pub proof fn lemma_mirror_consistency(
    mirror: Map<u64, Fixture>,
    scale: u32,
    subdivisions: u32,
    ball: Option<u64>,
    reshaped: Seq<Reshaped>,
    moved: Seq<Moved>,
    added: Seq<Added>,
    removed: Seq<u64>,
    live: Set<u64>,
)
    requires
        mirror.dom() == live,
    ensures
        synced(mirror, scale, subdivisions, ball, reshaped, moved, added, removed).dom()
            == live.union(added_entities(added)).difference(removed.to_set()),
{
    let a = after_reshapes(mirror, scale, subdivisions, ball, reshaped);
    let b = after_moves(a, scale, moved);
    let c = after_additions(b, scale, subdivisions, added);
    lemma_reshapes_keep_entities(mirror, scale, subdivisions, ball, reshaped);
    lemma_moves_keep_entities(a, scale, moved);
    lemma_additions_entities(b, scale, subdivisions, added);
    lemma_removals_entities(c, removed);
}

/// Replays one frame's changes of the live world onto the mirror: new shapes, but
/// for the ball's; moves; additions; removals. The mirror then holds the entities
/// it held and those added, without those removed.
pub fn sync_colliders_system(
    world: &mut TrajectoryWorld,
    ball: Option<u64>,
    reshaped: &Vec<Reshaped>,
    moved: &Vec<Moved>,
    added: &Vec<Added>,
    removed: &Vec<u64>,
)
    requires
        old(world).wf(),
        shapes_wf(reshaped@, added@),
    ensures
        final(world).wf(),
        final(world).same_setup(old(world)),
        final(world).bodies() == old(world).bodies(),
        final(world).mirror() == synced(
            old(world).mirror(),
            old(world).scale(),
            old(world).subdivisions(),
            ball,
            reshaped@,
            moved@,
            added@,
            removed@,
        ),
        final(world).mirror().dom() == old(world).mirror().dom().union(
            added_entities(added@),
        ).difference(removed@.to_set()),
{
    let ghost scale = world.scale();
    let ghost subdivisions = world.subdivisions();
    let ghost mirror0 = world.mirror();
    let mut i: usize = 0;
    while i < reshaped.len()
        invariant
            i <= reshaped.len(),
            world.wf(),
            world.same_setup(old(world)),
            scale == old(world).scale(),
            subdivisions == old(world).subdivisions(),
            mirror0 == old(world).mirror(),
            world.bodies() == old(world).bodies(),
            shapes_wf(reshaped@, added@),
            world.mirror() == after_reshapes(
                mirror0,
                scale,
                subdivisions,
                ball,
                reshaped@.take(i as int),
            ),
        decreases reshaped.len() - i,
    {
        let change = reshaped[i];
        let passed = match ball {
            Some(entity) => entity == change.entity,
            None => false,
        };
        if !passed {
            world.update_collider(change.entity, change.shape);
        }
        proof {
            assert(reshaped@.take(i + 1).drop_last() =~= reshaped@.take(i as int));
        }
        i = i + 1;
    }
    proof {
        assert(reshaped@.take(i as int) =~= reshaped@);
    }
    let ghost mirror1 = world.mirror();
    let mut j: usize = 0;
    while j < moved.len()
        invariant
            j <= moved.len(),
            world.wf(),
            world.same_setup(old(world)),
            scale == old(world).scale(),
            world.bodies() == old(world).bodies(),
            world.mirror() == after_moves(mirror1, scale, moved@.take(j as int)),
        decreases moved.len() - j,
    {
        let change = moved[j];
        world.move_collider(change.entity, change.translation);
        proof {
            assert(moved@.take(j + 1).drop_last() =~= moved@.take(j as int));
        }
        j = j + 1;
    }
    proof {
        assert(moved@.take(j as int) =~= moved@);
    }
    let ghost mirror2 = world.mirror();
    let mut k: usize = 0;
    while k < added.len()
        invariant
            k <= added.len(),
            world.wf(),
            world.same_setup(old(world)),
            scale == old(world).scale(),
            subdivisions == old(world).subdivisions(),
            world.bodies() == old(world).bodies(),
            shapes_wf(reshaped@, added@),
            world.mirror() == after_additions(mirror2, scale, subdivisions, added@.take(k as int)),
        decreases added.len() - k,
    {
        let change = added[k];
        world.add_collider(change.entity, change.shape, change.translation);
        proof {
            assert(added@.take(k + 1).drop_last() =~= added@.take(k as int));
        }
        k = k + 1;
    }
    proof {
        assert(added@.take(k as int) =~= added@);
    }
    let ghost mirror3 = world.mirror();
    let mut l: usize = 0;
    while l < removed.len()
        invariant
            l <= removed.len(),
            world.wf(),
            world.same_setup(old(world)),
            world.bodies() == old(world).bodies(),
            world.mirror() == after_removals(mirror3, removed@.take(l as int)),
        decreases removed.len() - l,
    {
        world.remove_collider(removed[l]);
        proof {
            assert(removed@.take(l + 1).drop_last() =~= removed@.take(l as int));
        }
        l = l + 1;
    }
    proof {
        assert(removed@.take(l as int) =~= removed@);
        lemma_mirror_consistency(
            mirror0,
            scale,
            subdivisions,
            ball,
            reshaped@,
            moved@,
            added@,
            removed@,
            mirror0.dom(),
        );
    }
}

} // verus!
