//! The two hash collections of the mirror, kept as bevy's own.
use vstd::prelude::*;
use bevy::ecs::entity::Entity;
use bevy::utils::{HashMap, HashSet};
use bevy_rapier2d::rapier::geometry::ColliderHandle;
use crate::engine::ColliderId;

verus! {

/// Which collider mirrors which live entity: bevy's `HashMap` from `Entity` to the
/// engine's collider handle. An entity is named by its 64 bits.
#[verifier::external_body]
pub struct EntityMap {
    inner: HashMap<Entity, ColliderHandle>,
}

/// The colliders met so far: bevy's `HashSet` of the engine's collider handles.
#[verifier::external_body]
pub struct HandleSet {
    inner: HashSet<ColliderHandle>,
}

/// What the map holds.
pub uninterp spec fn entries(map: EntityMap) -> Map<u64, ColliderId>;

/// What the set holds.
pub uninterp spec fn members(set: HandleSet) -> Set<ColliderId>;

impl EntityMap {
    /// `HashMap::new`: a map that holds nothing.
    #[verifier::external_body]
    pub(crate) fn new() -> (r: EntityMap)
        ensures
            entries(r).dom() == Set::<u64>::empty(),
    {
        EntityMap { inner: HashMap::new() }
    }

    /// `HashMap::get`: the handle kept under the entity, if there is one.
    #[verifier::external_body]
    pub(crate) fn get(&self, entity: u64) -> (r: Option<ColliderId>)
        ensures
            r == (if entries(*self).contains_key(entity) {
                Some(entries(*self)[entity])
            } else {
                None
            }),
    {
        match self.inner.get(&Entity::from_bits(entity)) {
            Some(handle) => {
                let (index, generation) = handle.into_raw_parts();
                Some(ColliderId { index, generation })
            },
            None => None,
        }
    }

    /// `HashMap::insert`: the entity is kept with the handle, in place of what was
    /// kept under it before.
    #[verifier::external_body]
    pub(crate) fn insert(&mut self, entity: u64, id: ColliderId)
        ensures
            entries(*final(self)) == entries(*old(self)).insert(entity, id),
    {
        let handle = ColliderHandle::from_raw_parts(id.index, id.generation);
        self.inner.insert(Entity::from_bits(entity), handle);
    }

    /// `HashMap::remove`: the entity is kept no longer.
    #[verifier::external_body]
    pub(crate) fn remove(&mut self, entity: u64)
        ensures
            entries(*final(self)) == entries(*old(self)).remove(entity),
    {
        self.inner.remove(&Entity::from_bits(entity));
    }

    /// `HashMap::len`: how many entities are kept.
    #[verifier::external_body]
    pub(crate) fn len(&self) -> (r: usize)
        ensures
            r == entries(*self).dom().len(),
    {
        self.inner.len()
    }
}

impl HandleSet {
    /// `HashSet::new`: a set that holds nothing.
    #[verifier::external_body]
    pub(crate) fn new() -> (r: HandleSet)
        ensures
            members(r) == Set::<ColliderId>::empty(),
    {
        HandleSet { inner: HashSet::new() }
    }

    /// `HashSet::contains`: whether the set holds the handle.
    #[verifier::external_body]
    pub(crate) fn contains(&self, id: ColliderId) -> (r: bool)
        ensures
            r == members(*self).contains(id),
    {
        self.inner.contains(&ColliderHandle::from_raw_parts(id.index, id.generation))
    }

    /// `HashSet::insert`: the set holds the handle from now on.
    #[verifier::external_body]
    pub(crate) fn insert(&mut self, id: ColliderId)
        ensures
            members(*final(self)) == members(*old(self)).insert(id),
    {
        self.inner.insert(ColliderHandle::from_raw_parts(id.index, id.generation));
    }
}

} // verus!
