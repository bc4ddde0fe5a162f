//! The resource registry: process-wide singleton values indexed by type.
//!
//! A resource is a value type tagged as eligible for singleton storage by
//! implementing [`Resource`]: at most one value per type key exists at any
//! time. Adding a type that is already present is a programmer error and is
//! ruled out by precondition; lookups are total and report absence.

use vstd::prelude::*;
use std::collections::HashMap;
use crate::components::TypeKey;

verus! {

broadcast use vstd::std_specs::hash::group_hash_axioms;

/// A value type eligible for singleton storage.
///
/// `type_key` must be constant per represented resource type: two values
/// standing for the same resource type report the same key, and values
/// standing for different resource types report different keys.
pub trait Resource: Sized {
    /// The type key of this value, as specification-level data.
    spec fn key_spec(&self) -> TypeKey;

    /// The stable identity of the resource type this value belongs to.
    fn type_key(&self) -> (k: TypeKey)
        ensures
            k == self.key_spec(),
    ;
}

/// The resource registry: one independently borrowed cell per type key.
pub struct ResourcesMap<R> {
    resources: HashMap<TypeKey, R>,
}

impl<R> View for ResourcesMap<R> {
    type V = Map<TypeKey, R>;

    closed spec fn view(&self) -> Self::V {
        self.resources@
    }
}

impl<R> ResourcesMap<R> {
    /// An empty registry.
    pub fn new() -> (r: Self)
        ensures
            r@ == Map::<TypeKey, R>::empty(),
    {
        ResourcesMap { resources: HashMap::new() }
    }

    /// Whether a resource with the given type key is present.
    pub fn contains_resource(&self, key: TypeKey) -> (b: bool)
        ensures
            b == self@.contains_key(key),
    {
        self.resources.contains_key(&key)
    }

    /// Stores a singleton value of a type not yet present. Adding a type
    /// twice is a programmer error, ruled out by the precondition.
    pub fn add_resource(&mut self, resource: R)
        where R: Resource
        requires
            !old(self)@.contains_key(resource.key_spec()),
        ensures
            final(self)@ == old(self)@.insert(resource.key_spec(), resource),
    {
        let key = resource.type_key();
        self.resources.insert(key, resource);
    }

    /// Drops the resource of the given type; removing an absent type is a
    /// no-op.
    pub fn remove_resource(&mut self, key: TypeKey)
        ensures
            final(self)@ == old(self)@.remove(key),
    {
        self.resources.remove(&key);
    }

    /// Borrows the resource of the given type, if present.
    pub fn get_resource(&self, key: TypeKey) -> (r: Option<&R>)
        ensures
            match r {
                Some(v) => self@.contains_key(key) && *v == self@[key],
                None => !self@.contains_key(key),
            },
    {
        self.resources.get(&key)
    }

    /// Mutably borrows the resource of the given type, if present.
    pub fn get_resource_mut(&mut self, key: TypeKey) -> (r: Option<&mut R>)
        ensures
            match r {
                Some(v) => old(self)@.contains_key(key) && *v == old(self)@[key] && final(self)@
                    == old(self)@.insert(key, *final(v)),
                None => !old(self)@.contains_key(key) && final(self)@ =~= old(self)@,
            },
    {
        match self.resources.entry(key) {
            std::collections::hash_map::Entry::Occupied(e) => Some(e.into_mut()),
            std::collections::hash_map::Entry::Vacant(_) => None,
        }
    }
}

} // verus!
