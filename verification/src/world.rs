//! The world façade: entities, components, resources and the command
//! queue behind one owner.
//!
//! Systems only ever borrow through the world's accessors; structural
//! mutation that must outlive a borrow goes through the command queue and
//! is applied by [`World::run_commands`].

use vstd::prelude::*;
use crate::commands::{apply_command, drain_model, Command, CommandQueue};
use crate::components::{Component, Query, TypeKey};
use crate::entities::{
    component_at, first_free, slot_map, slot_valid, spawn_model, spawn_n_model, ComponentMap,
    Entities, EntityId,
};
use crate::resources::{Resource, ResourcesMap};

verus! {

/// The mathematical state of a world: the slot table with each occupied
/// slot's component map, the singleton resources by type key, the pending
/// command queue, and whether a stop was requested.
#[verifier::ext_equal]
pub ghost struct WorldModel<C, R> {
    pub entities: Seq<Option<Map<TypeKey, C>>>,
    pub resources: Map<TypeKey, R>,
    pub queue: Seq<Command<C, R>>,
    pub stopped: bool,
}

/// The world: the entity registry and the resource registry composed
/// behind one façade, together with the command queue.
pub struct World<C, R> {
    entities: Entities<C>,
    resources: ResourcesMap<R>,
    commands: CommandQueue<C, R>,
    stopped: bool,
}

impl<C, R> View for World<C, R> {
    type V = WorldModel<C, R>;

    closed spec fn view(&self) -> Self::V {
        WorldModel {
            entities: self.entities@,
            resources: self.resources@,
            queue: self.commands@,
            stopped: self.stopped,
        }
    }
}

impl<C, R> World<C, R> {
    /// The registry invariant: every occupied slot's self-identity
    /// component records the slot's own index.
    pub closed spec fn wf(&self) -> bool {
        self.entities.wf()
    }

    /// Whether the slot `entity` is currently occupied.
    pub open spec fn valid_spec(&self, entity: EntityId) -> bool {
        slot_valid(self@.entities, entity)
    }

    /// The component map of a valid entity.
    pub open spec fn map_of(&self, entity: EntityId) -> Map<TypeKey, C>
        recommends
            self.valid_spec(entity),
    {
        slot_map(self@.entities, entity)
    }

    /// The component of type `key` held by `entity`, or `None` when the
    /// entity is invalid or lacks the type.
    pub open spec fn component_of(&self, entity: EntityId, key: TypeKey) -> Option<C> {
        component_at(self@.entities, entity, key)
    }

    /// The resource of type `key`, or `None` when absent.
    pub open spec fn resource_of(&self, key: TypeKey) -> Option<R> {
        if self@.resources.contains_key(key) {
            Some(self@.resources[key])
        } else {
            None
        }
    }

    /// An empty world: no slots, no resources, no pending commands.
    pub fn new() -> (w: Self)
        ensures
            w.wf(),
            w@ == (WorldModel {
                entities: Seq::<Option<Map<TypeKey, C>>>::empty(),
                resources: Map::<TypeKey, R>::empty(),
                queue: Seq::<Command<C, R>>::empty(),
                stopped: false,
            }),
    {
        World {
            entities: Entities::new(),
            resources: ResourcesMap::new(),
            commands: CommandQueue::new(),
            stopped: false,
        }
    }

    // ---- entity operations ----

    /// Whether `entity` denotes a currently occupied slot.
    pub fn valid_entity(&self, entity: EntityId) -> (b: bool)
        ensures
            b == self.valid_spec(entity),
    {
        self.entities.valid_entity(entity)
    }

    /// Allocates an entity in the lowest free slot, reusing a freed slot
    /// before growing the table.
    pub fn new_entity(&mut self) -> (entity: EntityId)
        requires
            old(self).wf(),
        ensures
            final(self).wf(),
            entity as int == first_free(old(self)@.entities),
            final(self)@ == (WorldModel { entities: spawn_model(old(self)@.entities), ..old(self)@ }),
            final(self).valid_spec(entity),
            final(self).map_of(entity) == Map::<TypeKey, C>::empty(),
    {
        self.entities.new_entity()
    }

    /// Frees the slot of `entity`, dropping its component map. The slot
    /// must have been allocated; freeing an already-free slot is a no-op.
    pub fn remove_entity(&mut self, entity: EntityId)
        requires
            old(self).wf(),
            entity < old(self)@.entities.len(),
        ensures
            final(self).wf(),
            final(self)@ == (WorldModel {
                entities: old(self)@.entities.update(entity as int, None),
                ..old(self)@
            }),
    {
        self.entities.remove_entity(entity);
    }

    /// Frees every listed slot, in order.
    pub fn remove_entities(&mut self, entities: &[EntityId])
        requires
            old(self).wf(),
            forall|i: int|
                0 <= i < entities@.len() ==> (#[trigger] entities@[i]) < old(self)@.entities.len(),
        ensures
            final(self).wf(),
            final(self)@.entities.len() == old(self)@.entities.len(),
            forall|j: int|
                0 <= j < old(self)@.entities.len() ==> final(self)@.entities[j] == (
                if entities@.contains(j as EntityId) {
                    None
                } else {
                    old(self)@.entities[j]
                }),
            final(self)@.resources == old(self)@.resources,
            final(self)@.queue == old(self)@.queue,
            final(self)@.stopped == old(self)@.stopped,
    {
        self.entities.remove_entities(entities);
    }

    /// The ids created and not yet removed, in ascending order.
    pub fn available_slots(&self) -> (ids: Vec<EntityId>)
        ensures
            forall|i: int, j: int| 0 <= i < j < ids@.len() ==> ids@[i] < ids@[j],
            forall|i: int| 0 <= i < ids@.len() ==> self.valid_spec(#[trigger] ids@[i]),
            forall|e: EntityId| self.valid_spec(e) ==> ids@.contains(e),
    {
        self.entities.available_slots()
    }

    /// Allocates `count` entities in a row and lists their ids in creation
    /// order.
    pub fn new_entities(&mut self, count: usize) -> (ids: Vec<EntityId>)
        requires
            old(self).wf(),
        ensures
            final(self).wf(),
            final(self)@ == (WorldModel {
                entities: spawn_n_model(old(self)@.entities, count as nat).0,
                ..old(self)@
            }),
            ids@ == spawn_n_model(old(self)@.entities, count as nat).1,
    {
        self.entities.new_entities(count)
    }

    /// The half-open range of every allocated slot index; callers must
    /// still check validity per id, since slots may be holes.
    pub fn entities(&self) -> (r: std::ops::Range<EntityId>)
        ensures
            r.start == 0,
            r.end == self@.entities.len(),
    {
        self.entities.entities()
    }

    /// Borrows the component map of a valid entity.
    pub fn component_map(&self, entity: EntityId) -> (r: Option<&ComponentMap<C>>)
        requires
            self.wf(),
            self.valid_spec(entity),
        ensures
            match r {
                Some(m) => m.map_spec() == self.map_of(entity) && m.owner_spec() == entity,
                None => false,
            },
    {
        self.entities.component_map(entity)
    }

    // ---- component operations ----

    /// Stores `component` in the cell of its type on a valid entity,
    /// overwriting a previous value of the same type.
    pub fn add_component(&mut self, entity: EntityId, component: C)
        where C: Component
        requires
            old(self).wf(),
            old(self).valid_spec(entity),
        ensures
            final(self).wf(),
            final(self)@ == (WorldModel {
                entities: old(self)@.entities.update(
                    entity as int,
                    Some(old(self).map_of(entity).insert(component.key_spec(), component)),
                ),
                ..old(self)@
            }),
    {
        self.entities.add_component(entity, component);
    }

    /// Drops the cell of the given type on a valid entity; removing a type
    /// the entity does not hold is a no-op.
    pub fn remove_component(&mut self, entity: EntityId, key: TypeKey)
        requires
            old(self).wf(),
            old(self).valid_spec(entity),
        ensures
            final(self).wf(),
            final(self)@ == (WorldModel {
                entities: old(self)@.entities.update(
                    entity as int,
                    Some(old(self).map_of(entity).remove(key)),
                ),
                ..old(self)@
            }),
    {
        self.entities.remove_component(entity, key);
    }

    /// Borrows the component of type `key` held by `entity`. Total: an
    /// invalid entity or an absent type yields `None`, never a fault.
    pub fn get_component(&self, entity: EntityId, key: TypeKey) -> (r: Option<&C>)
        ensures
            match r {
                Some(c) => self.component_of(entity, key) == Some(*c),
                None => self.component_of(entity, key) is None,
            },
    {
        self.entities.get_component(entity, key)
    }

    /// Mutably borrows the component of type `key` held by `entity`.
    /// Total: an invalid entity or an absent type yields `None`, never a
    /// fault.
    pub fn get_component_mut(&mut self, entity: EntityId, key: TypeKey) -> (r: Option<&mut C>)
        requires
            old(self).wf(),
        ensures
            final(self).wf(),
            match r {
                Some(c) => old(self).component_of(entity, key) == Some(*c) && final(self)@ =~= (
                WorldModel {
                    entities: old(self)@.entities.update(
                        entity as int,
                        Some(old(self).map_of(entity).insert(key, *final(c))),
                    ),
                    ..old(self)@
                }),
                None => old(self).component_of(entity, key) is None && final(self)@ =~= old(
                    self,
                )@,
            },
    {
        self.entities.get_component_mut(entity, key)
    }

    // ---- query operations ----

    /// Whether a valid entity holds every requested component type.
    pub open spec fn has_all(&self, entity: EntityId, keys: Seq<TypeKey>) -> bool {
        self.valid_spec(entity) && forall|i: int|
            0 <= i < keys.len() ==> self.map_of(entity).contains_key(#[trigger] keys[i])
    }

    /// The requested components of a matching entity, in key order.
    pub open spec fn components_at(&self, entity: EntityId, keys: Seq<TypeKey>) -> Seq<C>
        recommends
            self.has_all(entity, keys),
    {
        Seq::new(keys.len(), |i: int| self.map_of(entity)[keys[i]])
    }

    /// The requested components of one entity, all or nothing: the copies
    /// come back in key order if and only if the entity is valid and holds
    /// every requested type.
    pub fn get_components<Q: Query>(&self, entity: EntityId, query: &Q) -> (r: Option<Vec<C>>)
        where C: Copy
        ensures
            match r {
                Some(v) => self.has_all(entity, query.keys_spec()) && v@ == self.components_at(
                    entity,
                    query.keys_spec(),
                ),
                None => !self.has_all(entity, query.keys_spec()),
            },
    {
        let ks = query.keys();
        if !self.valid_entity(entity) {
            return None;
        }
        let n = ks.len();
        let mut out: Vec<C> = Vec::new();
        let mut i: usize = 0;
        while i < n
            invariant
                ks@ == query.keys_spec(),
                n == ks@.len(),
                self.valid_spec(entity),
                i <= n,
                out@.len() == i,
                forall|j: int|
                    0 <= j < i ==> self.map_of(entity).contains_key(#[trigger] ks@[j]) && out@[j]
                        == self.map_of(entity)[ks@[j]],
            decreases n - i,
        {
            match self.entities.get_component(entity, ks[i]) {
                Some(c) => {
                    out.push(*c);
                },
                None => {
                    proof {
                        assert(!self.map_of(entity).contains_key(ks@[i as int]));
                    }
                    return None;
                },
            }
            i += 1;
        }
        proof {
            assert(out@ =~= self.components_at(entity, query.keys_spec()));
        }
        Some(out)
    }

    /// The mutable form of [`World::get_components`]: copies to be edited
    /// and written back through [`World::add_component`]. Requesting the
    /// same type twice would be two simultaneous exclusive borrows of one
    /// cell, a fatal borrow violation, ruled out by the precondition.
    pub fn get_components_mut<Q: Query>(&mut self, entity: EntityId, query: &Q) -> (r: Option<
        Vec<C>,
    >)
        where C: Copy
        requires
            forall|i: int, j: int|
                0 <= i < j < query.keys_spec().len() ==> query.keys_spec()[i]
                    != query.keys_spec()[j],
        ensures
            final(self)@ == old(self)@,
            match r {
                Some(v) => old(self).has_all(entity, query.keys_spec()) && v@ == old(
                    self,
                ).components_at(entity, query.keys_spec()),
                None => !old(self).has_all(entity, query.keys_spec()),
            },
    {
        self.get_components(entity, query)
    }

    /// Every entity holding all requested types, in ascending id order,
    /// paired with the requested components in key order. A fresh snapshot
    /// per call.
    pub fn query_components<Q: Query>(&self, query: &Q) -> (r: Vec<(EntityId, Vec<C>)>)
        where C: Copy
        ensures
            forall|i: int|
                0 <= i < r@.len() ==> self.has_all(#[trigger] r@[i].0, query.keys_spec())
                    && r@[i].1@ == self.components_at(r@[i].0, query.keys_spec()),
            forall|i: int, j: int| 0 <= i < j < r@.len() ==> r@[i].0 < r@[j].0,
            forall|e: EntityId|
                #[trigger] self.has_all(e, query.keys_spec()) ==> exists|i: int|
                    0 <= i < r@.len() && (#[trigger] r@[i]).0 == e,
    {
        let n = self.entities.slot_count();
        let mut r: Vec<(EntityId, Vec<C>)> = Vec::new();
        let mut e: usize = 0;
        while e < n
            invariant
                n == self@.entities.len(),
                e <= n,
                forall|i: int|
                    0 <= i < r@.len() ==> self.has_all(#[trigger] r@[i].0, query.keys_spec())
                        && r@[i].1@ == self.components_at(r@[i].0, query.keys_spec()),
                forall|i: int| 0 <= i < r@.len() ==> (#[trigger] r@[i]).0 < e,
                forall|i: int, j: int| 0 <= i < j < r@.len() ==> r@[i].0 < r@[j].0,
                forall|x: EntityId|
                    x < e && #[trigger] self.has_all(x, query.keys_spec()) ==> exists|i: int|
                        0 <= i < r@.len() && (#[trigger] r@[i]).0 == x,
            decreases n - e,
        {
            match self.get_components(e, query) {
                Some(v) => {
                    let ghost r0 = r@;
                    r.push((e, v));
                    proof {
                        assert forall|x: EntityId|
                            x < e + 1 && #[trigger] self.has_all(x, query.keys_spec())
                                implies exists|i: int|
                            0 <= i < r@.len() && (#[trigger] r@[i]).0 == x by {
                            if x < e {
                                let w = choose|i: int| 0 <= i < r0.len() && (#[trigger] r0[i]).0 == x;
                                assert((r@[w]).0 == x);
                            } else {
                                assert((r@[r0.len() as int]).0 == x);
                            }
                        }
                    }
                },
                None => {
                    proof {
                        assert forall|x: EntityId|
                            x < e + 1 && #[trigger] self.has_all(x, query.keys_spec())
                                implies exists|i: int|
                            0 <= i < r@.len() && (#[trigger] r@[i]).0 == x by {
                            assert(x != e);
                        }
                    }
                },
            }
            e += 1;
        }
        proof {
            assert forall|x: EntityId| #[trigger] self.has_all(x, query.keys_spec())
                implies exists|i: int| 0 <= i < r@.len() && (#[trigger] r@[i]).0 == x by {
                assert(x < n);
            }
        }
        r
    }

    /// The mutable form of [`World::query_components`]: copies to be
    /// edited and written back through [`World::add_component`]. Duplicate
    /// requested types are ruled out as in [`World::get_components_mut`].
    pub fn query_components_mut<Q: Query>(&mut self, query: &Q) -> (r: Vec<(EntityId, Vec<C>)>)
        where C: Copy
        requires
            forall|i: int, j: int|
                0 <= i < j < query.keys_spec().len() ==> query.keys_spec()[i]
                    != query.keys_spec()[j],
        ensures
            final(self)@ == old(self)@,
            forall|i: int|
                0 <= i < r@.len() ==> old(self).has_all(#[trigger] r@[i].0, query.keys_spec())
                    && r@[i].1@ == old(self).components_at(r@[i].0, query.keys_spec()),
            forall|i: int, j: int| 0 <= i < j < r@.len() ==> r@[i].0 < r@[j].0,
            forall|e: EntityId|
                #[trigger] old(self).has_all(e, query.keys_spec()) ==> exists|i: int|
                    0 <= i < r@.len() && (#[trigger] r@[i]).0 == e,
    {
        self.query_components(query)
    }

    /// The first match of the world-wide query: the lowest-indexed entity
    /// holding all requested types, or `None` when no entity matches.
    pub fn query_single<Q: Query>(&self, query: &Q) -> (r: Option<(EntityId, Vec<C>)>)
        where C: Copy
        ensures
            match r {
                Some(m) => self.has_all(m.0, query.keys_spec()) && m.1@ == self.components_at(
                    m.0,
                    query.keys_spec(),
                ) && forall|x: EntityId| x < m.0 ==> !self.has_all(x, query.keys_spec()),
                None => forall|e: EntityId| !self.has_all(e, query.keys_spec()),
            },
    {
        let mut all = self.query_components(query);
        if all.len() == 0 {
            proof {
                assert forall|e: EntityId| !self.has_all(e, query.keys_spec()) by {
                    if self.has_all(e, query.keys_spec()) {
                        let i = choose|i: int| 0 <= i < all@.len() && (#[trigger] all@[i]).0 == e;
                    }
                }
            }
            None
        } else {
            let ghost all0 = all@;
            let m = all.remove(0);
            proof {
                assert(m == all0[0]);
                assert forall|x: EntityId| x < m.0 implies !self.has_all(
                    x,
                    query.keys_spec(),
                ) by {
                    if self.has_all(x, query.keys_spec()) {
                        let i = choose|i: int| 0 <= i < all0.len() && (#[trigger] all0[i]).0 == x;
                        if i > 0 {
                            assert(all0[0].0 < all0[i].0);
                        }
                    }
                }
            }
            Some(m)
        }
    }

    /// The mutable form of [`World::query_single`]: a copy to be edited
    /// and written back through [`World::add_component`]. Duplicate
    /// requested types are ruled out as in [`World::get_components_mut`].
    pub fn query_single_mut<Q: Query>(&mut self, query: &Q) -> (r: Option<(EntityId, Vec<C>)>)
        where C: Copy
        requires
            forall|i: int, j: int|
                0 <= i < j < query.keys_spec().len() ==> query.keys_spec()[i]
                    != query.keys_spec()[j],
        ensures
            final(self)@ == old(self)@,
            match r {
                Some(m) => old(self).has_all(m.0, query.keys_spec()) && m.1@ == old(
                    self,
                ).components_at(m.0, query.keys_spec()) && forall|x: EntityId|
                    x < m.0 ==> !old(self).has_all(x, query.keys_spec()),
                None => forall|e: EntityId| !old(self).has_all(e, query.keys_spec()),
            },
    {
        self.query_single(query)
    }

    // ---- resource operations ----

    /// Stores a singleton resource of a type not yet present. Adding a
    /// type twice is a programmer error, ruled out by the precondition.
    pub fn add_resource(&mut self, resource: R)
        where R: Resource
        requires
            old(self).wf(),
            !old(self)@.resources.contains_key(resource.key_spec()),
        ensures
            final(self).wf(),
            final(self)@ == (WorldModel {
                resources: old(self)@.resources.insert(resource.key_spec(), resource),
                ..old(self)@
            }),
    {
        self.resources.add_resource(resource);
    }

    /// Stores a singleton resource unless its type is already present, and
    /// reports whether it was stored.
    pub fn try_add_resource(&mut self, resource: R) -> (added: bool)
        where R: Resource
        requires
            old(self).wf(),
        ensures
            final(self).wf(),
            added == !old(self)@.resources.contains_key(resource.key_spec()),
            final(self)@ == (if added {
                WorldModel {
                    resources: old(self)@.resources.insert(resource.key_spec(), resource),
                    ..old(self)@
                }
            } else {
                old(self)@
            }),
    {
        let key = resource.type_key();
        if self.resources.contains_resource(key) {
            false
        } else {
            self.resources.add_resource(resource);
            true
        }
    }

    /// Drops the resource of the given type; removing an absent type is a
    /// no-op.
    pub fn remove_resource(&mut self, key: TypeKey)
        requires
            old(self).wf(),
        ensures
            final(self).wf(),
            final(self)@ == (WorldModel {
                resources: old(self)@.resources.remove(key),
                ..old(self)@
            }),
    {
        self.resources.remove_resource(key);
    }

    /// Borrows the resource of the given type, if present. Total: absence
    /// yields `None`, never a fault.
    pub fn get_resource(&self, key: TypeKey) -> (r: Option<&R>)
        ensures
            match r {
                Some(v) => self.resource_of(key) == Some(*v),
                None => self.resource_of(key) is None,
            },
    {
        self.resources.get_resource(key)
    }

    /// Mutably borrows the resource of the given type, if present. Total:
    /// absence yields `None`, never a fault.
    pub fn get_resource_mut(&mut self, key: TypeKey) -> (r: Option<&mut R>)
        requires
            old(self).wf(),
        ensures
            final(self).wf(),
            match r {
                Some(v) => old(self).resource_of(key) == Some(*v) && final(self)@ =~= (WorldModel {
                    resources: old(self)@.resources.insert(key, *final(v)),
                    ..old(self)@
                }),
                None => old(self).resource_of(key) is None && final(self)@ =~= old(self)@,
            },
    {
        self.resources.get_resource_mut(key)
    }

    // ---- stop signal ----

    /// Requests that the application's main loop stop after the current
    /// step.
    pub fn stop_run(&mut self)
        requires
            old(self).wf(),
        ensures
            final(self).wf(),
            final(self)@ == (WorldModel { stopped: true, ..old(self)@ }),
    {
        self.stopped = true;
    }

    /// Whether a stop was requested.
    pub fn is_stopped(&self) -> (b: bool)
        ensures
            b == self@.stopped,
    {
        self.stopped
    }

    // ---- command operations ----

    /// Mutably borrows the command queue resource, for enqueueing deferred
    /// work.
    pub fn get_command_queue(&mut self) -> (q: &mut CommandQueue<C, R>)
        requires
            old(self).wf(),
        ensures
            final(self).wf(),
            (*q)@ == old(self)@.queue,
            final(self)@ =~= (WorldModel { queue: (*final(q))@, ..old(self)@ }),
    {
        &mut self.commands
    }

    /// Whether one command would apply to the world as it now stands,
    /// rather than hit a fatal condition.
    pub fn command_applicable(&self, command: &Command<C, R>) -> (b: bool)
        where C: Component, R: Resource
        ensures
            b == (apply_command(self@, *command) is Some),
    {
        match command {
            Command::NewEntity => true,
            Command::RemoveEntity(e) => *e < self.entities.slot_count(),
            Command::AddComponent(e, _) => self.entities.valid_entity(*e),
            Command::RemoveComponent(e, _) => self.entities.valid_entity(*e),
            Command::AddResource(r) => !self.resources.contains_resource(r.type_key()),
            Command::RemoveResource(_) => true,
            Command::Enqueue(_) => true,
            Command::StopRun => true,
        }
    }

    /// Applies one command that is known not to hit a fatal condition.
    pub(crate) fn apply_one(&mut self, command: Command<C, R>)
        where C: Component, R: Resource
        requires
            old(self).wf(),
            apply_command(old(self)@, command) is Some,
        ensures
            final(self).wf(),
            final(self)@ == apply_command(old(self)@, command)->Some_0,
    {
        match command {
            Command::NewEntity => {
                let _ = self.new_entity();
            },
            Command::RemoveEntity(e) => {
                self.remove_entity(e);
            },
            Command::AddComponent(e, c) => {
                self.add_component(e, c);
            },
            Command::RemoveComponent(e, k) => {
                self.remove_component(e, k);
            },
            Command::AddResource(r) => {
                self.add_resource(r);
            },
            Command::RemoveResource(k) => {
                self.remove_resource(k);
            },
            Command::Enqueue(b) => {
                self.commands.add_command(*b);
            },
            Command::StopRun => {
                self.stop_run();
            },
        }
    }

    /// Takes the whole pending queue out, leaving an empty one in its
    /// place, and only then executes the taken batch in enqueue order.
    /// Commands enqueued by the batch land in the fresh queue and wait for
    /// the next drain. The precondition rules out every fatal condition in
    /// the batch.
    pub fn run_commands(&mut self)
        where C: Component, R: Resource
        requires
            old(self).wf(),
            drain_model(old(self)@).1,
        ensures
            final(self).wf(),
            final(self)@ == drain_model(old(self)@).0,
    {
        let mut taken: CommandQueue<C, R> = CommandQueue::new();
        core::mem::swap(&mut taken, &mut self.commands);
        proof {
            assert(self@ =~= (WorldModel { queue: Seq::empty(), ..old(self)@ }));
        }
        taken.run_commands(self);
    }

    /// Like [`World::run_commands`], but total: execution stops at the
    /// first command that hits a fatal condition, the rest of the batch is
    /// discarded, and the result reports whether the whole batch ran.
    pub fn try_run_commands(&mut self) -> (ok: bool)
        where C: Component, R: Resource
        requires
            old(self).wf(),
        ensures
            final(self).wf(),
            final(self)@ == drain_model(old(self)@).0,
            ok == drain_model(old(self)@).1,
    {
        let mut taken: CommandQueue<C, R> = CommandQueue::new();
        core::mem::swap(&mut taken, &mut self.commands);
        proof {
            assert(self@ =~= (WorldModel { queue: Seq::empty(), ..old(self)@ }));
        }
        taken.try_run_commands(self)
    }
}

} // verus!
