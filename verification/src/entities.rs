//! The entity registry: slot allocation and per-entity component storage.
//!
//! An entity is an index into a slot table. A slot is either free or holds
//! the entity's component map: a cell per component type key, plus the
//! implicit self-identity component inserted at creation, which records
//! which entity the map belongs to.

use vstd::prelude::*;
use std::collections::HashMap;
use crate::components::{Component, TypeKey};

verus! {

broadcast use vstd::std_specs::hash::group_hash_axioms;

/// An entity identity: a non-negative index into the slot table.
pub type EntityId = usize;

/// The implicit self-identity component: an opaque handle recording which
/// entity a component map belongs to, so a query match can recover the
/// entity it came from.
#[derive(Clone, Copy, Debug, PartialEq, Eq, Structural)]
pub struct Entity {
    id: EntityId,
}

impl Entity {
    /// The entity index, as specification-level data.
    pub closed spec fn id_spec(&self) -> EntityId {
        self.id
    }

    /// The entity index this handle records.
    pub fn id(&self) -> (i: EntityId)
        ensures
            i == self.id_spec(),
    {
        self.id
    }

    pub(crate) fn from_id(id: EntityId) -> (e: Entity)
        ensures
            e.id_spec() == id,
    {
        Entity { id }
    }
}

/// One entity's storage: a mapping from component type key to the stored
/// value, together with the implicit self-identity component.
pub struct ComponentMap<C> {
    owner: Entity,
    components: HashMap<TypeKey, C>,
}

impl<C> ComponentMap<C> {
    /// The stored components, as a mapping from type key to value.
    pub closed spec fn map_spec(&self) -> Map<TypeKey, C> {
        self.components@
    }

    /// The entity this map belongs to, as specification-level data.
    pub closed spec fn owner_spec(&self) -> EntityId {
        self.owner.id_spec()
    }

    pub(crate) fn empty(owner: EntityId) -> (m: Self)
        ensures
            m.map_spec() == Map::<TypeKey, C>::empty(),
            m.owner_spec() == owner,
    {
        ComponentMap { owner: Entity::from_id(owner), components: HashMap::new() }
    }

    /// The implicit self-identity component of this map.
    pub fn owner(&self) -> (e: Entity)
        ensures
            e.id_spec() == self.owner_spec(),
    {
        self.owner
    }

    /// Whether a component of the given type is stored.
    pub fn contains(&self, key: TypeKey) -> (b: bool)
        ensures
            b == self.map_spec().contains_key(key),
    {
        self.components.contains_key(&key)
    }

    /// The stored component of the given type, if any.
    pub fn get(&self, key: TypeKey) -> (r: Option<&C>)
        ensures
            match r {
                Some(c) => self.map_spec().contains_key(key) && *c == self.map_spec()[key],
                None => !self.map_spec().contains_key(key),
            },
    {
        self.components.get(&key)
    }

    pub(crate) fn get_mut(&mut self, key: TypeKey) -> (r: Option<&mut C>)
        ensures
            final(self).owner_spec() == old(self).owner_spec(),
            match r {
                Some(c) => old(self).map_spec().contains_key(key) && *c == old(self).map_spec()[key]
                    && final(self).map_spec() == old(self).map_spec().insert(key, *final(c)),
                None => !old(self).map_spec().contains_key(key) && final(self).map_spec() =~= old(
                    self,
                ).map_spec(),
            },
    {
        match self.components.entry(key) {
            std::collections::hash_map::Entry::Occupied(e) => Some(e.into_mut()),
            std::collections::hash_map::Entry::Vacant(_) => None,
        }
    }

    pub(crate) fn insert(&mut self, key: TypeKey, value: C)
        ensures
            final(self).map_spec() == old(self).map_spec().insert(key, value),
            final(self).owner_spec() == old(self).owner_spec(),
    {
        self.components.insert(key, value);
    }

    pub(crate) fn remove(&mut self, key: TypeKey)
        ensures
            final(self).map_spec() == old(self).map_spec().remove(key),
            final(self).owner_spec() == old(self).owner_spec(),
    {
        self.components.remove(&key);
    }
}

/// Whether the slot `entity` is occupied in the slot table `s`.
pub open spec fn slot_valid<C>(s: Seq<Option<Map<TypeKey, C>>>, entity: EntityId) -> bool {
    entity < s.len() && s[entity as int] is Some
}

/// The component map held by an occupied slot.
pub open spec fn slot_map<C>(s: Seq<Option<Map<TypeKey, C>>>, entity: EntityId) -> Map<TypeKey, C>
    recommends
        slot_valid(s, entity),
{
    s[entity as int]->Some_0
}

/// The component of type `key` held by `entity` in the slot table `s`, or
/// `None` when the slot is free, out of range, or lacks the type.
pub open spec fn component_at<C>(
    s: Seq<Option<Map<TypeKey, C>>>,
    entity: EntityId,
    key: TypeKey,
) -> Option<C> {
    if slot_valid(s, entity) && slot_map(s, entity).contains_key(key) {
        Some(slot_map(s, entity)[key])
    } else {
        None
    }
}

/// The lowest index of a free slot, or the length of the table when every
/// slot is occupied.
pub open spec fn first_free<M>(s: Seq<Option<M>>) -> int
    decreases s.len(),
{
    if s.len() == 0 {
        0
    } else if s[0] is None {
        0
    } else {
        1 + first_free(s.drop_first())
    }
}

/// `first_free` lands on a free slot (or the table's end), and every slot
/// below it is occupied.
pub proof fn lemma_first_free<M>(s: Seq<Option<M>>)
    ensures
        0 <= first_free(s) <= s.len(),
        first_free(s) < s.len() ==> s[first_free(s)] is None,
        forall|j: int| 0 <= j < first_free(s) ==> s[j] is Some,
    decreases s.len(),
{
    if s.len() == 0 {
    } else if s[0] is None {
    } else {
        lemma_first_free(s.drop_first());
        assert forall|j: int| 0 <= j < first_free(s) implies s[j] is Some by {
            if j > 0 {
                assert(s.drop_first()[j - 1] is Some);
            }
        }
    }
}

/// A position that is free (or the table's end) with every lower slot
/// occupied is exactly `first_free`.
pub proof fn lemma_first_free_is<M>(s: Seq<Option<M>>, k: int)
    requires
        0 <= k <= s.len(),
        k < s.len() ==> s[k] is None,
        forall|j: int| 0 <= j < k ==> s[j] is Some,
    ensures
        first_free(s) == k,
    decreases s.len(),
{
    if k == 0 {
    } else {
        assert(s[0] is Some);
        lemma_first_free_is(s.drop_first(), k - 1);
    }
}

/// The slot table after allocating one entity: the lowest free slot becomes
/// occupied with an empty component map, growing the table only when no
/// slot is free.
pub open spec fn spawn_model<C>(s: Seq<Option<Map<TypeKey, C>>>) -> Seq<Option<Map<TypeKey, C>>> {
    if first_free(s) == s.len() {
        s.push(Some(Map::empty()))
    } else {
        s.update(first_free(s), Some(Map::empty()))
    }
}

/// Freed slots are reused before growth, and an allocation changes no
/// other slot: the allocated slot is the lowest free index (every lower
/// slot is occupied, and the chosen slot was free), the table grows only
/// when no slot is free, and every other slot keeps its occupancy and its
/// component map.
pub proof fn lemma_slot_reuse<C>(s: Seq<Option<Map<TypeKey, C>>>)
    requires
        s.len() <= usize::MAX,
    ensures
        0 <= first_free(s) <= s.len(),
        first_free(s) < s.len() ==> !slot_valid(s, first_free(s) as EntityId),
        forall|j: EntityId| j < first_free(s) ==> slot_valid(s, j),
        slot_valid(spawn_model(s), first_free(s) as EntityId),
        slot_map(spawn_model(s), first_free(s) as EntityId) == Map::<TypeKey, C>::empty(),
        spawn_model(s).len() == (if first_free(s) == s.len() {
            s.len() + 1
        } else {
            s.len()
        }),
        forall|e: EntityId|
            e != first_free(s) && e < s.len() ==> spawn_model(s)[e as int] == s[e as int],
{
    lemma_first_free(s);
}

/// The slot table and the allocated ids after `n` consecutive allocations.
pub open spec fn spawn_n_model<C>(s: Seq<Option<Map<TypeKey, C>>>, n: nat) -> (Seq<
    Option<Map<TypeKey, C>>,
>, Seq<EntityId>)
    decreases n,
{
    if n == 0 {
        (s, Seq::empty())
    } else {
        let id = first_free(s) as EntityId;
        let rest = spawn_n_model(spawn_model(s), (n - 1) as nat);
        (rest.0, seq![id] + rest.1)
    }
}

/// The entity registry: a table of slots, each free or holding one
/// entity's component map.
pub struct Entities<C> {
    entities: Vec<Option<ComponentMap<C>>>,
}

impl<C> View for Entities<C> {
    type V = Seq<Option<Map<TypeKey, C>>>;

    closed spec fn view(&self) -> Self::V {
        self.entities@.map_values(
            |slot: Option<ComponentMap<C>>|
                match slot {
                    Some(m) => Some(m.map_spec()),
                    None => None,
                },
        )
    }
}

impl<C> Entities<C> {
    /// Every occupied slot's self-identity component records the slot's own
    /// index.
    pub closed spec fn wf(&self) -> bool {
        forall|i: int|
            0 <= i < self.entities@.len() && self.entities@[i] is Some ==> (
            #[trigger] self.entities@[i])->Some_0.owner_spec() == i
    }

    /// Whether the slot `entity` is currently occupied.
    pub open spec fn valid_spec(&self, entity: EntityId) -> bool {
        slot_valid(self@, entity)
    }

    /// The component map of a valid entity.
    pub open spec fn map_of(&self, entity: EntityId) -> Map<TypeKey, C>
        recommends
            self.valid_spec(entity),
    {
        slot_map(self@, entity)
    }

    /// An empty registry with no slots.
    pub fn new() -> (r: Self)
        ensures
            r@ == Seq::<Option<Map<TypeKey, C>>>::empty(),
            r.wf(),
    {
        let r = Entities { entities: Vec::new() };
        proof {
            assert(r@ =~= Seq::<Option<Map<TypeKey, C>>>::empty());
        }
        r
    }

    /// The number of allocated slots, occupied or free.
    pub fn slot_count(&self) -> (n: usize)
        ensures
            n == self@.len(),
    {
        self.entities.len()
    }

    /// Whether `entity` denotes a currently occupied slot.
    pub fn valid_entity(&self, entity: EntityId) -> (b: bool)
        ensures
            b == self.valid_spec(entity),
    {
        entity < self.entities.len() && self.entities[entity].is_some()
    }

    /// The lowest-indexed free slot, or the current slot count when all
    /// slots are occupied.
    pub fn next_slot(&self) -> (slot: EntityId)
        ensures
            slot as int == first_free(self@),
    {
        let n = self.entities.len();
        let mut i: usize = 0;
        while i < n
            invariant
                n == self.entities@.len(),
                i <= n,
                forall|j: int| 0 <= j < i ==> self.entities@[j] is Some,
            decreases n - i,
        {
            if self.entities[i].is_none() {
                proof {
                    assert forall|j: int| 0 <= j < i implies self@[j] is Some by {
                        assert(self.entities@[j] is Some);
                    }
                    lemma_first_free_is(self@, i as int);
                }
                return i;
            }
            i += 1;
        }
        proof {
            assert forall|j: int| 0 <= j < n implies self@[j] is Some by {
                assert(self.entities@[j] is Some);
            }
            lemma_first_free_is(self@, n as int);
        }
        n
    }

    /// Allocates an entity in the lowest free slot, reusing a freed slot
    /// before growing the table, and gives it an empty component map whose
    /// self-identity component records the new id.
    pub fn new_entity(&mut self) -> (entity: EntityId)
        requires
            old(self).wf(),
        ensures
            final(self).wf(),
            entity as int == first_free(old(self)@),
            final(self)@ == spawn_model(old(self)@),
            final(self).valid_spec(entity),
            final(self).map_of(entity) == Map::<TypeKey, C>::empty(),
    {
        proof {
            lemma_first_free(self@);
        }
        let slot = self.next_slot();
        if slot == self.entities.len() {
            self.entities.push(Some(ComponentMap::empty(slot)));
        } else {
            self.entities[slot] = Some(ComponentMap::empty(slot));
        }
        proof {
            assert(self@ =~= spawn_model(old(self)@));
        }
        slot
    }

    /// Frees the slot `entity`, dropping its component map and every stored
    /// component. Freeing an already-free in-range slot is a no-op.
    pub fn remove_entity(&mut self, entity: EntityId)
        requires
            old(self).wf(),
            entity < old(self)@.len(),
        ensures
            final(self).wf(),
            final(self)@ == old(self)@.update(entity as int, None),
    {
        self.entities[entity] = None;
        proof {
            assert(self@ =~= old(self)@.update(entity as int, None));
        }
    }

    /// Frees every listed slot, in order.
    pub fn remove_entities(&mut self, entities: &[EntityId])
        requires
            old(self).wf(),
            forall|i: int| 0 <= i < entities@.len() ==> (#[trigger] entities@[i]) < old(self)@.len(),
        ensures
            final(self).wf(),
            final(self)@.len() == old(self)@.len(),
            forall|j: int|
                0 <= j < old(self)@.len() ==> final(self)@[j] == (if entities@.contains(j as EntityId) {
                    None
                } else {
                    old(self)@[j]
                }),
    {
        let total = self.entities.len();
        let n = entities.len();
        let mut k: usize = 0;
        while k < n
            invariant
                total == old(self)@.len(),
                n == entities@.len(),
                k <= n,
                self.wf(),
                forall|i: int| 0 <= i < n ==> (#[trigger] entities@[i]) < old(self)@.len(),
                self@.len() == old(self)@.len(),
                forall|j: int|
                    0 <= j < old(self)@.len() ==> #[trigger] self@[j] == (
                    if (exists|i: int| 0 <= i < k && entities@[i] == j) {
                        None
                    } else {
                        old(self)@[j]
                    }),
            decreases n - k,
        {
            let e = entities[k];
            self.remove_entity(e);
            proof {
                assert forall|j: int| 0 <= j < old(self)@.len() implies #[trigger] self@[j] == (
                if (exists|i: int| 0 <= i < k + 1 && entities@[i] == j) {
                    None
                } else {
                    old(self)@[j]
                }) by {
                    if j == e {
                        assert(entities@[k as int] == j);
                    }
                }
            }
            k += 1;
        }
        proof {
            assert forall|j: int| 0 <= j < old(self)@.len() implies self@[j] == (
            if entities@.contains(j as EntityId) {
                None
            } else {
                old(self)@[j]
            }) by {
                if entities@.contains(j as EntityId) {
                    let w = choose|w: int|
                        0 <= w < entities@.len() && entities@[w] == j as EntityId;
                    assert(entities@[w] == j);
                } else {
                    if (exists|i: int| 0 <= i < n && entities@[i] == j) {
                        let w = choose|i: int| 0 <= i < n && entities@[i] == j;
                        assert(entities@[w] == j as EntityId);
                    }
                }
            }
        }
    }

    /// The ids created and not yet removed, in ascending order.
    pub fn available_slots(&self) -> (ids: Vec<EntityId>)
        ensures
            forall|i: int, j: int| 0 <= i < j < ids@.len() ==> ids@[i] < ids@[j],
            forall|i: int| 0 <= i < ids@.len() ==> self.valid_spec(#[trigger] ids@[i]),
            forall|e: EntityId| self.valid_spec(e) ==> ids@.contains(e),
    {
        let n = self.entities.len();
        let mut ids: Vec<EntityId> = Vec::new();
        let mut e: usize = 0;
        while e < n
            invariant
                n == self@.len(),
                e <= n,
                forall|i: int, j: int| 0 <= i < j < ids@.len() ==> ids@[i] < ids@[j],
                forall|i: int| 0 <= i < ids@.len() ==> (#[trigger] ids@[i]) < e,
                forall|i: int| 0 <= i < ids@.len() ==> self.valid_spec(#[trigger] ids@[i]),
                forall|x: EntityId| x < e && self.valid_spec(x) ==> ids@.contains(x),
            decreases n - e,
        {
            if self.valid_entity(e) {
                let ghost ids0 = ids@;
                ids.push(e);
                assert forall|x: EntityId| x < e + 1 && self.valid_spec(x) implies ids@.contains(
                    x,
                ) by {
                    if x < e {
                        let w = choose|w: int| 0 <= w < ids0.len() && ids0[w] == x;
                        assert(ids@[w] == x);
                    } else {
                        assert(ids@[ids0.len() as int] == e);
                    }
                }
            }
            e += 1;
        }
        ids
    }

    /// Allocates `count` entities in a row and lists their ids in creation
    /// order.
    pub fn new_entities(&mut self, count: usize) -> (ids: Vec<EntityId>)
        requires
            old(self).wf(),
        ensures
            final(self).wf(),
            final(self)@ == spawn_n_model(old(self)@, count as nat).0,
            ids@ == spawn_n_model(old(self)@, count as nat).1,
    {
        let mut ids: Vec<EntityId> = Vec::new();
        let mut i: usize = 0;
        while i < count
            invariant
                i <= count,
                self.wf(),
                spawn_n_model(old(self)@, count as nat).0 == spawn_n_model(
                    self@,
                    (count - i) as nat,
                ).0,
                spawn_n_model(old(self)@, count as nat).1 == ids@ + spawn_n_model(
                    self@,
                    (count - i) as nat,
                ).1,
            decreases count - i,
        {
            let ghost pre = self@;
            let ghost rem = (count - i) as nat;
            let id = self.new_entity();
            let ghost ids0 = ids@;
            ids.push(id);
            proof {
                let rest = spawn_n_model(self@, (rem - 1) as nat);
                assert(spawn_n_model(pre, rem).0 == rest.0);
                assert(spawn_n_model(pre, rem).1 == seq![id] + rest.1);
                assert(ids0 + (seq![id] + rest.1) =~= ids@ + rest.1);
            }
            i += 1;
        }
        proof {
            assert(ids@ + spawn_n_model(self@, 0).1 =~= ids@);
        }
        ids
    }

    /// Stores `component` in the cell of its type on a valid entity,
    /// overwriting a previous value of the same type.
    pub fn add_component(&mut self, entity: EntityId, component: C)
        where C: Component
        requires
            old(self).wf(),
            old(self).valid_spec(entity),
        ensures
            final(self).wf(),
            final(self)@ == old(self)@.update(
                entity as int,
                Some(old(self).map_of(entity).insert(component.key_spec(), component)),
            ),
    {
        let key = component.type_key();
        match &mut self.entities[entity] {
            Some(m) => {
                m.insert(key, component);
            },
            None => {
                proof {
                    assert(false);
                }
            },
        }
        proof {
            assert(self@ =~= old(self)@.update(
                entity as int,
                Some(old(self).map_of(entity).insert(component.key_spec(), component)),
            ));
        }
    }

    /// Drops the cell of the given type on a valid entity; removing a type
    /// the entity does not hold is a no-op.
    pub fn remove_component(&mut self, entity: EntityId, key: TypeKey)
        requires
            old(self).wf(),
            old(self).valid_spec(entity),
        ensures
            final(self).wf(),
            final(self)@ == old(self)@.update(
                entity as int,
                Some(old(self).map_of(entity).remove(key)),
            ),
    {
        match &mut self.entities[entity] {
            Some(m) => {
                m.remove(key);
            },
            None => {
                proof {
                    assert(false);
                }
            },
        }
        proof {
            assert(self@ =~= old(self)@.update(
                entity as int,
                Some(old(self).map_of(entity).remove(key)),
            ));
        }
    }

    /// Borrows the component map of a valid entity.
    pub fn component_map(&self, entity: EntityId) -> (r: Option<&ComponentMap<C>>)
        requires
            self.wf(),
            self.valid_spec(entity),
        ensures
            match r {
                Some(m) => m.map_spec() == self.map_of(entity) && m.owner_spec() == entity,
                None => false,
            },
    {
        self.entities[entity].as_ref()
    }

    /// Borrows the component of type `key` held by `entity`; total.
    pub(crate) fn get_component(&self, entity: EntityId, key: TypeKey) -> (r: Option<&C>)
        ensures
            match r {
                Some(c) => self.valid_spec(entity) && self.map_of(entity).contains_key(key)
                    && *c == self.map_of(entity)[key],
                None => !(self.valid_spec(entity) && self.map_of(entity).contains_key(key)),
            },
    {
        if !self.valid_entity(entity) {
            return None;
        }
        match self.entities[entity].as_ref() {
            Some(m) => m.get(key),
            None => None,
        }
    }

    /// Mutably borrows the component of type `key` held by `entity`; total.
    pub(crate) fn get_component_mut(&mut self, entity: EntityId, key: TypeKey) -> (r: Option<
        &mut C,
    >)
        requires
            old(self).wf(),
        ensures
            final(self).wf(),
            match r {
                Some(c) => old(self).valid_spec(entity) && old(self).map_of(entity).contains_key(
                    key,
                ) && *c == old(self).map_of(entity)[key] && final(self)@ =~= old(self)@.update(
                    entity as int,
                    Some(old(self).map_of(entity).insert(key, *final(c))),
                ),
                None => !(old(self).valid_spec(entity) && old(self).map_of(entity).contains_key(
                    key,
                )) && final(self)@ =~= old(self)@,
            },
    {
        if !self.valid_entity(entity) {
            return None;
        }
        match &mut self.entities[entity] {
            Some(m) => m.get_mut(key),
            None => {
                proof {
                    assert(false);
                }
                None
            },
        }
    }

    /// The half-open range of every allocated slot index; callers must
    /// still check validity per id, since slots may be holes.
    pub fn entities(&self) -> (r: std::ops::Range<EntityId>)
        ensures
            r.start == 0,
            r.end == self@.len(),
    {
        0..self.entities.len()
    }
}

} // verus!
