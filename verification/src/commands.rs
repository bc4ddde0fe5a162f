//! Deferred structural mutation: the command queue and its semantics.
//!
//! Code that currently borrows components or resources may not mutate the
//! world's structure directly; it enqueues commands instead. Commands are
//! stored in insertion order and executed in that order by a drain. The
//! queue is swapped out in full before any command of a batch runs, so a
//! command enqueued during a drain never executes in that same drain: it
//! waits in the fresh queue for the next one.

use vstd::prelude::*;
use crate::components::{Component, TypeKey};
use crate::entities::{component_at, slot_valid, spawn_model, EntityId};
use crate::resources::Resource;
use crate::world::{World, WorldModel};

verus! {

/// One deferred unit of work over the world.
pub enum Command<C, R> {
    /// Allocate a fresh entity in the lowest free slot.
    NewEntity,
    /// Free the slot of the given entity; fatal if the slot was never
    /// allocated.
    RemoveEntity(EntityId),
    /// Store a component on the given entity; fatal if the entity is not
    /// valid.
    AddComponent(EntityId, C),
    /// Drop the component of the given type from the given entity; fatal
    /// if the entity is not valid.
    RemoveComponent(EntityId, TypeKey),
    /// Store a singleton resource; fatal if its type is already present.
    AddResource(R),
    /// Drop the resource of the given type, if present.
    RemoveResource(TypeKey),
    /// Push the carried command onto the queue, so that it runs during a
    /// later drain.
    Enqueue(Box<Command<C, R>>),
    /// Ask the application to stop its main loop.
    StopRun,
}

/// The world after one command, or `None` when the command hits a fatal
/// condition: an unallocated slot, an invalid entity, or a duplicate
/// resource type.
pub open spec fn apply_command<C: Component, R: Resource>(
    w: WorldModel<C, R>,
    c: Command<C, R>,
) -> Option<WorldModel<C, R>> {
    match c {
        Command::NewEntity => Some(WorldModel { entities: spawn_model(w.entities), ..w }),
        Command::RemoveEntity(e) => if e < w.entities.len() {
            Some(WorldModel { entities: w.entities.update(e as int, None), ..w })
        } else {
            None
        },
        Command::AddComponent(e, c) => if e < w.entities.len() && w.entities[e as int] is Some {
            Some(
                WorldModel {
                    entities: w.entities.update(
                        e as int,
                        Some(w.entities[e as int]->Some_0.insert(c.key_spec(), c)),
                    ),
                    ..w
                },
            )
        } else {
            None
        },
        Command::RemoveComponent(e, k) => if e < w.entities.len() && w.entities[e as int] is Some {
            Some(
                WorldModel {
                    entities: w.entities.update(
                        e as int,
                        Some(w.entities[e as int]->Some_0.remove(k)),
                    ),
                    ..w
                },
            )
        } else {
            None
        },
        Command::AddResource(r) => if !w.resources.contains_key(r.key_spec()) {
            Some(WorldModel { resources: w.resources.insert(r.key_spec(), r), ..w })
        } else {
            None
        },
        Command::RemoveResource(k) => Some(WorldModel { resources: w.resources.remove(k), ..w }),
        Command::Enqueue(b) => Some(WorldModel { queue: w.queue.push(*b), ..w }),
        Command::StopRun => Some(WorldModel { stopped: true, ..w }),
    }
}

/// The world after executing a batch front to back, paired with whether
/// every command applied. Execution stops at the first fatal command; the
/// rest of the batch is discarded.
pub open spec fn run_batch<C: Component, R: Resource>(
    w: WorldModel<C, R>,
    batch: Seq<Command<C, R>>,
) -> (WorldModel<C, R>, bool)
    decreases batch.len(),
{
    if batch.len() == 0 {
        (w, true)
    } else {
        match apply_command(w, batch[0]) {
            Some(w1) => run_batch(w1, batch.drop_first()),
            None => (w, false),
        }
    }
}

/// Adding a component and then reading the same type on the same entity
/// yields exactly the value just inserted; removing that type and reading
/// again yields nothing. Stated over the world model that the exec
/// operations' contracts produce.
pub proof fn lemma_component_round_trip<C: Component, R: Resource>(
    w: WorldModel<C, R>,
    entity: EntityId,
    component: C,
)
    requires
        slot_valid(w.entities, entity),
    ensures
        apply_command(w, Command::AddComponent(entity, component)) is Some,
        component_at(
            apply_command(w, Command::AddComponent(entity, component))->Some_0.entities,
            entity,
            component.key_spec(),
        ) == Some(component),
        apply_command(
            apply_command(w, Command::AddComponent(entity, component))->Some_0,
            Command::RemoveComponent(entity, component.key_spec()),
        ) is Some,
        component_at(
            apply_command(
                apply_command(w, Command::AddComponent(entity, component))->Some_0,
                Command::RemoveComponent(entity, component.key_spec()),
            )->Some_0.entities,
            entity,
            component.key_spec(),
        ) is None,
{
}

/// The singleton discipline of the resource registry: adding a resource
/// succeeds exactly when its type is absent — a duplicate insertion is the
/// fatal configuration error, never a silent overwrite — and on success a
/// lookup of that type yields exactly the value just stored, while after a
/// removal (and before any insertion) a lookup of the type yields nothing.
/// Stated over the world model that the exec operations' contracts
/// produce.
pub proof fn lemma_resource_round_trip<C: Component, R: Resource>(
    w: WorldModel<C, R>,
    resource: R,
)
    ensures
        apply_command(w, Command::AddResource(resource)) is Some <==> !w.resources.contains_key(
            resource.key_spec(),
        ),
        !w.resources.contains_key(resource.key_spec()) ==> {
            let w1 = apply_command(w, Command::AddResource(resource))->Some_0;
            &&& w1.resources.contains_key(resource.key_spec())
            &&& w1.resources[resource.key_spec()] == resource
            &&& !apply_command(
                w1,
                Command::RemoveResource(resource.key_spec()),
            )->Some_0.resources.contains_key(resource.key_spec())
        },
{
}

/// The commands that a batch enqueues for a later drain, in order.
pub open spec fn enqueued_of<C, R>(batch: Seq<Command<C, R>>) -> Seq<Command<C, R>>
    decreases batch.len(),
{
    if batch.len() == 0 {
        Seq::empty()
    } else {
        let rest = enqueued_of(batch.drop_first());
        match batch[0] {
            Command::Enqueue(b) => seq![*b] + rest,
            _ => rest,
        }
    }
}

/// Commands enqueued during a drain do not execute during that drain: a
/// batch that runs in full leaves every command it enqueued pending, in
/// order, behind whatever was already pending when it ran.
pub proof fn lemma_drain_defers_enqueued<C: Component, R: Resource>(
    w: WorldModel<C, R>,
    batch: Seq<Command<C, R>>,
)
    requires
        run_batch(w, batch).1,
    ensures
        run_batch(w, batch).0.queue == w.queue + enqueued_of(batch),
    decreases batch.len(),
{
    if batch.len() == 0 {
        assert(w.queue + enqueued_of(batch) =~= w.queue);
    } else {
        let w1 = apply_command(w, batch[0])->Some_0;
        lemma_drain_defers_enqueued(w1, batch.drop_first());
        let rest = enqueued_of(batch.drop_first());
        match batch[0] {
            Command::Enqueue(b) => {
                assert(w.queue.push(*b) + rest =~= w.queue + (seq![*b] + rest));
            },
            _ => {
                assert(w1.queue == w.queue);
            },
        }
    }
}

/// A batch reads and writes entities, resources and the stop flag only:
/// what is already pending in the queue influences neither the batch's
/// effects nor whether it runs in full — a command can be affected by
/// commands of earlier batches, never by what sits beside it in the queue.
pub proof fn lemma_drain_ignores_pending<C: Component, R: Resource>(
    w1: WorldModel<C, R>,
    w2: WorldModel<C, R>,
    batch: Seq<Command<C, R>>,
)
    requires
        w2.entities == w1.entities,
        w2.resources == w1.resources,
        w2.stopped == w1.stopped,
    ensures
        run_batch(w1, batch).1 == run_batch(w2, batch).1,
        run_batch(w1, batch).0.entities == run_batch(w2, batch).0.entities,
        run_batch(w1, batch).0.resources == run_batch(w2, batch).0.resources,
        run_batch(w1, batch).0.stopped == run_batch(w2, batch).0.stopped,
    decreases batch.len(),
{
    if batch.len() > 0 {
        match apply_command(w1, batch[0]) {
            Some(n1) => {
                let n2 = apply_command(w2, batch[0])->Some_0;
                lemma_drain_ignores_pending(n1, n2, batch.drop_first());
            },
            None => {},
        }
    }
}

/// The world after draining: the queue is taken out in full first, and the
/// taken batch then runs against the world with its fresh, empty queue.
pub open spec fn drain_model<C: Component, R: Resource>(w: WorldModel<C, R>) -> (
    WorldModel<C, R>,
    bool,
) {
    run_batch(WorldModel { queue: Seq::empty(), ..w }, w.queue)
}

/// An ordered list of deferred commands over the world.
pub struct CommandQueue<C, R> {
    commands: Vec<Command<C, R>>,
}

impl<C, R> View for CommandQueue<C, R> {
    type V = Seq<Command<C, R>>;

    closed spec fn view(&self) -> Self::V {
        self.commands@
    }
}

impl<C, R> CommandQueue<C, R> {
    /// An empty queue.
    pub fn new() -> (q: Self)
        ensures
            q@ == Seq::<Command<C, R>>::empty(),
    {
        let q = CommandQueue { commands: Vec::new() };
        proof {
            assert(q@ =~= Seq::<Command<C, R>>::empty());
        }
        q
    }

    /// Appends a command; it will run on the next drain, after every
    /// command enqueued before it.
    pub fn add_command(&mut self, command: Command<C, R>)
        ensures
            final(self)@ == old(self)@.push(command),
    {
        self.commands.push(command);
    }

    /// Defers the allocation of a fresh entity to the next drain.
    pub fn new_entity(&mut self)
        ensures
            final(self)@ == old(self)@.push(Command::NewEntity),
    {
        self.commands.push(Command::NewEntity);
    }

    /// Defers freeing the given entity's slot to the next drain.
    pub fn remove_entity(&mut self, entity: EntityId)
        ensures
            final(self)@ == old(self)@.push(Command::RemoveEntity(entity)),
    {
        self.commands.push(Command::RemoveEntity(entity));
    }

    /// Defers storing a component on the given entity to the next drain.
    pub fn add_component(&mut self, entity: EntityId, component: C)
        ensures
            final(self)@ == old(self)@.push(Command::AddComponent(entity, component)),
    {
        self.commands.push(Command::AddComponent(entity, component));
    }

    /// Defers dropping the component of the given type from the given
    /// entity to the next drain.
    pub fn remove_component(&mut self, entity: EntityId, key: TypeKey)
        ensures
            final(self)@ == old(self)@.push(Command::RemoveComponent(entity, key)),
    {
        self.commands.push(Command::RemoveComponent(entity, key));
    }

    /// Defers storing a singleton resource to the next drain.
    pub fn add_resource(&mut self, resource: R)
        ensures
            final(self)@ == old(self)@.push(Command::AddResource(resource)),
    {
        self.commands.push(Command::AddResource(resource));
    }

    /// Defers dropping the resource of the given type to the next drain.
    pub fn remove_resource(&mut self, key: TypeKey)
        ensures
            final(self)@ == old(self)@.push(Command::RemoveResource(key)),
    {
        self.commands.push(Command::RemoveResource(key));
    }

    /// Defers the stop request to the next drain.
    pub fn stop_run(&mut self)
        ensures
            final(self)@ == old(self)@.push(Command::StopRun),
    {
        self.commands.push(Command::StopRun);
    }

    /// Executes this queue's commands against `world`, front to back. The
    /// precondition rules out every fatal condition along the way; commands
    /// that enqueue append to `world`'s own (fresh) queue, not to this one.
    pub fn run_commands(&mut self, world: &mut World<C, R>)
        where C: Component, R: Resource
        requires
            old(world).wf(),
            run_batch(old(world)@, old(self)@).1,
        ensures
            final(world).wf(),
            final(world)@ == run_batch(old(world)@, old(self)@).0,
            final(self)@ == Seq::<Command<C, R>>::empty(),
    {
        let _ok = self.try_run_commands(world);
    }

    /// Executes this queue's commands against `world`, front to back,
    /// stopping at the first command that hits a fatal condition and
    /// discarding the rest of the batch. Returns whether the whole batch
    /// ran.
    pub fn try_run_commands(&mut self, world: &mut World<C, R>) -> (ok: bool)
        where C: Component, R: Resource
        requires
            old(world).wf(),
        ensures
            final(world).wf(),
            final(world)@ == run_batch(old(world)@, old(self)@).0,
            ok == run_batch(old(world)@, old(self)@).1,
            final(self)@ == Seq::<Command<C, R>>::empty(),
    {
        let ghost batch0 = self@;
        let ghost w0 = world@;
        while self.commands.len() > 0
            invariant
                world.wf(),
                w0 == old(world)@,
                batch0 == old(self)@,
                run_batch(w0, batch0) == run_batch(world@, self@),
            decreases self.commands@.len(),
        {
            let ghost pre = self@;
            let ghost w_pre = world@;
            let c = self.commands.remove(0);
            proof {
                assert(self@ =~= pre.drop_first());
                assert(pre[0] == c);
            }
            if world.command_applicable(&c) {
                world.apply_one(c);
                proof {
                    assert(run_batch(w_pre, pre) == run_batch(world@, self@));
                }
            } else {
                proof {
                    assert(run_batch(w_pre, pre) == (w_pre, false));
                }
                self.commands.clear();
                proof {
                    assert(self@ =~= Seq::<Command<C, R>>::empty());
                }
                return false;
            }
        }
        proof {
            assert(self@ =~= Seq::<Command<C, R>>::empty());
        }
        true
    }
}

} // verus!
