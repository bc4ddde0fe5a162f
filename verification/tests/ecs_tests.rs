use ecs::app::{App, StepOutcome};
use ecs::commands::{Command, CommandQueue};
use ecs::components::{Component, TypeKey};
use ecs::entities::Entities;
use ecs::resources::Resource;
use ecs::systems::{StartUpSystem, System};
use ecs::world::World;

const POSITION: TypeKey = 1;
const VELOCITY: TypeKey = 2;
const TAG: TypeKey = 3;

#[derive(Clone, Copy, Debug, PartialEq, Eq)]
enum Comp {
    Position { x: i64, y: i64 },
    Velocity { x: i64, y: i64 },
    Tag(u64),
}

impl Component for Comp {
    fn key_spec(&self) -> TypeKey {
        self.type_key()
    }

    fn type_key(&self) -> TypeKey {
        match self {
            Comp::Position { .. } => POSITION,
            Comp::Velocity { .. } => VELOCITY,
            Comp::Tag(_) => TAG,
        }
    }
}

const COUNTER: TypeKey = 10;
const FLAG: TypeKey = 11;

#[derive(Clone, Copy, Debug, PartialEq, Eq)]
enum Res {
    Counter(u64),
    Flag(bool),
}

impl Resource for Res {
    fn key_spec(&self) -> TypeKey {
        self.type_key()
    }

    fn type_key(&self) -> TypeKey {
        match self {
            Res::Counter(_) => COUNTER,
            Res::Flag(_) => FLAG,
        }
    }
}

type GameWorld = World<Comp, Res>;

fn counter_of(world: &GameWorld) -> u64 {
    match world.get_resource(COUNTER) {
        Some(Res::Counter(n)) => *n,
        _ => panic!("counter resource missing"),
    }
}

// ---- entity registry ----

#[test]
fn available_slots_tracks_create_and_remove() {
    let mut entities: Entities<Comp> = Entities::new();
    assert_eq!(entities.available_slots(), Vec::<usize>::new());

    let a = entities.new_entity();
    let b = entities.new_entity();
    let c = entities.new_entity();
    let d = entities.new_entity();
    assert_eq!(vec![a, b, c, d], vec![0, 1, 2, 3]);
    assert_eq!(entities.available_slots(), vec![0, 1, 2, 3]);

    entities.remove_entity(b);
    entities.remove_entity(d);
    assert_eq!(entities.available_slots(), vec![0, 2]);

    // Removing an already-free in-range slot is a no-op.
    entities.remove_entity(b);
    assert_eq!(entities.available_slots(), vec![0, 2]);
}

#[test]
fn freed_slot_reused_before_growth() {
    let mut entities: Entities<Comp> = Entities::new();
    for expected in 0..5 {
        assert_eq!(entities.new_entity(), expected);
    }
    entities.remove_entity(2);
    assert_eq!(entities.next_slot(), 2);
    assert_eq!(entities.new_entity(), 2);
    // All slots occupied again: the table grows.
    assert_eq!(entities.new_entity(), 5);
}

#[test]
fn lowest_free_slot_wins() {
    let mut entities: Entities<Comp> = Entities::new();
    let _ = entities.new_entities(4);
    entities.remove_entity(3);
    entities.remove_entity(1);
    assert_eq!(entities.new_entity(), 1);
    assert_eq!(entities.new_entity(), 3);
}

#[test]
fn new_entities_returns_ids_in_creation_order() {
    let mut entities: Entities<Comp> = Entities::new();
    let ids = entities.new_entities(3);
    assert_eq!(ids, vec![0, 1, 2]);
    entities.remove_entity(1);
    let more = entities.new_entities(2);
    assert_eq!(more, vec![1, 3]);
}

#[test]
fn remove_entities_frees_each_listed_slot() {
    let mut entities: Entities<Comp> = Entities::new();
    let _ = entities.new_entities(5);
    entities.remove_entities(&[0, 2, 4]);
    assert_eq!(entities.available_slots(), vec![1, 3]);
}

#[test]
fn entities_yields_full_slot_range_including_holes() {
    let mut entities: Entities<Comp> = Entities::new();
    let _ = entities.new_entities(3);
    entities.remove_entity(1);
    let range = entities.entities();
    assert_eq!(range, 0..3);
    assert!(entities.valid_entity(0));
    assert!(!entities.valid_entity(1));
    assert!(entities.valid_entity(2));
    assert!(!entities.valid_entity(3));
}

#[test]
fn component_map_records_owner_identity() {
    let mut entities: Entities<Comp> = Entities::new();
    let _ = entities.new_entity();
    let e = entities.new_entity();
    let map = entities.component_map(e).expect("valid entity has a map");
    assert_eq!(map.owner().id(), e);
}

// ---- components ----

#[test]
fn add_then_get_component_returns_inserted_value() {
    let mut world: GameWorld = World::new();
    let e = world.new_entity();
    world.add_component(e, Comp::Position { x: 4, y: 7 });
    assert_eq!(world.get_component(e, POSITION), Some(&Comp::Position { x: 4, y: 7 }));
    // Adding the same type again overwrites.
    world.add_component(e, Comp::Position { x: -1, y: 0 });
    assert_eq!(world.get_component(e, POSITION), Some(&Comp::Position { x: -1, y: 0 }));
}

#[test]
fn remove_component_then_get_returns_nothing() {
    let mut world: GameWorld = World::new();
    let e = world.new_entity();
    world.add_component(e, Comp::Tag(9));
    world.remove_component(e, TAG);
    assert_eq!(world.get_component(e, TAG), None);
    // Removing an absent type is a no-op.
    world.remove_component(e, TAG);
    assert_eq!(world.get_component(e, TAG), None);
}

#[test]
fn get_component_is_total_on_missing_entity() {
    let mut world: GameWorld = World::new();
    assert_eq!(world.get_component(0, POSITION), None);
    let e = world.new_entity();
    world.add_component(e, Comp::Tag(1));
    world.remove_entity(e);
    assert_eq!(world.get_component(e, TAG), None);
    assert_eq!(world.get_component(17, TAG), None);
}

#[test]
fn get_component_mut_edits_in_place() {
    let mut world: GameWorld = World::new();
    let e = world.new_entity();
    world.add_component(e, Comp::Tag(1));
    {
        let tag = world.get_component_mut(e, TAG).expect("component present");
        *tag = Comp::Tag(2);
    }
    assert_eq!(world.get_component(e, TAG), Some(&Comp::Tag(2)));
    assert!(world.get_component_mut(e, POSITION).is_none());
}

// ---- queries ----

#[test]
fn query_returns_exactly_entities_holding_all_types() {
    let mut world: GameWorld = World::new();
    let both_a = world.new_entity();
    world.add_component(both_a, Comp::Position { x: 1, y: 1 });
    world.add_component(both_a, Comp::Velocity { x: 2, y: 2 });
    let only_pos = world.new_entity();
    world.add_component(only_pos, Comp::Position { x: 3, y: 3 });
    let only_vel = world.new_entity();
    world.add_component(only_vel, Comp::Velocity { x: 4, y: 4 });
    let neither = world.new_entity();
    world.add_component(neither, Comp::Tag(0));
    let both_b = world.new_entity();
    world.add_component(both_b, Comp::Velocity { x: 5, y: 5 });
    world.add_component(both_b, Comp::Position { x: 6, y: 6 });

    let matches = world.query_components(&vec![POSITION, VELOCITY]);
    assert_eq!(matches.len(), 2);
    // Ascending entity-index order, values in key order.
    assert_eq!(matches[0].0, both_a);
    assert_eq!(
        matches[0].1,
        vec![Comp::Position { x: 1, y: 1 }, Comp::Velocity { x: 2, y: 2 }]
    );
    assert_eq!(matches[1].0, both_b);
    assert_eq!(
        matches[1].1,
        vec![Comp::Position { x: 6, y: 6 }, Comp::Velocity { x: 5, y: 5 }]
    );
}

#[test]
fn query_skips_removed_entities() {
    let mut world: GameWorld = World::new();
    let a = world.new_entity();
    world.add_component(a, Comp::Tag(1));
    let b = world.new_entity();
    world.add_component(b, Comp::Tag(2));
    world.remove_entity(a);
    let matches = world.query_components(&vec![TAG]);
    assert_eq!(matches.len(), 1);
    assert_eq!(matches[0].0, b);
}

#[test]
fn get_components_is_all_or_nothing() {
    let mut world: GameWorld = World::new();
    let e = world.new_entity();
    world.add_component(e, Comp::Position { x: 0, y: 0 });
    assert!(world.get_components(e, &vec![POSITION]).is_some());
    assert!(world.get_components(e, &vec![POSITION, VELOCITY]).is_none());
    assert!(world.get_components(42, &vec![POSITION]).is_none());
    let got = world
        .get_components(e, &vec![POSITION])
        .expect("single present type matches");
    assert_eq!(got, vec![Comp::Position { x: 0, y: 0 }]);
}

#[test]
fn query_single_returns_first_match() {
    let mut world: GameWorld = World::new();
    assert!(world.query_single(&vec![TAG]).is_none());
    let a = world.new_entity();
    let b = world.new_entity();
    world.add_component(b, Comp::Tag(2));
    world.add_component(a, Comp::Tag(1));
    let (e, v) = world.query_single(&vec![TAG]).expect("a match exists");
    assert_eq!(e, a);
    assert_eq!(v, vec![Comp::Tag(1)]);
}

#[test]
fn query_components_mut_yields_copies_for_write_back() {
    let mut world: GameWorld = World::new();
    let e = world.new_entity();
    world.add_component(e, Comp::Position { x: 1, y: 2 });
    world.add_component(e, Comp::Velocity { x: 10, y: 20 });
    let matched = world.query_components_mut(&vec![POSITION, VELOCITY]);
    for (entity, parts) in matched {
        let (px, py) = match parts[0] {
            Comp::Position { x, y } => (x, y),
            _ => unreachable!(),
        };
        let (vx, vy) = match parts[1] {
            Comp::Velocity { x, y } => (x, y),
            _ => unreachable!(),
        };
        world.add_component(entity, Comp::Position { x: px + vx, y: py + vy });
    }
    assert_eq!(world.get_component(e, POSITION), Some(&Comp::Position { x: 11, y: 22 }));
    let single = world.query_single_mut(&vec![VELOCITY]).expect("velocity holder");
    assert_eq!(single.0, e);
}

#[test]
fn shared_query_may_repeat_a_type() {
    // Shared borrows of the same cell may coexist; only the mutable forms
    // reject a repeated type.
    let mut world: GameWorld = World::new();
    let e = world.new_entity();
    world.add_component(e, Comp::Tag(5));
    let got = world
        .get_components(e, &vec![TAG, TAG])
        .expect("repeated shared type matches");
    assert_eq!(got, vec![Comp::Tag(5), Comp::Tag(5)]);
}

#[test]
fn world_entity_operations_mirror_registry() {
    let mut world: GameWorld = World::new();
    let ids = world.new_entities(4);
    assert_eq!(ids, vec![0, 1, 2, 3]);
    world.remove_entities(&[1, 3]);
    assert_eq!(world.available_slots(), vec![0, 2]);
    assert_eq!(world.entities(), 0..4);
    let m = world.component_map(2).expect("valid entity has a map");
    assert_eq!(m.owner().id(), 2);
}

// ---- resources ----

#[test]
fn resource_lifecycle() {
    let mut world: GameWorld = World::new();
    assert!(world.get_resource(COUNTER).is_none());
    world.add_resource(Res::Counter(5));
    assert_eq!(world.get_resource(COUNTER), Some(&Res::Counter(5)));
    // Adding the same type twice is the fatal configuration error; the
    // checked form reports it instead of storing anything.
    assert!(!world.try_add_resource(Res::Counter(9)));
    assert_eq!(world.get_resource(COUNTER), Some(&Res::Counter(5)));
    world.remove_resource(COUNTER);
    assert!(world.get_resource(COUNTER).is_none());
    // After removal the type can be added again.
    assert!(world.try_add_resource(Res::Counter(9)));
    assert_eq!(world.get_resource(COUNTER), Some(&Res::Counter(9)));
}

#[test]
fn get_resource_mut_edits_in_place() {
    let mut world: GameWorld = World::new();
    world.add_resource(Res::Flag(false));
    {
        let flag = world.get_resource_mut(FLAG).expect("resource present");
        *flag = Res::Flag(true);
    }
    assert_eq!(world.get_resource(FLAG), Some(&Res::Flag(true)));
    assert!(world.get_resource_mut(COUNTER).is_none());
}

#[test]
fn resources_are_independent_of_components() {
    let mut world: GameWorld = World::new();
    let e = world.new_entity();
    world.add_component(e, Comp::Tag(COUNTER));
    assert!(world.get_resource(COUNTER).is_none());
    world.add_resource(Res::Counter(1));
    world.remove_entity(e);
    assert_eq!(world.get_resource(COUNTER), Some(&Res::Counter(1)));
}

// ---- commands ----

#[test]
fn commands_run_in_enqueue_order() {
    let mut world: GameWorld = World::new();
    let queue = world.get_command_queue();
    queue.add_command(Command::NewEntity);
    queue.add_command(Command::AddComponent(0, Comp::Tag(1)));
    queue.add_command(Command::AddComponent(0, Comp::Tag(2)));
    world.run_commands();
    assert!(world.valid_entity(0));
    // The later insert of the same type overwrote the earlier one.
    assert_eq!(world.get_component(0, TAG), Some(&Comp::Tag(2)));
}

#[test]
fn commands_enqueued_during_drain_wait_for_next_drain() {
    let mut world: GameWorld = World::new();
    world
        .get_command_queue()
        .add_command(Command::Enqueue(Box::new(Command::NewEntity)));
    world.run_commands();
    // The inner command was only enqueued, not executed.
    assert_eq!(world.available_slots(), Vec::<usize>::new());
    world.run_commands();
    assert_eq!(world.available_slots(), vec![0]);
}

#[test]
fn drain_stops_at_first_fatal_command() {
    let mut world: GameWorld = World::new();
    let queue = world.get_command_queue();
    queue.add_command(Command::NewEntity);
    queue.add_command(Command::RemoveEntity(99));
    queue.add_command(Command::NewEntity);
    assert!(!world.try_run_commands());
    // The prefix before the fatal command ran; the rest was discarded.
    assert_eq!(world.available_slots(), vec![0]);
    assert!(world.try_run_commands());
    assert_eq!(world.available_slots(), vec![0]);
}

#[test]
fn duplicate_resource_command_is_fatal() {
    let mut world: GameWorld = World::new();
    world.add_resource(Res::Flag(false));
    world
        .get_command_queue()
        .add_command(Command::AddResource(Res::Flag(true)));
    assert!(!world.try_run_commands());
    assert_eq!(world.get_resource(FLAG), Some(&Res::Flag(false)));
}

#[test]
fn stop_command_sets_stop_flag() {
    let mut world: GameWorld = World::new();
    assert!(!world.is_stopped());
    world.get_command_queue().stop_run();
    world.run_commands();
    assert!(world.is_stopped());
}

#[test]
fn command_queue_covers_every_structural_mutation() {
    let mut world: GameWorld = World::new();
    let e = world.new_entity();
    world.add_component(e, Comp::Tag(7));
    let queue = world.get_command_queue();
    queue.new_entity();
    queue.add_resource(Res::Counter(0));
    queue.remove_component(e, TAG);
    world.run_commands();
    assert!(world.valid_entity(1));
    assert_eq!(world.get_resource(COUNTER), Some(&Res::Counter(0)));
    assert!(world.get_component(e, TAG).is_none());
    let queue = world.get_command_queue();
    queue.remove_resource(COUNTER);
    queue.remove_entity(e);
    world.run_commands();
    assert!(!world.valid_entity(e));
    assert!(world.get_resource(COUNTER).is_none());
}

#[test]
fn standalone_queue_runs_against_a_world() {
    let mut world: GameWorld = World::new();
    let mut queue: CommandQueue<Comp, Res> = CommandQueue::new();
    queue.add_command(Command::NewEntity);
    queue.add_command(Command::AddResource(Res::Flag(true)));
    queue.run_commands(&mut world);
    assert!(world.valid_entity(0));
    assert_eq!(world.get_resource(FLAG), Some(&Res::Flag(true)));
    // Enqueues made by this queue land in the world's own queue.
    let mut again: CommandQueue<Comp, Res> = CommandQueue::new();
    again.add_command(Command::Enqueue(Box::new(Command::NewEntity)));
    again.run_commands(&mut world);
    assert_eq!(world.available_slots(), vec![0]);
    world.run_commands();
    assert_eq!(world.available_slots(), vec![0, 1]);
}

// ---- scheduler and application ----

struct SetupSystem;

impl StartUpSystem<Comp, Res> for SetupSystem {
    fn run(&mut self, world: &mut World<Comp, Res>) -> bool {
        let e = world.new_entity();
        world.add_component(e, Comp::Position { x: 0, y: 0 });
        world.add_component(e, Comp::Velocity { x: 1, y: 1 });
        world.add_resource(Res::Counter(0));
        true
    }
}

enum StepSys {
    Integrate,
    CountThenStopAfter(u64),
    Double,
    AddOne,
}

impl System<Comp, Res> for StepSys {
    fn run(&mut self, world: &mut World<Comp, Res>) -> bool {
        match self {
            StepSys::Integrate => {
                let matched = world.query_components_mut(&vec![POSITION, VELOCITY]);
                for (entity, parts) in matched {
                    let (px, py) = match parts[0] {
                        Comp::Position { x, y } => (x, y),
                        _ => unreachable!(),
                    };
                    let (vx, vy) = match parts[1] {
                        Comp::Velocity { x, y } => (x, y),
                        _ => unreachable!(),
                    };
                    world.add_component(entity, Comp::Position { x: px + vx, y: py + vy });
                }
                true
            }
            StepSys::CountThenStopAfter(limit) => {
                let passes = {
                    let counter = world.get_resource_mut(COUNTER).expect("counter present");
                    let n = match counter {
                        Res::Counter(n) => *n + 1,
                        _ => unreachable!(),
                    };
                    *counter = Res::Counter(n);
                    n
                };
                passes < *limit
            }
            StepSys::Double => {
                let counter = world.get_resource_mut(COUNTER).expect("counter present");
                let n = match counter {
                    Res::Counter(n) => *n,
                    _ => unreachable!(),
                };
                *counter = Res::Counter(n * 2);
                true
            }
            StepSys::AddOne => {
                let counter = world.get_resource_mut(COUNTER).expect("counter present");
                let n = match counter {
                    Res::Counter(n) => *n,
                    _ => unreachable!(),
                };
                *counter = Res::Counter(n + 1);
                true
            }
        }
    }
}

struct FailingStartup;

impl StartUpSystem<Comp, Res> for FailingStartup {
    fn run(&mut self, world: &mut World<Comp, Res>) -> bool {
        world.add_resource(Res::Flag(true));
        false
    }
}

#[test]
fn end_to_end_one_integration_then_stop() {
    let mut app: App<Comp, Res, SetupSystem, StepSys> = App::new();
    app.add_startup_system(SetupSystem);
    app.add_system(StepSys::Integrate);
    app.add_system(StepSys::CountThenStopAfter(1));

    assert!(app.startup());
    let mut steps = 0;
    while app.step() == StepOutcome::Continue {
        steps += 1;
        assert!(steps < 100, "loop failed to stop");
    }
    // One loop iteration ran: position integrated exactly once.
    let world = app.world();
    let (e, parts) = {
        let m = world.query_single(&vec![POSITION]).expect("entity exists");
        (m.0, m.1)
    };
    assert_eq!(parts[0], Comp::Position { x: 1, y: 1 });
    assert_eq!(counter_of(world), 1);
    // The loop is over: another step integrates nothing.
    assert_eq!(app.step(), StepOutcome::Stopped);
    assert_eq!(
        app.world().get_component(e, POSITION),
        Some(&Comp::Position { x: 1, y: 1 })
    );
}

#[test]
fn systems_run_in_registration_order() {
    let mut app: App<Comp, Res, SetupSystem, StepSys> = App::new();
    app.add_startup_system(SetupSystem);
    // (0 * 2) + 1 = 1; the other order would give 2.
    app.add_system(StepSys::Double);
    app.add_system(StepSys::AddOne);
    app.add_system(StepSys::CountThenStopAfter(0));
    assert!(app.startup());
    // Counter resource holds 0 + the pass counter updates; isolate by
    // reading after exactly one pass.
    let _ = app.step();
    // Double then AddOne on 0, then the stopper incremented once.
    assert_eq!(counter_of(app.world()), 2);
}

#[test]
fn failing_startup_skips_main_loop() {
    let mut app: App<Comp, Res, FailingStartup, StepSys> = App::new();
    app.add_startup_system(FailingStartup);
    app.add_system(StepSys::Integrate);
    assert!(!app.startup());
    assert!(!app.running());
    assert_eq!(app.step(), StepOutcome::Stopped);
    // The failing startup routine still ran before signalling stop.
    assert_eq!(app.world().get_resource(FLAG), Some(&Res::Flag(true)));
}

#[test]
fn stop_command_ends_next_step() {
    let mut app: App<Comp, Res, SetupSystem, StepSys> = App::new();
    app.add_startup_system(SetupSystem);
    app.add_system(StepSys::Integrate);
    assert!(app.startup());
    app.world_mut()
        .get_command_queue()
        .add_command(Command::StopRun);
    // The drain of this step executes the stop command; the step reports
    // the stop.
    assert_eq!(app.step(), StepOutcome::Stopped);
    assert!(!app.running());
}

#[test]
fn fatal_command_during_step_reports_fault() {
    let mut app: App<Comp, Res, SetupSystem, StepSys> = App::new();
    app.add_startup_system(SetupSystem);
    assert!(app.startup());
    app.world_mut()
        .get_command_queue()
        .add_command(Command::RemoveEntity(1000));
    assert_eq!(app.step(), StepOutcome::CommandFault);
    assert!(!app.running());
}
