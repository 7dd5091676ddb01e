use sakamata::hunger::HUNGER_SCALE;
use sakamata::hunt::HuntState;
use sakamata::movement::{BoidParams, Movement, Sight};
use sakamata::orca::{Gender, Type};
use sakamata::sim::{
    find_index, Command, DespawnReason, RunSimEvent, Simulation, SpawnKind, SpawnRequest,
};
use sakamata::vec2::{Vec2, WORLD_LIMIT};

fn orca_request(pos: Vec2, hunger: u32, pod_id: Option<usize>) -> SpawnRequest {
    SpawnRequest {
        pos,
        vel: Vec2 { x: 10_000, y: 0 },
        sight: Sight { view_angle: 90, view_range: 50_000 },
        movement: Movement::default(),
        hunger,
        kind: SpawnKind::Orca {
            name: String::from("Taku"),
            gender: Gender::Male,
            age: 12,
            mass: 2500,
            orca_type: Type::Resident,
            pod_id,
        },
    }
}

fn fish_request(pos: Vec2) -> SpawnRequest {
    SpawnRequest {
        pos,
        vel: Vec2 { x: 0, y: 0 },
        sight: Sight { view_angle: 90, view_range: 50_000 },
        movement: Movement::default(),
        hunger: 0,
        kind: SpawnKind::Fish,
    }
}

fn run_config() -> RunSimEvent {
    RunSimEvent {
        enable_orca: true,
        pod_count: 2,
        pod_size_min: 3,
        pod_size_max: 3,
        enable_fish: true,
        fish_count: 5,
        orca_params: BoidParams::default(),
        fish_params: BoidParams::default(),
        pod_names: vec![String::from("Azure"), String::from("Boreal")],
        male_names: vec![String::from("Taku"), String::from("Nodd")],
        female_names: vec![String::from("Mara"), String::from("Luna")],
    }
}

#[test]
fn mutual_perception_within_range_only() {
    // Two pod members at distance 5 with view range 50 see each other;
    // a third at distance 60 and 65 appears in neither list.
    let mut sim = Simulation::new(1);
    sim.commands.push(Command::AddPod { name: String::from("Azure") });
    sim.commands.push(Command::Spawn(orca_request(Vec2 { x: 0, y: 0 }, 0, Some(0))));
    sim.commands.push(Command::Spawn(orca_request(Vec2 { x: 5_000, y: 0 }, 0, Some(0))));
    sim.commands.push(Command::Spawn(orca_request(Vec2 { x: 65_000, y: 0 }, 0, Some(0))));
    sim.apply_commands();
    assert_eq!(sim.population(), 3);
    assert_eq!(sim.pods.0[0].members, vec![0, 1, 2]);
    sim.perception_phase();
    assert_eq!(sim.neighbours[0], vec![1]);
    assert_eq!(sim.neighbours[1], vec![0]);
    assert_eq!(sim.neighbours[2], Vec::<u64>::new());
}

#[test]
fn orcas_of_different_pods_are_strangers() {
    let mut sim = Simulation::new(1);
    sim.commands.push(Command::AddPod { name: String::from("Azure") });
    sim.commands.push(Command::AddPod { name: String::from("Boreal") });
    sim.commands.push(Command::Spawn(orca_request(Vec2 { x: 0, y: 0 }, 0, Some(0))));
    sim.commands.push(Command::Spawn(orca_request(Vec2 { x: 5_000, y: 0 }, 0, Some(1))));
    sim.commands.push(Command::Spawn(orca_request(Vec2 { x: 6_000, y: 0 }, 0, None)));
    sim.apply_commands();
    sim.perception_phase();
    assert_eq!(sim.neighbours[0], Vec::<u64>::new());
    assert_eq!(sim.neighbours[1], Vec::<u64>::new());
    assert_eq!(sim.neighbours[2], Vec::<u64>::new());
}

#[test]
fn predators_see_prey_in_range() {
    let mut sim = Simulation::new(1);
    sim.commands.push(Command::Spawn(orca_request(Vec2 { x: 0, y: 0 }, 0, None)));
    sim.commands.push(Command::Spawn(fish_request(Vec2 { x: 30_000, y: 0 })));
    sim.commands.push(Command::Spawn(fish_request(Vec2 { x: 70_000, y: 0 })));
    sim.apply_commands();
    sim.perception_phase();
    assert_eq!(sim.prey[0], vec![1]);
    // Fish have no prey list of their own.
    assert_eq!(sim.prey[1], Vec::<u64>::new());
    // Fish school with the other fish in range.
    assert_eq!(sim.neighbours[1], vec![2]);
    assert_eq!(sim.neighbours[2], vec![1]);
}

#[test]
fn hunt_reaches_prey_and_eats_it_exactly_once() {
    // A hungry predator with one prey within eating range: Requested
    // goes to Executing, then to Success on the next tick; hunger drops
    // by exactly the replenishment amount and the prey is queued for
    // despawn exactly once.
    let mut sim = Simulation::new(1);
    sim.commands.push(Command::Spawn(orca_request(Vec2 { x: 0, y: 0 }, 700_000, None)));
    sim.commands.push(Command::Spawn(fish_request(Vec2 { x: 5_000, y: 0 })));
    sim.apply_commands();
    assert_eq!(sim.actors[0].hunt, HuntState::Requested);
    sim.tick(0);
    assert_eq!(sim.actors[0].hunt, HuntState::Executing);
    assert_eq!(sim.actors[0].movement.target, Some(1));
    assert_eq!(sim.commands.len(), 0);
    sim.tick(0);
    assert_eq!(sim.actors[0].hunt, HuntState::Success);
    assert_eq!(sim.actors[0].movement.target, None);
    assert_eq!(sim.actors[0].hunger.0, 690_000);
    let eaten: Vec<&Command> = sim
        .commands
        .iter()
        .filter(|c| matches!(c, Command::Despawn { id: 1, reason: DespawnReason::Eaten }))
        .collect();
    assert_eq!(eaten.len(), 1);
    assert_eq!(sim.commands.len(), 1);
    sim.apply_commands();
    assert_eq!(sim.population(), 1);
    assert_eq!(sim.orca_count(), 1);
    // Still hungry: the pursuit re-enters Requested next tick.
    sim.tick(0);
    assert_eq!(sim.actors[0].hunt, HuntState::Requested);
}

#[test]
fn hunt_gives_up_on_distant_prey_without_eating() {
    // Prey walks beyond the give-up range while Executing: the pursuit
    // is cancelled and hunger is not modified.
    let mut sim = Simulation::new(1);
    sim.commands.push(Command::Spawn(orca_request(Vec2 { x: 0, y: 0 }, 700_000, None)));
    sim.commands.push(Command::Spawn(fish_request(Vec2 { x: 40_000, y: 0 })));
    sim.apply_commands();
    sim.tick(0);
    assert_eq!(sim.actors[0].hunt, HuntState::Executing);
    assert_eq!(sim.actors[0].movement.target, Some(1));
    // The prey flees to 400 units away.
    sim.set_kinematics(1, Vec2 { x: 400_000, y: 0 }, Vec2 { x: 0, y: 0 });
    sim.tick(0);
    assert_eq!(sim.actors[0].hunt, HuntState::Cancelled);
    assert_eq!(sim.actors[0].movement.target, None);
    assert_eq!(sim.actors[0].hunger.0, 700_000);
    assert_eq!(sim.commands.len(), 0);
    assert_eq!(sim.population(), 2);
}

#[test]
fn hunt_cancels_when_the_prey_is_gone() {
    let mut sim = Simulation::new(1);
    sim.commands.push(Command::Spawn(orca_request(Vec2 { x: 0, y: 0 }, 700_000, None)));
    sim.commands.push(Command::Spawn(fish_request(Vec2 { x: 40_000, y: 0 })));
    sim.apply_commands();
    sim.tick(0);
    assert_eq!(sim.actors[0].hunt, HuntState::Executing);
    // The prey despawns between perception and the next hunt step.
    sim.commands.push(Command::Despawn { id: 1, reason: DespawnReason::Eaten });
    sim.apply_commands();
    sim.tick(0);
    assert_eq!(sim.actors[0].hunt, HuntState::Cancelled);
    assert_eq!(sim.actors[0].movement.target, None);
}

#[test]
fn starvation_queues_a_despawn_for_that_actor_only() {
    // hunger 0.999, one second-equivalent tick, rate 0.001: the hunger
    // breaches 1.0 and a despawn request is queued for that actor and
    // for no other.
    let mut sim = Simulation::new(1);
    sim.commands.push(Command::Spawn(orca_request(Vec2 { x: 0, y: 0 }, 999_000, None)));
    sim.commands.push(Command::Spawn(orca_request(Vec2 { x: 300_000, y: 0 }, 100_000, None)));
    sim.commands.push(Command::Spawn(fish_request(Vec2 { x: 600_000, y: 0 })));
    sim.apply_commands();
    sim.tick(1000);
    assert_eq!(sim.actors[0].hunger.0, HUNGER_SCALE);
    assert_eq!(sim.actors[1].hunger.0, 101_000);
    assert_eq!(sim.commands.len(), 1);
    assert!(matches!(
        sim.commands[0],
        Command::Despawn { id: 0, reason: DespawnReason::Starvation }
    ));
    sim.apply_commands();
    assert_eq!(sim.population(), 2);
    assert_eq!(find_index(&sim.actors, 0), None);
}

#[test]
fn restart_is_transactional() {
    // Despawn-all then respawn N in one commit: exactly N actors
    // remain and no pre-restart identity resolves.
    let mut sim = Simulation::new(1);
    sim.commands.push(Command::Spawn(orca_request(Vec2 { x: 0, y: 0 }, 0, None)));
    sim.commands.push(Command::Spawn(fish_request(Vec2 { x: 10_000, y: 0 })));
    sim.apply_commands();
    assert_eq!(sim.population(), 2);
    sim.commands.push(Command::DespawnAll);
    for k in 0..3 {
        sim.commands.push(Command::Spawn(fish_request(Vec2 { x: k * 1000, y: 0 })));
    }
    sim.apply_commands();
    assert_eq!(sim.population(), 3);
    for a in sim.actors.iter() {
        assert!(a.id >= 2);
    }
    assert_eq!(find_index(&sim.actors, 0), None);
    assert_eq!(find_index(&sim.actors, 1), None);
    assert_eq!(sim.pods.0.len(), 0);
}

#[test]
fn run_spawns_the_requested_populations() {
    let mut sim = Simulation::new(77);
    let cfg = run_config();
    sim.run(&cfg);
    sim.apply_commands();
    // Two pods of exactly three (min == max), plus five fish.
    assert_eq!(sim.population(), 11);
    assert_eq!(sim.orca_count(), 6);
    assert_eq!(sim.pods.0.len(), 2);
    assert_eq!(sim.pods.0[0].members.len(), 3);
    assert_eq!(sim.pods.0[1].members.len(), 3);
    // Weights come from the request's parameter bundle.
    for a in sim.actors.iter() {
        assert_eq!(a.movement.coherence, 1000);
        assert_eq!(a.movement.tracking, 10_000);
        assert_eq!(a.movement.wander_angle, 20);
        assert_eq!(a.sight.view_range, 50_000);
        assert!(a.hunger.0 < 300_000);
    }
}

#[test]
fn inverted_pod_size_range_is_clamped() {
    // A minimum above the maximum is clamped down to the maximum
    // before the run starts.
    let mut sim = Simulation::new(3);
    let mut cfg = run_config();
    cfg.pod_count = 1;
    cfg.pod_size_min = 10;
    cfg.pod_size_max = 2;
    cfg.enable_fish = false;
    sim.run(&cfg);
    sim.apply_commands();
    assert_eq!(sim.population(), 2);
}

#[test]
fn a_fixed_seed_reproduces_the_whole_run() {
    // Same seed, same request: the spawned population, every wander
    // draw and every force are identical across two simulations.
    let cfg = run_config();
    let mut s1 = Simulation::new(2024);
    let mut s2 = Simulation::new(2024);
    s1.run(&cfg);
    s2.run(&cfg);
    s1.apply_commands();
    s2.apply_commands();
    for _ in 0..3 {
        s1.tick(16);
        s2.tick(16);
    }
    assert_eq!(s1.rng.state, s2.rng.state);
    assert_eq!(s1.population(), s2.population());
    for i in 0..s1.population() {
        assert_eq!(s1.actors[i].id, s2.actors[i].id);
        assert_eq!(s1.actors[i].pos, s2.actors[i].pos);
        assert_eq!(s1.actors[i].vel, s2.actors[i].vel);
        assert_eq!(s1.actors[i].force, s2.actors[i].force);
        assert_eq!(s1.actors[i].hunger.0, s2.actors[i].hunger.0);
    }
}

#[test]
fn different_seeds_diverge() {
    let cfg = run_config();
    let mut s1 = Simulation::new(1);
    let mut s2 = Simulation::new(2);
    s1.run(&cfg);
    s2.run(&cfg);
    s1.apply_commands();
    s2.apply_commands();
    let mut same = true;
    for i in 0..s1.population() {
        if s1.actors[i].pos != s2.actors[i].pos {
            same = false;
        }
    }
    assert!(!same);
}

#[test]
fn despawn_of_a_missing_identity_is_skipped() {
    let mut sim = Simulation::new(1);
    sim.commands.push(Command::Spawn(fish_request(Vec2 { x: 0, y: 0 })));
    sim.commands.push(Command::Despawn { id: 99, reason: DespawnReason::Reset });
    sim.apply_commands();
    assert_eq!(sim.population(), 1);
}

#[test]
fn spawn_with_spent_identity_space_is_dropped() {
    let mut sim = Simulation::new(1);
    sim.next_id = u64::MAX;
    sim.commands.push(Command::Spawn(fish_request(Vec2 { x: 0, y: 0 })));
    sim.apply_commands();
    assert_eq!(sim.population(), 0);
    assert_eq!(sim.next_id, u64::MAX);
}

#[test]
fn integrator_interface_clamps_and_consumes() {
    let mut sim = Simulation::new(1);
    sim.commands.push(Command::Spawn(fish_request(Vec2 { x: 0, y: 0 })));
    sim.apply_commands();
    // A write-back far outside the world is clamped to the bound.
    sim.set_kinematics(0, Vec2 { x: i64::MAX, y: -i64::MAX }, Vec2 { x: 0, y: 0 });
    assert_eq!(sim.actors[0].pos, Vec2 { x: WORLD_LIMIT, y: -WORLD_LIMIT });
    // Taking the force hands it out once and zeroes it.
    sim.actors[0].force = Vec2 { x: 123, y: -456 };
    let f = sim.take_force(0);
    assert_eq!(f, Vec2 { x: 123, y: -456 });
    assert_eq!(sim.actors[0].force, Vec2 { x: 0, y: 0 });
}

#[test]
fn stale_neighbour_identity_is_tolerated() {
    // A neighbour list naming a removed actor is skipped, never fatal.
    let mut sim = Simulation::new(1);
    sim.commands.push(Command::Spawn(fish_request(Vec2 { x: 0, y: 0 })));
    sim.apply_commands();
    sim.neighbours[0] = vec![99];
    sim.force_phase(16);
    assert_eq!(sim.actors[0].force, Vec2 { x: 0, y: 0 });
}

#[test]
fn facing_follows_the_velocity() {
    let mut sim = Simulation::new(1);
    sim.commands.push(Command::Spawn(orca_request(Vec2 { x: 0, y: 0 }, 0, None)));
    sim.apply_commands();
    // Spawn velocity is 10 units/s along x.
    assert_eq!(sim.actors[0].facing, Vec2 { x: 1000, y: 0 });
    sim.set_kinematics(0, Vec2 { x: 0, y: 0 }, Vec2 { x: 0, y: -7000 });
    sim.tick(16);
    assert_eq!(sim.actors[0].facing, Vec2 { x: 0, y: -1000 });
}

#[test]
fn clock_accumulates_tick_time() {
    let mut sim = Simulation::new(1);
    sim.tick(16);
    sim.tick(16);
    assert_eq!(sim.sim_time(), 32);
}
