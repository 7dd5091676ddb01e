use sakamata::movement::{boid_force, BoidParams, Movement, NeighEntry};
use sakamata::rng::SimRng;
use sakamata::vec2::Vec2;

fn plain_movement() -> Movement {
    Movement {
        coherence: 0,
        alignment: 0,
        separation: 0,
        randomness: 0,
        tracking: 0,
        wander_angle: 10,
        target: None,
        speed_scale: 1000,
    }
}

#[test]
fn movement_default_matches_reference() {
    let m = Movement::default();
    assert_eq!(m.coherence, 1000);
    assert_eq!(m.alignment, 1000);
    assert_eq!(m.separation, 2000);
    assert_eq!(m.randomness, 1000);
    assert_eq!(m.tracking, 1000);
    assert_eq!(m.wander_angle, 10);
    assert_eq!(m.target, None);
    assert_eq!(m.speed_scale, 1000);
}

#[test]
fn boid_params_default_matches_reference() {
    let p = BoidParams::default();
    assert_eq!(p.coherence, 1000);
    assert_eq!(p.alignment, 1000);
    assert_eq!(p.separation, 1000);
    assert_eq!(p.randomness, 1000);
    assert_eq!(p.view_range, 50_000);
}

#[test]
fn isolated_actor_receives_no_steering() {
    // An empty neighbour set short-circuits the whole force to zero and
    // draws nothing from the generator.
    let mut rng = SimRng::new(5);
    let entries: Vec<NeighEntry> = vec![];
    let m = Movement::default();
    let f = boid_force(
        Vec2 { x: 100, y: 200 },
        Vec2 { x: 3000, y: 4000 },
        &m,
        &entries,
        Some(Vec2 { x: 900_000, y: 0 }),
        1000,
        &mut rng,
    );
    assert_eq!(f, Vec2 { x: 0, y: 0 });
    assert_eq!(rng.state, 5);
}

#[test]
fn stationary_actor_draws_no_wander() {
    let mut rng = SimRng::new(5);
    let entries: Vec<NeighEntry> = vec![Some((Vec2 { x: 0, y: 0 }, Vec2 { x: 0, y: 0 }))];
    let m = plain_movement();
    boid_force(Vec2 { x: 0, y: 0 }, Vec2 { x: 0, y: 0 }, &m, &entries, None, 1000, &mut rng);
    assert_eq!(rng.state, 5);
}

#[test]
fn moving_actor_with_neighbours_draws_once() {
    let mut rng = SimRng::new(5);
    let mut expect = SimRng::new(5);
    expect.next_raw();
    let entries: Vec<NeighEntry> = vec![Some((Vec2 { x: 0, y: 0 }, Vec2 { x: 0, y: 0 }))];
    let m = plain_movement();
    boid_force(Vec2 { x: 0, y: 0 }, Vec2 { x: 1000, y: 0 }, &m, &entries, None, 1000, &mut rng);
    assert_eq!(rng.state, expect.state);
}

#[test]
fn wander_sub_force_is_reproducible_from_a_seed() {
    // Equal seeds and equal inputs give equal forces and equal states.
    let entries: Vec<NeighEntry> = vec![Some((Vec2 { x: 20_000, y: 0 }, Vec2 { x: 500, y: 500 }))];
    let m = Movement::default();
    let mut r1 = SimRng::new(123_456);
    let mut r2 = SimRng::new(123_456);
    let f1 = boid_force(Vec2 { x: 0, y: 0 }, Vec2 { x: 9000, y: 100 }, &m, &entries, None, 16, &mut r1);
    let f2 = boid_force(Vec2 { x: 0, y: 0 }, Vec2 { x: 9000, y: 100 }, &m, &entries, None, 16, &mut r2);
    assert_eq!(f1, f2);
    assert_eq!(r1.state, r2.state);
    // And the next computation still agrees.
    let g1 = boid_force(Vec2 { x: 0, y: 0 }, Vec2 { x: 9000, y: 100 }, &m, &entries, None, 16, &mut r1);
    let g2 = boid_force(Vec2 { x: 0, y: 0 }, Vec2 { x: 9000, y: 100 }, &m, &entries, None, 16, &mut r2);
    assert_eq!(g1, g2);
}

#[test]
fn cohesion_pulls_toward_the_centroid() {
    // One neighbour 10 units ahead, unit cohesion weight only, a
    // stationary actor: force = 10 units * gain * speed * dt / scale.
    let entries: Vec<NeighEntry> = vec![Some((Vec2 { x: 10_000, y: 0 }, Vec2 { x: 0, y: 0 }))];
    let mut m = plain_movement();
    m.coherence = 1000;
    let mut rng = SimRng::new(1);
    let f = boid_force(Vec2 { x: 0, y: 0 }, Vec2 { x: 0, y: 0 }, &m, &entries, None, 1000, &mut rng);
    assert_eq!(f, Vec2 { x: 10_000_000, y: 0 });
}

#[test]
fn separation_pushes_away_from_a_neighbour() {
    // One neighbour 10 units ahead, unit separation weight only: the
    // repulsion is a unit vector pointing back.
    let entries: Vec<NeighEntry> = vec![Some((Vec2 { x: 10_000, y: 0 }, Vec2 { x: 0, y: 0 }))];
    let mut m = plain_movement();
    m.separation = 1000;
    let mut rng = SimRng::new(1);
    let f = boid_force(Vec2 { x: 0, y: 0 }, Vec2 { x: 0, y: 0 }, &m, &entries, None, 1000, &mut rng);
    assert_eq!(f, Vec2 { x: -1_000_000, y: 0 });
}

#[test]
fn separation_tolerates_coincident_positions() {
    // A neighbour at the exact same position: the distance floor keeps
    // the force finite (and here the offset is zero anyway).
    let entries: Vec<NeighEntry> = vec![Some((Vec2 { x: 0, y: 0 }, Vec2 { x: 0, y: 0 }))];
    let mut m = plain_movement();
    m.separation = 1000;
    let mut rng = SimRng::new(1);
    let f = boid_force(Vec2 { x: 0, y: 0 }, Vec2 { x: 0, y: 0 }, &m, &entries, None, 1000, &mut rng);
    assert_eq!(f, Vec2 { x: 0, y: 0 });
}

#[test]
fn tracking_steers_toward_the_target() {
    let entries: Vec<NeighEntry> = vec![Some((Vec2 { x: 0, y: 0 }, Vec2 { x: 0, y: 0 }))];
    let mut m = plain_movement();
    m.tracking = 1000;
    let mut rng = SimRng::new(1);
    let f = boid_force(
        Vec2 { x: 0, y: 0 },
        Vec2 { x: 0, y: 0 },
        &m,
        &entries,
        Some(Vec2 { x: 0, y: 20_000 }),
        1000,
        &mut rng,
    );
    assert_eq!(f, Vec2 { x: 0, y: 20_000_000 });
}

#[test]
fn stale_neighbour_entries_are_skipped() {
    // A stale entry contributes nothing but still counts in the
    // averaging divisor: with one resolved and one stale neighbour the
    // centroid pull halves.
    let one: Vec<NeighEntry> = vec![Some((Vec2 { x: 10_000, y: 0 }, Vec2 { x: 0, y: 0 }))];
    let with_stale: Vec<NeighEntry> = vec![Some((Vec2 { x: 10_000, y: 0 }, Vec2 { x: 0, y: 0 })), None];
    let mut m = plain_movement();
    m.coherence = 1000;
    let mut rng = SimRng::new(1);
    let f1 = boid_force(Vec2 { x: 0, y: 0 }, Vec2 { x: 0, y: 0 }, &m, &one, None, 1000, &mut rng);
    let f2 = boid_force(Vec2 { x: 0, y: 0 }, Vec2 { x: 0, y: 0 }, &m, &with_stale, None, 1000, &mut rng);
    assert_eq!(f1, Vec2 { x: 10_000_000, y: 0 });
    assert_eq!(f2, Vec2 { x: 5_000_000, y: 0 });
}
