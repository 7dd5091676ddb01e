use sakamata::hunger::{Hunger, EAT_AMOUNT, HUNGER_RATE, HUNGER_SCALE};
use sakamata::rng::SimRng;

#[test]
fn hunger_grows_with_time() {
    let mut h = Hunger::new(0);
    let starved = h.tick(1000);
    assert!(!starved);
    assert_eq!(h.0, 1000);
    let starved = h.tick(2500);
    assert!(!starved);
    assert_eq!(h.0, 3500);
}

#[test]
fn hunger_rate_is_millesimal_per_second() {
    // 0.001 of the scale per second-equivalent unit.
    assert_eq!(HUNGER_RATE * 1000, HUNGER_SCALE / 1000 * 1000);
    let mut h = Hunger::new(0);
    h.tick(1_000_000);
    assert_eq!(h.0, HUNGER_SCALE);
}

#[test]
fn hunger_breach_reports_starvation_and_clamps() {
    let mut h = Hunger::new(999_000);
    let starved = h.tick(1000);
    assert!(starved);
    assert_eq!(h.0, HUNGER_SCALE);
    // Still starving on the next tick, never above the bound.
    let starved = h.tick(1);
    assert!(starved);
    assert_eq!(h.0, HUNGER_SCALE);
}

#[test]
fn eating_replenishes_exactly() {
    let mut h = Hunger::new(500_000);
    h.eat(EAT_AMOUNT);
    assert_eq!(h.0, 490_000);
}

#[test]
fn eating_clamps_at_sated() {
    let mut h = Hunger::new(5_000);
    h.eat(EAT_AMOUNT);
    assert_eq!(h.0, 0);
    h.eat(1);
    assert_eq!(h.0, 0);
}

#[test]
fn hunger_stays_bounded_under_random_events() {
    // Random sequences of ticks and feedings never leave [0, 1].
    let mut rng = SimRng::new(7);
    let mut h = Hunger::new(300_000);
    for _ in 0..10_000 {
        if rng.gen_below(3) == 0 {
            h.eat(rng.gen_below(50_000) as u32);
        } else {
            h.tick(rng.gen_below(500_000));
        }
        assert!(h.0 <= HUNGER_SCALE);
    }
}
