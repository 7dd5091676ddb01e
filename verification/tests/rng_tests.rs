use sakamata::rng::SimRng;

#[test]
fn same_seed_same_sequence() {
    let mut a = SimRng::new(42);
    let mut b = SimRng::new(42);
    for _ in 0..100 {
        assert_eq!(a.next_raw(), b.next_raw());
    }
}

#[test]
fn draws_respect_their_bounds() {
    let mut r = SimRng::new(9);
    for _ in 0..1000 {
        let d = r.gen_below(7);
        assert!(d < 7);
        let v = r.gen_range(10, 20);
        assert!(10 <= v && v <= 20);
    }
}

#[test]
fn single_value_range_is_constant() {
    let mut r = SimRng::new(9);
    for _ in 0..10 {
        assert_eq!(r.gen_range(5, 5), 5);
    }
}

#[test]
fn sequence_varies_over_draws() {
    let mut r = SimRng::new(1);
    let mut seen_distinct = false;
    let first = r.gen_below(1000);
    for _ in 0..50 {
        if r.gen_below(1000) != first {
            seen_distinct = true;
        }
    }
    assert!(seen_distinct);
}
