use sakamata::vec2::{
    clamp128, cos_deg, dist2_of, isqrt, normalize, rotate, sin_deg, tdiv_i64, Vec2, MILLI,
    WORLD_LIMIT,
};

#[test]
fn sine_exact_values() {
    assert_eq!(sin_deg(0), 0);
    assert_eq!(sin_deg(30), 500);
    assert_eq!(sin_deg(90), 1000);
    assert_eq!(sin_deg(180), 0);
    assert_eq!(sin_deg(-30), -500);
    assert_eq!(sin_deg(-90), -1000);
}

#[test]
fn cosine_exact_values() {
    assert_eq!(cos_deg(0), 1000);
    assert_eq!(cos_deg(60), 500);
    assert_eq!(cos_deg(90), 0);
    assert_eq!(cos_deg(-60), 500);
    assert_eq!(cos_deg(180), -1000);
    assert_eq!(cos_deg(-180), -1000);
}

#[test]
fn sine_bounded_everywhere() {
    let mut d: i64 = -180;
    while d <= 180 {
        let s = sin_deg(d);
        let c = cos_deg(d);
        assert!(-1000 <= s && s <= 1000);
        assert!(-1000 <= c && c <= 1000);
        d += 1;
    }
}

#[test]
fn isqrt_exact_values() {
    assert_eq!(isqrt(0), 0);
    assert_eq!(isqrt(1), 1);
    assert_eq!(isqrt(8), 2);
    assert_eq!(isqrt(9), 3);
    assert_eq!(isqrt(10), 3);
    assert_eq!(isqrt(1_000_000), 1000);
    assert_eq!(isqrt(999_999), 999);
    assert_eq!(isqrt(9_000_000_000_000_000_000), 3_000_000_000);
}

#[test]
fn squared_distance_three_four_five() {
    let a = Vec2 { x: 0, y: 0 };
    let b = Vec2 { x: 3000, y: 4000 };
    assert_eq!(dist2_of(a, b), 25_000_000);
    assert_eq!(dist2_of(b, a), 25_000_000);
}

#[test]
fn normalize_three_four_five() {
    let v = Vec2 { x: 3000, y: 4000 };
    let n = normalize(v);
    assert_eq!(n, Vec2 { x: 600, y: 800 });
}

#[test]
fn normalize_zero_vector_is_zero() {
    let n = normalize(Vec2 { x: 0, y: 0 });
    assert_eq!(n, Vec2 { x: 0, y: 0 });
}

#[test]
fn rotate_quarter_turn() {
    let v = Vec2 { x: 1000, y: 0 };
    assert_eq!(rotate(v, 90), Vec2 { x: 0, y: 1000 });
    assert_eq!(rotate(v, -90), Vec2 { x: 0, y: -1000 });
    assert_eq!(rotate(v, 0), Vec2 { x: 1000, y: 0 });
}

#[test]
fn truncating_division_rounds_toward_zero() {
    assert_eq!(tdiv_i64(7, 2), 3);
    assert_eq!(tdiv_i64(-7, 2), -3);
    assert_eq!(tdiv_i64(6, 3), 2);
    assert_eq!(tdiv_i64(-6, 3), -2);
    assert_eq!(tdiv_i64(0, 5), 0);
}

#[test]
fn clamping_into_symmetric_interval() {
    assert_eq!(clamp128(50, 100), 50);
    assert_eq!(clamp128(-250, 100), -100);
    assert_eq!(clamp128(250, 100), 100);
    assert_eq!(clamp128(i128::from(i64::MAX) * 4, WORLD_LIMIT), WORLD_LIMIT);
    assert_eq!(MILLI, 1000);
}
