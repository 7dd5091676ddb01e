use sakamata::hunt::{
    hungry_score, hunt_step, pick_behavior, HuntState, EAT_RANGE, GIVE_UP_RANGE, HUNT_THRESHOLD,
};
use sakamata::vec2::Vec2;

#[test]
fn scorer_is_identity() {
    assert_eq!(hungry_score(0), 0);
    assert_eq!(hungry_score(734_210), 734_210);
}

#[test]
fn picker_rejects_scores_at_or_below_threshold() {
    assert_eq!(pick_behavior(&vec![], HUNT_THRESHOLD), None);
    assert_eq!(pick_behavior(&vec![400_000], HUNT_THRESHOLD), None);
    assert_eq!(pick_behavior(&vec![HUNT_THRESHOLD], HUNT_THRESHOLD), None);
}

#[test]
fn picker_takes_first_of_the_maximal_scores() {
    assert_eq!(pick_behavior(&vec![600_000], HUNT_THRESHOLD), Some(0));
    assert_eq!(
        pick_behavior(&vec![600_000, 700_000, 700_000], HUNT_THRESHOLD),
        Some(1)
    );
    assert_eq!(pick_behavior(&vec![600_000, 500_000], HUNT_THRESHOLD), Some(0));
}

#[test]
fn requested_picks_first_visible_prey() {
    let o = hunt_step(
        HuntState::Requested,
        true,
        Some(42),
        None,
        None,
        Vec2 { x: 0, y: 0 },
    );
    assert_eq!(o.state, HuntState::Executing);
    assert_eq!(o.target, Some(42));
    assert!(!o.ate);
    assert_eq!(o.despawn, None);
}

#[test]
fn requested_without_prey_stays_requested() {
    let o = hunt_step(HuntState::Requested, true, None, None, None, Vec2 { x: 0, y: 0 });
    assert_eq!(o.state, HuntState::Requested);
    assert!(!o.ate);
}

#[test]
fn requested_without_hunger_does_nothing() {
    let o = hunt_step(
        HuntState::Requested,
        false,
        Some(42),
        None,
        None,
        Vec2 { x: 0, y: 0 },
    );
    assert_eq!(o.state, HuntState::Requested);
    assert_eq!(o.target, None);
}

#[test]
fn executing_within_eat_range_succeeds() {
    // Prey 5 units away, inside the 10 unit eating range.
    let o = hunt_step(
        HuntState::Executing,
        true,
        None,
        Some(9),
        Some(Vec2 { x: 5_000, y: 0 }),
        Vec2 { x: 0, y: 0 },
    );
    assert_eq!(o.state, HuntState::Success);
    assert_eq!(o.target, None);
    assert!(o.ate);
    assert_eq!(o.despawn, Some(9));
    assert_eq!(EAT_RANGE, 10_000);
}

#[test]
fn executing_beyond_give_up_range_cancels() {
    // Prey 400 units away, beyond the 300 unit give-up range.
    let o = hunt_step(
        HuntState::Executing,
        true,
        None,
        Some(9),
        Some(Vec2 { x: 400_000, y: 0 }),
        Vec2 { x: 0, y: 0 },
    );
    assert_eq!(o.state, HuntState::Cancelled);
    assert_eq!(o.target, None);
    assert!(!o.ate);
    assert_eq!(o.despawn, None);
    assert_eq!(GIVE_UP_RANGE, 300_000);
}

#[test]
fn executing_between_ranges_keeps_pursuing() {
    let o = hunt_step(
        HuntState::Executing,
        true,
        None,
        Some(9),
        Some(Vec2 { x: 100_000, y: 0 }),
        Vec2 { x: 0, y: 0 },
    );
    assert_eq!(o.state, HuntState::Executing);
    assert_eq!(o.target, Some(9));
    assert!(!o.ate);
}

#[test]
fn executing_with_stale_target_cancels() {
    // The target identity no longer resolves.
    let o = hunt_step(
        HuntState::Executing,
        true,
        None,
        Some(9),
        None,
        Vec2 { x: 0, y: 0 },
    );
    assert_eq!(o.state, HuntState::Cancelled);
    assert_eq!(o.target, None);
    assert!(!o.ate);
    // No target at all cancels as well.
    let o = hunt_step(HuntState::Executing, true, None, None, None, Vec2 { x: 0, y: 0 });
    assert_eq!(o.state, HuntState::Cancelled);
}

#[test]
fn terminal_states_rerequest_while_hungry() {
    let o = hunt_step(HuntState::Success, true, None, None, None, Vec2 { x: 0, y: 0 });
    assert_eq!(o.state, HuntState::Requested);
    let o = hunt_step(HuntState::Cancelled, true, None, None, None, Vec2 { x: 0, y: 0 });
    assert_eq!(o.state, HuntState::Requested);
    let o = hunt_step(HuntState::Success, false, None, None, None, Vec2 { x: 0, y: 0 });
    assert_eq!(o.state, HuntState::Success);
}
