//! The hunt decision process.
//!
//! A two-layer utility AI: a scorer maps hunger to a desirability score
//! (the identity), and a picker selects the highest-scoring behaviour
//! strictly above a fixed activation threshold.  When hunting wins, a
//! small state machine drives one pursuit: a hungry predator picks the
//! first visible prey and tracks it, eats it within `EAT_RANGE`, and
//! abandons the pursuit beyond `GIVE_UP_RANGE` or when the prey no
//! longer resolves.  Terminal states clear the target and may re-enter
//! `Requested` on a later tick while the predator stays hungry.

use vstd::prelude::*;
use crate::vec2::{Vec2, in_world, dist2};

verus! {

/// Distance within which prey is consumed, in milli-units (10 units).
pub const EAT_RANGE: i64 = 10_000;

/// Distance beyond which a pursuit is abandoned, in milli-units
/// (300 units).
pub const GIVE_UP_RANGE: i64 = 300_000;

/// Activation threshold of the hunger score, in micro-units (0.5).
pub const HUNT_THRESHOLD: u32 = 500_000;

/// Lifecycle of one pursuit.  `Requested` doubles as the idle state.
#[derive(Clone, Copy, PartialEq, Eq, Structural, Debug)]
pub enum HuntState {
    Requested,
    Executing,
    Success,
    Cancelled,
}

/// What one hunt step decides: the next state, the new movement target,
/// whether the predator ate, and a prey identity to despawn.
#[derive(Clone, Copy, PartialEq, Eq, Structural, Debug)]
pub struct HuntOutcome {
    pub state: HuntState,
    pub target: Option<u64>,
    pub ate: bool,
    pub despawn: Option<u64>,
}

/// The hunger scorer: desirability equals the hunger value itself.
pub fn hungry_score(h: u32) -> (r: u32)
    ensures
        r == h,
{
    h
}

/// Whether the hunt behaviour is selected for this score.
pub open spec fn is_hungry(score: u32) -> bool {
    score > HUNT_THRESHOLD
}

/// The picker: the first index carrying the maximal score strictly above
/// the threshold, or nothing when no score qualifies.
pub fn pick_behavior(scores: &Vec<u32>, threshold: u32) -> (r: Option<usize>)
    ensures
        (r matches Some(i) ==> i < scores@.len() && scores@[i as int] > threshold && (forall|j: int|
            0 <= j < scores@.len() ==> scores@[j] <= scores@[i as int]) && (forall|j: int|
            0 <= j < i ==> scores@[j] < scores@[i as int])),
        (r is None ==> forall|j: int| 0 <= j < scores@.len() ==> scores@[j] <= threshold),
{
    let mut best: Option<usize> = None;
    let mut i: usize = 0;
    while i < scores.len()
        invariant
            i <= scores@.len(),
            (best matches Some(b) ==> b < i && scores@[b as int] > threshold && (forall|j: int|
                0 <= j < i ==> scores@[j] <= scores@[b as int]) && (forall|j: int|
                0 <= j < b ==> scores@[j] < scores@[b as int])),
            (best is None ==> forall|j: int| 0 <= j < i ==> scores@[j] <= threshold),
        decreases scores@.len() - i,
    {
        let s = scores[i];
        match best {
            Some(b) => {
                if s > scores[b] && s > threshold {
                    best = Some(i);
                }
            },
            None => {
                if s > threshold {
                    best = Some(i);
                }
            },
        }
        i = i + 1;
    }
    best
}

/// One step of the pursuit state machine.
///
/// Arguments are the predator's current state, whether the hunt
/// behaviour is selected this tick, the first visible prey (if any),
/// the current movement target, the target's resolved position (or
/// `None` when the identity no longer exists), and the predator's own
/// position.
pub open spec fn hunt_step_spec(
    state: HuntState,
    hungry: bool,
    first_prey: Option<u64>,
    target: Option<u64>,
    rtarget: Option<Vec2>,
    pos: Vec2,
) -> HuntOutcome {
    match state {
        HuntState::Requested => {
            if hungry {
                match first_prey {
                    Some(p) => HuntOutcome {
                        state: HuntState::Executing,
                        target: Some(p),
                        ate: false,
                        despawn: None,
                    },
                    None => HuntOutcome { state, target, ate: false, despawn: None },
                }
            } else {
                HuntOutcome { state, target, ate: false, despawn: None }
            }
        },
        HuntState::Executing => {
            match target {
                None => HuntOutcome {
                    state: HuntState::Cancelled,
                    target: None,
                    ate: false,
                    despawn: None,
                },
                Some(t) => {
                    match rtarget {
                        None => HuntOutcome {
                            state: HuntState::Cancelled,
                            target: None,
                            ate: false,
                            despawn: None,
                        },
                        Some(tp) => {
                            if dist2(pos, tp) < EAT_RANGE * EAT_RANGE {
                                HuntOutcome {
                                    state: HuntState::Success,
                                    target: None,
                                    ate: true,
                                    despawn: Some(t),
                                }
                            } else if dist2(pos, tp) > GIVE_UP_RANGE * GIVE_UP_RANGE {
                                HuntOutcome {
                                    state: HuntState::Cancelled,
                                    target: None,
                                    ate: false,
                                    despawn: None,
                                }
                            } else {
                                HuntOutcome {
                                    state: HuntState::Executing,
                                    target: Some(t),
                                    ate: false,
                                    despawn: None,
                                }
                            }
                        },
                    }
                },
            }
        },
        HuntState::Success => {
            if hungry {
                HuntOutcome { state: HuntState::Requested, target, ate: false, despawn: None }
            } else {
                HuntOutcome { state, target, ate: false, despawn: None }
            }
        },
        HuntState::Cancelled => {
            if hungry {
                HuntOutcome { state: HuntState::Requested, target, ate: false, despawn: None }
            } else {
                HuntOutcome { state, target, ate: false, despawn: None }
            }
        },
    }
}

/// One executable step of the pursuit state machine.
pub fn hunt_step(
    state: HuntState,
    hungry: bool,
    first_prey: Option<u64>,
    target: Option<u64>,
    rtarget: Option<Vec2>,
    pos: Vec2,
) -> (r: HuntOutcome)
    requires
        in_world(pos),
        (rtarget matches Some(tp) ==> in_world(tp)),
    ensures
        r == hunt_step_spec(state, hungry, first_prey, target, rtarget, pos),
{
    match state {
        HuntState::Requested => {
            if hungry {
                match first_prey {
                    Some(p) => HuntOutcome {
                        state: HuntState::Executing,
                        target: Some(p),
                        ate: false,
                        despawn: None,
                    },
                    None => HuntOutcome { state, target, ate: false, despawn: None },
                }
            } else {
                HuntOutcome { state, target, ate: false, despawn: None }
            }
        },
        HuntState::Executing => {
            match target {
                None => HuntOutcome {
                    state: HuntState::Cancelled,
                    target: None,
                    ate: false,
                    despawn: None,
                },
                Some(t) => {
                    match rtarget {
                        None => HuntOutcome {
                            state: HuntState::Cancelled,
                            target: None,
                            ate: false,
                            despawn: None,
                        },
                        Some(tp) => {
                            let d2 = crate::vec2::dist2_of(pos, tp);
                            if d2 < EAT_RANGE * EAT_RANGE {
                                HuntOutcome {
                                    state: HuntState::Success,
                                    target: None,
                                    ate: true,
                                    despawn: Some(t),
                                }
                            } else if d2 > GIVE_UP_RANGE * GIVE_UP_RANGE {
                                HuntOutcome {
                                    state: HuntState::Cancelled,
                                    target: None,
                                    ate: false,
                                    despawn: None,
                                }
                            } else {
                                HuntOutcome {
                                    state: HuntState::Executing,
                                    target: Some(t),
                                    ate: false,
                                    despawn: None,
                                }
                            }
                        },
                    }
                },
            }
        },
        HuntState::Success => {
            if hungry {
                HuntOutcome { state: HuntState::Requested, target, ate: false, despawn: None }
            } else {
                HuntOutcome { state, target, ate: false, despawn: None }
            }
        },
        HuntState::Cancelled => {
            if hungry {
                HuntOutcome { state: HuntState::Requested, target, ate: false, despawn: None }
            } else {
                HuntOutcome { state, target, ate: false, despawn: None }
            }
        },
    }
}

/// A hungry predator in `Requested` with a visible prey within
/// `EAT_RANGE` reaches `Executing` on this step and `Success` on the
/// next: the prey is eaten, queued for despawn exactly once, the target
/// is cleared, and the hunger drops by exactly the replenishment amount
/// when it was at least that large.
pub proof fn lemma_hunt_requested_to_success(
    pos: Vec2,
    p: u64,
    tp: Vec2,
    target0: Option<u64>,
    first2: Option<u64>,
    hungry2: bool,
    h: u32,
)
    requires
        dist2(pos, tp) < EAT_RANGE * EAT_RANGE,
        h >= crate::hunger::EAT_AMOUNT,
    ensures
        ({
            let o1 = hunt_step_spec(HuntState::Requested, true, Some(p), target0, None, pos);
            o1.state == HuntState::Executing && o1.target == Some(p) && !o1.ate && o1.despawn
                is None
        }),
        ({
            let o2 = hunt_step_spec(
                HuntState::Executing,
                hungry2,
                first2,
                Some(p),
                Some(tp),
                pos,
            );
            o2.state == HuntState::Success && o2.target is None && o2.ate && o2.despawn == Some(p)
        }),
        crate::hunger::hunger_after_eat(h, crate::hunger::EAT_AMOUNT) == h
            - crate::hunger::EAT_AMOUNT,
{
}

/// Prey beyond `GIVE_UP_RANGE` while `Executing` cancels the pursuit:
/// the target is cleared, nothing is eaten and nothing is queued for
/// despawn, so the hunger is not modified.
pub proof fn lemma_hunt_gives_up(
    pos: Vec2,
    p: u64,
    tp: Vec2,
    first: Option<u64>,
    hungry: bool,
)
    requires
        dist2(pos, tp) > GIVE_UP_RANGE * GIVE_UP_RANGE,
    ensures
        ({
            let o = hunt_step_spec(HuntState::Executing, hungry, first, Some(p), Some(tp), pos);
            o.state == HuntState::Cancelled && o.target is None && !o.ate && o.despawn is None
        }),
{
    assert(EAT_RANGE * EAT_RANGE < GIVE_UP_RANGE * GIVE_UP_RANGE) by (nonlinear_arith)
        requires
            EAT_RANGE == 10_000,
            GIVE_UP_RANGE == 300_000,
    ;
}

} // verus!
