//! The flocking force model.
//!
//! Per actor and tick, five weighted sub-forces are summed into one
//! steering vector: wander (a random deviation from the current heading),
//! alignment (towards the average neighbour velocity), cohesion (towards
//! the neighbour centroid), separation (away from each neighbour, scaled
//! inversely with distance), and tracking (towards an optional target).
//! The sum is scaled by a fixed gain, the actor's speed scale and the
//! elapsed tick time.  An actor with no neighbours receives no steering
//! at all: the whole computation short-circuits to zero.
//!
//! Neighbours enter as resolved entries: `Some((position, velocity))` for
//! an identity that still exists, `None` for a stale one.  Stale entries
//! contribute nothing, but still count towards the averaging divisor,
//! exactly as a skipped lookup does.

use vstd::prelude::*;
use crate::vec2::{
    Vec2, MILLI, RANGE_LIMIT, WORLD_LIMIT, DT_LIMIT, in_world, tdiv, clamp_i, sqrt_floor, dist2,
    norm_x, norm_y, rot_x, rot_y, abs_i, dist2_of, isqrt, normalize, rotate, tdiv_i64, tdiv_i128,
    clamp128, lemma_tdiv_bound, lemma_sqrt_floor_monotone, lemma_sqrt_of_square, lemma_dist2_bound,
};
use crate::rng::{draw_below, lcg_next, SimRng};

verus! {

/// Fixed gain applied to the summed steering force.
pub const FORCE_GAIN: i64 = 1000;

/// Bound on the summed steering force per component.
pub const STEER_LIMIT: i64 = 1_000_000_000_000_000;

/// Bound on an accumulated force component.
pub const FORCE_LIMIT: i64 = 1_000_000_000_000_000_000;

/// Bound on a flocking weight (milli-scaled, so 1000.0 at most).
pub const WEIGHT_LIMIT: u32 = 1_000_000;

/// Bound on a per-actor speed scale (milli-scaled).
pub const SPEED_LIMIT: u32 = 1_000_000;

/// Largest wander angle, in whole degrees.
pub const WANDER_ANGLE_LIMIT: u32 = 359;

/// Per-actor perception configuration.  The view angle is stored but not
/// yet used to cull by field of view: perception is radius-only.
#[derive(Clone, Copy, PartialEq, Eq, Structural, Debug)]
pub struct Sight {
    /// view angle in degrees (reserved; not used for culling)
    pub view_angle: u32,
    /// view radius in milli-units
    pub view_range: i64,
}

impl Sight {
    /// The view range stays within the squared-distance bound.
    pub open spec fn wf(self) -> bool {
        0 <= self.view_range <= RANGE_LIMIT
    }
}

/// Per-actor movement intent: flocking weights (milli-scaled), the wander
/// spread, an optional target identity and a speed scale.
#[derive(Clone, Copy, PartialEq, Eq, Structural, Debug)]
pub struct Movement {
    /// weight for cohesion
    pub coherence: u32,
    /// weight for alignment
    pub alignment: u32,
    /// weight for separation
    pub separation: u32,
    /// weight for randomness
    pub randomness: u32,
    /// weight for tracking
    pub tracking: u32,
    /// wander spread in degrees, below 360
    pub wander_angle: u32,
    /// optional target to move towards
    pub target: Option<u64>,
    /// speed scale, milli-scaled
    pub speed_scale: u32,
}

impl Movement {
    /// All weights within their bounds.
    pub open spec fn wf(self) -> bool {
        self.coherence <= WEIGHT_LIMIT && self.alignment <= WEIGHT_LIMIT && self.separation
            <= WEIGHT_LIMIT && self.randomness <= WEIGHT_LIMIT && self.tracking <= WEIGHT_LIMIT
            && self.wander_angle <= WANDER_ANGLE_LIMIT && self.speed_scale <= SPEED_LIMIT
    }
}

impl Default for Movement {
    /// The reference intent: unit weights, double separation, a 10 degree
    /// wander spread, no target and unit speed.
    fn default() -> (r: Movement)
        ensures
            r == (Movement {
                coherence: 1000,
                alignment: 1000,
                separation: 2000,
                randomness: 1000,
                tracking: 1000,
                wander_angle: 10,
                target: None,
                speed_scale: 1000,
            }),
            r.wf(),
    {
        Movement {
            coherence: 1000,
            alignment: 1000,
            separation: 2000,
            randomness: 1000,
            tracking: 1000,
            wander_angle: 10,
            target: None,
            speed_scale: 1000,
        }
    }
}

/// The per-population flocking parameter bundle of a run request.
#[derive(Clone, Copy, PartialEq, Eq, Structural, Debug)]
pub struct BoidParams {
    pub coherence: u32,
    pub alignment: u32,
    pub separation: u32,
    pub randomness: u32,
    /// view radius in milli-units
    pub view_range: i64,
}

impl BoidParams {
    /// All fields within their bounds.
    pub open spec fn wf(self) -> bool {
        self.coherence <= WEIGHT_LIMIT && self.alignment <= WEIGHT_LIMIT && self.separation
            <= WEIGHT_LIMIT && self.randomness <= WEIGHT_LIMIT && 0 <= self.view_range
            <= RANGE_LIMIT
    }
}

impl Default for BoidParams {
    /// The reference parameters: unit weights and a 50 unit view range.
    fn default() -> (r: BoidParams)
        ensures
            r == (BoidParams {
                coherence: 1000,
                alignment: 1000,
                separation: 1000,
                randomness: 1000,
                view_range: 50_000,
            }),
            r.wf(),
    {
        BoidParams {
            coherence: 1000,
            alignment: 1000,
            separation: 1000,
            randomness: 1000,
            view_range: 50_000,
        }
    }
}

/// A resolved neighbour: position and velocity, or `None` when the
/// identity no longer exists.
pub type NeighEntry = Option<(Vec2, Vec2)>;

/// Every resolved entry lies within the world bounds.
pub open spec fn entries_ok(es: Seq<NeighEntry>) -> bool {
    forall|k: int|
        0 <= k < es.len() ==> (#[trigger] es[k] matches Some(e) ==> in_world(e.0) && in_world(e.1))
}

/// Sum of the resolved neighbour velocities, x component.
pub open spec fn sum_vel_x(es: Seq<NeighEntry>) -> int
    decreases es.len(),
{
    if es.len() == 0 {
        0
    } else {
        sum_vel_x(es.drop_last()) + (match es.last() {
            Some(e) => e.1.x as int,
            None => 0,
        })
    }
}

/// Sum of the resolved neighbour velocities, y component.
pub open spec fn sum_vel_y(es: Seq<NeighEntry>) -> int
    decreases es.len(),
{
    if es.len() == 0 {
        0
    } else {
        sum_vel_y(es.drop_last()) + (match es.last() {
            Some(e) => e.1.y as int,
            None => 0,
        })
    }
}

/// Sum of the resolved neighbour positions, x component.
pub open spec fn sum_pos_x(es: Seq<NeighEntry>) -> int
    decreases es.len(),
{
    if es.len() == 0 {
        0
    } else {
        sum_pos_x(es.drop_last()) + (match es.last() {
            Some(e) => e.0.x as int,
            None => 0,
        })
    }
}

/// Sum of the resolved neighbour positions, y component.
pub open spec fn sum_pos_y(es: Seq<NeighEntry>) -> int
    decreases es.len(),
{
    if es.len() == 0 {
        0
    } else {
        sum_pos_y(es.drop_last()) + (match es.last() {
            Some(e) => e.0.y as int,
            None => 0,
        })
    }
}

/// Distance used by the separation term, floored at one milli-step so
/// that coincident positions cannot divide by zero.
pub open spec fn sep_len(a: Vec2, b: Vec2) -> int {
    let l = sqrt_floor(dist2(a, b) as nat) as int;
    if l < 1 {
        1
    } else {
        l
    }
}

/// One neighbour's repulsion, x component: the offset away from the
/// neighbour divided by the distance (a milli-scaled unit vector).
pub open spec fn sep_term_x(pos: Vec2, p: Vec2) -> int {
    tdiv((pos.x - p.x) * MILLI, sep_len(pos, p))
}

/// One neighbour's repulsion, y component.
pub open spec fn sep_term_y(pos: Vec2, p: Vec2) -> int {
    tdiv((pos.y - p.y) * MILLI, sep_len(pos, p))
}

/// Summed repulsion from all resolved neighbours, x component.
pub open spec fn sep_sum_x(pos: Vec2, es: Seq<NeighEntry>) -> int
    decreases es.len(),
{
    if es.len() == 0 {
        0
    } else {
        sep_sum_x(pos, es.drop_last()) + (match es.last() {
            Some(e) => sep_term_x(pos, e.0),
            None => 0,
        })
    }
}

/// Summed repulsion from all resolved neighbours, y component.
pub open spec fn sep_sum_y(pos: Vec2, es: Seq<NeighEntry>) -> int
    decreases es.len(),
{
    if es.len() == 0 {
        0
    } else {
        sep_sum_y(pos, es.drop_last()) + (match es.last() {
            Some(e) => sep_term_y(pos, e.0),
            None => 0,
        })
    }
}

/// The unit heading of a velocity as a vector value.
pub open spec fn unit_heading(v: Vec2) -> Vec2 {
    Vec2 { x: norm_x(v) as i64, y: norm_y(v) as i64 }
}

/// The wander deviation drawn from state `s`: uniform in
/// `[-wander_angle/2, wander_angle - wander_angle/2]` degrees.
pub open spec fn wander_dev(s: u64, wa: u32) -> int {
    draw_below(s, (wa + 1) as u64) - (wa as int) / 2
}

/// Wander sub-force, x component: the heading rotated by the drawn
/// deviation, weighted by the randomness coefficient.  A stationary
/// actor has no heading to deviate from and draws nothing.
pub open spec fn wander_x(vel: Vec2, wa: u32, randomness: u32, s: u64) -> int {
    if vel.x == 0 && vel.y == 0 {
        0
    } else {
        tdiv(rot_x(unit_heading(vel), wander_dev(s, wa)) * randomness, MILLI as int)
    }
}

/// Wander sub-force, y component.
pub open spec fn wander_y(vel: Vec2, wa: u32, randomness: u32, s: u64) -> int {
    if vel.x == 0 && vel.y == 0 {
        0
    } else {
        tdiv(rot_y(unit_heading(vel), wander_dev(s, wa)) * randomness, MILLI as int)
    }
}

/// Alignment sub-force, x component: the average neighbour velocity
/// minus the actor's own unit heading, weighted.
pub open spec fn align_x(vel: Vec2, es: Seq<NeighEntry>, w: u32) -> int
    recommends
        es.len() > 0,
{
    tdiv((tdiv(sum_vel_x(es), es.len() as int) - norm_x(vel)) * w, MILLI as int)
}

/// Alignment sub-force, y component.
pub open spec fn align_y(vel: Vec2, es: Seq<NeighEntry>, w: u32) -> int
    recommends
        es.len() > 0,
{
    tdiv((tdiv(sum_vel_y(es), es.len() as int) - norm_y(vel)) * w, MILLI as int)
}

/// Cohesion sub-force, x component: towards the neighbour centroid.
pub open spec fn coh_x(pos: Vec2, es: Seq<NeighEntry>, w: u32) -> int
    recommends
        es.len() > 0,
{
    tdiv((tdiv(sum_pos_x(es), es.len() as int) - pos.x) * w, MILLI as int)
}

/// Cohesion sub-force, y component.
pub open spec fn coh_y(pos: Vec2, es: Seq<NeighEntry>, w: u32) -> int
    recommends
        es.len() > 0,
{
    tdiv((tdiv(sum_pos_y(es), es.len() as int) - pos.y) * w, MILLI as int)
}

/// Separation sub-force, x component.
pub open spec fn sep_x(pos: Vec2, es: Seq<NeighEntry>, w: u32) -> int {
    tdiv(sep_sum_x(pos, es) * w, MILLI as int)
}

/// Separation sub-force, y component.
pub open spec fn sep_y(pos: Vec2, es: Seq<NeighEntry>, w: u32) -> int {
    tdiv(sep_sum_y(pos, es) * w, MILLI as int)
}

/// Tracking sub-force, x component: towards the resolved target, or
/// nothing when there is none.
pub open spec fn track_x(pos: Vec2, target: Option<Vec2>, w: u32) -> int {
    match target {
        Some(t) => tdiv((t.x - pos.x) * w, MILLI as int),
        None => 0,
    }
}

/// Tracking sub-force, y component.
pub open spec fn track_y(pos: Vec2, target: Option<Vec2>, w: u32) -> int {
    match target {
        Some(t) => tdiv((t.y - pos.y) * w, MILLI as int),
        None => 0,
    }
}

/// The summed steering force, x component, clamped into the steering
/// bound.
pub open spec fn steer_x(
    pos: Vec2,
    vel: Vec2,
    m: Movement,
    es: Seq<NeighEntry>,
    target: Option<Vec2>,
    s: u64,
) -> int {
    clamp_i(
        wander_x(vel, m.wander_angle, m.randomness, s) + align_x(vel, es, m.alignment) + coh_x(
            pos,
            es,
            m.coherence,
        ) + sep_x(pos, es, m.separation) + track_x(pos, target, m.tracking),
        -STEER_LIMIT as int,
        STEER_LIMIT as int,
    )
}

/// The summed steering force, y component.
pub open spec fn steer_y(
    pos: Vec2,
    vel: Vec2,
    m: Movement,
    es: Seq<NeighEntry>,
    target: Option<Vec2>,
    s: u64,
) -> int {
    clamp_i(
        wander_y(vel, m.wander_angle, m.randomness, s) + align_y(vel, es, m.alignment) + coh_y(
            pos,
            es,
            m.coherence,
        ) + sep_y(pos, es, m.separation) + track_y(pos, target, m.tracking),
        -STEER_LIMIT as int,
        STEER_LIMIT as int,
    )
}

/// The force increment applied for this tick, x component: the steering
/// force scaled by the fixed gain, the speed scale and the elapsed time,
/// then clamped into the accumulation bound.  With no neighbours the
/// whole computation short-circuits to zero.
pub open spec fn applied_x(
    pos: Vec2,
    vel: Vec2,
    m: Movement,
    es: Seq<NeighEntry>,
    target: Option<Vec2>,
    s: u64,
    dt_ms: u64,
) -> int {
    if es.len() == 0 {
        0
    } else {
        clamp_i(
            tdiv(steer_x(pos, vel, m, es, target, s) * FORCE_GAIN * m.speed_scale * dt_ms, 1_000_000),
            -FORCE_LIMIT as int,
            FORCE_LIMIT as int,
        )
    }
}

/// The force increment applied for this tick, y component.
pub open spec fn applied_y(
    pos: Vec2,
    vel: Vec2,
    m: Movement,
    es: Seq<NeighEntry>,
    target: Option<Vec2>,
    s: u64,
    dt_ms: u64,
) -> int {
    if es.len() == 0 {
        0
    } else {
        clamp_i(
            tdiv(steer_y(pos, vel, m, es, target, s) * FORCE_GAIN * m.speed_scale * dt_ms, 1_000_000),
            -FORCE_LIMIT as int,
            FORCE_LIMIT as int,
        )
    }
}

/// The generator state after one force computation: one draw when the
/// actor both has neighbours and is moving, otherwise untouched.
pub open spec fn boid_rng_after(vel: Vec2, n: nat, s: u64) -> u64 {
    if n == 0 || (vel.x == 0 && vel.y == 0) {
        s
    } else {
        lcg_next(s)
    }
}

/// With a fixed generator state the wander sub-force is deterministic:
/// equal states and inputs give equal deviations and equal forces.
pub proof fn lemma_wander_reproducible(vel: Vec2, wa: u32, randomness: u32, s1: u64, s2: u64)
    requires
        s1 == s2,
    ensures
        wander_dev(s1, wa) == wander_dev(s2, wa),
        wander_x(vel, wa, randomness, s1) == wander_x(vel, wa, randomness, s2),
        wander_y(vel, wa, randomness, s1) == wander_y(vel, wa, randomness, s2),
{
}

/// An isolated actor — an empty neighbour set — receives zero alignment,
/// cohesion and separation contribution: all the neighbour sums vanish
/// and the applied steering force is exactly zero, and nothing is drawn
/// from the generator.
pub proof fn lemma_isolated_actor_coasts(
    pos: Vec2,
    vel: Vec2,
    m: Movement,
    target: Option<Vec2>,
    s: u64,
    dt_ms: u64,
)
    ensures
        sum_vel_x(Seq::<NeighEntry>::empty()) == 0,
        sum_vel_y(Seq::<NeighEntry>::empty()) == 0,
        sum_pos_x(Seq::<NeighEntry>::empty()) == 0,
        sum_pos_y(Seq::<NeighEntry>::empty()) == 0,
        sep_sum_x(pos, Seq::<NeighEntry>::empty()) == 0,
        sep_sum_y(pos, Seq::<NeighEntry>::empty()) == 0,
        sep_x(pos, Seq::<NeighEntry>::empty(), m.separation) == 0,
        sep_y(pos, Seq::<NeighEntry>::empty(), m.separation) == 0,
        applied_x(pos, vel, m, Seq::<NeighEntry>::empty(), target, s, dt_ms) == 0,
        applied_y(pos, vel, m, Seq::<NeighEntry>::empty(), target, s, dt_ms) == 0,
        boid_rng_after(vel, 0, s) == s,
{
    assert(sep_sum_x(pos, Seq::<NeighEntry>::empty()) == 0);
    assert(tdiv(0, MILLI as int) == 0);
}

/// The separation distance floor dominates both offset components, so
/// each repulsion term is a milli-scaled unit vector component.
pub proof fn lemma_sep_term_bounds(a: Vec2, b: Vec2)
    requires
        in_world(a),
        in_world(b),
    ensures
        1 <= sep_len(a, b) <= 3_000_000_000,
        abs_i(sep_term_x(a, b)) <= MILLI,
        abs_i(sep_term_y(a, b)) <= MILLI,
{
    lemma_dist2_bound(a, b);
    let dx = a.x - b.x;
    let dy = a.y - b.y;
    assert(dx * dx >= 0 && dy * dy >= 0) by (nonlinear_arith);
    lemma_sqrt_floor_monotone((dx * dx) as nat, dist2(a, b) as nat);
    lemma_sqrt_floor_monotone((dy * dy) as nat, dist2(a, b) as nat);
    if dx >= 0 {
        lemma_sqrt_of_square(dx);
    } else {
        assert((-dx) * (-dx) == dx * dx) by (nonlinear_arith);
        lemma_sqrt_of_square(-dx);
    }
    if dy >= 0 {
        lemma_sqrt_of_square(dy);
    } else {
        assert((-dy) * (-dy) == dy * dy) by (nonlinear_arith);
        lemma_sqrt_of_square(-dy);
    }
    let l = sep_len(a, b);
    assert(l >= abs_i(dx) && l >= abs_i(dy));
    assert(abs_i(dx * MILLI) <= MILLI * l && abs_i(dy * MILLI) <= MILLI * l) by (nonlinear_arith)
        requires
            l >= abs_i(dx),
            l >= abs_i(dy),
            l >= 1,
            MILLI == 1000,
    ;
    lemma_tdiv_bound(dx * MILLI, l, MILLI as int);
    lemma_tdiv_bound(dy * MILLI, l, MILLI as int);
    assert(sqrt_floor(dist2(a, b) as nat) * sqrt_floor(dist2(a, b) as nat) <= dist2(a, b)) by {
        crate::vec2::lemma_sqrt_floor_bounds(dist2(a, b) as nat);
    }
    let r = sqrt_floor(dist2(a, b) as nat);
    if r > 3_000_000_000 {
        assert(r * r > 8_000_000_000_000_000_000) by (nonlinear_arith)
            requires
                r > 3_000_000_000,
        ;
    }
}

/// Compute this tick's applied force increment for one actor.
///
/// `entries` are the actor's resolved neighbours and `target` the
/// resolved position of its movement target, if any.  The result is
/// exactly the `applied_x`/`applied_y` model value for the generator
/// state at entry, and the generator advances exactly when the model
/// draws (a moving actor with at least one neighbour entry).
#[verifier::rlimit(100)]
pub fn boid_force(
    pos: Vec2,
    vel: Vec2,
    m: &Movement,
    entries: &Vec<NeighEntry>,
    target: Option<Vec2>,
    dt_ms: u64,
    rng: &mut SimRng,
) -> (f: Vec2)
    requires
        in_world(pos),
        in_world(vel),
        entries_ok(entries@),
        m.wf(),
        dt_ms <= DT_LIMIT,
        (target matches Some(t) ==> in_world(t)),
    ensures
        f.x == applied_x(pos, vel, *m, entries@, target, old(rng).state, dt_ms),
        f.y == applied_y(pos, vel, *m, entries@, target, old(rng).state, dt_ms),
        final(rng).state == boid_rng_after(vel, entries@.len(), old(rng).state),
        -FORCE_LIMIT <= f.x <= FORCE_LIMIT,
        -FORCE_LIMIT <= f.y <= FORCE_LIMIT,
{
    let ghost s0: u64 = rng.state;
    let n = entries.len();
    if n == 0 {
        return Vec2 { x: 0, y: 0 };
    }
    // Wander: one draw if the actor is moving.
    let mut wx: i64 = 0;
    let mut wy: i64 = 0;
    if !(vel.x == 0 && vel.y == 0) {
        let wa: u32 = m.wander_angle;
        let draw: u64 = rng.gen_below(wa as u64 + 1);
        let dev: i64 = (draw as i64) - ((wa / 2) as i64);
        let h = normalize(vel);
        proof {
            assert(h == unit_heading(vel));
            assert(dev == wander_dev(s0, wa));
        }
        let r = rotate(h, dev);
        proof {
            assert(abs_i(r.x * m.randomness) <= 4_000_000_000 && abs_i(r.y * m.randomness)
                <= 4_000_000_000) by (nonlinear_arith)
                requires
                    -4000 <= r.x <= 4000,
                    -4000 <= r.y <= 4000,
                    0 <= m.randomness <= 1_000_000,
            ;
        }
        wx = tdiv_i64(r.x * (m.randomness as i64), MILLI);
        wy = tdiv_i64(r.y * (m.randomness as i64), MILLI);
        proof {
            assert(wx == wander_x(vel, m.wander_angle, m.randomness, s0));
            assert(wy == wander_y(vel, m.wander_angle, m.randomness, s0));
        }
    }
    // Neighbour sums.
    let mut svx: i128 = 0;
    let mut svy: i128 = 0;
    let mut spx: i128 = 0;
    let mut spy: i128 = 0;
    let mut ssx: i128 = 0;
    let mut ssy: i128 = 0;
    let mut i: usize = 0;
    while i < n
        invariant
            i <= n,
            n == entries@.len(),
            entries_ok(entries@),
            in_world(pos),
            svx == sum_vel_x(entries@.take(i as int)),
            svy == sum_vel_y(entries@.take(i as int)),
            spx == sum_pos_x(entries@.take(i as int)),
            spy == sum_pos_y(entries@.take(i as int)),
            ssx == sep_sum_x(pos, entries@.take(i as int)),
            ssy == sep_sum_y(pos, entries@.take(i as int)),
            -(i as int) * (WORLD_LIMIT as int) <= svx <= (i as int) * (WORLD_LIMIT as int),
            -(i as int) * (WORLD_LIMIT as int) <= svy <= (i as int) * (WORLD_LIMIT as int),
            -(i as int) * (WORLD_LIMIT as int) <= spx <= (i as int) * (WORLD_LIMIT as int),
            -(i as int) * (WORLD_LIMIT as int) <= spy <= (i as int) * (WORLD_LIMIT as int),
            -(i as int) * (MILLI as int) <= ssx <= (i as int) * (MILLI as int),
            -(i as int) * (MILLI as int) <= ssy <= (i as int) * (MILLI as int),
        decreases n - i,
    {
        proof {
            assert(entries@.take(i as int + 1).drop_last() =~= entries@.take(i as int));
            assert(entries@.take(i as int + 1).last() == entries@[i as int]);
        }
        match entries[i] {
            Some((p, v)) => {
                svx = svx + (v.x as i128);
                svy = svy + (v.y as i128);
                spx = spx + (p.x as i128);
                spy = spy + (p.y as i128);
                let d2: i64 = dist2_of(pos, p);
                let root: u64 = isqrt(d2 as u64);
                let len: i64 = if root < 1 {
                    1
                } else {
                    root as i64
                };
                proof {
                    lemma_sep_term_bounds(pos, p);
                    assert(len == sep_len(pos, p));
                }
                let tx: i64 = tdiv_i64((pos.x - p.x) * MILLI, len);
                let ty: i64 = tdiv_i64((pos.y - p.y) * MILLI, len);
                ssx = ssx + (tx as i128);
                ssy = ssy + (ty as i128);
            },
            None => {},
        }
        i = i + 1;
    }
    proof {
        assert(entries@.take(n as int) =~= entries@);
    }
    let ghost es = entries@;
    // Alignment and cohesion use the neighbour averages.
    let n128: i128 = n as i128;
    let avx: i128 = tdiv_i128(svx, n128);
    let avy: i128 = tdiv_i128(svy, n128);
    let apx: i128 = tdiv_i128(spx, n128);
    let apy: i128 = tdiv_i128(spy, n128);
    proof {
        lemma_tdiv_bound(svx as int, n as int, WORLD_LIMIT as int);
        lemma_tdiv_bound(svy as int, n as int, WORLD_LIMIT as int);
        lemma_tdiv_bound(spx as int, n as int, WORLD_LIMIT as int);
        lemma_tdiv_bound(spy as int, n as int, WORLD_LIMIT as int);
        lemma_tdiv_bound(ssx as int, n as int, MILLI as int);
        lemma_tdiv_bound(ssy as int, n as int, MILLI as int);
    }
    let h = normalize(vel);
    proof {
        assert(abs_i((avx - h.x) * m.alignment) <= 2_000_000_000_000_000 && abs_i(
            (avy - h.y) * m.alignment,
        ) <= 2_000_000_000_000_000) by (nonlinear_arith)
            requires
                -1_000_001_000 <= avx - h.x <= 1_000_001_000,
                -1_000_001_000 <= avy - h.y <= 1_000_001_000,
                0 <= m.alignment <= 1_000_000,
        ;
        assert(abs_i((apx - pos.x) * m.coherence) <= 2_000_000_000_000_000 && abs_i(
            (apy - pos.y) * m.coherence,
        ) <= 2_000_000_000_000_000) by (nonlinear_arith)
            requires
                -2_000_000_000 <= apx - pos.x <= 2_000_000_000,
                -2_000_000_000 <= apy - pos.y <= 2_000_000_000,
                0 <= m.coherence <= 1_000_000,
        ;
    }
    let ax: i128 = tdiv_i128((avx - h.x as i128) * (m.alignment as i128), 1000);
    let ay: i128 = tdiv_i128((avy - h.y as i128) * (m.alignment as i128), 1000);
    let cx: i128 = tdiv_i128((apx - pos.x as i128) * (m.coherence as i128), 1000);
    let cy: i128 = tdiv_i128((apy - pos.y as i128) * (m.coherence as i128), 1000);
    proof {
        assert(ax == align_x(vel, es, m.alignment) && ay == align_y(vel, es, m.alignment));
        assert(cx == coh_x(pos, es, m.coherence) && cy == coh_y(pos, es, m.coherence));
        assert(abs_i(ssx * m.separation) <= 0x100000000000000000000000000 && abs_i(
            ssy * m.separation,
        ) <= 0x100000000000000000000000000) by (nonlinear_arith)
            requires
                -(18446744073709551615 as int) * 1000 <= ssx <= (18446744073709551615 as int)
                    * 1000,
                -(18446744073709551615 as int) * 1000 <= ssy <= (18446744073709551615 as int)
                    * 1000,
                0 <= m.separation <= 1_000_000,
        ;
    }
    let sx: i128 = tdiv_i128(ssx * (m.separation as i128), 1000);
    let sy: i128 = tdiv_i128(ssy * (m.separation as i128), 1000);
    proof {
        assert(sx == sep_x(pos, es, m.separation) && sy == sep_y(pos, es, m.separation));
    }
    // Tracking.
    let mut tkx: i128 = 0;
    let mut tky: i128 = 0;
    match target {
        Some(t) => {
            proof {
                assert(abs_i((t.x - pos.x) * m.tracking) <= 2_000_000_000_000_000 && abs_i(
                    (t.y - pos.y) * m.tracking,
                ) <= 2_000_000_000_000_000) by (nonlinear_arith)
                    requires
                        -2_000_000_000 <= t.x - pos.x <= 2_000_000_000,
                        -2_000_000_000 <= t.y - pos.y <= 2_000_000_000,
                        0 <= m.tracking <= 1_000_000,
                ;
            }
            let dx: i64 = t.x - pos.x;
            let dy: i64 = t.y - pos.y;
            tkx = tdiv_i128((dx as i128) * (m.tracking as i128), 1000);
            tky = tdiv_i128((dy as i128) * (m.tracking as i128), 1000);
        },
        None => {},
    }
    proof {
        assert(tkx == track_x(pos, target, m.tracking) && tky == track_y(pos, target, m.tracking));
    }
    // Clamped steering sum.
    let stx: i64 = clamp128((wx as i128) + ax + cx + sx + tkx, STEER_LIMIT);
    let sty: i64 = clamp128((wy as i128) + ay + cy + sy + tky, STEER_LIMIT);
    proof {
        assert(stx == steer_x(pos, vel, *m, es, target, s0));
        assert(sty == steer_y(pos, vel, *m, es, target, s0));
    }
    // Final scaling: gain, speed scale, elapsed time.
    proof {
        assert(abs_i((stx * 1000) * m.speed_scale) <= 0x10000000000000000000000 && abs_i(
            (sty * 1000) * m.speed_scale,
        ) <= 0x10000000000000000000000) by (nonlinear_arith)
            requires
                -STEER_LIMIT <= stx <= STEER_LIMIT,
                -STEER_LIMIT <= sty <= STEER_LIMIT,
                STEER_LIMIT == 1_000_000_000_000_000,
                0 <= m.speed_scale <= 1_000_000,
        ;
        assert(abs_i(((stx * 1000) * m.speed_scale) * dt_ms) <= 0x1000000000000000000000000000000
            && abs_i(((sty * 1000) * m.speed_scale) * dt_ms)
            <= 0x1000000000000000000000000000000) by (nonlinear_arith)
            requires
                abs_i((stx * 1000) * m.speed_scale) <= 0x10000000000000000000000,
                abs_i((sty * 1000) * m.speed_scale) <= 0x10000000000000000000000,
                0 <= dt_ms <= 3_600_000,
        ;
    }
    let t1x: i128 = (stx as i128) * 1000;
    let t2x: i128 = t1x * (m.speed_scale as i128);
    let t3x: i128 = t2x * (dt_ms as i128);
    let qx: i128 = tdiv_i128(t3x, 1_000_000);
    let fx: i64 = clamp128(qx, FORCE_LIMIT);
    let t1y: i128 = (sty as i128) * 1000;
    let t2y: i128 = t1y * (m.speed_scale as i128);
    let t3y: i128 = t2y * (dt_ms as i128);
    let qy: i128 = tdiv_i128(t3y, 1_000_000);
    let fy: i64 = clamp128(qy, FORCE_LIMIT);
    proof {
        assert(fx == applied_x(pos, vel, *m, es, target, s0, dt_ms));
        assert(fy == applied_y(pos, vel, *m, es, target, s0, dt_ms));
    }
    Vec2 { x: fx, y: fy }
}

} // verus!
