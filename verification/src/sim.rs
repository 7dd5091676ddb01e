//! The simulation context: the actor registry, per-tick perception sets,
//! the deferred command queue, and the tick pipeline.
//!
//! A tick runs perception, hunger, hunt and force phases in that fixed
//! order over a consistent population snapshot.  Phases never create or
//! remove actors directly: they queue spawn/despawn commands, and one
//! commit step (`apply_commands`) applies the whole queue between ticks,
//! so a restart never observes a mixed old and new population.

use vstd::prelude::*;
use crate::vec2::{
    Vec2, MILLI, WORLD_LIMIT, DT_LIMIT, in_world, clamp_i, within_range, dist2_of, normalize,
    clamp128,
};
use crate::rng::{SimRng, lcg_next, draw_below};
use crate::hunger::{Hunger, HUNGER_SCALE, EAT_AMOUNT, hunger_after, hunger_after_eat, starves};
use crate::movement::{
    Sight, Movement, BoidParams, NeighEntry, applied_x, applied_y, boid_rng_after, boid_force,
    unit_heading, FORCE_LIMIT,
};
use crate::orca::{Gender, Type, Orca, AbsPod, PodPool, PodId};
use crate::hunt::{
    HuntState, HuntOutcome, hunt_step_spec, hunt_step, is_hungry, pick_behavior, hungry_score,
    HUNT_THRESHOLD,
};

verus! {

/// What kind of actor this is; orcas carry their descriptive attributes.
pub enum ActorKind {
    Orca(Orca),
    Fish,
}

/// One simulated actor.
///
/// Position and velocity are owned by the outside integrator, which
/// reads the accumulated `force` and writes motion back through
/// `Simulation::set_kinematics`.  `facing` is a derived unit heading,
/// purely cosmetic.
pub struct Actor {
    pub id: u64,
    pub pos: Vec2,
    pub vel: Vec2,
    pub facing: Vec2,
    pub force: Vec2,
    pub sight: Sight,
    pub movement: Movement,
    pub hunger: Hunger,
    pub hunt: HuntState,
    pub kind: ActorKind,
}

/// Whether this actor is a predator.
pub open spec fn is_orca(a: Actor) -> bool {
    a.kind is Orca
}

/// The pod this actor belongs to, if it is an orca in a pod.
pub open spec fn pod_of(a: Actor) -> Option<PodId> {
    match a.kind {
        ActorKind::Orca(o) => o.pod_id,
        ActorKind::Fish => None,
    }
}

/// Well-formedness of one actor: everything within its bounds.
pub open spec fn actor_wf(a: Actor) -> bool {
    &&& in_world(a.pos)
    &&& in_world(a.vel)
    &&& a.sight.wf()
    &&& a.movement.wf()
    &&& a.hunger.wf()
    &&& -FORCE_LIMIT <= a.force.x <= FORCE_LIMIT
    &&& -FORCE_LIMIT <= a.force.y <= FORCE_LIMIT
}

/// Whether this actor is a predator (executable form).
pub fn is_orca_fn(a: &Actor) -> (r: bool)
    ensures
        r == is_orca(*a),
{
    match &a.kind {
        ActorKind::Orca(_) => true,
        ActorKind::Fish => false,
    }
}

/// The pod this actor belongs to (executable form).
pub fn pod_of_fn(a: &Actor) -> (r: Option<PodId>)
    ensures
        r == pod_of(*a),
{
    match &a.kind {
        ActorKind::Orca(o) => o.pod_id,
        ActorKind::Fish => None,
    }
}

/// Why an actor is asked to despawn.
#[derive(Clone, Copy, PartialEq, Eq, Structural, Debug)]
pub enum DespawnReason {
    Starvation,
    Eaten,
    Reset,
}

/// The kind-specific part of a spawn request.
pub enum SpawnKind {
    Orca { name: String, gender: Gender, age: u32, mass: u32, orca_type: Type, pod_id: Option<
        PodId,
    > },
    Fish,
}

/// A deferred request to create one actor.
pub struct SpawnRequest {
    pub pos: Vec2,
    pub vel: Vec2,
    pub sight: Sight,
    pub movement: Movement,
    /// initial hunger in micro-units
    pub hunger: u32,
    pub kind: SpawnKind,
}

/// Well-formedness of a spawn request.
pub open spec fn req_wf(r: SpawnRequest) -> bool {
    &&& in_world(r.pos)
    &&& in_world(r.vel)
    &&& r.sight.wf()
    &&& r.movement.wf()
    &&& r.hunger <= HUNGER_SCALE
}

/// One deferred command, applied at the commit step in queue order.
pub enum Command {
    /// Create a pod; its id is the pool index at application time.
    AddPod { name: String },
    /// Create one actor.
    Spawn(SpawnRequest),
    /// Remove the actor with this identity, if it still exists.
    Despawn { id: u64, reason: DespawnReason },
    /// Remove every actor and every pod (simulation reset).
    DespawnAll,
}

/// Well-formedness of a queued command.
pub open spec fn cmd_wf(c: Command) -> bool {
    match c {
        Command::Spawn(r) => req_wf(r),
        _ => true,
    }
}

/// First index holding `id` at or after `k`, or -1.
pub open spec fn find_from(s: Seq<Actor>, id: u64, k: int) -> int
    decreases s.len() - k,
{
    if k < 0 || k >= s.len() {
        -1
    } else if s[k].id == id {
        k
    } else {
        find_from(s, id, k + 1)
    }
}

/// First index holding `id`, or -1.
pub open spec fn find_id(s: Seq<Actor>, id: u64) -> int {
    find_from(s, id, 0)
}

/// `find_from` finds the first occurrence at or after `k`.
pub proof fn lemma_find_from(s: Seq<Actor>, id: u64, k: int)
    requires
        0 <= k <= s.len(),
    ensures
        find_from(s, id, k) == -1 ==> forall|j: int| k <= j < s.len() ==> s[j].id != id,
        find_from(s, id, k) >= 0 ==> k <= find_from(s, id, k) < s.len() && s[find_from(
            s,
            id,
            k,
        )].id == id && forall|j: int| k <= j < find_from(s, id, k) ==> s[j].id != id,
    decreases s.len() - k,
{
    if k < s.len() {
        lemma_find_from(s, id, k + 1);
    }
}

/// The first-occurrence characterisation determines `find_from`.
pub proof fn lemma_find_from_unique(s: Seq<Actor>, id: u64, k: int, r: int)
    requires
        0 <= k <= s.len(),
        r == -1 ==> forall|j: int| k <= j < s.len() ==> s[j].id != id,
        r >= 0 ==> k <= r < s.len() && s[r].id == id && forall|j: int| k <= j < r ==> s[j].id
            != id,
        r == -1 || r >= 0,
    ensures
        find_from(s, id, k) == r,
    decreases s.len() - k,
{
    if k < s.len() {
        if s[k].id == id {
        } else {
            lemma_find_from_unique(s, id, k + 1, r);
        }
    }
}

/// The position of the actor with this identity, if it exists.
pub open spec fn resolve_pos(s: Seq<Actor>, id: u64) -> Option<Vec2> {
    let k = find_id(s, id);
    if k >= 0 {
        Some(s[k].pos)
    } else {
        None
    }
}

/// The position of an optional target identity.
pub open spec fn resolve_opt(s: Seq<Actor>, t: Option<u64>) -> Option<Vec2> {
    match t {
        Some(id) => resolve_pos(s, id),
        None => None,
    }
}

/// Position and velocity of the actor with this identity, if it exists.
pub open spec fn resolve_entry(s: Seq<Actor>, id: u64) -> NeighEntry {
    let k = find_id(s, id);
    if k >= 0 {
        Some((s[k].pos, s[k].vel))
    } else {
        None
    }
}

/// Find the index of the actor with this identity.
pub fn find_index(actors: &Vec<Actor>, id: u64) -> (r: Option<usize>)
    ensures
        (r matches Some(i) ==> find_id(actors@, id) == i && i < actors@.len() && actors@[i as int].id
            == id),
        (r is None ==> find_id(actors@, id) == -1),
{
    let n = actors.len();
    let mut i: usize = 0;
    while i < n
        invariant
            i <= n,
            n == actors@.len(),
            forall|j: int| 0 <= j < i ==> actors@[j].id != id,
        decreases n - i,
    {
        if actors[i].id == id {
            proof {
                lemma_find_from_unique(actors@, id, 0, i as int);
            }
            return Some(i);
        }
        i = i + 1;
    }
    proof {
        lemma_find_from_unique(actors@, id, 0, -1);
    }
    None
}

/// Number of orcas in the population.
pub open spec fn count_orcas(s: Seq<Actor>) -> int
    decreases s.len(),
{
    if s.len() == 0 {
        0
    } else {
        count_orcas(s.drop_last()) + (if is_orca(s.last()) {
            1int
        } else {
            0int
        })
    }
}

/// Whether `a` perceives `b`: strictly within `a`'s view radius.
/// Radius-only: the stored view angle is reserved and not applied.
pub open spec fn sees(a: Actor, b: Actor) -> bool {
    within_range(a.pos, b.pos, a.sight.view_range as int)
}

/// Whether `b` shares `a`'s flocking context: an orca flocks with the
/// members of its own pod (none, if it has no pod); a fish schools with
/// any other fish.
pub open spec fn flockmate(a: Actor, b: Actor) -> bool {
    if is_orca(a) {
        is_orca(b) && pod_of(a) is Some && pod_of(b) is Some && pod_of(a) == pod_of(b)
    } else {
        !is_orca(b)
    }
}

/// Same-group neighbour identities of actor `i` among the first `k`
/// actors, in index order.
pub open spec fn neigh_ids_upto(s: Seq<Actor>, i: int, k: int) -> Seq<u64>
    decreases k,
{
    if k <= 0 {
        Seq::empty()
    } else {
        let rest = neigh_ids_upto(s, i, k - 1);
        if k - 1 != i && flockmate(s[i], s[k - 1]) && sees(s[i], s[k - 1]) {
            rest.push(s[k - 1].id)
        } else {
            rest
        }
    }
}

/// Same-group neighbour identities of actor `i`.
pub open spec fn neigh_ids(s: Seq<Actor>, i: int) -> Seq<u64> {
    neigh_ids_upto(s, i, s.len() as int)
}

/// Visible prey identities of actor `i` among the first `k` actors:
/// any fish within view range of an orca, in index order.
pub open spec fn prey_ids_upto(s: Seq<Actor>, i: int, k: int) -> Seq<u64>
    decreases k,
{
    if k <= 0 {
        Seq::empty()
    } else {
        let rest = prey_ids_upto(s, i, k - 1);
        if is_orca(s[i]) && !is_orca(s[k - 1]) && sees(s[i], s[k - 1]) {
            rest.push(s[k - 1].id)
        } else {
            rest
        }
    }
}

/// Visible prey identities of actor `i`.
pub open spec fn prey_ids(s: Seq<Actor>, i: int) -> Seq<u64> {
    prey_ids_upto(s, i, s.len() as int)
}

proof fn lemma_neigh_upto_membership(s: Seq<Actor>, i: int, k: int, id: u64)
    requires
        0 <= i < s.len(),
        0 <= k <= s.len(),
    ensures
        neigh_ids_upto(s, i, k).contains(id) <==> exists|j: int|
            0 <= j < k && j != i && flockmate(s[i], #[trigger] s[j]) && sees(s[i], s[j])
                && s[j].id == id,
    decreases k,
{
    if k > 0 {
        lemma_neigh_upto_membership(s, i, k - 1, id);
        let rest = neigh_ids_upto(s, i, k - 1);
        let cur = neigh_ids_upto(s, i, k);
        if k - 1 != i && flockmate(s[i], s[k - 1]) && sees(s[i], s[k - 1]) {
            assert(cur == rest.push(s[k - 1].id));
            if cur.contains(id) {
                let n = choose|n: int| 0 <= n < cur.len() && cur[n] == id;
                if n < rest.len() {
                    assert(rest[n] == id);
                    assert(rest.contains(id));
                } else {
                    assert(s[k - 1].id == id);
                }
            }
            if rest.contains(id) {
                let n = choose|n: int| 0 <= n < rest.len() && rest[n] == id;
                assert(cur[n] == id);
                assert(cur.contains(id));
            }
            if s[k - 1].id == id {
                assert(cur.last() == id);
                assert(cur.contains(id));
            }
        } else {
            assert(cur == rest);
        }
    }
}

/// The perception contract in set form: an identity stands in actor
/// `i`'s same-group neighbour list exactly when some other actor of the
/// same flocking context carries it strictly within `i`'s view range.
pub proof fn lemma_neighbour_membership(s: Seq<Actor>, i: int, id: u64)
    requires
        0 <= i < s.len(),
    ensures
        neigh_ids(s, i).contains(id) <==> exists|j: int|
            0 <= j < s.len() && j != i && flockmate(s[i], #[trigger] s[j]) && sees(s[i], s[j])
                && s[j].id == id,
{
    lemma_neigh_upto_membership(s, i, s.len() as int, id);
}

proof fn lemma_prey_upto_membership(s: Seq<Actor>, i: int, k: int, id: u64)
    requires
        0 <= i < s.len(),
        0 <= k <= s.len(),
    ensures
        prey_ids_upto(s, i, k).contains(id) <==> exists|j: int|
            0 <= j < k && is_orca(s[i]) && !is_orca(#[trigger] s[j]) && sees(s[i], s[j])
                && s[j].id == id,
    decreases k,
{
    if k > 0 {
        lemma_prey_upto_membership(s, i, k - 1, id);
        let rest = prey_ids_upto(s, i, k - 1);
        let cur = prey_ids_upto(s, i, k);
        if is_orca(s[i]) && !is_orca(s[k - 1]) && sees(s[i], s[k - 1]) {
            assert(cur == rest.push(s[k - 1].id));
            if cur.contains(id) {
                let n = choose|n: int| 0 <= n < cur.len() && cur[n] == id;
                if n < rest.len() {
                    assert(rest[n] == id);
                    assert(rest.contains(id));
                } else {
                    assert(s[k - 1].id == id);
                }
            }
            if rest.contains(id) {
                let n = choose|n: int| 0 <= n < rest.len() && rest[n] == id;
                assert(cur[n] == id);
                assert(cur.contains(id));
            }
            if s[k - 1].id == id {
                assert(cur.last() == id);
                assert(cur.contains(id));
            }
        } else {
            assert(cur == rest);
        }
    }
}

/// The perception contract for prey in set form: an identity stands in
/// predator `i`'s visible-prey list exactly when some fish carries it
/// strictly within `i`'s view range.
pub proof fn lemma_prey_membership(s: Seq<Actor>, i: int, id: u64)
    requires
        0 <= i < s.len(),
    ensures
        prey_ids(s, i).contains(id) <==> exists|j: int|
            0 <= j < s.len() && is_orca(s[i]) && !is_orca(#[trigger] s[j]) && sees(s[i], s[j])
                && s[j].id == id,
{
    lemma_prey_upto_membership(s, i, s.len() as int, id);
}

/// Whether `a` perceives `b` (executable form).
pub fn sees_fn(a: &Actor, b: &Actor) -> (r: bool)
    requires
        actor_wf(*a),
        actor_wf(*b),
    ensures
        r == sees(*a, *b),
{
    let d2 = dist2_of(a.pos, b.pos);
    let vr = a.sight.view_range;
    proof {
        assert(0 <= vr * vr <= 4_000_000_000_000_000_000) by (nonlinear_arith)
            requires
                0 <= vr <= 2_000_000_000,
        ;
    }
    d2 < vr * vr
}

/// Whether `b` shares `a`'s flocking context (executable form).
pub fn flockmate_fn(a: &Actor, b: &Actor) -> (r: bool)
    ensures
        r == flockmate(*a, *b),
{
    if is_orca_fn(a) {
        match (pod_of_fn(a), pod_of_fn(b)) {
            (Some(x), Some(y)) => is_orca_fn(b) && x == y,
            _ => false,
        }
    } else {
        !is_orca_fn(b)
    }
}

/// Same-group neighbours of actor `i`: every other actor of the same
/// flocking context strictly within view range.
pub fn visible_neighbours(actors: &Vec<Actor>, i: usize) -> (r: Vec<u64>)
    requires
        i < actors@.len(),
        forall|k: int| 0 <= k < actors@.len() ==> actor_wf(#[trigger] actors@[k]),
    ensures
        r@ == neigh_ids(actors@, i as int),
{
    let n = actors.len();
    let mut r: Vec<u64> = Vec::new();
    let mut j: usize = 0;
    while j < n
        invariant
            j <= n,
            i < n,
            n == actors@.len(),
            forall|k: int| 0 <= k < actors@.len() ==> actor_wf(#[trigger] actors@[k]),
            r@ == neigh_ids_upto(actors@, i as int, j as int),
        decreases n - j,
    {
        if j != i && flockmate_fn(&actors[i], &actors[j]) && sees_fn(&actors[i], &actors[j]) {
            r.push(actors[j].id);
        }
        j = j + 1;
    }
    r
}

/// Visible prey of actor `i`: every fish strictly within view range,
/// for predators; empty for fish.
pub fn visible_prey(actors: &Vec<Actor>, i: usize) -> (r: Vec<u64>)
    requires
        i < actors@.len(),
        forall|k: int| 0 <= k < actors@.len() ==> actor_wf(#[trigger] actors@[k]),
    ensures
        r@ == prey_ids(actors@, i as int),
{
    let n = actors.len();
    let mut r: Vec<u64> = Vec::new();
    let mut j: usize = 0;
    while j < n
        invariant
            j <= n,
            i < n,
            n == actors@.len(),
            forall|k: int| 0 <= k < actors@.len() ==> actor_wf(#[trigger] actors@[k]),
            r@ == prey_ids_upto(actors@, i as int, j as int),
        decreases n - j,
    {
        if is_orca_fn(&actors[i]) && !is_orca_fn(&actors[j]) && sees_fn(&actors[i], &actors[j]) {
            r.push(actors[j].id);
        }
        j = j + 1;
    }
    r
}

/// The whole simulation state.
pub struct Simulation {
    /// accumulated simulated time, milliseconds
    pub time_ms: u64,
    /// the live population snapshot
    pub actors: Vec<Actor>,
    /// per-actor same-group neighbour identities, rebuilt by perception
    pub neighbours: Vec<Vec<u64>>,
    /// per-actor visible prey identities (predators only)
    pub prey: Vec<Vec<u64>>,
    /// all pods, indexed by pod id
    pub pods: PodPool,
    /// the deferred command queue
    pub commands: Vec<Command>,
    /// identities below this value are spent; never reused
    pub next_id: u64,
    /// the explicit seeded generator threaded through the phases
    pub rng: SimRng,
}

impl Simulation {
    /// Well-formedness: bounded actors with unique, spent identities;
    /// perception tables parallel to the population; a well-formed queue.
    pub open spec fn wf(self) -> bool {
        &&& forall|i: int| 0 <= i < self.actors@.len() ==> actor_wf(#[trigger] self.actors@[i])
        &&& forall|i: int| 0 <= i < self.actors@.len() ==> (#[trigger] self.actors@[i].id)
            < self.next_id
        &&& forall|i: int, j: int|
            0 <= i < j < self.actors@.len() ==> (#[trigger] self.actors@[i].id) != (
            #[trigger] self.actors@[j].id)
        &&& self.neighbours@.len() == self.actors@.len()
        &&& self.prey@.len() == self.actors@.len()
        &&& forall|i: int| 0 <= i < self.commands@.len() ==> cmd_wf(#[trigger] self.commands@[i])
    }

    /// A fresh, empty simulation seeded for reproducible runs.
    pub fn new(seed: u64) -> (r: Simulation)
        ensures
            r.wf(),
            r.time_ms == 0,
            r.actors@.len() == 0,
            r.pods@.len() == 0,
            r.commands@.len() == 0,
            r.next_id == 0,
            r.rng.state == seed,
    {
        Simulation {
            time_ms: 0,
            actors: Vec::new(),
            neighbours: Vec::new(),
            prey: Vec::new(),
            pods: PodPool::new(),
            commands: Vec::new(),
            next_id: 0,
            rng: SimRng::new(seed),
        }
    }

    /// Elapsed simulated time in milliseconds.
    pub fn sim_time(&self) -> (r: u64)
        ensures
            r == self.time_ms,
    {
        self.time_ms
    }

    /// Number of living orcas.
    pub fn orca_count(&self) -> (r: usize)
        ensures
            r == count_orcas(self.actors@),
    {
        let n = self.actors.len();
        let mut c: usize = 0;
        let mut i: usize = 0;
        while i < n
            invariant
                i <= n,
                n == self.actors@.len(),
                c == count_orcas(self.actors@.take(i as int)),
                c <= i,
            decreases n - i,
        {
            proof {
                assert(self.actors@.take(i as int + 1).drop_last() =~= self.actors@.take(i as int));
                assert(self.actors@.take(i as int + 1).last() == self.actors@[i as int]);
            }
            if is_orca_fn(&self.actors[i]) {
                c = c + 1;
            }
            i = i + 1;
        }
        proof {
            assert(self.actors@.take(n as int) =~= self.actors@);
        }
        c
    }

    /// Perception: wholly rebuild every actor's same-group neighbour set
    /// and (for predators) visible prey set from the current positions.
    /// Nothing else is touched.
    pub fn perception_phase(&mut self)
        requires
            old(self).wf(),
        ensures
            final(self).wf(),
            final(self).actors == old(self).actors,
            final(self).pods == old(self).pods,
            final(self).commands == old(self).commands,
            final(self).next_id == old(self).next_id,
            final(self).rng == old(self).rng,
            final(self).time_ms == old(self).time_ms,
            final(self).neighbours@.len() == old(self).actors@.len(),
            final(self).prey@.len() == old(self).actors@.len(),
            forall|i: int|
                0 <= i < old(self).actors@.len() ==> (#[trigger] final(self).neighbours@[i])@
                    == neigh_ids(old(self).actors@, i),
            forall|i: int|
                0 <= i < old(self).actors@.len() ==> (#[trigger] final(self).prey@[i])@
                    == prey_ids(old(self).actors@, i),
    {
        let n = self.actors.len();
        let mut nb: Vec<Vec<u64>> = Vec::new();
        let mut pr: Vec<Vec<u64>> = Vec::new();
        let mut i: usize = 0;
        while i < n
            invariant
                i <= n,
                n == self.actors@.len(),
                *self == *old(self),
                old(self).wf(),
                nb@.len() == i,
                pr@.len() == i,
                forall|k: int| 0 <= k < i ==> (#[trigger] nb@[k])@ == neigh_ids(
                    old(self).actors@,
                    k,
                ),
                forall|k: int| 0 <= k < i ==> (#[trigger] pr@[k])@ == prey_ids(
                    old(self).actors@,
                    k,
                ),
            decreases n - i,
        {
            let v = visible_neighbours(&self.actors, i);
            nb.push(v);
            let p = visible_prey(&self.actors, i);
            pr.push(p);
            i = i + 1;
        }
        self.neighbours = nb;
        self.prey = pr;
    }

    /// Hunger: every predator's hunger grows with the elapsed time; a
    /// predator whose unclamped hunger reaches the bound is queued for a
    /// deferred despawn (reason: starvation) — and no other actor is.
    /// Fish and every other field are untouched.
    pub fn hunger_phase(&mut self, dt_ms: u64)
        requires
            old(self).wf(),
            dt_ms <= DT_LIMIT,
        ensures
            final(self).wf(),
            final(self).actors@.len() == old(self).actors@.len(),
            forall|i: int|
                0 <= i < old(self).actors@.len() ==> final(self).actors@[i] == hungered(
                    #[trigger] old(self).actors@[i],
                    dt_ms,
                ),
            final(self).commands@ == old(self).commands@ + starve_cmds(old(self).actors@, dt_ms),
            final(self).neighbours == old(self).neighbours,
            final(self).prey == old(self).prey,
            final(self).pods == old(self).pods,
            final(self).next_id == old(self).next_id,
            final(self).rng == old(self).rng,
            final(self).time_ms == old(self).time_ms,
    {
        let ghost a0 = self.actors@;
        let ghost c0 = self.commands@;
        let n = self.actors.len();
        let mut i: usize = 0;
        while i < n
            invariant
                i <= n,
                n == self.actors@.len(),
                n == a0.len(),
                dt_ms <= DT_LIMIT,
                forall|k: int| 0 <= k < a0.len() ==> actor_wf(#[trigger] a0[k]),
                forall|k: int| 0 <= k < i ==> self.actors@[k] == hungered(#[trigger] a0[k], dt_ms),
                forall|k: int| i <= k < n ==> self.actors@[k] == #[trigger] a0[k],
                self.commands@ == c0 + starve_upto(a0, dt_ms, i as int),
                forall|k: int| 0 <= k < self.commands@.len() ==> cmd_wf(
                    #[trigger] self.commands@[k],
                ),
                self.neighbours == old(self).neighbours,
                self.prey == old(self).prey,
                self.pods == old(self).pods,
                self.next_id == old(self).next_id,
                self.rng == old(self).rng,
                self.time_ms == old(self).time_ms,
            decreases n - i,
        {
            proof {
                assert(self.actors@[i as int] == a0[i as int]);
            }
            if is_orca_fn(&self.actors[i]) {
                let mut h = self.actors[i].hunger;
                let starved = h.tick(dt_ms);
                self.actors[i].hunger = h;
                if starved {
                    let id = self.actors[i].id;
                    self.commands.push(
                        Command::Despawn { id, reason: DespawnReason::Starvation },
                    );
                }
            }
            proof {
                assert(self.commands@ == c0 + starve_upto(a0, dt_ms, i as int + 1));
                assert(self.actors@[i as int] == hungered(a0[i as int], dt_ms));
            }
            i = i + 1;
        }
        proof {
            assert(self.commands@ == c0 + starve_cmds(a0, dt_ms));
            assert forall|k: int| 0 <= k < n implies actor_wf(#[trigger] self.actors@[k]) by {
                assert(self.actors@[k] == hungered(a0[k], dt_ms));
            }
            assert forall|k: int| 0 <= k < n implies (#[trigger] self.actors@[k].id) == a0[k].id
                by {
                assert(self.actors@[k] == hungered(a0[k], dt_ms));
            }
        }
    }

    /// Hunt: every predator steps its pursuit state machine once, fed by
    /// its hunger score, its visible prey set and its resolved movement
    /// target.  Eaten prey is queued for a deferred despawn (reason:
    /// eaten) and the eater's hunger drops by the replenishment amount.
    /// Fish, positions and every other field are untouched.
    pub fn hunt_phase(&mut self)
        requires
            old(self).wf(),
        ensures
            final(self).wf(),
            final(self).actors@.len() == old(self).actors@.len(),
            forall|i: int|
                0 <= i < old(self).actors@.len() ==> #[trigger] final(self).actors@[i] == hunted(
                    old(self).actors@,
                    id_views(old(self).prey@),
                    i,
                ),
            final(self).commands@ == old(self).commands@ + hunt_cmds(
                old(self).actors@,
                id_views(old(self).prey@),
            ),
            final(self).neighbours == old(self).neighbours,
            final(self).prey == old(self).prey,
            final(self).pods == old(self).pods,
            final(self).next_id == old(self).next_id,
            final(self).rng == old(self).rng,
            final(self).time_ms == old(self).time_ms,
    {
        let ghost a0 = self.actors@;
        let ghost c0 = self.commands@;
        let ghost pr0 = id_views(self.prey@);
        let n = self.actors.len();
        let mut i: usize = 0;
        while i < n
            invariant
                i <= n,
                n == self.actors@.len(),
                n == a0.len(),
                pr0 == id_views(self.prey@),
                self.prey@.len() == n,
                forall|k: int| 0 <= k < a0.len() ==> actor_wf(#[trigger] a0[k]),
                forall|k: int, j: int|
                    0 <= k < j < a0.len() ==> (#[trigger] a0[k].id) != (#[trigger] a0[j].id),
                forall|k: int| 0 <= k < a0.len() ==> (#[trigger] a0[k].id) < self.next_id,
                forall|k: int| 0 <= k < i ==> #[trigger] self.actors@[k] == hunted(a0, pr0, k),
                forall|k: int| i <= k < n ==> self.actors@[k] == #[trigger] a0[k],
                forall|k: int| 0 <= k < n ==> (#[trigger] self.actors@[k].id) == a0[k].id,
                forall|k: int| 0 <= k < n ==> (#[trigger] self.actors@[k].pos) == a0[k].pos,
                forall|k: int| 0 <= k < n ==> actor_wf(#[trigger] self.actors@[k]),
                self.commands@ == c0 + hunt_upto(a0, pr0, i as int),
                forall|k: int| 0 <= k < self.commands@.len() ==> cmd_wf(
                    #[trigger] self.commands@[k],
                ),
                self.neighbours == old(self).neighbours,
                self.prey == old(self).prey,
                self.pods == old(self).pods,
                self.next_id == old(self).next_id,
                self.rng == old(self).rng,
                self.time_ms == old(self).time_ms,
            decreases n - i,
        {
            proof {
                assert(self.actors@[i as int] == a0[i as int]);
            }
            if is_orca_fn(&self.actors[i]) {
                let state = self.actors[i].hunt;
                let target = self.actors[i].movement.target;
                let hval = self.actors[i].hunger.0;
                let pos = self.actors[i].pos;
                let fp: Option<u64> = if self.prey[i].len() > 0 {
                    Some(self.prey[i][0])
                } else {
                    None
                };
                proof {
                    assert(pr0[i as int] == self.prey@[i as int]@);
                    assert(fp == first_prey(pr0[i as int]));
                }
                // The behaviour table has a single entry — hunting —
                // scored by hunger; the picker selects it when the
                // score clears the activation threshold.
                let mut scores: Vec<u32> = Vec::new();
                scores.push(hungry_score(hval));
                let hungry = match pick_behavior(&scores, HUNT_THRESHOLD) {
                    Some(_) => true,
                    None => false,
                };
                proof {
                    assert(scores@[0] == hval);
                    assert(hungry == is_hungry(hval));
                }
                let rtarget: Option<Vec2> = match target {
                    Some(tid) => {
                        match find_index(&self.actors, tid) {
                            Some(j) => Some(self.actors[j].pos),
                            None => None,
                        }
                    },
                    None => None,
                };
                proof {
                    assert(rtarget == resolve_opt(self.actors@, target));
                    lemma_resolve_congruent(self.actors@, a0, target);
                    assert(rtarget == resolve_opt(a0, target));
                    assert(rtarget matches Some(tp) ==> in_world(tp));
                }
                let outcome = hunt_step(state, hungry, fp, target, rtarget, pos);
                proof {
                    assert(outcome == orca_outcome(a0, pr0, i as int));
                }
                self.actors[i].hunt = outcome.state;
                self.actors[i].movement.target = outcome.target;
                if outcome.ate {
                    let mut h = self.actors[i].hunger;
                    h.eat(EAT_AMOUNT);
                    self.actors[i].hunger = h;
                }
                match outcome.despawn {
                    Some(t) => {
                        self.commands.push(
                            Command::Despawn { id: t, reason: DespawnReason::Eaten },
                        );
                    },
                    None => {},
                }
                proof {
                    assert(self.actors@[i as int] == with_outcome(a0[i as int], outcome));
                    assert(self.actors@[i as int] == hunted(a0, pr0, i as int));
                    assert(self.commands@ == c0 + hunt_upto(a0, pr0, i as int + 1));
                }
            } else {
                proof {
                    assert(self.actors@[i as int] == hunted(a0, pr0, i as int));
                    assert(self.commands@ == c0 + hunt_upto(a0, pr0, i as int + 1));
                }
            }
            i = i + 1;
        }
        proof {
            assert(self.commands@ == c0 + hunt_cmds(a0, pr0));
        }
    }

    /// Force: every actor's accumulated force grows by its scaled boid
    /// steering force (clamped into its bound) and its facing is aligned
    /// with its velocity.  The seeded generator advances once per moving
    /// actor that has neighbours.  Nothing else is touched.
    pub fn force_phase(&mut self, dt_ms: u64)
        requires
            old(self).wf(),
            dt_ms <= DT_LIMIT,
        ensures
            final(self).wf(),
            final(self).actors@.len() == old(self).actors@.len(),
            forall|i: int|
                0 <= i < old(self).actors@.len() ==> #[trigger] final(self).actors@[i] == forced(
                    old(self).actors@,
                    id_views(old(self).neighbours@),
                    old(self).rng.state,
                    dt_ms,
                    i,
                ),
            final(self).rng.state == force_rng_upto(
                old(self).actors@,
                id_views(old(self).neighbours@),
                old(self).rng.state,
                old(self).actors@.len() as int,
            ),
            final(self).neighbours == old(self).neighbours,
            final(self).prey == old(self).prey,
            final(self).pods == old(self).pods,
            final(self).commands == old(self).commands,
            final(self).next_id == old(self).next_id,
            final(self).time_ms == old(self).time_ms,
    {
        let ghost a0 = self.actors@;
        let ghost nbs0 = id_views(self.neighbours@);
        let ghost s0 = self.rng.state;
        let n = self.actors.len();
        let mut i: usize = 0;
        while i < n
            invariant
                i <= n,
                n == self.actors@.len(),
                n == a0.len(),
                dt_ms <= DT_LIMIT,
                nbs0 == id_views(self.neighbours@),
                self.neighbours@.len() == n,
                forall|k: int| 0 <= k < a0.len() ==> actor_wf(#[trigger] a0[k]),
                forall|k: int| 0 <= k < a0.len() ==> (#[trigger] a0[k].id) < self.next_id,
                forall|k: int, j: int|
                    0 <= k < j < a0.len() ==> (#[trigger] a0[k].id) != (#[trigger] a0[j].id),
                forall|k: int| 0 <= k < i ==> #[trigger] self.actors@[k] == forced(
                    a0,
                    nbs0,
                    s0,
                    dt_ms,
                    k,
                ),
                forall|k: int| i <= k < n ==> self.actors@[k] == #[trigger] a0[k],
                forall|k: int| 0 <= k < n ==> (#[trigger] self.actors@[k].id) == a0[k].id,
                forall|k: int| 0 <= k < n ==> (#[trigger] self.actors@[k].pos) == a0[k].pos,
                forall|k: int| 0 <= k < n ==> (#[trigger] self.actors@[k].vel) == a0[k].vel,
                forall|k: int| 0 <= k < n ==> actor_wf(#[trigger] self.actors@[k]),
                self.rng.state == force_rng_upto(a0, nbs0, s0, i as int),
                self.neighbours == old(self).neighbours,
                self.prey == old(self).prey,
                self.pods == old(self).pods,
                self.commands == old(self).commands,
                self.next_id == old(self).next_id,
                self.time_ms == old(self).time_ms,
            decreases n - i,
        {
            proof {
                assert(self.actors@[i as int] == a0[i as int]);
                assert(nbs0[i as int] == self.neighbours@[i as int]@);
            }
            let pos = self.actors[i].pos;
            let vel = self.actors[i].vel;
            let m = self.actors[i].movement;
            // Resolve the neighbour identities against the snapshot.
            let nn = self.neighbours[i].len();
            let mut es: Vec<NeighEntry> = Vec::new();
            let mut j: usize = 0;
            while j < nn
                invariant
                    j <= nn,
                    i < n,
                    n == self.actors@.len(),
                    n == a0.len(),
                    nn == self.neighbours@[i as int]@.len(),
                    self.neighbours@.len() == n,
                    forall|k: int| 0 <= k < n ==> actor_wf(#[trigger] self.actors@[k]),
                    forall|k: int| 0 <= k < n ==> (#[trigger] self.actors@[k].id) == a0[k].id,
                    forall|k: int| 0 <= k < n ==> (#[trigger] self.actors@[k].pos) == a0[k].pos,
                    forall|k: int| 0 <= k < n ==> (#[trigger] self.actors@[k].vel) == a0[k].vel,
                    es@.len() == j,
                    forall|k: int| 0 <= k < j ==> #[trigger] es@[k] == resolve_entry(
                        a0,
                        self.neighbours@[i as int]@[k],
                    ),
                decreases nn - j,
            {
                let id = self.neighbours[i][j];
                let e: NeighEntry = match find_index(&self.actors, id) {
                    Some(jj) => Some((self.actors[jj].pos, self.actors[jj].vel)),
                    None => None,
                };
                proof {
                    assert(e == resolve_entry(self.actors@, id));
                    lemma_entry_congruent(self.actors@, a0, id);
                }
                es.push(e);
                j = j + 1;
            }
            proof {
                assert(es@ =~= entries_of(a0, nbs0[i as int]));
                assert forall|k: int| 0 <= k < es@.len() implies (#[trigger] es@[k] matches Some(e)
                    ==> in_world(e.0) && in_world(e.1)) by {
                    if es@[k] is Some {
                        lemma_find_from(a0, nbs0[i as int][k], 0);
                    }
                }
            }
            // Resolve the movement target.
            let rtarget: Option<Vec2> = match m.target {
                Some(tid) => {
                    match find_index(&self.actors, tid) {
                        Some(jj) => Some(self.actors[jj].pos),
                        None => None,
                    }
                },
                None => None,
            };
            proof {
                assert(rtarget == resolve_opt(self.actors@, m.target));
                lemma_resolve_congruent(self.actors@, a0, m.target);
                assert(rtarget == resolve_opt(a0, m.target));
            }
            let f = boid_force(pos, vel, &m, &es, rtarget, dt_ms, &mut self.rng);
            let ofx = self.actors[i].force.x;
            let ofy = self.actors[i].force.y;
            let nfx = clamp128((ofx as i128) + (f.x as i128), FORCE_LIMIT);
            let nfy = clamp128((ofy as i128) + (f.y as i128), FORCE_LIMIT);
            self.actors[i].force = Vec2 { x: nfx, y: nfy };
            let fc = normalize(vel);
            self.actors[i].facing = fc;
            proof {
                assert(fc == unit_heading(a0[i as int].vel));
                assert(self.actors@[i as int] == forced(a0, nbs0, s0, dt_ms, i as int));
                assert(self.rng.state == force_rng_upto(a0, nbs0, s0, i as int + 1));
            }
            i = i + 1;
        }
    }

    /// Commit: apply the whole deferred command queue in order, then
    /// clear it.  The perception tables are reset (they are transient,
    /// rebuilt from scratch by the next tick's perception).  A despawn
    /// for an identity that no longer exists is skipped; a spawn while
    /// the identity space is spent is dropped.
    pub fn apply_commands(&mut self)
        requires
            old(self).wf(),
        ensures
            final(self).wf(),
            ({
                let r = apply_all(
                    old(self).actors@,
                    old(self).pods@,
                    old(self).next_id,
                    old(self).commands@,
                );
                final(self).actors@ == r.0 && final(self).pods@ == r.1 && final(self).next_id
                    == r.2
            }),
            final(self).commands@.len() == 0,
            final(self).neighbours@.len() == final(self).actors@.len(),
            final(self).prey@.len() == final(self).actors@.len(),
            forall|i: int|
                0 <= i < final(self).actors@.len() ==> (#[trigger] final(self).neighbours@[i])@
                    == Seq::<u64>::empty(),
            forall|i: int|
                0 <= i < final(self).actors@.len() ==> (#[trigger] final(self).prey@[i])@
                    == Seq::<u64>::empty(),
            final(self).rng == old(self).rng,
            final(self).time_ms == old(self).time_ms,
    {
        let ghost a0 = self.actors@;
        let ghost p0 = self.pods@;
        let ghost n0 = self.next_id;
        let ghost c0 = self.commands@;
        let ghost total = c0.len() as int;
        let mut k: usize = 0;
        let cl = self.commands.len();
        proof {
            assert(c0.len() == cl);
            assert(c0.skip(0) =~= c0);
        }
        while self.commands.len() > 0
            invariant
                k <= c0.len(),
                c0.len() <= usize::MAX,
                self.commands@ == c0.skip(k as int),
                forall|j: int| 0 <= j < c0.len() ==> cmd_wf(#[trigger] c0[j]),
                ({
                    let r = apply_upto(a0, p0, n0, c0, k as int);
                    self.actors@ == r.0 && self.pods@ == r.1 && self.next_id == r.2
                }),
                forall|i: int| 0 <= i < self.actors@.len() ==> actor_wf(
                    #[trigger] self.actors@[i],
                ),
                forall|i: int| 0 <= i < self.actors@.len() ==> (#[trigger] self.actors@[i].id)
                    < self.next_id,
                forall|i: int, j: int|
                    0 <= i < j < self.actors@.len() ==> (#[trigger] self.actors@[i].id) != (
                    #[trigger] self.actors@[j].id),
                self.rng == old(self).rng,
                self.time_ms == old(self).time_ms,
            decreases self.commands@.len(),
        {
            let c = self.commands.remove(0);
            proof {
                assert(c == c0[k as int]);
                assert(self.commands@ =~= c0.skip(k as int + 1));
            }
            match c {
                Command::AddPod { name } => {
                    self.pods.push_pod(name);
                },
                Command::Spawn(r) => {
                    if self.next_id < u64::MAX {
                        let ghost rg = r;
                        let id = self.next_id;
                        let pid_opt: Option<PodId> = match &r.kind {
                            SpawnKind::Orca { pod_id, .. } => *pod_id,
                            SpawnKind::Fish => None,
                        };
                        let facing = normalize(r.vel);
                        let kind: ActorKind = match r.kind {
                            SpawnKind::Orca { name, gender, age, mass, orca_type, pod_id } => {
                                ActorKind::Orca(
                                    Orca { name, gender, age, mass, orca_type, pod_id },
                                )
                            },
                            SpawnKind::Fish => ActorKind::Fish,
                        };
                        let a = Actor {
                            id,
                            pos: r.pos,
                            vel: r.vel,
                            facing,
                            force: Vec2 { x: 0, y: 0 },
                            sight: r.sight,
                            movement: r.movement,
                            hunger: Hunger::new(r.hunger),
                            hunt: HuntState::Requested,
                            kind,
                        };
                        proof {
                            assert(a == spawned(rg, id));
                        }
                        self.actors.push(a);
                        self.next_id = id + 1;
                        match pid_opt {
                            Some(pid) => {
                                self.pods.add_member(pid, id);
                            },
                            None => {},
                        }
                        proof {
                            assert(self.pods@ =~= pods_after_spawn(
                                apply_upto(a0, p0, n0, c0, k as int).1,
                                rg,
                                id,
                            ));
                        }
                    }
                },
                Command::Despawn { id, .. } => {
                    match find_index(&self.actors, id) {
                        Some(j) => {
                            self.actors.remove(j);
                        },
                        None => {},
                    }
                },
                Command::DespawnAll => {
                    self.actors.clear();
                    self.pods.clear();
                },
            }
            proof {
                let r2 = apply_upto(a0, p0, n0, c0, k as int + 1);
                assert(self.actors@ == r2.0 && self.pods@ == r2.1 && self.next_id == r2.2);
            }
            k = k + 1;
        }
        proof {
            assert(k == c0.len());
        }
        // Reset the transient perception tables for the new population.
        let n2 = self.actors.len();
        let mut nb: Vec<Vec<u64>> = Vec::new();
        let mut pr: Vec<Vec<u64>> = Vec::new();
        let mut i: usize = 0;
        while i < n2
            invariant
                i <= n2,
                nb@.len() == i,
                pr@.len() == i,
                forall|j: int| 0 <= j < i ==> (#[trigger] nb@[j])@ == Seq::<u64>::empty(),
                forall|j: int| 0 <= j < i ==> (#[trigger] pr@[j])@ == Seq::<u64>::empty(),
            decreases n2 - i,
        {
            nb.push(Vec::new());
            pr.push(Vec::new());
            i = i + 1;
        }
        self.neighbours = nb;
        self.prey = pr;
    }

    /// Number of living actors.
    pub fn population(&self) -> (r: usize)
        ensures
            r == self.actors@.len(),
    {
        self.actors.len()
    }

    /// Read one actor.
    pub fn actor(&self, i: usize) -> (r: &Actor)
        requires
            i < self.actors@.len(),
        ensures
            *r == self.actors@[i as int],
    {
        &self.actors[i]
    }

    /// Integrator write-back: set an actor's position and velocity, each
    /// component clamped into the world bound.
    pub fn set_kinematics(&mut self, i: usize, pos: Vec2, vel: Vec2)
        requires
            old(self).wf(),
            i < old(self).actors@.len(),
        ensures
            final(self).wf(),
            final(self).actors@ == old(self).actors@.update(
                i as int,
                (Actor {
                    pos: world_clamp(pos),
                    vel: world_clamp(vel),
                    ..old(self).actors@[i as int]
                }),
            ),
            final(self).neighbours == old(self).neighbours,
            final(self).prey == old(self).prey,
            final(self).pods == old(self).pods,
            final(self).commands == old(self).commands,
            final(self).next_id == old(self).next_id,
            final(self).rng == old(self).rng,
            final(self).time_ms == old(self).time_ms,
    {
        let p = clamp_world(pos);
        let v = clamp_world(vel);
        self.actors[i].pos = p;
        self.actors[i].vel = v;
    }

    /// Integrator read: hand out an actor's accumulated force and zero
    /// it, so each tick's force is consumed exactly once.
    pub fn take_force(&mut self, i: usize) -> (f: Vec2)
        requires
            old(self).wf(),
            i < old(self).actors@.len(),
        ensures
            final(self).wf(),
            f == old(self).actors@[i as int].force,
            final(self).actors@ == old(self).actors@.update(
                i as int,
                (Actor { force: Vec2 { x: 0, y: 0 }, ..old(self).actors@[i as int] }),
            ),
            final(self).neighbours == old(self).neighbours,
            final(self).prey == old(self).prey,
            final(self).pods == old(self).pods,
            final(self).commands == old(self).commands,
            final(self).next_id == old(self).next_id,
            final(self).rng == old(self).rng,
            final(self).time_ms == old(self).time_ms,
    {
        let f = self.actors[i].force;
        self.actors[i].force = Vec2 { x: 0, y: 0 };
        f
    }

    /// One full tick: perception, then hunger, then hunt, then force, in
    /// that fixed order over one consistent population snapshot, and the
    /// clock advanced (saturating).  Deferred commands pile up in the
    /// queue; `apply_commands` commits them at the tick boundary.
    pub fn tick(&mut self, dt_ms: u64)
        requires
            old(self).wf(),
            dt_ms <= DT_LIMIT,
        ensures
            final(self).wf(),
            final(self).actors@.len() == old(self).actors@.len(),
            ({
                let s0 = old(self).actors@;
                let n = s0.len() as int;
                let nbs = Seq::new(s0.len(), |i: int| neigh_ids(s0, i));
                let prs = Seq::new(s0.len(), |i: int| prey_ids(s0, i));
                let s2 = Seq::new(s0.len(), |i: int| hungered(s0[i], dt_ms));
                let s3 = Seq::new(s0.len(), |i: int| hunted(s2, prs, i));
                &&& (forall|i: int|
                    0 <= i < n ==> #[trigger] final(self).actors@[i] == forced(
                        s3,
                        nbs,
                        old(self).rng.state,
                        dt_ms,
                        i,
                    ))
                &&& final(self).commands@ == old(self).commands@ + starve_cmds(s0, dt_ms)
                    + hunt_cmds(s2, prs)
                &&& final(self).rng.state == force_rng_upto(s3, nbs, old(self).rng.state, n)
                &&& (forall|i: int|
                    0 <= i < n ==> (#[trigger] final(self).neighbours@[i])@ == nbs[i])
                &&& (forall|i: int| 0 <= i < n ==> (#[trigger] final(self).prey@[i])@ == prs[i])
            }),
            final(self).pods == old(self).pods,
            final(self).next_id == old(self).next_id,
            final(self).time_ms == (if old(self).time_ms + dt_ms <= u64::MAX {
                (old(self).time_ms + dt_ms) as u64
            } else {
                u64::MAX
            }),
    {
        let ghost s0 = self.actors@;
        let ghost nbs = Seq::new(s0.len(), |i: int| neigh_ids(s0, i));
        let ghost prs = Seq::new(s0.len(), |i: int| prey_ids(s0, i));
        self.perception_phase();
        proof {
            assert(id_views(self.neighbours@) =~= nbs);
            assert(id_views(self.prey@) =~= prs);
        }
        let ghost s1 = self.actors@;
        self.hunger_phase(dt_ms);
        proof {
            assert(self.actors@ =~= Seq::new(s0.len(), |i: int| hungered(s0[i], dt_ms)));
        }
        let ghost s2 = self.actors@;
        self.hunt_phase();
        proof {
            assert(id_views(self.prey@) =~= prs);
            assert(self.actors@ =~= Seq::new(s0.len(), |i: int| hunted(s2, prs, i)));
        }
        let ghost s3 = self.actors@;
        self.force_phase(dt_ms);
        proof {
            assert(id_views(self.neighbours@) =~= nbs);
        }
        if self.time_ms <= u64::MAX - dt_ms {
            self.time_ms = self.time_ms + dt_ms;
        } else {
            self.time_ms = u64::MAX;
        }
    }

    /// Handle a run request: enqueue a transactional restart — one
    /// despawn-all, then a pod of drawn size per requested pod with its
    /// drawn members, then the requested fish — all as deferred commands
    /// consumed by the next `apply_commands`.  An inverted pod size
    /// range is clamped (minimum down to maximum) before drawing.
    #[verifier::rlimit(100)]
    pub fn run(&mut self, cfg: &RunSimEvent)
        requires
            old(self).wf(),
            cfg.wf(),
        ensures
            final(self).wf(),
            final(self).commands@ == old(self).commands@ + run_cmds(*cfg, old(self).rng.state).0,
            final(self).rng.state == run_cmds(*cfg, old(self).rng.state).1,
            final(self).actors == old(self).actors,
            final(self).neighbours == old(self).neighbours,
            final(self).prey == old(self).prey,
            final(self).pods == old(self).pods,
            final(self).next_id == old(self).next_id,
            final(self).time_ms == old(self).time_ms,
    {
        let ghost c0 = self.commands@;
        let ghost s0 = self.rng.state;
        self.commands.push(Command::DespawnAll);
        if cfg.enable_orca {
            let mut p: usize = 0;
            while p < cfg.pod_count
                invariant
                    p <= cfg.pod_count,
                    cfg.wf(),
                    old(self).wf(),
                    self.commands@ == c0 + seq![Command::DespawnAll] + pods_cmds(
                        *cfg,
                        p as int,
                        s0,
                    ).0,
                    self.rng.state == pods_cmds(*cfg, p as int, s0).1,
                    forall|j: int| 0 <= j < self.commands@.len() ==> cmd_wf(
                        #[trigger] self.commands@[j],
                    ),
                    self.actors == old(self).actors,
                    self.neighbours == old(self).neighbours,
                    self.prey == old(self).prey,
                    self.pods == old(self).pods,
                    self.next_id == old(self).next_id,
                    self.time_ms == old(self).time_ms,
                decreases cfg.pod_count - p,
            {
                let ghost cp = self.commands@;
                let ghost sp = self.rng.state;
                let nidx = self.rng.gen_below(cfg.pod_names.len() as u64);
                let name = cfg.pod_names[nidx as usize].clone();
                self.commands.push(Command::AddPod { name });
                let lo: usize = if cfg.pod_size_min > cfg.pod_size_max {
                    cfg.pod_size_max
                } else {
                    cfg.pod_size_min
                };
                let size: usize = if lo < cfg.pod_size_max {
                    let d = self.rng.gen_below((cfg.pod_size_max - lo) as u64);
                    lo + (d as usize)
                } else {
                    lo
                };
                let pxd = self.rng.gen_below(200);
                let pyd = self.rng.gen_below(200);
                let td = self.rng.gen_below(2);
                let pt = if td == 0 {
                    Type::Resident
                } else {
                    Type::Transient
                };
                let base = Vec2 { x: (pxd as i64 - 100) * MILLI, y: (pyd as i64 - 100) * MILLI };
                let ghost sm = self.rng.state;
                proof {
                    assert(self.commands@ == cp + seq![Command::AddPod {
                        name: cfg.pod_names@[draw_below(sp, cfg.pod_names@.len() as u64) as int],
                    }]);
                }
                let mut m: usize = 0;
                while m < size
                    invariant
                        m <= size,
                        cfg.wf(),
                        old(self).wf(),
                        -1_000_000 <= base.x <= 1_000_000,
                        -1_000_000 <= base.y <= 1_000_000,
                        self.commands@ == cp + seq![Command::AddPod {
                            name: cfg.pod_names@[draw_below(
                                sp,
                                cfg.pod_names@.len() as u64,
                            ) as int],
                        }] + orca_member_cmds(*cfg, pt, p as PodId, base, sm, m as int).0,
                        self.rng.state == orca_member_cmds(
                            *cfg,
                            pt,
                            p as PodId,
                            base,
                            sm,
                            m as int,
                        ).1,
                        forall|j: int| 0 <= j < self.commands@.len() ==> cmd_wf(
                            #[trigger] self.commands@[j],
                        ),
                        self.actors == old(self).actors,
                        self.neighbours == old(self).neighbours,
                        self.prey == old(self).prey,
                        self.pods == old(self).pods,
                        self.next_id == old(self).next_id,
                        self.time_ms == old(self).time_ms,
                    decreases size - m,
                {
                    let req = make_orca_req(cfg, pt, p, base, &mut self.rng);
                    self.commands.push(Command::Spawn(req));
                    m = m + 1;
                }
                proof {
                    assert(self.commands@ =~= cp + pod_cmds(*cfg, p as PodId, sp).0);
                    assert(self.commands@ =~= c0 + seq![Command::DespawnAll] + pods_cmds(
                        *cfg,
                        p as int + 1,
                        s0,
                    ).0);
                }
                p = p + 1;
            }
        }
        if cfg.enable_fish {
            let ghost cf = self.commands@;
            let ghost sf = self.rng.state;
            let mut fi: usize = 0;
            while fi < cfg.fish_count
                invariant
                    fi <= cfg.fish_count,
                    cfg.wf(),
                    old(self).wf(),
                    self.commands@ == cf + fish_cmds(*cfg, sf, fi as int).0,
                    self.rng.state == fish_cmds(*cfg, sf, fi as int).1,
                    forall|j: int| 0 <= j < self.commands@.len() ==> cmd_wf(
                        #[trigger] self.commands@[j],
                    ),
                    self.actors == old(self).actors,
                    self.neighbours == old(self).neighbours,
                    self.prey == old(self).prey,
                    self.pods == old(self).pods,
                    self.next_id == old(self).next_id,
                    self.time_ms == old(self).time_ms,
                decreases cfg.fish_count - fi,
            {
                let req = make_fish_req(cfg, &mut self.rng);
                self.commands.push(Command::Spawn(req));
                fi = fi + 1;
            }
            proof {
                assert(self.commands@ =~= c0 + run_cmds(*cfg, s0).0);
            }
        } else {
            proof {
                assert(self.commands@ =~= c0 + run_cmds(*cfg, s0).0);
            }
        }
    }
}

/// Clamp both components into the world bound.
pub open spec fn world_clamp(v: Vec2) -> Vec2 {
    Vec2 {
        x: clamp_i(v.x as int, -WORLD_LIMIT as int, WORLD_LIMIT as int) as i64,
        y: clamp_i(v.y as int, -WORLD_LIMIT as int, WORLD_LIMIT as int) as i64,
    }
}

/// Clamp both components into the world bound (executable form).
pub fn clamp_world(v: Vec2) -> (r: Vec2)
    ensures
        r == world_clamp(v),
        in_world(r),
{
    let x: i64 = if v.x < -WORLD_LIMIT {
        -WORLD_LIMIT
    } else if v.x > WORLD_LIMIT {
        WORLD_LIMIT
    } else {
        v.x
    };
    let y: i64 = if v.y < -WORLD_LIMIT {
        -WORLD_LIMIT
    } else if v.y > WORLD_LIMIT {
        WORLD_LIMIT
    } else {
        v.y
    };
    Vec2 { x, y }
}

/// A request to (re)start the simulation: population toggles and counts,
/// per-population flocking parameters, and the name tables that spawned
/// pods and orcas draw from.
pub struct RunSimEvent {
    pub enable_orca: bool,
    pub pod_count: usize,
    pub pod_size_min: usize,
    pub pod_size_max: usize,
    pub enable_fish: bool,
    pub fish_count: usize,
    pub orca_params: BoidParams,
    pub fish_params: BoidParams,
    pub pod_names: Vec<String>,
    pub male_names: Vec<String>,
    pub female_names: Vec<String>,
}

impl RunSimEvent {
    /// Parameters within bounds and non-empty name tables (picking from
    /// an empty table has no value to pick).
    pub open spec fn wf(self) -> bool {
        &&& self.orca_params.wf()
        &&& self.fish_params.wf()
        &&& self.pod_names@.len() > 0
        &&& self.male_names@.len() > 0
        &&& self.female_names@.len() > 0
    }
}

/// The generator state after `k` draws.
pub open spec fn lcg_iter(s: u64, k: int) -> u64
    decreases k,
{
    if k <= 0 {
        s
    } else {
        lcg_next(lcg_iter(s, k - 1))
    }
}

/// An angle drawn in `[0, 360)` degrees, folded into `[-179, 180]`.
pub open spec fn fold_angle(a: int) -> int {
    if a > 180 {
        a - 360
    } else {
        a
    }
}

/// The initial velocity for a drawn angle: 10 units per second along
/// that heading.
pub open spec fn angle_vel(a: int) -> Vec2 {
    Vec2 {
        x: (10 * crate::vec2::cos_milli(fold_angle(a))) as i64,
        y: (10 * crate::vec2::sin_milli(fold_angle(a))) as i64,
    }
}

/// The spawn request of one orca, generated from state `s0` with nine
/// draws: offset (2), heading, gender, age, name, mass, hunger, speed.
#[verifier::opaque]
pub open spec fn orca_req(
    cfg: RunSimEvent,
    ptype: Type,
    pod_id: PodId,
    base: Vec2,
    s0: u64,
) -> SpawnRequest {
    let offx = draw_below(s0, 200) - 100;
    let s1 = lcg_next(s0);
    let offy = draw_below(s1, 200) - 100;
    let s2 = lcg_next(s1);
    let ang = draw_below(s2, 360);
    let s3 = lcg_next(s2);
    let gd = draw_below(s3, 2);
    let s4 = lcg_next(s3);
    let age = 5 + draw_below(s4, 45);
    let s5 = lcg_next(s4);
    let gender = if gd == 0 {
        Gender::Male
    } else {
        Gender::Female
    };
    let names = if gd == 0 {
        cfg.male_names
    } else {
        cfg.female_names
    };
    let name = names@[draw_below(s5, names@.len() as u64) as int];
    let s6 = lcg_next(s5);
    let mass = 2000 + draw_below(s6, 1000);
    let s7 = lcg_next(s6);
    let hunger = draw_below(s7, 300_000);
    let s8 = lcg_next(s7);
    let speed = (90 + draw_below(s8, 20)) * 100;
    SpawnRequest {
        pos: Vec2 {
            x: (base.x + offx * MILLI) as i64,
            y: (base.y + offy * MILLI) as i64,
        },
        vel: angle_vel(ang as int),
        sight: Sight { view_angle: 90, view_range: cfg.orca_params.view_range },
        movement: Movement {
            coherence: cfg.orca_params.coherence,
            alignment: cfg.orca_params.alignment,
            separation: cfg.orca_params.separation,
            randomness: cfg.orca_params.randomness,
            tracking: 10_000,
            wander_angle: 20,
            target: None,
            speed_scale: speed as u32,
        },
        hunger: hunger as u32,
        kind: SpawnKind::Orca {
            name,
            gender,
            age: age as u32,
            mass: mass as u32,
            orca_type: ptype,
            pod_id: Some(pod_id),
        },
    }
}

/// The spawn commands of `count` orcas of one pod, in order, threading
/// the generator.
pub open spec fn orca_member_cmds(
    cfg: RunSimEvent,
    ptype: Type,
    pod_id: PodId,
    base: Vec2,
    s: u64,
    count: int,
) -> (Seq<Command>, u64)
    decreases count,
{
    if count <= 0 {
        (Seq::empty(), s)
    } else {
        let prior = orca_member_cmds(cfg, ptype, pod_id, base, s, count - 1);
        (
            prior.0.push(Command::Spawn(orca_req(cfg, ptype, pod_id, base, prior.1))),
            lcg_iter(prior.1, 9),
        )
    }
}

/// The clamped pod size range: an inverted minimum is clamped to the
/// maximum before the run starts.
pub open spec fn pod_size_lo(cfg: RunSimEvent) -> int {
    if cfg.pod_size_min > cfg.pod_size_max {
        cfg.pod_size_max as int
    } else {
        cfg.pod_size_min as int
    }
}

/// The commands of one pod: the pod itself, then its drawn number of
/// members, spawned around a drawn base position.
pub open spec fn pod_cmds(cfg: RunSimEvent, pod_id: PodId, s0: u64) -> (Seq<Command>, u64) {
    let name = cfg.pod_names@[draw_below(s0, cfg.pod_names@.len() as u64) as int];
    let s1 = lcg_next(s0);
    let lo = pod_size_lo(cfg);
    let size = if lo < cfg.pod_size_max {
        lo + draw_below(s1, (cfg.pod_size_max - lo) as u64)
    } else {
        lo
    };
    let s2 = if lo < cfg.pod_size_max {
        lcg_next(s1)
    } else {
        s1
    };
    let px = draw_below(s2, 200) - 100;
    let s3 = lcg_next(s2);
    let py = draw_below(s3, 200) - 100;
    let s4 = lcg_next(s3);
    let pt = if draw_below(s4, 2) == 0 {
        Type::Resident
    } else {
        Type::Transient
    };
    let s5 = lcg_next(s4);
    let base = Vec2 { x: (px * MILLI) as i64, y: (py * MILLI) as i64 };
    let members = orca_member_cmds(cfg, pt, pod_id, base, s5, size);
    (seq![Command::AddPod { name }] + members.0, members.1)
}

/// The commands of the first `k` pods, in order.
pub open spec fn pods_cmds(cfg: RunSimEvent, k: int, s: u64) -> (Seq<Command>, u64)
    decreases k,
{
    if k <= 0 {
        (Seq::empty(), s)
    } else {
        let prior = pods_cmds(cfg, k - 1, s);
        let pod = pod_cmds(cfg, (k - 1) as PodId, prior.1);
        (prior.0 + pod.0, pod.1)
    }
}

/// The spawn request of one fish, generated with four draws: position
/// (2), heading, speed.
#[verifier::opaque]
pub open spec fn fish_req(cfg: RunSimEvent, s0: u64) -> SpawnRequest {
    let px = draw_below(s0, 200) - 100;
    let s1 = lcg_next(s0);
    let py = draw_below(s1, 200) - 100;
    let s2 = lcg_next(s1);
    let ang = draw_below(s2, 360);
    let s3 = lcg_next(s2);
    let speed = (90 + draw_below(s3, 20)) * 100;
    SpawnRequest {
        pos: Vec2 { x: (px * MILLI) as i64, y: (py * MILLI) as i64 },
        vel: angle_vel(ang as int),
        sight: Sight { view_angle: 90, view_range: cfg.fish_params.view_range },
        movement: Movement {
            coherence: cfg.fish_params.coherence,
            alignment: cfg.fish_params.alignment,
            separation: cfg.fish_params.separation,
            randomness: cfg.fish_params.randomness,
            tracking: 10_000,
            wander_angle: 20,
            target: None,
            speed_scale: speed as u32,
        },
        hunger: 0,
        kind: SpawnKind::Fish,
    }
}

/// The spawn commands of `count` fish, in order.
pub open spec fn fish_cmds(cfg: RunSimEvent, s: u64, count: int) -> (Seq<Command>, u64)
    decreases count,
{
    if count <= 0 {
        (Seq::empty(), s)
    } else {
        let prior = fish_cmds(cfg, s, count - 1);
        (prior.0.push(Command::Spawn(fish_req(cfg, prior.1))), lcg_iter(prior.1, 4))
    }
}

/// Everything a run request enqueues: a transactional despawn-all,
/// then the enabled populations.
pub open spec fn run_cmds(cfg: RunSimEvent, s0: u64) -> (Seq<Command>, u64) {
    let orcas = if cfg.enable_orca {
        pods_cmds(cfg, cfg.pod_count as int, s0)
    } else {
        (Seq::<Command>::empty(), s0)
    };
    let fish = if cfg.enable_fish {
        fish_cmds(cfg, orcas.1, cfg.fish_count as int)
    } else {
        (Seq::<Command>::empty(), orcas.1)
    };
    (seq![Command::DespawnAll] + orcas.0 + fish.0, fish.1)
}

/// Generate one orca spawn request, drawing nine values.
fn make_orca_req(
    cfg: &RunSimEvent,
    ptype: Type,
    pod_id: PodId,
    base: Vec2,
    rng: &mut SimRng,
) -> (r: SpawnRequest)
    requires
        cfg.wf(),
        -1_000_000 <= base.x <= 1_000_000,
        -1_000_000 <= base.y <= 1_000_000,
    ensures
        r == orca_req(*cfg, ptype, pod_id, base, old(rng).state),
        final(rng).state == lcg_iter(old(rng).state, 9),
        req_wf(r),
{
    let ghost s0 = rng.state;
    let dx = rng.gen_below(200);
    let offx: i64 = dx as i64 - 100;
    let dy = rng.gen_below(200);
    let offy: i64 = dy as i64 - 100;
    let ang = rng.gen_below(360);
    let gd = rng.gen_below(2);
    let aged = rng.gen_below(45);
    let name: String = if gd == 0 {
        let idx = rng.gen_below(cfg.male_names.len() as u64);
        cfg.male_names[idx as usize].clone()
    } else {
        let idx = rng.gen_below(cfg.female_names.len() as u64);
        cfg.female_names[idx as usize].clone()
    };
    let massd = rng.gen_below(1000);
    let hunger = rng.gen_below(300_000);
    let spdd = rng.gen_below(20);
    let af: i64 = if ang > 180 {
        ang as i64 - 360
    } else {
        ang as i64
    };
    let c = crate::vec2::cos_deg(af);
    let sn = crate::vec2::sin_deg(af);
    let r = SpawnRequest {
        pos: Vec2 { x: base.x + offx * MILLI, y: base.y + offy * MILLI },
        vel: Vec2 { x: 10 * c, y: 10 * sn },
        sight: Sight { view_angle: 90, view_range: cfg.orca_params.view_range },
        movement: Movement {
            coherence: cfg.orca_params.coherence,
            alignment: cfg.orca_params.alignment,
            separation: cfg.orca_params.separation,
            randomness: cfg.orca_params.randomness,
            tracking: 10_000,
            wander_angle: 20,
            target: None,
            speed_scale: ((90 + spdd) * 100) as u32,
        },
        hunger: hunger as u32,
        kind: SpawnKind::Orca {
            name,
            gender: if gd == 0 {
                Gender::Male
            } else {
                Gender::Female
            },
            age: (5 + aged) as u32,
            mass: (2000 + massd) as u32,
            orca_type: ptype,
            pod_id: Some(pod_id),
        },
    };
    proof {
        reveal(orca_req);
        reveal_with_fuel(lcg_iter, 10);
        assert(r == orca_req(*cfg, ptype, pod_id, base, s0));
    }
    r
}

/// Generate one fish spawn request, drawing four values.
fn make_fish_req(cfg: &RunSimEvent, rng: &mut SimRng) -> (r: SpawnRequest)
    requires
        cfg.wf(),
    ensures
        r == fish_req(*cfg, old(rng).state),
        final(rng).state == lcg_iter(old(rng).state, 4),
        req_wf(r),
{
    let ghost s0 = rng.state;
    let dx = rng.gen_below(200);
    let px: i64 = dx as i64 - 100;
    let dy = rng.gen_below(200);
    let py: i64 = dy as i64 - 100;
    let ang = rng.gen_below(360);
    let spdd = rng.gen_below(20);
    let af: i64 = if ang > 180 {
        ang as i64 - 360
    } else {
        ang as i64
    };
    let c = crate::vec2::cos_deg(af);
    let sn = crate::vec2::sin_deg(af);
    let r = SpawnRequest {
        pos: Vec2 { x: px * MILLI, y: py * MILLI },
        vel: Vec2 { x: 10 * c, y: 10 * sn },
        sight: Sight { view_angle: 90, view_range: cfg.fish_params.view_range },
        movement: Movement {
            coherence: cfg.fish_params.coherence,
            alignment: cfg.fish_params.alignment,
            separation: cfg.fish_params.separation,
            randomness: cfg.fish_params.randomness,
            tracking: 10_000,
            wander_angle: 20,
            target: None,
            speed_scale: ((90 + spdd) * 100) as u32,
        },
        hunger: 0,
        kind: SpawnKind::Fish,
    };
    proof {
        reveal(fish_req);
        reveal_with_fuel(lcg_iter, 5);
        assert(r == fish_req(*cfg, s0));
    }
    r
}

/// The actor after one passive hunger tick: a predator grows hungrier,
/// a fish is untouched.
pub open spec fn hungered(a: Actor, dt_ms: u64) -> Actor {
    if is_orca(a) {
        Actor { hunger: Hunger(hunger_after(a.hunger.0, dt_ms) as u32), ..a }
    } else {
        a
    }
}

/// The starvation despawn requests of the first `k` actors, in index
/// order: one request exactly for each predator whose tick breaches the
/// hunger bound.
pub open spec fn starve_upto(s: Seq<Actor>, dt_ms: u64, k: int) -> Seq<Command>
    decreases k,
{
    if k <= 0 {
        Seq::empty()
    } else {
        starve_upto(s, dt_ms, k - 1) + (if is_orca(s[k - 1]) && starves(s[k - 1].hunger.0, dt_ms) {
            seq![Command::Despawn { id: s[k - 1].id, reason: DespawnReason::Starvation }]
        } else {
            Seq::empty()
        })
    }
}

/// The starvation despawn requests of the whole population.
pub open spec fn starve_cmds(s: Seq<Actor>, dt_ms: u64) -> Seq<Command> {
    starve_upto(s, dt_ms, s.len() as int)
}

proof fn lemma_starve_upto_membership(s: Seq<Actor>, dt_ms: u64, k: int, id: u64)
    requires
        0 <= k <= s.len(),
    ensures
        starve_upto(s, dt_ms, k).contains(
            Command::Despawn { id, reason: DespawnReason::Starvation },
        ) <==> exists|j: int|
            0 <= j < k && is_orca(#[trigger] s[j]) && starves(s[j].hunger.0, dt_ms) && s[j].id
                == id,
    decreases k,
{
    let c = Command::Despawn { id, reason: DespawnReason::Starvation };
    if k > 0 {
        lemma_starve_upto_membership(s, dt_ms, k - 1, id);
        let rest = starve_upto(s, dt_ms, k - 1);
        let cur = starve_upto(s, dt_ms, k);
        if is_orca(s[k - 1]) && starves(s[k - 1].hunger.0, dt_ms) {
            let own = Command::Despawn { id: s[k - 1].id, reason: DespawnReason::Starvation };
            assert(cur == rest + seq![own]);
            if cur.contains(c) {
                let n = choose|n: int| 0 <= n < cur.len() && cur[n] == c;
                if n < rest.len() {
                    assert(rest[n] == c);
                    assert(rest.contains(c));
                } else {
                    assert(own == c);
                }
            }
            if rest.contains(c) {
                let n = choose|n: int| 0 <= n < rest.len() && rest[n] == c;
                assert(cur[n] == c);
                assert(cur.contains(c));
            }
            if s[k - 1].id == id {
                assert(cur[cur.len() - 1] == c);
                assert(cur.contains(c));
            }
        } else {
            assert(cur =~= rest);
        }
    }
}

/// Starvation names the starving and no other: a starvation despawn for
/// an identity stands in the requests exactly when some predator
/// carrying that identity breaches the hunger bound this tick.
pub proof fn lemma_starvation_membership(s: Seq<Actor>, dt_ms: u64, id: u64)
    ensures
        starve_cmds(s, dt_ms).contains(
            Command::Despawn { id, reason: DespawnReason::Starvation },
        ) <==> exists|j: int|
            0 <= j < s.len() && is_orca(#[trigger] s[j]) && starves(s[j].hunger.0, dt_ms)
                && s[j].id == id,
{
    lemma_starve_upto_membership(s, dt_ms, s.len() as int, id);
}

/// The views of a table of identity lists.
pub open spec fn id_views(v: Seq<Vec<u64>>) -> Seq<Seq<u64>> {
    Seq::new(v.len(), |i: int| v[i]@)
}

/// The first identity of a perception list, if any.
pub open spec fn first_prey(ids: Seq<u64>) -> Option<u64> {
    if ids.len() > 0 {
        Some(ids[0])
    } else {
        None
    }
}

/// The hunt decision of predator `i` this tick, fed by its hunger
/// score, its visible prey list and its resolved movement target.
pub open spec fn orca_outcome(s: Seq<Actor>, preys: Seq<Seq<u64>>, i: int) -> HuntOutcome {
    hunt_step_spec(
        s[i].hunt,
        is_hungry(s[i].hunger.0),
        first_prey(preys[i]),
        s[i].movement.target,
        resolve_opt(s, s[i].movement.target),
        s[i].pos,
    )
}

/// The actor after applying a hunt outcome: new pursuit state, new
/// movement target, and the feeding replenishment if prey was eaten.
pub open spec fn with_outcome(a: Actor, o: HuntOutcome) -> Actor {
    Actor {
        hunt: o.state,
        movement: Movement { target: o.target, ..a.movement },
        hunger: if o.ate {
            Hunger(hunger_after_eat(a.hunger.0, EAT_AMOUNT) as u32)
        } else {
            a.hunger
        },
        ..a
    }
}

/// The actor after the hunt phase: predators step their pursuit, fish
/// are untouched.
pub open spec fn hunted(s: Seq<Actor>, preys: Seq<Seq<u64>>, i: int) -> Actor {
    if is_orca(s[i]) {
        with_outcome(s[i], orca_outcome(s, preys, i))
    } else {
        s[i]
    }
}

/// The eaten-prey despawn requests of the first `k` actors, in index
/// order: one request per successful consumption.
pub open spec fn hunt_upto(s: Seq<Actor>, preys: Seq<Seq<u64>>, k: int) -> Seq<Command>
    decreases k,
{
    if k <= 0 {
        Seq::empty()
    } else {
        hunt_upto(s, preys, k - 1) + (if is_orca(s[k - 1]) {
            match orca_outcome(s, preys, k - 1).despawn {
                Some(t) => seq![Command::Despawn { id: t, reason: DespawnReason::Eaten }],
                None => Seq::empty(),
            }
        } else {
            Seq::empty()
        })
    }
}

/// The eaten-prey despawn requests of the whole population.
pub open spec fn hunt_cmds(s: Seq<Actor>, preys: Seq<Seq<u64>>) -> Seq<Command> {
    hunt_upto(s, preys, s.len() as int)
}

/// The neighbour entries resolved for an identity list.
pub open spec fn entries_of(s: Seq<Actor>, ids: Seq<u64>) -> Seq<NeighEntry> {
    Seq::new(ids.len(), |k: int| resolve_entry(s, ids[k]))
}

/// The generator state before actor `k`'s force computation: each
/// earlier moving actor with neighbours drew once.
pub open spec fn force_rng_upto(s: Seq<Actor>, nbs: Seq<Seq<u64>>, s0: u64, k: int) -> u64
    decreases k,
{
    if k <= 0 {
        s0
    } else {
        boid_rng_after(s[k - 1].vel, nbs[k - 1].len(), force_rng_upto(s, nbs, s0, k - 1))
    }
}

/// The actor after the force phase: the scaled steering force is added
/// to the accumulated force (clamped into its bound), and the facing is
/// aligned with the current velocity.
pub open spec fn forced(s: Seq<Actor>, nbs: Seq<Seq<u64>>, s0: u64, dt_ms: u64, i: int) -> Actor {
    let a = s[i];
    let es = entries_of(s, nbs[i]);
    let rs = force_rng_upto(s, nbs, s0, i);
    let t = resolve_opt(s, a.movement.target);
    let fx = applied_x(a.pos, a.vel, a.movement, es, t, rs, dt_ms);
    let fy = applied_y(a.pos, a.vel, a.movement, es, t, rs, dt_ms);
    Actor {
        force: Vec2 {
            x: clamp_i(a.force.x + fx, -FORCE_LIMIT as int, FORCE_LIMIT as int) as i64,
            y: clamp_i(a.force.y + fy, -FORCE_LIMIT as int, FORCE_LIMIT as int) as i64,
        },
        facing: unit_heading(a.vel),
        ..a
    }
}

/// Remove the first actor with this identity, if present.
pub open spec fn remove_id(s: Seq<Actor>, id: u64) -> Seq<Actor> {
    let k = find_id(s, id);
    if k >= 0 {
        s.remove(k)
    } else {
        s
    }
}

/// The actor created by a spawn request: fresh identity, zero force,
/// facing along its initial velocity, pursuit idle.
pub open spec fn spawned(r: SpawnRequest, id: u64) -> Actor {
    Actor {
        id,
        pos: r.pos,
        vel: r.vel,
        facing: unit_heading(r.vel),
        force: Vec2 { x: 0, y: 0 },
        sight: r.sight,
        movement: r.movement,
        hunger: Hunger(r.hunger),
        hunt: HuntState::Requested,
        kind: match r.kind {
            SpawnKind::Orca { name, gender, age, mass, orca_type, pod_id } => ActorKind::Orca(
                Orca { name, gender, age, mass, orca_type, pod_id },
            ),
            SpawnKind::Fish => ActorKind::Fish,
        },
    }
}

/// The pods after recording a spawned member, when its pod exists.
pub open spec fn pods_after_spawn(p: Seq<AbsPod>, r: SpawnRequest, id: u64) -> Seq<AbsPod> {
    match r.kind {
        SpawnKind::Orca { pod_id: Some(pid), .. } => {
            if pid < p.len() {
                p.update(
                    pid as int,
                    AbsPod { name: p[pid as int].name, members: p[pid as int].members.push(id) },
                )
            } else {
                p
            }
        },
        _ => p,
    }
}

/// The state after applying one command: add a pod, create an actor
/// under a fresh identity (dropped only if the identity space is
/// spent), remove one actor, or remove everything.
pub open spec fn apply_one(a: Seq<Actor>, p: Seq<AbsPod>, nid: u64, c: Command) -> (
    Seq<Actor>,
    Seq<AbsPod>,
    u64,
) {
    match c {
        Command::AddPod { name } => (a, p.push(AbsPod { name, members: Seq::empty() }), nid),
        Command::Spawn(r) => {
            if nid < u64::MAX {
                (a.push(spawned(r, nid)), pods_after_spawn(p, r, nid), (nid + 1) as u64)
            } else {
                (a, p, nid)
            }
        },
        Command::Despawn { id, .. } => (remove_id(a, id), p, nid),
        Command::DespawnAll => (Seq::empty(), Seq::empty(), nid),
    }
}

/// The state after applying the first `k` commands, in queue order.
pub open spec fn apply_upto(
    a: Seq<Actor>,
    p: Seq<AbsPod>,
    nid: u64,
    cmds: Seq<Command>,
    k: int,
) -> (Seq<Actor>, Seq<AbsPod>, u64)
    decreases k,
{
    if k <= 0 {
        (a, p, nid)
    } else {
        let prior = apply_upto(a, p, nid, cmds, k - 1);
        apply_one(prior.0, prior.1, prior.2, cmds[k - 1])
    }
}

/// The state after applying a whole command queue.
pub open spec fn apply_all(a: Seq<Actor>, p: Seq<AbsPod>, nid: u64, cmds: Seq<Command>) -> (
    Seq<Actor>,
    Seq<AbsPod>,
    u64,
) {
    apply_upto(a, p, nid, cmds, cmds.len() as int)
}

/// Entry resolution only reads identities, positions and velocities.
pub proof fn lemma_entry_congruent(s1: Seq<Actor>, s2: Seq<Actor>, id: u64)
    requires
        s1.len() == s2.len(),
        forall|j: int| 0 <= j < s1.len() ==> (#[trigger] s1[j].id) == s2[j].id,
        forall|j: int| 0 <= j < s1.len() ==> (#[trigger] s1[j].pos) == s2[j].pos,
        forall|j: int| 0 <= j < s1.len() ==> (#[trigger] s1[j].vel) == s2[j].vel,
    ensures
        resolve_entry(s1, id) == resolve_entry(s2, id),
{
    lemma_find_congruent(s1, s2, id, 0);
    lemma_find_from(s1, id, 0);
    lemma_find_from(s2, id, 0);
}

/// Applying `k` commands only reads the first `k` commands.
pub proof fn lemma_apply_prefix(
    a: Seq<Actor>,
    p: Seq<AbsPod>,
    nid: u64,
    c1: Seq<Command>,
    c2: Seq<Command>,
    k: int,
)
    requires
        0 <= k <= c1.len(),
        k <= c2.len(),
        forall|j: int| 0 <= j < k ==> c1[j] == c2[j],
    ensures
        apply_upto(a, p, nid, c1, k) == apply_upto(a, p, nid, c2, k),
    decreases k,
{
    if k > 0 {
        lemma_apply_prefix(a, p, nid, c1, c2, k - 1);
    }
}

/// Applying a concatenated queue applies the two parts in turn.
pub proof fn lemma_apply_concat(
    a: Seq<Actor>,
    p: Seq<AbsPod>,
    nid: u64,
    c1: Seq<Command>,
    c2: Seq<Command>,
)
    ensures
        apply_all(a, p, nid, c1 + c2) == ({
            let r = apply_all(a, p, nid, c1);
            apply_all(r.0, r.1, r.2, c2)
        }),
    decreases c2.len(),
{
    let r = apply_all(a, p, nid, c1);
    if c2.len() == 0 {
        assert(c1 + c2 =~= c1);
    } else {
        lemma_apply_concat(a, p, nid, c1, c2.drop_last());
        let n = c1.len() + c2.len() - 1;
        assert((c1 + c2.drop_last()).len() == n);
        assert(forall|j: int| 0 <= j < n ==> (c1 + c2)[j] == (c1 + c2.drop_last())[j]);
        lemma_apply_prefix(a, p, nid, c1 + c2, c1 + c2.drop_last(), n as int);
        assert((c1 + c2)[n as int] == c2.last());
        let t1 = apply_upto(a, p, nid, c1 + c2, n as int);
        assert(apply_all(a, p, nid, c1 + c2) == apply_one(t1.0, t1.1, t1.2, (c1 + c2)[n as int]));
        assert(forall|j: int| 0 <= j < c2.len() - 1 ==> c2[j] == c2.drop_last()[j]);
        lemma_apply_prefix(r.0, r.1, r.2, c2, c2.drop_last(), c2.len() - 1);
        let t2 = apply_upto(r.0, r.1, r.2, c2, c2.len() - 1);
        assert(apply_all(r.0, r.1, r.2, c2) == apply_one(t2.0, t2.1, t2.2, c2.last()));
    }
}

/// Applying a queue of pure spawn requests appends exactly those
/// actors, under consecutive fresh identities.
pub proof fn lemma_apply_spawns(a: Seq<Actor>, p: Seq<AbsPod>, nid: u64, reqs: Seq<SpawnRequest>)
    requires
        nid + reqs.len() <= u64::MAX,
    ensures
        ({
            let r = apply_all(a, p, nid, reqs.map(|i: int, q: SpawnRequest| Command::Spawn(q)));
            &&& r.0 == a + Seq::new(reqs.len(), |i: int| spawned(reqs[i], (nid + i) as u64))
            &&& r.2 == nid + reqs.len()
        }),
    decreases reqs.len(),
{
    let cmds = reqs.map(|i: int, q: SpawnRequest| Command::Spawn(q));
    if reqs.len() == 0 {
        let r = apply_all(a, p, nid, cmds);
        assert(r.0 =~= a + Seq::new(0, |i: int| spawned(reqs[i], (nid + i) as u64)));
    } else {
        let dropped = reqs.drop_last();
        lemma_apply_spawns(a, p, nid, dropped);
        let dcmds = dropped.map(|i: int, q: SpawnRequest| Command::Spawn(q));
        assert(dcmds.len() == cmds.len() - 1);
        lemma_apply_prefix(a, p, nid, cmds, dcmds, cmds.len() - 1);
        let prior = apply_upto(a, p, nid, cmds, cmds.len() - 1);
        assert(prior == apply_all(a, p, nid, dcmds));
        assert(cmds[cmds.len() - 1] == Command::Spawn(reqs.last()));
        assert(prior.2 == nid + reqs.len() - 1 < u64::MAX);
        let r = apply_all(a, p, nid, cmds);
        assert(r == apply_one(prior.0, prior.1, prior.2, cmds[cmds.len() - 1]));
        assert(r.0 =~= a + Seq::new(reqs.len(), |i: int| spawned(reqs[i], (nid + i) as u64)));
    }
}

/// A restart is transactional: applying a despawn-all followed by `N`
/// spawn requests, in one commit, yields a population of exactly those
/// `N` actors under fresh consecutive identities — and no pre-restart
/// identity resolves any more.
pub proof fn lemma_restart_round_trip(
    a0: Seq<Actor>,
    p0: Seq<AbsPod>,
    nid0: u64,
    reqs: Seq<SpawnRequest>,
)
    requires
        nid0 + reqs.len() <= u64::MAX,
    ensures
        ({
            let cmds = seq![Command::DespawnAll] + reqs.map(
                |i: int, q: SpawnRequest| Command::Spawn(q),
            );
            let r = apply_all(a0, p0, nid0, cmds);
            &&& r.0.len() == reqs.len()
            &&& (forall|i: int|
                0 <= i < reqs.len() ==> r.0[i] == spawned(reqs[i], (nid0 + i) as u64))
            &&& (forall|id: u64| id < nid0 ==> find_id(r.0, id) == -1)
            &&& r.2 == nid0 + reqs.len()
        }),
{
    let head = seq![Command::DespawnAll];
    let tail = reqs.map(|i: int, q: SpawnRequest| Command::Spawn(q));
    lemma_apply_concat(a0, p0, nid0, head, tail);
    let rh = apply_all(a0, p0, nid0, head);
    assert(apply_upto(a0, p0, nid0, head, 0) == (a0, p0, nid0));
    assert(rh == apply_one(a0, p0, nid0, Command::DespawnAll));
    assert(rh.0 =~= Seq::<Actor>::empty());
    assert(rh.2 == nid0);
    lemma_apply_spawns(rh.0, rh.1, rh.2, reqs);
    let r = apply_all(a0, p0, nid0, head + tail);
    assert(r.0 =~= Seq::new(reqs.len(), |i: int| spawned(reqs[i], (nid0 + i) as u64)));
    assert forall|id: u64| id < nid0 implies find_id(r.0, id) == -1 by {
        assert(forall|j: int| 0 <= j < r.0.len() ==> (#[trigger] r.0[j].id) == nid0 + j);
        lemma_find_from_unique(r.0, id, 0, -1);
    }
}

/// Identity search only reads identities: two populations with equal
/// identities resolve alike.
pub proof fn lemma_find_congruent(s1: Seq<Actor>, s2: Seq<Actor>, id: u64, k: int)
    requires
        s1.len() == s2.len(),
        forall|j: int| 0 <= j < s1.len() ==> (#[trigger] s1[j].id) == s2[j].id,
    ensures
        find_from(s1, id, k) == find_from(s2, id, k),
    decreases s1.len() - k,
{
    if 0 <= k < s1.len() {
        lemma_find_congruent(s1, s2, id, k + 1);
    }
}

/// Position resolution only reads identities and positions.
pub proof fn lemma_resolve_congruent(s1: Seq<Actor>, s2: Seq<Actor>, t: Option<u64>)
    requires
        s1.len() == s2.len(),
        forall|j: int| 0 <= j < s1.len() ==> (#[trigger] s1[j].id) == s2[j].id,
        forall|j: int| 0 <= j < s1.len() ==> (#[trigger] s1[j].pos) == s2[j].pos,
    ensures
        resolve_opt(s1, t) == resolve_opt(s2, t),
{
    match t {
        Some(id) => {
            lemma_find_congruent(s1, s2, id, 0);
            lemma_find_from(s1, id, 0);
            lemma_find_from(s2, id, 0);
        },
        None => {},
    }
}

} // verus!
