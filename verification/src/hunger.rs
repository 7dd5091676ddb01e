//! The hunger resource: a bounded scalar that grows passively with time
//! and is reduced by discrete feeding events.
//!
//! Hunger is held in micro-units: `HUNGER_SCALE` (1 000 000) stands for
//! 1.0 (starving) and 0 stands for sated.  It grows by `HUNGER_RATE`
//! micro-units per second of elapsed tick time; a tick that reaches the
//! upper bound reports starvation so that the caller can queue a deferred
//! despawn, and the value itself is clamped back into the bound.

use vstd::prelude::*;
use crate::vec2::DT_LIMIT;

verus! {

/// Hunger value standing for 1.0 (starving).
pub const HUNGER_SCALE: u32 = 1_000_000;

/// Passive growth in micro-units per second of simulated time.
pub const HUNGER_RATE: u32 = 1_000;

/// Micro-units restored by one feeding event.
pub const EAT_AMOUNT: u32 = 10_000;

/// Growth for an elapsed time of `dt_ms` milliseconds.
pub open spec fn hunger_delta(dt_ms: u64) -> int {
    (HUNGER_RATE * dt_ms) / 1000
}

/// Hunger after a passive tick: grown and clamped to the scale.
pub open spec fn hunger_after(h: u32, dt_ms: u64) -> int {
    if h + hunger_delta(dt_ms) >= HUNGER_SCALE {
        HUNGER_SCALE as int
    } else {
        h + hunger_delta(dt_ms)
    }
}

/// A tick starves the actor when the unclamped value reaches the bound.
pub open spec fn starves(h: u32, dt_ms: u64) -> bool {
    h + hunger_delta(dt_ms) >= HUNGER_SCALE
}

/// Hunger after eating: reduced and clamped to zero.
pub open spec fn hunger_after_eat(h: u32, amount: u32) -> int {
    if h >= amount {
        h - amount
    } else {
        0
    }
}

/// A bounded hunger resource in `[0, HUNGER_SCALE]` micro-units.
#[derive(Clone, Copy, PartialEq, Eq, Structural, Debug)]
pub struct Hunger(pub u32);

impl Hunger {
    /// The value stays within its bound.
    pub open spec fn wf(self) -> bool {
        self.0 <= HUNGER_SCALE
    }

    /// A hunger resource from a raw micro-unit value.
    pub fn new(v: u32) -> (r: Hunger)
        requires
            v <= HUNGER_SCALE,
        ensures
            r.0 == v,
            r.wf(),
    {
        Hunger(v)
    }

    /// Passive growth over `dt_ms` milliseconds; reports starvation.
    pub fn tick(&mut self, dt_ms: u64) -> (starved: bool)
        requires
            old(self).wf(),
            dt_ms <= DT_LIMIT,
        ensures
            final(self).wf(),
            final(self).0 == hunger_after(old(self).0, dt_ms),
            starved == starves(old(self).0, dt_ms),
    {
        let delta64: u64 = (HUNGER_RATE as u64) * dt_ms / 1000;
        let grown: u64 = (self.0 as u64) + delta64;
        if grown >= HUNGER_SCALE as u64 {
            self.0 = HUNGER_SCALE;
            true
        } else {
            self.0 = grown as u32;
            false
        }
    }

    /// Feed: the hunger drops by `amount`, clamped at sated.
    pub fn eat(&mut self, amount: u32) -> (r: ())
        requires
            old(self).wf(),
        ensures
            final(self).wf(),
            final(self).0 == hunger_after_eat(old(self).0, amount),
    {
        if self.0 >= amount {
            self.0 = self.0 - amount;
        } else {
            self.0 = 0;
        }
    }
}

/// One event in the life of a hunger resource.
pub enum HungerEvent {
    /// A passive tick of `dt_ms` milliseconds.
    Tick { dt_ms: u64 },
    /// A feeding event of `amount` micro-units.
    Eat { amount: u32 },
}

/// The hunger value after a sequence of ticks and feedings.
pub open spec fn hunger_after_events(h: u32, events: Seq<HungerEvent>) -> int
    decreases events.len(),
{
    if events.len() == 0 {
        h as int
    } else {
        let prior = hunger_after_events(h, events.drop_last());
        match events.last() {
            HungerEvent::Tick { dt_ms } => hunger_after(prior as u32, dt_ms),
            HungerEvent::Eat { amount } => hunger_after_eat(prior as u32, amount),
        }
    }
}

/// Hunger stays within `[0, HUNGER_SCALE]` after any sequence of passive
/// ticks and feeding events, whatever their lengths and amounts.
pub proof fn lemma_hunger_always_bounded(h: u32, events: Seq<HungerEvent>)
    requires
        h <= HUNGER_SCALE,
    ensures
        0 <= hunger_after_events(h, events) <= HUNGER_SCALE,
    decreases events.len(),
{
    if events.len() > 0 {
        lemma_hunger_always_bounded(h, events.drop_last());
    }
}

} // verus!
