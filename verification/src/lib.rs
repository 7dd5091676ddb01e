//! A verified core for a predator/prey flocking simulation.
//!
//! Pod-organised predators (orcas) and schooling prey (fish) move under a
//! combined steering force made of wander, alignment, cohesion, separation
//! and target-tracking sub-forces.  Predators carry a bounded hunger
//! resource that drives a small utility-style hunt state machine.  All
//! geometry is fixed-point: one spatial unit is `MILLI` (1000) coordinate
//! steps, and weights are scaled the same way, so every computation is
//! exact integer arithmetic.
//!
//! The crate computes perception sets, hunger updates, hunt decisions and
//! steering forces, and queues deferred spawn/despawn commands.  Velocity
//! integration, rendering and input belong to outside collaborators that
//! consume the accumulated forces and write positions back.

pub mod vec2;
pub mod rng;
pub mod hunger;
pub mod orca;
pub mod movement;
pub mod hunt;
pub mod sim;
