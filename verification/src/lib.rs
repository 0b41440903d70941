//! The per-tick force pipeline of an N-body gravity simulation.
//!
//! A host engine owns the bodies, their positions, masses and force
//! accumulators. Once per tick this library decides which bodies take part,
//! which gravitational contributions reach which accumulator, which are
//! discarded, and in what order the phases of the tick may run. Numbers are
//! carried in their binary32 encoding; the host does the arithmetic on them:
//! it computes the accelerations and sums the terms of each accumulator.
//!
//! - [`scalar`], [`vector`]: numbers and vectors as encodings, and what can
//!   be told from an encoding alone (finite, zero, at least zero).
//! - [`body`], [`snapshot`]: the bodies of a tick and the accumulator behind
//!   each.
//! - [`gravity`]: from the solver's accelerations to writes and discards.
//! - [`tick`]: the phases of a tick and the ledger of additions.
//! - [`pipeline`]: the gravity contributor as one step on the ledger.
//! - [`schedule`]: the execution order of registered systems.
//! - [`thrust`]: the player's thrust, from keys and fuel.
//! - [`polygon`]: the number of sides of a random polygon.

pub mod body;
pub mod gravity;
pub mod pipeline;
pub mod polygon;
pub mod scalar;
pub mod schedule;
pub mod snapshot;
pub mod thrust;
pub mod tick;
pub mod vector;
