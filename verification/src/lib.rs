//! Deterministic per-tick simulation core of a two-dimensional falling
//! platformer: a player descends through drifting bricks of several kinds
//! (solid, collapsing, spiked, sprung, conveyor) below a hazardous ceiling.
//!
//! The crate covers the fixed-timestep pipeline — axis-aligned collision
//! resolution, trigger-enter classification, per-brick reactions, status
//! state machines with tick timers, seeded level generation, scoring and
//! death — as pure state transitions, so that a whole tick is a function of
//! the previous state and that tick's inputs alone.  Rendering, audio, input
//! devices and the network transport live outside and talk to this crate
//! through plain values.
//!
//! All lengths are integers in half-units: one half-unit is half of one
//! world unit of the presentation layer, which makes every canonical collider
//! extent and offset (including the odd multiples of one half) integral.

pub mod animation;
pub mod brick;
pub mod constants;
pub mod events;
pub mod geom;
pub mod hazards;
pub mod health;
pub mod input;
pub mod level;
pub mod physics;
pub mod player;
pub mod rng;
pub mod score;
pub mod state;
pub mod status;
pub mod tick;
pub mod triggers;
