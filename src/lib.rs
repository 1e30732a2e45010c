//! Authoritative tick-driven server core for a small multiplayer action game:
//! wire codec, player registry, input application, movement integration,
//! change detection and the tick counter.
//!
//! Floating-point values never appear in this library: every `f32` that
//! crosses the wire or lives in the simulation is carried as its IEEE-754
//! bit pattern in a `u32`.

pub mod constants;
pub mod message_in;
pub mod message_out;
pub mod world;
pub mod input;
pub mod movement;
pub mod on_change;
pub mod tick;
pub mod laws;
pub mod level;
pub mod round_trip;
