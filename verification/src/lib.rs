//! Heartbeat telemetry core: a pulse sampler that turns the edges of a
//! digital heartbeat line into a smoothed beats-per-minute estimate, and the
//! OSC transport rules that publish it and answer control pings.
//!
//! - [`sen0203`]: the edge detector and the two-point moving average.
//! - [`bpm`]: the estimate as a 32-bit float, computed in integers.
//! - [`channel`]: the bounded queue between sampler and transport.
//! - [`wire`]: OSC messages on the wire, encoded and decoded by `rosc`.
//! - [`osc`]: what the transport sends, answers and stops for.
//! - [`wifi`]: the choice of channel when joining the network.

pub mod bpm;
pub mod channel;
pub mod osc;
pub mod sen0203;
pub mod wifi;
pub mod wire;
