//! Lane-based slide controller for an endless-runner player: key classification,
//! lane snapping and a tick-driven slide toward the chosen lane, in fixed-point units.
pub mod controller;
pub mod input;
pub mod lanes;
pub mod laws;
