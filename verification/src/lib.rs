//! Control-loop core for a camera-feed annotator: a detection-coalescing
//! state machine that merges a bursty per-frame detection stream into one
//! summary per recorded event, a rate-governed pacemaker that holds the loop
//! at a target frequency, a watchdog deadline model for liveness, and the
//! per-iteration filtering, best-pick and description logic.
//!
//! Frame acquisition, inference and the host's trigger protocol are external
//! collaborators: they hand this library plain values and take plain values
//! back.

pub mod classmap;
pub mod coalescing;
pub mod detection;
pub mod orchestrator;
pub mod pacing;
pub mod text;
pub mod watchdog;
