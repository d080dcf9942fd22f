//! Core of a proof-of-life (liveness) server: wire protocol codec, PAD
//! (presentation-attack-detection) heuristics, the session/challenge state
//! machine, frame-rate admission control, model-catalog selection, and the
//! integer geometry of the face-detector adapter.
//!
//! Quantities that the wire carries as fractional numbers (motion scores,
//! detection rates, box coordinates) are held here in fixed-point integer
//! units — milli (1/1000) or permille — so every threshold comparison is an
//! exact rational comparison.

pub mod analysis;
pub mod detect;
pub mod envelope;
pub mod limiter;
pub mod models;
pub mod pad;
pub mod protocol;
pub mod session;
pub mod telemetry;
