//! Ice Signal: fixed-point signal cores and metadata-only conversation analytics.
//!
//! `signal` is the portable per-sample core (integer arithmetic, fixed-size
//! state). `host` turns the core's per-frame reports into schema events,
//! session analytics and social estimates, all from scalar metadata.
pub mod frame;
pub mod host;
pub mod signal;
