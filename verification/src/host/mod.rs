//! Host side: everything that stays on the computer (later, the phone) when
//! the core moves into the FPGA. It consumes only the core's reports and the
//! schema events derived from them.
pub mod analytics;
pub mod demo;
pub mod events;
pub mod json;
pub mod ratio;
pub mod session;
pub mod social;
