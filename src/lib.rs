//! Supervision logic for a heating appliance that shows its state on three LEDs and is
//! steered by a single push button, reachable over a message bus.
//!
//! Time is measured in milliseconds of a monotonic clock throughout.

pub mod adapter;
pub mod config;
pub mod reconciler;
pub mod session;
pub mod tracker;
