//! Small programs that try one thing each.

pub mod desktop;
pub mod edge_probe;
pub mod latency;
pub mod pin_probe;
pub mod sketch;
