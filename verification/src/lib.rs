//! The core of a network traffic monitor that exports Prometheus metrics.
//!
//! A frame is read (`wire`, `packet`), told apart by protocol (`protocol`) and
//! counted for its source (`table`, `state`). Every few seconds the sources are
//! held against four attack signatures (`attack`, `alert`), the busiest are
//! picked out and the silent forgotten (`report`, `tick`), and the new ones are
//! located (`geoip`, `json`). Each event tells what it adds to the metrics
//! (`metrics`). What each operation promises is proved in `laws`, and what holds
//! over many events in `history`.
//!
//! The library does no input or output and has no clock: times are handed in,
//! in nanoseconds (`clock`), and so are the values of settings (`config`) and
//! the names of devices (`interface`).

pub mod address;
pub mod alert;
pub mod attack;
pub mod clock;
pub mod config;
pub mod geoip;
pub mod history;
pub mod interface;
pub mod json;
pub mod laws;
pub mod metrics;
pub mod packet;
pub mod protocol;
pub mod report;
pub mod state;
pub mod table;
pub mod text;
pub mod tick;
pub mod wire;
