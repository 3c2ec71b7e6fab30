//! Deterministic replay of recorded input events.
//!
//! The library holds the replay engine: the event types, their byte format,
//! the cursor-tracked event log, and the state machine that decides, tick by
//! tick, what a host simulation is fed and when the run ends.

pub mod bootstrap;
pub mod data;
pub mod framing;
pub mod fuzz_input;
pub mod input;
pub mod math;
pub mod output;
pub mod payload;
pub mod prelude;
pub mod replay;
pub mod runner;
pub mod window;
pub mod wire;

pub use bootstrap::fuzz::fuzz_bootstrap;
pub use output::parse_commands;
