//! The names that most users need.

pub use crate::bootstrap::bin::bin_bootstrap;
pub use crate::bootstrap::fuzz::{fuzz_bootstrap, FuzzSession};
pub use crate::data::FuzzData;
pub use crate::fuzz_input::FuzzInput;
pub use crate::runner::{FuzzRunner, HostChannels, RunnerState};
