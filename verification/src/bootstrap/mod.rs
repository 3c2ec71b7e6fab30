//! The ways in which a run is set up.

use vstd::prelude::*;

pub mod bin;
pub mod fuzz;

verus! {

/// The five ways to run a host plugin.
#[derive(Debug, Clone, Copy, PartialEq, Eq)]
pub enum BootMode {
    Record,
    View,
    Apply,
    Fuzz,
    Gui,
}

/// The set of capabilities that a host is built with.
#[derive(Debug, Clone, Copy, PartialEq, Eq)]
pub enum CapabilitySet {
    /// Everything an interactive session needs.
    Interactive,
    /// The least that a replay needs: no window, no rendering.
    Headless,
}

/// Who runs the loop of the host.
#[derive(Debug, Clone, Copy, PartialEq, Eq)]
pub enum LoopDriver {
    /// The host's own interactive loop.
    Native,
    /// The deterministic runner of this library.
    Deterministic,
}

/// What a mode asks for. A mode that builds no host has no capability set
/// and no driver.
#[derive(Debug, Clone, Copy, PartialEq, Eq)]
pub struct ModeSetup {
    pub capabilities: Option<CapabilitySet>,
    pub recorder: bool,
    pub driver: Option<LoopDriver>,
}

/// What each mode asks for.
pub open spec fn spec_mode_setup(mode: BootMode) -> ModeSetup {
    match mode {
        BootMode::Record => ModeSetup {
            capabilities: Some(CapabilitySet::Interactive),
            recorder: true,
            driver: Some(LoopDriver::Native),
        },
        BootMode::View => ModeSetup { capabilities: None, recorder: false, driver: None },
        BootMode::Apply => ModeSetup {
            capabilities: Some(CapabilitySet::Headless),
            recorder: false,
            driver: Some(LoopDriver::Deterministic),
        },
        BootMode::Fuzz => ModeSetup {
            capabilities: Some(CapabilitySet::Headless),
            recorder: false,
            driver: Some(LoopDriver::Deterministic),
        },
        BootMode::Gui => ModeSetup {
            capabilities: Some(CapabilitySet::Interactive),
            recorder: false,
            driver: Some(LoopDriver::Native),
        },
    }
}

/// What `mode` asks for: the capability set of its host, whether events are
/// recorded, and who runs the loop.
pub fn mode_setup(mode: BootMode) -> (r: ModeSetup)
    ensures
        r == spec_mode_setup(mode),
{
    match mode {
        BootMode::Record => ModeSetup {
            capabilities: Some(CapabilitySet::Interactive),
            recorder: true,
            driver: Some(LoopDriver::Native),
        },
        BootMode::View => ModeSetup { capabilities: None, recorder: false, driver: None },
        BootMode::Apply | BootMode::Fuzz => ModeSetup {
            capabilities: Some(CapabilitySet::Headless),
            recorder: false,
            driver: Some(LoopDriver::Deterministic),
        },
        BootMode::Gui => ModeSetup {
            capabilities: Some(CapabilitySet::Interactive),
            recorder: false,
            driver: Some(LoopDriver::Native),
        },
    }
}

} // verus!
