//! Mouse events.

use super::WrapElementState;
use vstd::prelude::*;

verus! {

/// A mouse button changed state.
#[derive(Debug, Clone, Copy, PartialEq, Eq)]
pub struct WrapMouseButtonInput {
    pub button: WrapMouseButton,
    pub state: WrapElementState,
}

/// Which mouse button.
#[derive(Debug, Clone, Copy, PartialEq, Eq)]
pub enum WrapMouseButton {
    Left,
    Right,
    Middle,
    Other(u16),
}

/// The unit in which a wheel movement is measured.
#[derive(Debug, Clone, Copy, PartialEq, Eq)]
pub enum WrapMouseScrollUnit {
    Line,
    Pixel,
}

/// A wheel movement. `x` and `y` hold the IEEE 754 single-precision bit
/// patterns of the two components, so that a value survives encoding and
/// decoding bit for bit.
#[derive(Debug, Clone, Copy, PartialEq, Eq)]
pub struct WrapMouseWheel {
    pub unit: WrapMouseScrollUnit,
    pub x: u32,
    pub y: u32,
}

} // verus!
