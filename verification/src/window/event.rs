//! Window events.

use super::WrapWindowId;
use crate::math::WrapVec2;
use vstd::prelude::*;

verus! {

/// A window's surface changed size. `width` and `height` hold IEEE 754
/// single-precision bit patterns.
#[derive(Debug, Clone, Copy, PartialEq, Eq)]
pub struct WrapWindowResized {
    pub id: WrapWindowId,
    pub width: u32,
    pub height: u32,
}

/// The pointer moved to a position inside a window.
#[derive(Debug, Clone, Copy, PartialEq, Eq)]
pub struct WrapCursorMoved {
    pub id: WrapWindowId,
    pub position: WrapVec2,
}

} // verus!
