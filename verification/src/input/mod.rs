//! Input events, normalised to plain data.

use vstd::prelude::*;

pub mod keyboard;
pub mod mouse;

verus! {

/// Whether a button or key went down or came up.
#[derive(Debug, Clone, Copy, PartialEq, Eq)]
pub enum WrapElementState {
    Pressed,
    Released,
}

} // verus!
