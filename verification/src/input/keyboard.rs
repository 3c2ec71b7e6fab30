//! Keyboard events.

use super::WrapElementState;
use vstd::prelude::*;

verus! {

/// How many key symbols there are. A symbol is known by its ordinal, which
/// lies below this count.
pub const KEY_CODE_COUNT: u32 = 163;

/// A key symbol, held as its ordinal in the host's list of key symbols.
#[derive(Debug, Clone, Copy, PartialEq, Eq)]
pub struct WrapKeyCode(pub u32);

impl WrapKeyCode {
    /// A symbol is well formed when its ordinal names one of the known symbols.
    pub open spec fn wf(&self) -> bool {
        self.0 < KEY_CODE_COUNT
    }

    /// The symbol with the given ordinal, if there is one.
    pub fn new(ordinal: u32) -> (r: Option<Self>)
        ensures
            r == if ordinal < KEY_CODE_COUNT {
                Some(WrapKeyCode(ordinal))
            } else {
                None
            },
    {
        if ordinal < KEY_CODE_COUNT {
            Some(WrapKeyCode(ordinal))
        } else {
            None
        }
    }
}

/// A key changed state.
#[derive(Debug, Clone, Copy, PartialEq, Eq)]
pub struct WrapKeyboardInput {
    pub scan_code: u32,
    pub key_code: Option<WrapKeyCode>,
    pub state: WrapElementState,
}

impl WrapKeyboardInput {
    /// Well formed when the key symbol, if any, is.
    pub open spec fn wf(&self) -> bool {
        self.key_code matches Some(k) ==> k.wf()
    }
}

} // verus!
