//! Window identity.

use vstd::prelude::*;

pub mod event;

verus! {

/// Identifies a window by sixteen opaque bytes. The primary window is all zero.
#[derive(Debug, Clone, Copy, PartialEq, Eq)]
pub struct WrapWindowId(pub [u8; 16]);

impl WrapWindowId {
    /// The identity of the primary window.
    pub fn primary() -> (r: Self)
        ensures
            r.0@ == Seq::new(16, |i: int| 0u8),
    {
        let r = WrapWindowId([0u8; 16]);
        assert(r.0@ =~= Seq::new(16, |i: int| 0u8));
        r
    }
}

} // verus!
