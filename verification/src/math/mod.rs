//! Plain vectors.

use vstd::prelude::*;

verus! {

/// A pair of single-precision numbers, each held as its IEEE 754 bit pattern.
#[derive(Debug, Clone, Copy, PartialEq, Eq)]
pub struct WrapVec2 {
    pub x: u32,
    pub y: u32,
}

} // verus!
