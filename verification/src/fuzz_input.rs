//! The replayable event.

use crate::input::keyboard::WrapKeyboardInput;
use crate::input::mouse::{WrapMouseButtonInput, WrapMouseWheel};
use crate::math::WrapVec2;
use crate::window::event::{WrapCursorMoved, WrapWindowResized};
use vstd::prelude::*;

verus! {

/// One input event, or the mark that ends a frame.
#[derive(Debug, Clone, Copy, PartialEq, Eq)]
pub enum FuzzInput {
    MouseButton(WrapMouseButtonInput),
    KeyboardInput(WrapKeyboardInput),
    MouseWheel(WrapMouseWheel),
    MouseMotion(WrapVec2),
    CursorMoved(WrapCursorMoved),
    WindowResized(WrapWindowResized),
    /// Everything delivered so far belongs to one tick: run it.
    RunFrame,
}

impl FuzzInput {
    /// Well formed when every part of the event is.
    pub open spec fn wf(&self) -> bool {
        self matches FuzzInput::KeyboardInput(k) ==> k.wf()
    }

    /// Whether this is the mark that ends a frame.
    pub fn is_run_frame(&self) -> (r: bool)
        ensures
            r == (*self is RunFrame),
    {
        match self {
            FuzzInput::RunFrame => true,
            _ => false,
        }
    }
}

} // verus!
