//! The byte layout of one event: the index of its variant, then its fields
//! in the order in which they are declared, each field laid out in the same
//! way.

use crate::fuzz_input::FuzzInput;
use crate::input::keyboard::{WrapKeyCode, WrapKeyboardInput, KEY_CODE_COUNT};
use crate::input::mouse::{
    WrapMouseButton, WrapMouseButtonInput, WrapMouseScrollUnit, WrapMouseWheel,
};
use crate::input::WrapElementState;
use crate::math::WrapVec2;
use crate::window::event::{WrapCursorMoved, WrapWindowResized};
use crate::window::WrapWindowId;
use crate::wire::{
    lemma_index_bytes_len, lemma_index_round_trip, lemma_u16_round_trip, lemma_u32_round_trip, push_index, push_u16,
    push_u32, spec_index_bytes, spec_take_index, spec_take_u16, spec_take_u32, spec_u16_bytes,
    spec_u32_bytes, take_index, take_u16, take_u32,
};
use vstd::prelude::*;
use vstd::slice::slice_subrange;

verus! {

/// The number of bytes of a window identity.
pub const WINDOW_ID_BYTES: usize = 16;

// ---------------------------------------------------------------------------
// What each value is written as.
// ---------------------------------------------------------------------------
/// The index of a state: pressed before released.
pub open spec fn spec_state_index(s: WrapElementState) -> u32 {
    match s {
        WrapElementState::Pressed => 0,
        WrapElementState::Released => 1,
    }
}

pub open spec fn spec_state_bytes(s: WrapElementState) -> Seq<u8> {
    spec_index_bytes(spec_state_index(s) as nat)
}

pub open spec fn spec_button_bytes(b: WrapMouseButton) -> Seq<u8> {
    match b {
        WrapMouseButton::Left => spec_index_bytes(0),
        WrapMouseButton::Right => spec_index_bytes(1),
        WrapMouseButton::Middle => spec_index_bytes(2),
        WrapMouseButton::Other(v) => spec_index_bytes(3) + spec_u16_bytes(v),
    }
}

/// The index of a scroll unit: line before pixel.
pub open spec fn spec_unit_index(u: WrapMouseScrollUnit) -> u32 {
    match u {
        WrapMouseScrollUnit::Line => 0,
        WrapMouseScrollUnit::Pixel => 1,
    }
}

pub open spec fn spec_unit_bytes(u: WrapMouseScrollUnit) -> Seq<u8> {
    spec_index_bytes(spec_unit_index(u) as nat)
}

/// An absent key symbol is one zero byte; a present one is a one byte and
/// then the symbol's ordinal.
pub open spec fn spec_key_code_bytes(k: Option<WrapKeyCode>) -> Seq<u8> {
    match k {
        None => seq![0u8],
        Some(code) => seq![1u8] + spec_index_bytes(code.0 as nat),
    }
}

pub open spec fn spec_vec2_bytes(v: WrapVec2) -> Seq<u8> {
    spec_u32_bytes(v.x) + spec_u32_bytes(v.y)
}

pub open spec fn spec_window_id_bytes(id: WrapWindowId) -> Seq<u8> {
    id.0@
}

/// The index of an event's variant, in the order of declaration.
pub open spec fn spec_variant_index(ev: FuzzInput) -> u32 {
    match ev {
        FuzzInput::MouseButton(_) => 0,
        FuzzInput::KeyboardInput(_) => 1,
        FuzzInput::MouseWheel(_) => 2,
        FuzzInput::MouseMotion(_) => 3,
        FuzzInput::CursorMoved(_) => 4,
        FuzzInput::WindowResized(_) => 5,
        FuzzInput::RunFrame => 6,
    }
}

/// The bytes of an event's fields, in the order in which they are declared.
pub open spec fn spec_fields_bytes(ev: FuzzInput) -> Seq<u8> {
    match ev {
        FuzzInput::MouseButton(m) => spec_button_bytes(m.button) + spec_state_bytes(m.state),
        FuzzInput::KeyboardInput(k) => spec_u32_bytes(k.scan_code) + spec_key_code_bytes(
            k.key_code,
        ) + spec_state_bytes(k.state),
        FuzzInput::MouseWheel(w) => spec_unit_bytes(w.unit) + spec_u32_bytes(w.x) + spec_u32_bytes(
            w.y,
        ),
        FuzzInput::MouseMotion(v) => spec_vec2_bytes(v),
        FuzzInput::CursorMoved(c) => spec_window_id_bytes(c.id) + spec_vec2_bytes(c.position),
        FuzzInput::WindowResized(r) => spec_window_id_bytes(r.id) + spec_u32_bytes(r.width)
            + spec_u32_bytes(r.height),
        FuzzInput::RunFrame => Seq::empty(),
    }
}

/// The bytes of one event: the index of its variant, then its fields.
pub open spec fn spec_event_bytes(ev: FuzzInput) -> Seq<u8> {
    spec_index_bytes(spec_variant_index(ev) as nat) + spec_fields_bytes(ev)
}

// ---------------------------------------------------------------------------
// What is read from the front of a byte sequence.
// ---------------------------------------------------------------------------
pub open spec fn spec_take_state(b: Seq<u8>) -> Option<(WrapElementState, Seq<u8>)> {
    match spec_take_index(b, 2) {
        Some((i, rest)) => Some(
            (
                if i == 0 {
                    WrapElementState::Pressed
                } else {
                    WrapElementState::Released
                },
                rest,
            ),
        ),
        None => None,
    }
}

pub open spec fn spec_take_button(b: Seq<u8>) -> Option<(WrapMouseButton, Seq<u8>)> {
    match spec_take_index(b, 4) {
        Some((i, rest)) => if i == 0 {
            Some((WrapMouseButton::Left, rest))
        } else if i == 1 {
            Some((WrapMouseButton::Right, rest))
        } else if i == 2 {
            Some((WrapMouseButton::Middle, rest))
        } else {
            match spec_take_u16(rest) {
                Some((v, rest)) => Some((WrapMouseButton::Other(v), rest)),
                None => None,
            }
        },
        None => None,
    }
}

pub open spec fn spec_take_unit(b: Seq<u8>) -> Option<(WrapMouseScrollUnit, Seq<u8>)> {
    match spec_take_index(b, 2) {
        Some((i, rest)) => Some(
            (
                if i == 0 {
                    WrapMouseScrollUnit::Line
                } else {
                    WrapMouseScrollUnit::Pixel
                },
                rest,
            ),
        ),
        None => None,
    }
}

pub open spec fn spec_take_key_code(b: Seq<u8>) -> Option<(Option<WrapKeyCode>, Seq<u8>)> {
    if b.len() == 0 {
        None
    } else if b[0] == 0 {
        Some((None, b.skip(1)))
    } else if b[0] == 1 {
        match spec_take_index(b.skip(1), KEY_CODE_COUNT) {
            Some((i, rest)) => Some((Some(WrapKeyCode(i)), rest)),
            None => None,
        }
    } else {
        None
    }
}

pub open spec fn spec_take_vec2(b: Seq<u8>) -> Option<(WrapVec2, Seq<u8>)> {
    match spec_take_u32(b) {
        Some((x, rest)) => match spec_take_u32(rest) {
            Some((y, rest)) => Some((WrapVec2 { x, y }, rest)),
            None => None,
        },
        None => None,
    }
}

/// The window identity whose bytes are `bytes`.
pub open spec fn spec_window_id(bytes: Seq<u8>) -> WrapWindowId {
    choose|id: WrapWindowId| id.0@ == bytes
}

pub open spec fn spec_take_window_id(b: Seq<u8>) -> Option<(WrapWindowId, Seq<u8>)> {
    if b.len() < WINDOW_ID_BYTES {
        None
    } else {
        Some((spec_window_id(b.subrange(0, WINDOW_ID_BYTES as int)), b.skip(WINDOW_ID_BYTES as int)))
    }
}

pub open spec fn spec_take_mouse_button(b: Seq<u8>) -> Option<(FuzzInput, Seq<u8>)> {
    match spec_take_button(b) {
        Some((button, rest)) => match spec_take_state(rest) {
            Some((state, rest)) => Some(
                (FuzzInput::MouseButton(WrapMouseButtonInput { button, state }), rest),
            ),
            None => None,
        },
        None => None,
    }
}

pub open spec fn spec_take_keyboard(b: Seq<u8>) -> Option<(FuzzInput, Seq<u8>)> {
    match spec_take_u32(b) {
        Some((scan_code, rest)) => match spec_take_key_code(rest) {
            Some((key_code, rest)) => match spec_take_state(rest) {
                Some((state, rest)) => Some(
                    (
                        FuzzInput::KeyboardInput(WrapKeyboardInput { scan_code, key_code, state }),
                        rest,
                    ),
                ),
                None => None,
            },
            None => None,
        },
        None => None,
    }
}

pub open spec fn spec_take_wheel(b: Seq<u8>) -> Option<(FuzzInput, Seq<u8>)> {
    match spec_take_unit(b) {
        Some((unit, rest)) => match spec_take_vec2(rest) {
            Some((v, rest)) => Some(
                (FuzzInput::MouseWheel(WrapMouseWheel { unit, x: v.x, y: v.y }), rest),
            ),
            None => None,
        },
        None => None,
    }
}

pub open spec fn spec_take_cursor_moved(b: Seq<u8>) -> Option<(FuzzInput, Seq<u8>)> {
    match spec_take_window_id(b) {
        Some((id, rest)) => match spec_take_vec2(rest) {
            Some((position, rest)) => Some(
                (FuzzInput::CursorMoved(WrapCursorMoved { id, position }), rest),
            ),
            None => None,
        },
        None => None,
    }
}

pub open spec fn spec_take_resized(b: Seq<u8>) -> Option<(FuzzInput, Seq<u8>)> {
    match spec_take_window_id(b) {
        Some((id, rest)) => match spec_take_vec2(rest) {
            Some((v, rest)) => Some(
                (FuzzInput::WindowResized(WrapWindowResized { id, width: v.x, height: v.y }), rest),
            ),
            None => None,
        },
        None => None,
    }
}

/// Reads the fields of the variant with index `i` from the front of `b`.
pub open spec fn spec_take_fields(i: u32, b: Seq<u8>) -> Option<(FuzzInput, Seq<u8>)> {
    if i == 0 {
        spec_take_mouse_button(b)
    } else if i == 1 {
        spec_take_keyboard(b)
    } else if i == 2 {
        spec_take_wheel(b)
    } else if i == 3 {
        match spec_take_vec2(b) {
            Some((v, rest)) => Some((FuzzInput::MouseMotion(v), rest)),
            None => None,
        }
    } else if i == 4 {
        spec_take_cursor_moved(b)
    } else if i == 5 {
        spec_take_resized(b)
    } else {
        Some((FuzzInput::RunFrame, b))
    }
}

/// Reads one event from the front of `b`: the index of its variant, then the
/// fields of that variant. Gives the event and the bytes after it.
pub open spec fn spec_take_event(b: Seq<u8>) -> Option<(FuzzInput, Seq<u8>)> {
    match spec_take_index(b, 7) {
        Some((i, rest)) => spec_take_fields(i, rest),
        None => None,
    }
}

/// The event that `b` starts with, if it starts with one. Bytes after the
/// event are not looked at.
pub open spec fn spec_decode_event(b: Seq<u8>) -> Option<FuzzInput> {
    match spec_take_event(b) {
        Some((ev, _)) => Some(ev),
        None => None,
    }
}

// ---------------------------------------------------------------------------
// Reading.
// ---------------------------------------------------------------------------
fn take_state<'a>(b: &'a [u8]) -> (r: Option<(WrapElementState, &'a [u8])>)
    ensures
        match r {
            Some((v, rest)) => spec_take_state(b@) == Some((v, rest@)),
            None => spec_take_state(b@) is None,
        },
{
    match take_index(b, 2) {
        Some((i, rest)) => Some(
            (
                if i == 0 {
                    WrapElementState::Pressed
                } else {
                    WrapElementState::Released
                },
                rest,
            ),
        ),
        None => None,
    }
}

fn take_button<'a>(b: &'a [u8]) -> (r: Option<(WrapMouseButton, &'a [u8])>)
    ensures
        match r {
            Some((v, rest)) => spec_take_button(b@) == Some((v, rest@)),
            None => spec_take_button(b@) is None,
        },
{
    match take_index(b, 4) {
        Some((i, rest)) => if i == 0 {
            Some((WrapMouseButton::Left, rest))
        } else if i == 1 {
            Some((WrapMouseButton::Right, rest))
        } else if i == 2 {
            Some((WrapMouseButton::Middle, rest))
        } else {
            match take_u16(rest) {
                Some((v, rest)) => Some((WrapMouseButton::Other(v), rest)),
                None => None,
            }
        },
        None => None,
    }
}

fn take_unit<'a>(b: &'a [u8]) -> (r: Option<(WrapMouseScrollUnit, &'a [u8])>)
    ensures
        match r {
            Some((v, rest)) => spec_take_unit(b@) == Some((v, rest@)),
            None => spec_take_unit(b@) is None,
        },
{
    match take_index(b, 2) {
        Some((i, rest)) => Some(
            (
                if i == 0 {
                    WrapMouseScrollUnit::Line
                } else {
                    WrapMouseScrollUnit::Pixel
                },
                rest,
            ),
        ),
        None => None,
    }
}

fn take_key_code<'a>(b: &'a [u8]) -> (r: Option<(Option<WrapKeyCode>, &'a [u8])>)
    ensures
        match r {
            Some((v, rest)) => spec_take_key_code(b@) == Some((v, rest@)) && (v matches Some(k)
                ==> k.wf()),
            None => spec_take_key_code(b@) is None,
        },
{
    if b.len() == 0 {
        return None;
    }
    let after = slice_subrange(b, 1, b.len());
    if b[0] == 0 {
        Some((None, after))
    } else if b[0] == 1 {
        match take_index(after, KEY_CODE_COUNT) {
            Some((i, rest)) => Some((Some(WrapKeyCode(i)), rest)),
            None => None,
        }
    } else {
        None
    }
}

fn take_vec2<'a>(b: &'a [u8]) -> (r: Option<(WrapVec2, &'a [u8])>)
    ensures
        match r {
            Some((v, rest)) => spec_take_vec2(b@) == Some((v, rest@)),
            None => spec_take_vec2(b@) is None,
        },
{
    match take_u32(b) {
        Some((x, rest)) => match take_u32(rest) {
            Some((y, rest)) => Some((WrapVec2 { x, y }, rest)),
            None => None,
        },
        None => None,
    }
}

/// Two window identities with the same bytes are the same identity.
proof fn lemma_window_id_unique(id: WrapWindowId)
    ensures
        spec_window_id(id.0@) == id,
{
    let other = spec_window_id(id.0@);
    assert(other.0@ == id.0@);
    assert(other.0 =~= id.0);
}

fn take_window_id<'a>(b: &'a [u8]) -> (r: Option<(WrapWindowId, &'a [u8])>)
    ensures
        match r {
            Some((v, rest)) => spec_take_window_id(b@) == Some((v, rest@)),
            None => spec_take_window_id(b@) is None,
        },
{
    if b.len() < WINDOW_ID_BYTES {
        return None;
    }
    let mut id = [0u8;16];
    let mut i: usize = 0;
    while i < WINDOW_ID_BYTES
        invariant
            i <= WINDOW_ID_BYTES <= b.len(),
            forall|j: int| 0 <= j < i ==> id@[j] == b@[j],
        decreases WINDOW_ID_BYTES - i,
    {
        id[i] = b[i];
        i += 1;
    }
    let r = WrapWindowId(id);
    proof {
        assert(id@ =~= b@.subrange(0, WINDOW_ID_BYTES as int));
        lemma_window_id_unique(r);
    }
    Some((r, slice_subrange(b, WINDOW_ID_BYTES, b.len())))
}

fn take_mouse_button<'a>(b: &'a [u8]) -> (r: Option<(FuzzInput, &'a [u8])>)
    ensures
        match r {
            Some((v, rest)) => spec_take_mouse_button(b@) == Some((v, rest@)) && v.wf(),
            None => spec_take_mouse_button(b@) is None,
        },
{
    match take_button(b) {
        Some((button, rest)) => match take_state(rest) {
            Some((state, rest)) => Some(
                (FuzzInput::MouseButton(WrapMouseButtonInput { button, state }), rest),
            ),
            None => None,
        },
        None => None,
    }
}

fn take_keyboard<'a>(b: &'a [u8]) -> (r: Option<(FuzzInput, &'a [u8])>)
    ensures
        match r {
            Some((v, rest)) => spec_take_keyboard(b@) == Some((v, rest@)) && v.wf(),
            None => spec_take_keyboard(b@) is None,
        },
{
    match take_u32(b) {
        Some((scan_code, rest)) => match take_key_code(rest) {
            Some((key_code, rest)) => match take_state(rest) {
                Some((state, rest)) => Some(
                    (
                        FuzzInput::KeyboardInput(WrapKeyboardInput { scan_code, key_code, state }),
                        rest,
                    ),
                ),
                None => None,
            },
            None => None,
        },
        None => None,
    }
}

fn take_wheel<'a>(b: &'a [u8]) -> (r: Option<(FuzzInput, &'a [u8])>)
    ensures
        match r {
            Some((v, rest)) => spec_take_wheel(b@) == Some((v, rest@)) && v.wf(),
            None => spec_take_wheel(b@) is None,
        },
{
    match take_unit(b) {
        Some((unit, rest)) => match take_vec2(rest) {
            Some((v, rest)) => Some(
                (FuzzInput::MouseWheel(WrapMouseWheel { unit, x: v.x, y: v.y }), rest),
            ),
            None => None,
        },
        None => None,
    }
}

fn take_cursor_moved<'a>(b: &'a [u8]) -> (r: Option<(FuzzInput, &'a [u8])>)
    ensures
        match r {
            Some((v, rest)) => spec_take_cursor_moved(b@) == Some((v, rest@)) && v.wf(),
            None => spec_take_cursor_moved(b@) is None,
        },
{
    match take_window_id(b) {
        Some((id, rest)) => match take_vec2(rest) {
            Some((position, rest)) => Some(
                (FuzzInput::CursorMoved(WrapCursorMoved { id, position }), rest),
            ),
            None => None,
        },
        None => None,
    }
}

fn take_resized<'a>(b: &'a [u8]) -> (r: Option<(FuzzInput, &'a [u8])>)
    ensures
        match r {
            Some((v, rest)) => spec_take_resized(b@) == Some((v, rest@)) && v.wf(),
            None => spec_take_resized(b@) is None,
        },
{
    match take_window_id(b) {
        Some((id, rest)) => match take_vec2(rest) {
            Some((v, rest)) => Some(
                (FuzzInput::WindowResized(WrapWindowResized { id, width: v.x, height: v.y }), rest),
            ),
            None => None,
        },
        None => None,
    }
}

/// Reads one event from the front of `b`, and gives it with the bytes after
/// it; `None` where `b` does not start with an event.
pub fn take_event<'a>(b: &'a [u8]) -> (r: Option<(FuzzInput, &'a [u8])>)
    ensures
        match r {
            Some((v, rest)) => spec_take_event(b@) == Some((v, rest@)) && v.wf(),
            None => spec_take_event(b@) is None,
        },
{
    match take_index(b, 7) {
        Some((i, rest)) => if i == 0 {
            take_mouse_button(rest)
        } else if i == 1 {
            take_keyboard(rest)
        } else if i == 2 {
            take_wheel(rest)
        } else if i == 3 {
            match take_vec2(rest) {
                Some((v, rest)) => Some((FuzzInput::MouseMotion(v), rest)),
                None => None,
            }
        } else if i == 4 {
            take_cursor_moved(rest)
        } else if i == 5 {
            take_resized(rest)
        } else {
            Some((FuzzInput::RunFrame, rest))
        },
        None => None,
    }
}

/// The event that `b` starts with; `None` where it starts with none. Bytes
/// after the event are not looked at.
pub fn decode_event(b: &[u8]) -> (r: Option<FuzzInput>)
    ensures
        r == spec_decode_event(b@),
        r matches Some(ev) ==> ev.wf(),
{
    match take_event(b) {
        Some((ev, _)) => Some(ev),
        None => None,
    }
}

// ---------------------------------------------------------------------------
// Writing.
// ---------------------------------------------------------------------------
fn push_state(out: &mut Vec<u8>, s: WrapElementState)
    ensures
        final(out)@ == old(out)@ + spec_state_bytes(s),
{
    match s {
        WrapElementState::Pressed => push_index(out, 0),
        WrapElementState::Released => push_index(out, 1),
    }
}

fn push_button(out: &mut Vec<u8>, b: WrapMouseButton)
    ensures
        final(out)@ == old(out)@ + spec_button_bytes(b),
{
    match b {
        WrapMouseButton::Left => push_index(out, 0),
        WrapMouseButton::Right => push_index(out, 1),
        WrapMouseButton::Middle => push_index(out, 2),
        WrapMouseButton::Other(v) => {
            push_index(out, 3);
            push_u16(out, v);
            assert(out@ =~= old(out)@ + spec_button_bytes(b));
        },
    }
}

fn push_unit(out: &mut Vec<u8>, u: WrapMouseScrollUnit)
    ensures
        final(out)@ == old(out)@ + spec_unit_bytes(u),
{
    match u {
        WrapMouseScrollUnit::Line => push_index(out, 0),
        WrapMouseScrollUnit::Pixel => push_index(out, 1),
    }
}

fn push_key_code(out: &mut Vec<u8>, k: Option<WrapKeyCode>)
    ensures
        final(out)@ == old(out)@ + spec_key_code_bytes(k),
{
    match k {
        None => {
            out.push(0);
            assert(out@ =~= old(out)@ + spec_key_code_bytes(k));
        },
        Some(code) => {
            out.push(1);
            push_index(out, code.0);
            assert(out@ =~= old(out)@ + spec_key_code_bytes(k));
        },
    }
}

fn push_vec2(out: &mut Vec<u8>, v: WrapVec2)
    ensures
        final(out)@ == old(out)@ + spec_vec2_bytes(v),
{
    push_u32(out, v.x);
    push_u32(out, v.y);
    assert(out@ =~= old(out)@ + spec_vec2_bytes(v));
}

fn push_window_id(out: &mut Vec<u8>, id: WrapWindowId)
    ensures
        final(out)@ == old(out)@ + spec_window_id_bytes(id),
{
    let mut i: usize = 0;
    while i < WINDOW_ID_BYTES
        invariant
            i <= WINDOW_ID_BYTES,
            out@ == old(out)@ + id.0@.subrange(0, i as int),
        decreases WINDOW_ID_BYTES - i,
    {
        out.push(id.0[i]);
        i += 1;
        assert(out@ =~= old(out)@ + id.0@.subrange(0, i as int));
    }
    assert(id.0@.subrange(0, WINDOW_ID_BYTES as int) =~= id.0@);
}

/// The bytes of one event.
pub fn encode_event(ev: &FuzzInput) -> (r: Vec<u8>)
    ensures
        r@ == spec_event_bytes(*ev),
{
    let mut out: Vec<u8> = Vec::new();
    match *ev {
        FuzzInput::MouseButton(m) => {
            push_index(&mut out, 0);
            push_button(&mut out, m.button);
            push_state(&mut out, m.state);
        },
        FuzzInput::KeyboardInput(k) => {
            push_index(&mut out, 1);
            push_u32(&mut out, k.scan_code);
            push_key_code(&mut out, k.key_code);
            push_state(&mut out, k.state);
        },
        FuzzInput::MouseWheel(w) => {
            push_index(&mut out, 2);
            push_unit(&mut out, w.unit);
            push_u32(&mut out, w.x);
            push_u32(&mut out, w.y);
        },
        FuzzInput::MouseMotion(v) => {
            push_index(&mut out, 3);
            push_vec2(&mut out, v);
        },
        FuzzInput::CursorMoved(c) => {
            push_index(&mut out, 4);
            push_window_id(&mut out, c.id);
            push_vec2(&mut out, c.position);
        },
        FuzzInput::WindowResized(r) => {
            push_index(&mut out, 5);
            push_window_id(&mut out, r.id);
            push_u32(&mut out, r.width);
            push_u32(&mut out, r.height);
        },
        FuzzInput::RunFrame => {
            push_index(&mut out, 6);
        },
    }
    assert(out@ =~= spec_event_bytes(*ev));
    out
}

// ---------------------------------------------------------------------------
// Reading back what was written.
// ---------------------------------------------------------------------------
proof fn lemma_state_round_trip(s: WrapElementState, rest: Seq<u8>)
    ensures
        spec_take_state(spec_state_bytes(s) + rest) == Some((s, rest)),
{
    lemma_index_round_trip(spec_state_index(s), 2, rest);
}

proof fn lemma_button_round_trip(b: WrapMouseButton, rest: Seq<u8>)
    ensures
        spec_take_button(spec_button_bytes(b) + rest) == Some((b, rest)),
{
    match b {
        WrapMouseButton::Left => lemma_index_round_trip(0, 4, rest),
        WrapMouseButton::Right => lemma_index_round_trip(1, 4, rest),
        WrapMouseButton::Middle => lemma_index_round_trip(2, 4, rest),
        WrapMouseButton::Other(v) => {
            let tail = spec_u16_bytes(v) + rest;
            assert(spec_button_bytes(b) + rest =~= spec_index_bytes(3) + tail);
            lemma_index_round_trip(3, 4, tail);
            lemma_u16_round_trip(v, rest);
        },
    }
}

proof fn lemma_unit_round_trip(u: WrapMouseScrollUnit, rest: Seq<u8>)
    ensures
        spec_take_unit(spec_unit_bytes(u) + rest) == Some((u, rest)),
{
    lemma_index_round_trip(spec_unit_index(u), 2, rest);
}

proof fn lemma_key_code_round_trip(k: Option<WrapKeyCode>, rest: Seq<u8>)
    requires
        k matches Some(code) ==> code.wf(),
    ensures
        spec_take_key_code(spec_key_code_bytes(k) + rest) == Some((k, rest)),
{
    let b = spec_key_code_bytes(k) + rest;
    match k {
        None => {
            assert(b[0] == 0);
            assert(b.skip(1) =~= rest);
        },
        Some(code) => {
            assert(b[0] == 1);
            assert(b.skip(1) =~= spec_index_bytes(code.0 as nat) + rest);
            lemma_index_round_trip(code.0, KEY_CODE_COUNT, rest);
        },
    }
}

proof fn lemma_vec2_round_trip(v: WrapVec2, rest: Seq<u8>)
    ensures
        spec_take_vec2(spec_vec2_bytes(v) + rest) == Some((v, rest)),
{
    let tail = spec_u32_bytes(v.y) + rest;
    assert(spec_vec2_bytes(v) + rest =~= spec_u32_bytes(v.x) + tail);
    lemma_u32_round_trip(v.x, tail);
    lemma_u32_round_trip(v.y, rest);
}

proof fn lemma_window_id_round_trip(id: WrapWindowId, rest: Seq<u8>)
    ensures
        spec_take_window_id(spec_window_id_bytes(id) + rest) == Some((id, rest)),
{
    let b = spec_window_id_bytes(id) + rest;
    assert(id.0@.len() == WINDOW_ID_BYTES);
    assert(b.subrange(0, WINDOW_ID_BYTES as int) =~= id.0@);
    assert(b.skip(WINDOW_ID_BYTES as int) =~= rest);
    lemma_window_id_unique(id);
}

proof fn lemma_mouse_button_round_trip(m: WrapMouseButtonInput, rest: Seq<u8>)
    ensures
        spec_take_mouse_button(spec_fields_bytes(FuzzInput::MouseButton(m)) + rest) == Some(
            (FuzzInput::MouseButton(m), rest),
        ),
{
    let t = spec_state_bytes(m.state) + rest;
    assert(spec_fields_bytes(FuzzInput::MouseButton(m)) + rest =~= spec_button_bytes(m.button)
        + t);
    lemma_button_round_trip(m.button, t);
    lemma_state_round_trip(m.state, rest);
}

proof fn lemma_keyboard_round_trip(k: WrapKeyboardInput, rest: Seq<u8>)
    requires
        k.wf(),
    ensures
        spec_take_keyboard(spec_fields_bytes(FuzzInput::KeyboardInput(k)) + rest) == Some(
            (FuzzInput::KeyboardInput(k), rest),
        ),
{
    let t2 = spec_state_bytes(k.state) + rest;
    let t1 = spec_key_code_bytes(k.key_code) + t2;
    assert(spec_fields_bytes(FuzzInput::KeyboardInput(k)) + rest =~= spec_u32_bytes(k.scan_code)
        + t1);
    lemma_u32_round_trip(k.scan_code, t1);
    lemma_key_code_round_trip(k.key_code, t2);
    lemma_state_round_trip(k.state, rest);
}

proof fn lemma_wheel_round_trip(w: WrapMouseWheel, rest: Seq<u8>)
    ensures
        spec_take_wheel(spec_fields_bytes(FuzzInput::MouseWheel(w)) + rest) == Some(
            (FuzzInput::MouseWheel(w), rest),
        ),
{
    let v = WrapVec2 { x: w.x, y: w.y };
    let t = spec_vec2_bytes(v) + rest;
    assert(spec_fields_bytes(FuzzInput::MouseWheel(w)) + rest =~= spec_unit_bytes(w.unit) + t);
    lemma_unit_round_trip(w.unit, t);
    lemma_vec2_round_trip(v, rest);
}

proof fn lemma_cursor_moved_round_trip(c: WrapCursorMoved, rest: Seq<u8>)
    ensures
        spec_take_cursor_moved(spec_fields_bytes(FuzzInput::CursorMoved(c)) + rest) == Some(
            (FuzzInput::CursorMoved(c), rest),
        ),
{
    let t = spec_vec2_bytes(c.position) + rest;
    assert(spec_fields_bytes(FuzzInput::CursorMoved(c)) + rest =~= spec_window_id_bytes(c.id)
        + t);
    lemma_window_id_round_trip(c.id, t);
    lemma_vec2_round_trip(c.position, rest);
}

proof fn lemma_resized_round_trip(r: WrapWindowResized, rest: Seq<u8>)
    ensures
        spec_take_resized(spec_fields_bytes(FuzzInput::WindowResized(r)) + rest) == Some(
            (FuzzInput::WindowResized(r), rest),
        ),
{
    let v = WrapVec2 { x: r.width, y: r.height };
    let t = spec_vec2_bytes(v) + rest;
    assert(spec_fields_bytes(FuzzInput::WindowResized(r)) + rest =~= spec_window_id_bytes(r.id)
        + t);
    lemma_window_id_round_trip(r.id, t);
    lemma_vec2_round_trip(v, rest);
}

proof fn lemma_fields_round_trip(ev: FuzzInput, rest: Seq<u8>)
    requires
        ev.wf(),
    ensures
        spec_take_fields(spec_variant_index(ev), spec_fields_bytes(ev) + rest) == Some((ev, rest)),
{
    match ev {
        FuzzInput::MouseButton(m) => lemma_mouse_button_round_trip(m, rest),
        FuzzInput::KeyboardInput(k) => lemma_keyboard_round_trip(k, rest),
        FuzzInput::MouseWheel(w) => lemma_wheel_round_trip(w, rest),
        FuzzInput::MouseMotion(v) => lemma_vec2_round_trip(v, rest),
        FuzzInput::CursorMoved(c) => lemma_cursor_moved_round_trip(c, rest),
        FuzzInput::WindowResized(r) => lemma_resized_round_trip(r, rest),
        FuzzInput::RunFrame => {
            assert(spec_fields_bytes(ev) + rest =~= rest);
        },
    }
}

/// Reading back the bytes of a well-formed event gives that event and leaves
/// whatever followed the bytes untouched.
pub proof fn lemma_event_round_trip(ev: FuzzInput, rest: Seq<u8>)
    requires
        ev.wf(),
    ensures
        spec_take_event(spec_event_bytes(ev) + rest) == Some((ev, rest)),
{
    let tail = spec_fields_bytes(ev) + rest;
    assert(spec_event_bytes(ev) + rest =~= spec_index_bytes(spec_variant_index(ev) as nat) + tail);
    lemma_index_round_trip(spec_variant_index(ev), 7, tail);
    lemma_fields_round_trip(ev, rest);
}

/// Decoding the bytes of a well-formed event gives that event back, whatever
/// bytes follow them.
pub proof fn lemma_decode_encode(ev: FuzzInput, rest: Seq<u8>)
    requires
        ev.wf(),
    ensures
        spec_decode_event(spec_event_bytes(ev) + rest) == Some(ev),
{
    lemma_event_round_trip(ev, rest);
}

/// Whatever bytes an event is decoded from, it is well formed, and its own
/// bytes decode to it again.
pub proof fn lemma_decoded_is_consistent(b: Seq<u8>)
    ensures
        spec_decode_event(b) matches Some(ev) ==> ev.wf() && spec_decode_event(
            spec_event_bytes(ev),
        ) == Some(ev),
{
    if let Some(ev) = spec_decode_event(b) {
        assert(ev.wf());
        lemma_decode_encode(ev, Seq::empty());
        assert(spec_event_bytes(ev) + Seq::<u8>::empty() =~= spec_event_bytes(ev));
    }
}

/// The bytes of an event are at least one and at most twenty-five.
pub proof fn lemma_event_size(ev: FuzzInput)
    ensures
        1 <= spec_event_bytes(ev).len() <= 25,
{
    lemma_index_bytes_len(0);
    lemma_index_bytes_len(1);
    lemma_index_bytes_len(2);
    lemma_index_bytes_len(3);
    assert(spec_index_bytes(spec_variant_index(ev) as nat).len() == 1);
    match ev {
        FuzzInput::KeyboardInput(k) => {
            if let Some(code) = k.key_code {
                lemma_index_bytes_len(code.0);
            }
        },
        FuzzInput::CursorMoved(c) => {
            assert(c.id.0@.len() == WINDOW_ID_BYTES);
        },
        FuzzInput::WindowResized(r) => {
            assert(r.id.0@.len() == WINDOW_ID_BYTES);
        },
        _ => {},
    }
}

} // verus!
