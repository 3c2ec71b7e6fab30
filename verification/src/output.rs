//! Events to bytes and back: a stream is frame after frame, each the stuffed
//! bytes of one event and a closing zero.

use crate::framing::{
    cobs_decode, cobs_encode, cobs_push, cobs_scan, cobs_stuffed, cobs_unstuffed, FrameScan,
};
use crate::fuzz_input::FuzzInput;
use crate::input::keyboard::WrapKeyboardInput;
use crate::input::mouse::{WrapMouseButtonInput, WrapMouseWheel};
use crate::math::WrapVec2;
use crate::payload::{
    decode_event, encode_event, lemma_decode_encode, lemma_event_size, spec_decode_event,
    spec_event_bytes,
};
use crate::window::event::{WrapCursorMoved, WrapWindowResized};
use vstd::prelude::*;
use vstd::slice::slice_subrange;

verus! {

/// The size of the buffer into which a frame is scanned. A frame whose
/// content does not fit counts as malformed.
pub const SCRATCH_BYTES: usize = 1024;

/// Why a byte stream was rejected.
#[derive(Debug, Clone, Copy, PartialEq, Eq)]
pub enum DecodeError {
    /// A frame is not validly stuffed.
    MalformedFrame,
    /// The content of a frame is not an event.
    MalformedPayload,
}

/// The event in one frame, given what unstuffing the frame gave.
pub open spec fn spec_decode_frame(unstuffed: Option<Seq<u8>>) -> Result<FuzzInput, DecodeError> {
    match unstuffed {
        None => Err(DecodeError::MalformedFrame),
        Some(payload) => match spec_decode_event(payload) {
            Some(ev) => Ok(ev),
            None => Err(DecodeError::MalformedPayload),
        },
    }
}

/// A frame whose unstuffed content starts with the bytes of a well-formed
/// event decodes to that event.
pub proof fn lemma_decode_frame_round_trip(ev: FuzzInput, tail: Seq<u8>)
    requires
        ev.wf(),
    ensures
        spec_decode_frame(Some(spec_event_bytes(ev) + tail)) == Ok::<FuzzInput, DecodeError>(ev),
{
    lemma_decode_encode(ev, tail);
}

/// The number of zero bytes in `bytes`: the bytes that can close a frame.
pub open spec fn spec_count_zeros(bytes: Seq<u8>) -> nat
    decreases bytes.len(),
{
    if bytes.len() == 0 {
        0
    } else {
        spec_count_zeros(bytes.drop_last()) + if bytes.last() == 0 {
            1nat
        } else {
            0nat
        }
    }
}

/// The events of a byte stream. Frames are taken from the front one after
/// another, each closed by a zero byte; bytes after the last complete frame
/// are left aside; the first frame that is malformed, or holds no event,
/// rejects the whole stream.
pub open spec fn spec_parse(input: Seq<u8>) -> Result<Seq<FuzzInput>, DecodeError>
    decreases input.len(),
{
    if input.len() == 0 {
        Ok(Seq::empty())
    } else {
        match cobs_scan(input, SCRATCH_BYTES as nat) {
            FrameScan::Incomplete => Ok(Seq::empty()),
            FrameScan::Malformed => Err(DecodeError::MalformedFrame),
            FrameScan::Complete { used } => if used < 1 || used > input.len() || input[used - 1]
                != 0 {
                Err(DecodeError::MalformedFrame)
            } else {
                match spec_decode_frame(cobs_unstuffed(input.subrange(0, used as int))) {
                    Err(e) => Err(e),
                    Ok(ev) => match spec_parse(input.skip(used as int)) {
                        Err(e) => Err(e),
                        Ok(rest) => Ok(seq![ev] + rest),
                    },
                }
            },
        }
    }
}

/// The events `done`, followed by what the rest of the stream gives.
pub open spec fn spec_after(
    done: Seq<FuzzInput>,
    rest: Result<Seq<FuzzInput>, DecodeError>,
) -> Result<Seq<FuzzInput>, DecodeError> {
    match rest {
        Ok(more) => Ok(done + more),
        Err(e) => Err(e),
    }
}

/// The event in one frame, given what unstuffing the frame gave: an error
/// where unstuffing failed or the content is no event.
pub fn decode_frame(unstuffed: Option<Vec<u8>>) -> (r: Result<FuzzInput, DecodeError>)
    ensures
        r == spec_decode_frame(
            match unstuffed {
                Some(payload) => Some(payload@),
                None => None,
            },
        ),
        r matches Ok(ev) ==> ev.wf(),
{
    match unstuffed {
        None => Err(DecodeError::MalformedFrame),
        Some(payload) => match decode_event(payload.as_slice()) {
            Some(ev) => Ok(ev),
            None => Err(DecodeError::MalformedPayload),
        },
    }
}

/// Decodes a byte stream into its events. An empty stream has no events.
/// One bad frame rejects the stream: no part of it is returned.
pub fn parse_commands(input: Vec<u8>) -> (r: Result<Vec<FuzzInput>, DecodeError>)
    ensures
        match r {
            Ok(events) => spec_parse(input@) == Ok::<Seq<FuzzInput>, DecodeError>(events@),
            Err(e) => spec_parse(input@) == Err::<Seq<FuzzInput>, DecodeError>(e),
        },
        input@.len() == 0 ==> (r matches Ok(events) && events@.len() == 0),
        r matches Ok(events) ==> events@.len() <= spec_count_zeros(input@) && forall|i: int|
            0 <= i < events@.len() ==> (#[trigger] events@[i]).wf(),
{
    let mut scratch: Vec<u8> = vec![0u8; SCRATCH_BYTES];
    let mut offset: usize = 0;
    let mut fuzz_inputs: Vec<FuzzInput> = Vec::new();
    proof {
        lemma_events_within_delimiters(input@);
        assert(input@.skip(0) =~= input@);
        assert(Seq::<FuzzInput>::empty() + Seq::<FuzzInput>::empty() =~= Seq::empty());
    }
    while offset < input.len()
        invariant
            offset <= input.len(),
            scratch@.len() == SCRATCH_BYTES,
            spec_parse(input@) matches Ok(events) ==> events.len() <= spec_count_zeros(input@),
            forall|i: int| 0 <= i < fuzz_inputs@.len() ==> (#[trigger] fuzz_inputs@[i]).wf(),
            spec_parse(input@) == spec_after(fuzz_inputs@, spec_parse(input@.skip(offset as int))),
        decreases input.len() - offset,
    {
        let input_slice = slice_subrange(input.as_slice(), offset, input.len());
        assert(input_slice@ =~= input@.skip(offset as int));
        match cobs_push(&mut scratch, input_slice) {
            FrameScan::Incomplete => {
                assert(fuzz_inputs@ + Seq::<FuzzInput>::empty() =~= fuzz_inputs@);
                return Ok(fuzz_inputs);
            },
            FrameScan::Malformed => {
                return Err(DecodeError::MalformedFrame);
            },
            FrameScan::Complete { used } => {
                let frame = slice_subrange(input_slice, 0, used);
                match decode_frame(cobs_decode(frame)) {
                    Err(e) => {
                        return Err(e);
                    },
                    Ok(ev) => {
                        proof {
                            let rest = spec_parse(input_slice@.skip(used as int));
                            assert(input_slice@.skip(used as int) =~= input@.skip(offset + used));
                            if let Ok(more) = rest {
                                assert(fuzz_inputs@ + (seq![ev] + more) =~= fuzz_inputs@.push(ev)
                                    + more);
                            }
                        }
                        fuzz_inputs.push(ev);
                        offset += used;
                    },
                }
            },
        }
    }
    proof {
        assert(fuzz_inputs@ + Seq::<FuzzInput>::empty() =~= fuzz_inputs@);
    }
    Ok(fuzz_inputs)
}

/// The frame of one event: its bytes, stuffed, and a closing zero.
pub open spec fn spec_frame(ev: FuzzInput) -> Seq<u8> {
    cobs_stuffed(spec_event_bytes(ev)).push(0)
}

/// The frames of a run of events, one after another.
pub open spec fn spec_frames(events: Seq<FuzzInput>) -> Seq<u8>
    decreases events.len(),
{
    if events.len() == 0 {
        Seq::empty()
    } else {
        spec_frames(events.drop_last()) + spec_frame(events.last())
    }
}

/// Whether `frame` is closed once: its last byte is a zero, and no other is.
pub open spec fn spec_closed_once(frame: Seq<u8>) -> bool {
    &&& frame.len() >= 1
    &&& frame.last() == 0
    &&& forall|i: int| 0 <= i < frame.len() - 1 ==> frame[i] != 0
}

/// Encodes one event as a frame. The frame is closed once, so that in a
/// stream the next zero byte ends it.
pub fn encode_frame(ev: &FuzzInput) -> (r: Vec<u8>)
    ensures
        r@ == spec_frame(*ev),
        spec_closed_once(r@),
{
    let payload = encode_event(ev);
    proof {
        lemma_event_size(*ev);
    }
    let mut frame = cobs_encode(payload.as_slice());
    frame.push(0);
    frame
}

/// The zero bytes of two runs of bytes are those of the one and those of the
/// other.
pub proof fn lemma_count_zeros_concat(a: Seq<u8>, b: Seq<u8>)
    ensures
        spec_count_zeros(a + b) == spec_count_zeros(a) + spec_count_zeros(b),
    decreases b.len(),
{
    if b.len() == 0 {
        assert(a + b =~= a);
    } else {
        assert((a + b).drop_last() =~= a + b.drop_last());
        assert((a + b).last() == b.last());
        lemma_count_zeros_concat(a, b.drop_last());
    }
}

/// A stream decodes to no more events than it has zero bytes: every event
/// comes from a frame of its own, and every frame is closed by a zero byte
/// of its own.
pub proof fn lemma_events_within_delimiters(input: Seq<u8>)
    ensures
        spec_parse(input) matches Ok(events) ==> events.len() <= spec_count_zeros(input),
    decreases input.len(),
{
    if input.len() > 0 {
        if let FrameScan::Complete { used } = cobs_scan(input, SCRATCH_BYTES as nat) {
            if 1 <= used <= input.len() && input[used - 1] == 0 {
                let frame = input.subrange(0, used as int);
                let rest = input.skip(used as int);
                assert(frame + rest =~= input);
                lemma_count_zeros_concat(frame, rest);
                assert(frame.last() == 0);
                lemma_events_within_delimiters(rest);
            }
        }
    }
}

/// A frame that is closed once has one zero byte.
pub proof fn lemma_closed_once_has_one_zero(frame: Seq<u8>)
    requires
        spec_closed_once(frame),
    ensures
        spec_count_zeros(frame) == 1,
{
    lemma_no_zeros(frame.drop_last());
}

/// Bytes of which none is zero have no zero bytes.
proof fn lemma_no_zeros(bytes: Seq<u8>)
    requires
        forall|i: int| 0 <= i < bytes.len() ==> bytes[i] != 0,
    ensures
        spec_count_zeros(bytes) == 0,
    decreases bytes.len(),
{
    if bytes.len() > 0 {
        lemma_no_zeros(bytes.drop_last());
    }
}

/// Changing one byte changes the number of zero bytes by one at most.
proof fn lemma_count_zeros_update(bytes: Seq<u8>, at: int, value: u8)
    requires
        0 <= at < bytes.len(),
    ensures
        spec_count_zeros(bytes.update(at, value)) + (if bytes[at] == 0 {
            1nat
        } else {
            0nat
        }) == spec_count_zeros(bytes) + (if value == 0 {
            1nat
        } else {
            0nat
        }),
{
    let before = bytes.subrange(0, at);
    let after = bytes.skip(at + 1);
    assert(bytes =~= before + seq![bytes[at]] + after);
    assert(bytes.update(at, value) =~= before + seq![value] + after);
    lemma_count_zeros_concat(before, seq![bytes[at]]);
    lemma_count_zeros_concat(before + seq![bytes[at]], after);
    lemma_count_zeros_concat(before, seq![value]);
    lemma_count_zeros_concat(before + seq![value], after);
    assert(seq![bytes[at]].drop_last() =~= Seq::<u8>::empty());
    assert(seq![value].drop_last() =~= Seq::<u8>::empty());
    assert(spec_count_zeros(Seq::<u8>::empty()) == 0);
}

/// One changed byte in a frame that is closed once never makes the frame
/// decode to more events than the changed bytes have zero bytes: to one
/// event at most unless the byte was changed to a zero, and never to more
/// than two. Whatever the change, the result is an error or such a run of
/// events.
pub proof fn lemma_one_changed_byte(frame: Seq<u8>, at: int, value: u8)
    requires
        spec_closed_once(frame),
        0 <= at < frame.len(),
    ensures
        spec_parse(frame.update(at, value)) matches Ok(events) ==> events.len() <= 2 && (value
            != 0 ==> events.len() <= 1),
{
    lemma_closed_once_has_one_zero(frame);
    lemma_count_zeros_update(frame, at, value);
    lemma_events_within_delimiters(frame.update(at, value));
}

/// Collects the bytes of recorded events until they are taken away to be
/// stored.
pub struct EventOutput {
    buffer: Vec<u8>,
}

impl EventOutput {
    /// The bytes encoded so far and not yet taken.
    pub closed spec fn pending(&self) -> Seq<u8> {
        self.buffer@
    }

    /// An output with no bytes pending.
    pub fn new() -> (r: Self)
        ensures
            r.pending() == Seq::<u8>::empty(),
    {
        EventOutput { buffer: Vec::new() }
    }

    /// Encodes each event as a frame, in order, after the bytes already
    /// pending. Every frame brings one zero byte, the one that closes it.
    pub fn write_input_actions(&mut self, input_actions: &[FuzzInput]) -> (r: Result<(), ()>)
        ensures
            r is Ok,
            final(self).pending() == old(self).pending() + spec_frames(input_actions@),
            spec_count_zeros(final(self).pending()) == spec_count_zeros(old(self).pending())
                + input_actions@.len(),
    {
        let mut i: usize = 0;
        proof {
            assert(input_actions@.subrange(0, 0) =~= Seq::empty());
            assert(self.buffer@ + Seq::<u8>::empty() =~= self.buffer@);
        }
        while i < input_actions.len()
            invariant
                i <= input_actions.len(),
                self.buffer@ == old(self).buffer@ + spec_frames(
                    input_actions@.subrange(0, i as int),
                ),
                spec_count_zeros(self.buffer@) == spec_count_zeros(old(self).buffer@) + i,
            decreases input_actions.len() - i,
        {
            let mut frame = encode_frame(&input_actions[i]);
            proof {
                lemma_closed_once_has_one_zero(frame@);
                lemma_count_zeros_concat(self.buffer@, frame@);
                let before = input_actions@.subrange(0, i as int);
                let after = input_actions@.subrange(0, i + 1);
                assert(after.drop_last() =~= before);
                assert(after.last() == input_actions@[i as int]);
                assert(old(self).buffer@ + (spec_frames(before) + frame@) =~= (old(self).buffer@
                    + spec_frames(before)) + frame@);
            }
            self.buffer.append(&mut frame);
            i += 1;
        }
        proof {
            assert(input_actions@.subrange(0, i as int) =~= input_actions@);
        }
        Ok(())
    }

    /// Hands over the pending bytes and leaves none pending.
    pub fn take_bytes(&mut self) -> (r: Vec<u8>)
        ensures
            r@ == old(self).pending(),
            final(self).pending() == Seq::<u8>::empty(),
    {
        let mut out: Vec<u8> = Vec::new();
        core::mem::swap(&mut self.buffer, &mut out);
        out
    }
}

/// The events of one recorded tick: each category in turn, in the fixed order
/// below, every category in the order in which its events arrived, and the
/// mark that ends the frame last.
pub open spec fn spec_tick_events(
    window_resized: Seq<WrapWindowResized>,
    mouse_button: Seq<WrapMouseButtonInput>,
    mouse_wheel: Seq<WrapMouseWheel>,
    keyboard: Seq<WrapKeyboardInput>,
    mouse_motion: Seq<WrapVec2>,
    cursor_moved: Seq<WrapCursorMoved>,
) -> Seq<FuzzInput> {
    window_resized.map_values(|v: WrapWindowResized| FuzzInput::WindowResized(v))
        + mouse_button.map_values(|v: WrapMouseButtonInput| FuzzInput::MouseButton(v))
        + mouse_wheel.map_values(|v: WrapMouseWheel| FuzzInput::MouseWheel(v))
        + keyboard.map_values(|v: WrapKeyboardInput| FuzzInput::KeyboardInput(v))
        + mouse_motion.map_values(|v: WrapVec2| FuzzInput::MouseMotion(v))
        + cursor_moved.map_values(|v: WrapCursorMoved| FuzzInput::CursorMoved(v))
        + seq![FuzzInput::RunFrame]
}

fn extend_window_resized(out: &mut Vec<FuzzInput>, events: &[WrapWindowResized])
    ensures
        final(out)@ == old(out)@ + events@.map_values(
            |v: WrapWindowResized| FuzzInput::WindowResized(v),
        ),
{
    let ghost mapped = events@.map_values(|v: WrapWindowResized| FuzzInput::WindowResized(v));
    let mut i: usize = 0;
    while i < events.len()
        invariant
            i <= events.len(),
            mapped == events@.map_values(|v: WrapWindowResized| FuzzInput::WindowResized(v)),
            out@ =~= old(out)@ + mapped.subrange(0, i as int),
        decreases events.len() - i,
    {
        out.push(FuzzInput::WindowResized(events[i]));
        i += 1;
    }
    assert(mapped.subrange(0, i as int) =~= mapped);
}

fn extend_mouse_button(out: &mut Vec<FuzzInput>, events: &[WrapMouseButtonInput])
    ensures
        final(out)@ == old(out)@ + events@.map_values(
            |v: WrapMouseButtonInput| FuzzInput::MouseButton(v),
        ),
{
    let ghost mapped = events@.map_values(|v: WrapMouseButtonInput| FuzzInput::MouseButton(v));
    let mut i: usize = 0;
    while i < events.len()
        invariant
            i <= events.len(),
            mapped == events@.map_values(|v: WrapMouseButtonInput| FuzzInput::MouseButton(v)),
            out@ =~= old(out)@ + mapped.subrange(0, i as int),
        decreases events.len() - i,
    {
        out.push(FuzzInput::MouseButton(events[i]));
        i += 1;
    }
    assert(mapped.subrange(0, i as int) =~= mapped);
}

fn extend_mouse_wheel(out: &mut Vec<FuzzInput>, events: &[WrapMouseWheel])
    ensures
        final(out)@ == old(out)@ + events@.map_values(
            |v: WrapMouseWheel| FuzzInput::MouseWheel(v),
        ),
{
    let ghost mapped = events@.map_values(|v: WrapMouseWheel| FuzzInput::MouseWheel(v));
    let mut i: usize = 0;
    while i < events.len()
        invariant
            i <= events.len(),
            mapped == events@.map_values(|v: WrapMouseWheel| FuzzInput::MouseWheel(v)),
            out@ =~= old(out)@ + mapped.subrange(0, i as int),
        decreases events.len() - i,
    {
        out.push(FuzzInput::MouseWheel(events[i]));
        i += 1;
    }
    assert(mapped.subrange(0, i as int) =~= mapped);
}

fn extend_keyboard(out: &mut Vec<FuzzInput>, events: &[WrapKeyboardInput])
    ensures
        final(out)@ == old(out)@ + events@.map_values(
            |v: WrapKeyboardInput| FuzzInput::KeyboardInput(v),
        ),
{
    let ghost mapped = events@.map_values(|v: WrapKeyboardInput| FuzzInput::KeyboardInput(v));
    let mut i: usize = 0;
    while i < events.len()
        invariant
            i <= events.len(),
            mapped == events@.map_values(|v: WrapKeyboardInput| FuzzInput::KeyboardInput(v)),
            out@ =~= old(out)@ + mapped.subrange(0, i as int),
        decreases events.len() - i,
    {
        out.push(FuzzInput::KeyboardInput(events[i]));
        i += 1;
    }
    assert(mapped.subrange(0, i as int) =~= mapped);
}

fn extend_mouse_motion(out: &mut Vec<FuzzInput>, events: &[WrapVec2])
    ensures
        final(out)@ == old(out)@ + events@.map_values(|v: WrapVec2| FuzzInput::MouseMotion(v)),
{
    let ghost mapped = events@.map_values(|v: WrapVec2| FuzzInput::MouseMotion(v));
    let mut i: usize = 0;
    while i < events.len()
        invariant
            i <= events.len(),
            mapped == events@.map_values(|v: WrapVec2| FuzzInput::MouseMotion(v)),
            out@ =~= old(out)@ + mapped.subrange(0, i as int),
        decreases events.len() - i,
    {
        out.push(FuzzInput::MouseMotion(events[i]));
        i += 1;
    }
    assert(mapped.subrange(0, i as int) =~= mapped);
}

fn extend_cursor_moved(out: &mut Vec<FuzzInput>, events: &[WrapCursorMoved])
    ensures
        final(out)@ == old(out)@ + events@.map_values(
            |v: WrapCursorMoved| FuzzInput::CursorMoved(v),
        ),
{
    let ghost mapped = events@.map_values(|v: WrapCursorMoved| FuzzInput::CursorMoved(v));
    let mut i: usize = 0;
    while i < events.len()
        invariant
            i <= events.len(),
            mapped == events@.map_values(|v: WrapCursorMoved| FuzzInput::CursorMoved(v)),
            out@ =~= old(out)@ + mapped.subrange(0, i as int),
        decreases events.len() - i,
    {
        out.push(FuzzInput::CursorMoved(events[i]));
        i += 1;
    }
    assert(mapped.subrange(0, i as int) =~= mapped);
}

/// Records one tick: gathers the events that the host emitted in it, category
/// by category, closes them with the mark that ends the frame, and encodes
/// the lot after the bytes already pending in `event_output`.
pub fn output_input_events_system(
    window_resized_events: &[WrapWindowResized],
    mouse_button_input_events: &[WrapMouseButtonInput],
    mouse_wheel_events: &[WrapMouseWheel],
    keyboard_input_events: &[WrapKeyboardInput],
    mouse_motion_events: &[WrapVec2],
    cursor_moved_events: &[WrapCursorMoved],
    event_output: &mut EventOutput,
)
    ensures
        final(event_output).pending() == old(event_output).pending() + spec_frames(
            spec_tick_events(
                window_resized_events@,
                mouse_button_input_events@,
                mouse_wheel_events@,
                keyboard_input_events@,
                mouse_motion_events@,
                cursor_moved_events@,
            ),
        ),
{
    let mut f_inp: Vec<FuzzInput> = Vec::new();
    extend_window_resized(&mut f_inp, window_resized_events);
    extend_mouse_button(&mut f_inp, mouse_button_input_events);
    extend_mouse_wheel(&mut f_inp, mouse_wheel_events);
    extend_keyboard(&mut f_inp, keyboard_input_events);
    extend_mouse_motion(&mut f_inp, mouse_motion_events);
    extend_cursor_moved(&mut f_inp, cursor_moved_events);
    f_inp.push(FuzzInput::RunFrame);
    assert(f_inp@ =~= spec_tick_events(
        window_resized_events@,
        mouse_button_input_events@,
        mouse_wheel_events@,
        keyboard_input_events@,
        mouse_motion_events@,
        cursor_moved_events@,
    ));
    let _ = event_output.write_input_actions(f_inp.as_slice());
}

} // verus!
