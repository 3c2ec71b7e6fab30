use bevy_fuzz::fuzz_input::FuzzInput;
use bevy_fuzz::input::keyboard::{WrapKeyCode, WrapKeyboardInput};
use bevy_fuzz::input::mouse::{
    WrapMouseButton, WrapMouseButtonInput, WrapMouseScrollUnit, WrapMouseWheel,
};
use bevy_fuzz::input::WrapElementState;
use bevy_fuzz::math::WrapVec2;
use bevy_fuzz::output::{encode_frame, parse_commands};
use bevy_fuzz::payload::encode_event;
use bevy_fuzz::window::event::WrapCursorMoved;
use bevy_fuzz::window::WrapWindowId;
use bevy_fuzz::wire::take_index;

// The same values written as plain tuples by the serialisation crate give the
// same bytes: an index below 128 is one byte, as a `u8` is.

#[test]
fn motion_is_written_as_the_serialiser_writes_it() {
    let ev = FuzzInput::MouseMotion(WrapVec2 { x: (-4.0f32).to_bits(), y: 1.0f32.to_bits() });
    assert_eq!(encode_event(&ev), postcard::to_allocvec(&(3u8, -4.0f32, 1.0f32)).unwrap());
    assert_eq!(encode_frame(&ev), postcard::to_allocvec_cobs(&(3u8, -4.0f32, 1.0f32)).unwrap());
}

#[test]
fn button_is_written_as_the_serialiser_writes_it() {
    let ev = FuzzInput::MouseButton(WrapMouseButtonInput {
        button: WrapMouseButton::Other(0xBEEF),
        state: WrapElementState::Released,
    });
    assert_eq!(encode_frame(&ev), postcard::to_allocvec_cobs(&(0u8, 3u8, 0xBEEFu16, 1u8)).unwrap());
}

#[test]
fn key_is_written_as_the_serialiser_writes_it() {
    let ev = FuzzInput::KeyboardInput(WrapKeyboardInput {
        scan_code: 0x0001_0000,
        key_code: Some(WrapKeyCode(42)),
        state: WrapElementState::Pressed,
    });
    assert_eq!(
        encode_frame(&ev),
        postcard::to_allocvec_cobs(&(1u8, 0x0001_0000u32, Some(42u8), 0u8)).unwrap()
    );
    let none = FuzzInput::KeyboardInput(WrapKeyboardInput {
        scan_code: 7,
        key_code: None,
        state: WrapElementState::Released,
    });
    assert_eq!(
        encode_frame(&none),
        postcard::to_allocvec_cobs(&(1u8, 7u32, None::<u8>, 1u8)).unwrap()
    );
}

#[test]
fn wheel_and_cursor_are_written_as_the_serialiser_writes_them() {
    let wheel = FuzzInput::MouseWheel(WrapMouseWheel {
        unit: WrapMouseScrollUnit::Pixel,
        x: 0.5f32.to_bits(),
        y: (-120.0f32).to_bits(),
    });
    assert_eq!(
        encode_frame(&wheel),
        postcard::to_allocvec_cobs(&(2u8, 1u8, 0.5f32, -120.0f32)).unwrap()
    );
    let id = [9u8, 8, 7, 6, 5, 4, 3, 2, 1, 0, 1, 2, 3, 4, 5, 6];
    let moved = FuzzInput::CursorMoved(WrapCursorMoved {
        id: WrapWindowId(id),
        position: WrapVec2 { x: 3.0f32.to_bits(), y: 4.0f32.to_bits() },
    });
    assert_eq!(
        encode_frame(&moved),
        postcard::to_allocvec_cobs(&(4u8, id, 3.0f32, 4.0f32)).unwrap()
    );
}

#[test]
fn what_the_serialiser_wrote_is_read_back() {
    let stream = postcard::to_allocvec_cobs(&(3u8, 26.0f32, 25.0f32)).unwrap();
    assert_eq!(
        parse_commands(stream),
        Ok(vec![FuzzInput::MouseMotion(WrapVec2 { x: 26.0f32.to_bits(), y: 25.0f32.to_bits() })])
    );
    let mut frame = encode_frame(&FuzzInput::MouseMotion(WrapVec2 {
        x: 26.0f32.to_bits(),
        y: 25.0f32.to_bits(),
    }));
    let back: (u8, f32, f32) = postcard::from_bytes_cobs(&mut frame).unwrap();
    assert_eq!(back, (3u8, 26.0f32, 25.0f32));
}

// An index is read as the serialiser reads the index of a variant. `Result`
// has two variants, `Ok` before `Err`.
fn variant_by_the_serialiser(bytes: &[u8]) -> Option<u32> {
    match postcard::from_bytes::<Result<(), ()>>(bytes) {
        Ok(Ok(())) => Some(0),
        Ok(Err(())) => Some(1),
        Err(_) => None,
    }
}

#[test]
fn an_index_is_read_as_the_serialiser_reads_it() {
    let cases: Vec<Vec<u8>> = vec![
        vec![],
        vec![0],
        vec![1],
        vec![2],
        vec![0x7F],
        vec![0x80],
        vec![0x80, 0x00],
        vec![0x81, 0x00],
        vec![0x81, 0x80, 0x00],
        vec![0x80, 0x01],
        vec![0x82, 0x00],
        vec![0x81, 0x80, 0x80, 0x80, 0x80, 0x80, 0x80, 0x80, 0x80, 0x00],
        vec![0x81, 0x80, 0x80, 0x80, 0x80, 0x80, 0x80, 0x80, 0x80, 0x7E],
        vec![0x81, 0x80, 0x80, 0x80, 0x80, 0x80, 0x80, 0x80, 0x80, 0x01],
        vec![0x81, 0x80, 0x80, 0x80, 0x80, 0x80, 0x80, 0x80, 0x80, 0x80, 0x00],
        vec![0x81, 0x80, 0x80, 0x80, 0x80, 0x80, 0x80, 0x80, 0x80, 0x80],
        vec![0x80, 0x80, 0x80, 0x80, 0x10],
        vec![0x81, 0x80, 0x80, 0x80, 0x10],
        vec![0xFF, 0xFF, 0xFF, 0xFF, 0xFF, 0xFF, 0xFF, 0xFF, 0xFF, 0x7F],
        vec![1, 2, 3],
    ];
    for bytes in cases {
        assert_eq!(
            take_index(&bytes, 2).map(|(index, _)| index),
            variant_by_the_serialiser(&bytes),
            "{:?}",
            bytes
        );
    }
    for first in 0..=255u8 {
        for second in [0u8, 1, 0x7F, 0x80, 0xFF] {
            let bytes = [first, second, 0];
            assert_eq!(
                take_index(&bytes, 2).map(|(index, _)| index),
                variant_by_the_serialiser(&bytes),
                "{:?}",
                bytes
            );
        }
    }
}
