use hotkeys::device::{
    device_descriptor, encode_input_event, key_transition_events, InputEvent, KeyboardInput,
};
use hotkeys::steps::{map_api_input, KeyInput};

#[test]
fn test_keyboard_input_creation() {
    let input = KeyboardInput::new(0x41, true);
    assert_eq!(input.vk_code, 0x41);
    assert_eq!(input.key_down, true);
}

#[test]
fn test_keyboard_input_display() {
    let input = KeyboardInput::new(0x41, true);
    assert_eq!(input.to_text(), "{65,down}");

    let input = KeyboardInput::new(0x41, false);
    assert_eq!(input.to_text(), "{65,up}");
}

#[test]
fn test_map_api_input() {
    let step = KeyInput { vk_code: 0x0D, key_down: true };
    let api = map_api_input(&step);
    assert_eq!(api.vk_code, 0x0D);
    assert_eq!(api.key_down, true);
}

#[test]
fn test_encode_input_event_layout() {
    // type 1 (key), code 28 (enter), value 1, little-endian
    let e = InputEvent::new(1, 28, 1);
    let bytes = encode_input_event(&e);
    assert_eq!(bytes.len(), 24);
    // sixteen zero time bytes
    assert!(bytes[..16].iter().all(|b| *b == 0));
    assert_eq!(&bytes[16..], &[1, 0, 28, 0, 1, 0, 0, 0]);
}

#[test]
fn test_encode_input_event_wide_code() {
    let e = InputEvent::new(0x0102, 0x0304, 0x05060708);
    let bytes = encode_input_event(&e);
    assert_eq!(&bytes[16..18], &[0x02, 0x01]);
    assert_eq!(&bytes[18..20], &[0x04, 0x03]);
    assert_eq!(&bytes[20..], &[0x08, 0x07, 0x06, 0x05]);
}

#[test]
fn test_key_transition_events() {
    // enter (0x0D) translates to platform code 28, followed by a sync event
    let evs = key_transition_events(&KeyboardInput::new(0x0D, true)).unwrap();
    assert_eq!(evs.len(), 2);
    assert_eq!(evs[0].type_, 1);
    assert_eq!(evs[0].code, 28);
    assert_eq!(evs[0].value, 1);
    assert_eq!(evs[1].type_, 0);
    assert_eq!(evs[1].code, 0);
    assert_eq!(evs[1].value, 0);

    let evs = key_transition_events(&KeyboardInput::new(0x0D, false)).unwrap();
    assert_eq!(evs[0].value, 0);
}

#[test]
fn test_key_transition_unknown_code() {
    assert_eq!(
        key_transition_events(&KeyboardInput::new(0xFFFF, true)),
        Err("Unknown virtual key code")
    );
}

#[test]
fn test_device_descriptor_layout() {
    let name = b"HotKeys Virtual Keyboard".to_vec();
    let bytes = device_descriptor(&name, 0x03, 0x1234, 0x5678, 1);
    assert_eq!(bytes.len(), 1116);
    // the name, zero-padded to 80 bytes
    assert_eq!(&bytes[..name.len()], name.as_slice());
    assert!(bytes[name.len()..80].iter().all(|b| *b == 0));
    // the identity fields, little-endian
    assert_eq!(&bytes[80..88], &[0x03, 0x00, 0x34, 0x12, 0x78, 0x56, 0x01, 0x00]);
    // force-feedback count and the axis arrays, all zero
    assert!(bytes[88..].iter().all(|b| *b == 0));
}

#[test]
fn test_device_descriptor_truncates_long_name() {
    let name = vec![b'x'; 200];
    let bytes = device_descriptor(&name, 0x03, 0x1234, 0x5678, 1);
    assert_eq!(bytes.len(), 1116);
    assert!(bytes[..79].iter().all(|b| *b == b'x'));
    assert_eq!(bytes[79], 0);
}
