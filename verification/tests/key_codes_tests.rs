use sanzu::client_events::ClientMessage;
use sanzu::key_codes::{KeyMarks, code_to_hardware_keycode, KeyCode};

#[test]
fn portable_key_codes() {
    assert_eq!(code_to_hardware_keycode(KeyCode::Escape), Some(0x09));
    assert_eq!(code_to_hardware_keycode(KeyCode::KeyQ), Some(0x18));
    assert_eq!(code_to_hardware_keycode(KeyCode::ControlLeft), Some(0x25));
    assert_eq!(code_to_hardware_keycode(KeyCode::BrowserSearch), Some(0xE1));
    assert_eq!(code_to_hardware_keycode(KeyCode::Unidentified), None);
    assert_eq!(code_to_hardware_keycode(KeyCode::Other), None);
}

fn describe(m: &Option<ClientMessage>) -> String {
    format!("{m:?}")
}

#[test]
fn portable_client_marks_keys_on_press_and_release() {
    let mut k = KeyMarks::new();
    assert_eq!(
        describe(&k.key_event(KeyCode::KeyQ, true)),
        describe(&Some(ClientMessage::Key { keycode: 0x18, down: true }))
    );
    assert_eq!(
        describe(&k.key_event(KeyCode::Escape, false)),
        describe(&Some(ClientMessage::Key { keycode: 0x09, down: false }))
    );
    // A released key stays marked, so it is released again on focus loss.
    assert!(k.is_marked(0x09));
    assert!(k.is_marked(0x18));
    let released: Vec<String> = k.lost_focus().iter().map(|m| format!("{m:?}")).collect();
    assert_eq!(
        released,
        vec![
            format!("{:?}", ClientMessage::Key { keycode: 0x09, down: false }),
            format!("{:?}", ClientMessage::Key { keycode: 0x18, down: false }),
        ]
    );
    assert!(!k.is_marked(0x09));
    assert!(k.lost_focus().is_empty());
}
