use sanzu::client_events::{windows_handle_messages, ClientMessage, WinAction};
use sanzu::session::StallCounter;
use sanzu::win_input::{KEYEVENTF_EXTENDEDKEY, KEYEVENTF_KEYUP, KEYEVENTF_SCANCODE};
use sanzu::client_input::KeyboardState;
use sanzu::utils::ClipboardConfig;
use sanzu::win_events::{
    hook_messages, lparam_position, message_button, mouse_messages, raw_key_event, windows_poll, WM_LBUTTONDOWN, WM_MBUTTONUP, WM_MOUSEMOVE,
    WM_MOUSEWHEEL, WM_RBUTTONDOWN,
};

fn describe(ms: &[ClientMessage]) -> Vec<String> {
    ms.iter().map(|m| format!("{m:?}")).collect()
}

#[test]
fn position_from_lparam() {
    assert_eq!(lparam_position(0x0030_0020), (0x20, 0x30));
    assert_eq!(lparam_position(0x0000_ffff), (0xffff, 0));
}

#[test]
fn buttons_of_messages() {
    assert_eq!(message_button(WM_LBUTTONDOWN), Some((1, true)));
    assert_eq!(message_button(WM_RBUTTONDOWN), Some((3, true)));
    assert_eq!(message_button(WM_MBUTTONUP), Some((2, false)));
    assert_eq!(message_button(WM_MOUSEMOVE), None);
}

#[test]
fn mouse_messages_become_events() {
    assert_eq!(
        describe(&mouse_messages(WM_MOUSEMOVE, 0, 0x0002_0001)),
        describe(&[ClientMessage::Move { x: 1, y: 2 }])
    );
    assert_eq!(
        describe(&mouse_messages(WM_RBUTTONDOWN, 0, 0x0004_0003)),
        describe(&[ClientMessage::Button { x: 3, y: 4, button: 3, down: true }])
    );
    // A wheel turn away from the user (WHEEL_DELTA in the high word).
    let up = mouse_messages(WM_MOUSEWHEEL, 0x0078_0000, 0x0006_0005);
    assert_eq!(
        describe(&up),
        describe(&[
            ClientMessage::Button { x: 5, y: 6, button: 4, down: true },
            ClientMessage::Button { x: 5, y: 6, button: 4, down: false },
        ])
    );
    // Towards the user: a negative delta.
    let down = mouse_messages(WM_MOUSEWHEEL, 0xff88_0000, 0);
    assert_eq!(
        describe(&down),
        describe(&[
            ClientMessage::Button { x: 0, y: 0, button: 5, down: true },
            ClientMessage::Button { x: 0, y: 0, button: 5, down: false },
        ])
    );
    assert!(mouse_messages(0x0100, 0, 0).is_empty());
}

#[test]
fn raw_keys_by_hardware_code() {
    // Scan code 0x1e is the A key, hardware key code 38.
    assert_eq!(raw_key_event(0x1e, 0, 0x100), Some((38, true)));
    assert_eq!(raw_key_event(0x1e, 0, 0x101), Some((38, false)));
    assert_eq!(raw_key_event(0x0, 0, 0x100), None);
}

#[test]
fn windows_round_keeps_last_move_and_clipboard() {
    let queued = vec![
        ClientMessage::Move { x: 1, y: 1 },
        ClientMessage::Key { keycode: 38, down: true },
        ClientMessage::Clipboard { data: "one".to_string() },
        ClientMessage::Move { x: 2, y: 3 },
        ClientMessage::Clipboard { data: "two".to_string() },
        ClientMessage::Button { x: 2, y: 3, button: 1, down: true },
    ];
    let mut keyboard = KeyboardState::new(false);
    let mut last = None;
    let out = windows_poll(&queued, &mut keyboard, ClipboardConfig::Allow, &mut last);
    assert_eq!(
        describe(&out),
        describe(&[
            ClientMessage::Key { keycode: 38, down: true },
            ClientMessage::Button { x: 2, y: 3, button: 1, down: true },
            ClientMessage::Move { x: 2, y: 3 },
            ClientMessage::Clipboard { data: "two".to_string() },
        ])
    );
    assert_eq!(last, None);
    // Under `trig`, the value waits for the shortcut.
    let queued = vec![ClientMessage::Clipboard { data: "three".to_string() }];
    let out = windows_poll(&queued, &mut keyboard, ClipboardConfig::Trig, &mut last);
    assert!(out.is_empty());
    assert_eq!(last, Some("three".to_string()));
}

#[test]
fn windows_server_replays_raw_keys() {
    // The A key, then the extended right arrow (scan code 0x4d), released.
    let mut msgs = vec![];
    for (make, flags, message) in [(0x1eu32, 0u32, 0x100u32), (0x4d, 1, 0x101)] {
        let (k, down) = raw_key_event(make, flags, message).unwrap();
        msgs.push(ClientMessage::Key { keycode: k as u32, down });
    }
    let mut counter = StallCounter::new();
    let (actions, _) = windows_handle_messages(&msgs, &mut counter);
    assert_eq!(actions.len(), 2);
    assert!(matches!(actions[0], WinAction::KeyInput { scan: 0x1e, flags } if flags == KEYEVENTF_SCANCODE));
    assert!(matches!(
        actions[1],
        WinAction::KeyInput { scan: 0x4d, flags } if flags == KEYEVENTF_KEYUP | KEYEVENTF_SCANCODE | KEYEVENTF_EXTENDEDKEY
    ));
}

#[test]
fn hook_sends_releases_then_position() {
    assert_eq!(
        describe(&hook_messages(0x202, 10, -1)),
        describe(&[
            ClientMessage::Button { x: 10, y: u32::MAX, button: 1, down: false },
            ClientMessage::Move { x: 10, y: u32::MAX },
        ])
    );
    // Right and middle releases are numbered 2 and 3 by the hook.
    assert_eq!(
        describe(&hook_messages(0x205, 0, 0)),
        describe(&[ClientMessage::Button { x: 0, y: 0, button: 2, down: false }, ClientMessage::Move { x: 0, y: 0 }])
    );
    assert_eq!(
        describe(&hook_messages(0x208, 0, 0)),
        describe(&[ClientMessage::Button { x: 0, y: 0, button: 3, down: false }, ClientMessage::Move { x: 0, y: 0 }])
    );
    // Presses and other messages give the position alone.
    assert_eq!(describe(&hook_messages(0x201, 4, 5)), describe(&[ClientMessage::Move { x: 4, y: 5 }]));
    assert_eq!(describe(&hook_messages(0x100, 4, 5)), describe(&[ClientMessage::Move { x: 4, y: 5 }]));
}
