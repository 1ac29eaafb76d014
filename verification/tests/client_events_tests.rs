use sanzu::client_events::{
    coalesce_moves,
    windows_handle_messages, x11_handle_messages, ClientMessage, LockKeys, WinAction, X11Action, XTestInput,
    X_BUTTON_PRESS, X_BUTTON_RELEASE, X_KEY_PRESS, X_KEY_RELEASE, X_MOTION_NOTIFY,
};
use sanzu::session::StallCounter;
use sanzu::utils::ServerEvent;
use sanzu::win_input::{KEYEVENTF_KEYUP, KEYEVENTF_SCANCODE, MOUSEEVENTF_LEFTDOWN, MOUSEEVENTF_WHEEL};

fn stalled(rounds: u32) -> StallCounter {
    let mut c = StallCounter::new();
    for _ in 0..rounds {
        c.after_poll(false);
    }
    c
}

#[test]
fn x11_fakes_inputs_in_order() {
    let msgs = vec![
        ClientMessage::Move { x: 10, y: 20 },
        ClientMessage::Button { x: 1, y: 2, button: 3, down: true },
        ClientMessage::Button { x: 1, y: 2, button: 3, down: false },
        ClientMessage::Key { keycode: 38, down: true },
        ClientMessage::Key { keycode: 38, down: false },
        ClientMessage::Empty,
    ];
    let mut counter = stalled(4);
    let (actions, events) = x11_handle_messages(&msgs, &mut counter);
    assert!(events.is_empty());
    assert_eq!(counter.frozen(), 4);
    let inputs: Vec<XTestInput> = actions
        .iter()
        .map(|a| match a {
            X11Action::FakeInput(i) => *i,
            other => panic!("unexpected {other:?}"),
        })
        .collect();
    assert_eq!(
        inputs,
        vec![
            XTestInput { kind: X_MOTION_NOTIFY, detail: 0, x: 10, y: 20 },
            XTestInput { kind: X_BUTTON_PRESS, detail: 3, x: 1, y: 2 },
            XTestInput { kind: X_BUTTON_RELEASE, detail: 3, x: 1, y: 2 },
            XTestInput { kind: X_KEY_PRESS, detail: 38, x: 0, y: 0 },
            XTestInput { kind: X_KEY_RELEASE, detail: 38, x: 0, y: 0 },
        ]
    );
}

#[test]
fn x11_truncates_coordinates_and_codes() {
    let msgs = vec![
        ClientMessage::Move { x: 70000, y: 40000 },
        ClientMessage::Key { keycode: 300, down: true },
    ];
    let mut counter = StallCounter::new();
    let (actions, _) = x11_handle_messages(&msgs, &mut counter);
    match &actions[0] {
        X11Action::FakeInput(i) => {
            assert_eq!(i.x, 70000u32 as i16);
            assert_eq!(i.y, 40000u32 as i16);
        }
        other => panic!("unexpected {other:?}"),
    }
    match &actions[1] {
        X11Action::FakeInput(i) => assert_eq!(i.detail, 44),
        other => panic!("unexpected {other:?}"),
    }
}

#[test]
fn x11_resolution_request_restarts_counter() {
    let msgs = vec![
        ClientMessage::Display { width: 800, height: 600 },
        ClientMessage::Clipboard { data: "copied".to_string() },
        ClientMessage::Activate { id: 7 },
        ClientMessage::Keylocks(LockKeys { caps_lock: true, num_lock: false, scroll_lock: true }),
        ClientMessage::Display { width: 1024, height: 768 },
    ];
    let mut counter = stalled(9);
    let (actions, events) = x11_handle_messages(&msgs, &mut counter);
    assert_eq!(counter.frozen(), 0);
    assert_eq!(
        events,
        vec![ServerEvent::ResolutionChange(800, 600), ServerEvent::ResolutionChange(1024, 768)]
    );
    assert_eq!(actions.len(), 3);
    assert!(matches!(&actions[0], X11Action::SetClipboard(s) if s == "copied"));
    assert!(matches!(actions[1], X11Action::ActivateWindow(7)));
    assert!(matches!(
        actions[2],
        X11Action::SetLockKeys(LockKeys { caps_lock: true, num_lock: false, scroll_lock: true })
    ));
}

#[test]
fn windows_moves_before_clicking() {
    let msgs = vec![
        ClientMessage::Button { x: 5, y: 6, button: 1, down: true },
        ClientMessage::Button { x: 5, y: 6, button: 5, down: false },
        ClientMessage::Activate { id: 3 },
    ];
    let mut counter = stalled(2);
    let (actions, events) = windows_handle_messages(&msgs, &mut counter);
    assert!(events.is_empty());
    assert_eq!(counter.frozen(), 2);
    assert_eq!(actions.len(), 4);
    assert!(matches!(actions[0], WinAction::MoveMouse { x: 5, y: 6 }));
    assert!(matches!(actions[1], WinAction::MouseInput { flags: MOUSEEVENTF_LEFTDOWN, data: 1 }));
    assert!(matches!(actions[2], WinAction::MoveMouse { x: 5, y: 6 }));
    assert!(
        matches!(actions[3], WinAction::MouseInput { flags: MOUSEEVENTF_WHEEL, data } if data == (-40i32) as u32)
    );
}

#[test]
fn windows_keys_by_scan_code() {
    // Hardware key code 38 is the A key, scan code 0x1e.
    let msgs = vec![
        ClientMessage::Key { keycode: 38, down: false },
        ClientMessage::Key { keycode: 0, down: true },
        ClientMessage::Display { width: 640, height: 480 },
    ];
    let mut counter = stalled(3);
    let (actions, events) = windows_handle_messages(&msgs, &mut counter);
    assert_eq!(counter.frozen(), 0);
    assert_eq!(events, vec![ServerEvent::ResolutionChange(640, 480)]);
    assert_eq!(actions.len(), 1);
    assert!(matches!(
        actions[0],
        WinAction::KeyInput { scan: 0x1e, flags } if flags == KEYEVENTF_KEYUP | KEYEVENTF_SCANCODE
    ));
}

#[test]
fn moves_coalesced_to_the_last() {
    let out = coalesce_moves(vec![
        ClientMessage::Move { x: 1, y: 1 },
        ClientMessage::Key { keycode: 38, down: true },
        ClientMessage::Move { x: 2, y: 3 },
        ClientMessage::Activate { id: 7 },
    ]);
    assert_eq!(out.len(), 3);
    assert!(matches!(out[0], ClientMessage::Key { keycode: 38, down: true }));
    assert!(matches!(out[1], ClientMessage::Activate { id: 7 }));
    assert!(matches!(out[2], ClientMessage::Move { x: 2, y: 3 }));
    let out = coalesce_moves(vec![ClientMessage::Empty]);
    assert_eq!(out.len(), 1);
    assert!(matches!(out[0], ClientMessage::Empty));
    assert!(coalesce_moves(vec![]).is_empty());
}
