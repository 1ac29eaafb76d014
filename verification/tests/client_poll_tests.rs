use sanzu::client_events::{x11_handle_messages, ClientMessage, LockKeys, X11Action, XTestInput};
use sanzu::session::StallCounter;
use sanzu::client_poll::{client_window_size, shm_passes_fds, GrabAction, WindowEvent, X11Client};
use sanzu::utils::ClipboardConfig;

fn describe(m: &ClientMessage) -> String {
    format!("{m:?}")
}

fn describe_all(ms: &[ClientMessage]) -> Vec<String> {
    ms.iter().map(describe).collect()
}

#[test]
fn moves_and_resizes_are_coalesced_at_the_end() {
    let mut c = X11Client::new(false, false, 800, 600);
    let events = vec![
        WindowEvent::Motion { x: 1, y: 2 },
        WindowEvent::Configure { width: 1024, height: 768 },
        WindowEvent::ButtonPress { x: 3, y: 4, button: 1 },
        WindowEvent::Motion { x: 5, y: 6 },
        WindowEvent::Configure { width: 1280, height: 720 },
        WindowEvent::ButtonRelease { x: 3, y: 4, button: 1 },
    ];
    let mut last = None;
    let out = c.poll(None, &events, ClipboardConfig::Deny, &mut last);
    assert_eq!(
        describe_all(&out.messages),
        vec![
            describe(&ClientMessage::Button { x: 3, y: 4, button: 1, down: true }),
            describe(&ClientMessage::Button { x: 3, y: 4, button: 1, down: false }),
            describe(&ClientMessage::Move { x: 5, y: 6 }),
            describe(&ClientMessage::Display { width: 1280, height: 720 }),
        ]
    );
    assert!(out.grabs.is_empty());
    assert_eq!(c.size(), (1280, 720));
    assert!(c.take_update());
    assert!(!c.take_update());
}

#[test]
fn same_size_sends_no_resize_but_redraws() {
    let mut c = X11Client::new(false, false, 800, 600);
    assert!(c.take_update());
    let mut last = None;
    let out = c.poll(None, &vec![WindowEvent::Configure { width: 800, height: 600 }], ClipboardConfig::Deny, &mut last);
    assert!(out.messages.is_empty());
    assert!(c.take_update());
}

#[test]
fn negative_coordinates_are_sign_extended() {
    let mut c = X11Client::new(false, false, 800, 600);
    let mut last = None;
    let out = c.poll(None, &vec![WindowEvent::Motion { x: -1, y: -2 }], ClipboardConfig::Deny, &mut last);
    assert_eq!(
        describe_all(&out.messages),
        vec![describe(&ClientMessage::Move { x: u32::MAX, y: u32::MAX - 1 })]
    );
}

#[test]
fn grab_shortcut_releases_keys_then_ungrabs() {
    let mut c = X11Client::new(true, false, 800, 600);
    let mut last = None;
    let events = vec![
        WindowEvent::KeyPress { code: 37 },
        WindowEvent::KeyPress { code: 50 },
        WindowEvent::KeyPress { code: 64 },
        WindowEvent::KeyPress { code: 43 },
    ];
    let out = c.poll(None, &events, ClipboardConfig::Deny, &mut last);
    let key = |code: u32, down: bool| describe(&ClientMessage::Key { keycode: code, down });
    assert_eq!(
        describe_all(&out.messages),
        vec![
            key(37, true),
            key(50, true),
            key(64, true),
            key(37, false),
            key(43, false),
            key(50, false),
            key(64, false),
            key(43, true),
        ]
    );
    assert_eq!(out.grabs, vec![GrabAction::Ungrab]);
    assert!(!c.keyboard().grab_keyboard());
    assert!(!c.keyboard().is_pressed(43));
    // The same shortcut grabs again.
    let out = c.poll(None, &events, ClipboardConfig::Deny, &mut last);
    assert_eq!(out.grabs, vec![GrabAction::Grab]);
    assert!(c.keyboard().grab_keyboard());
    assert_eq!(out.messages.len(), 4);
}

#[test]
fn focus_changes_and_lock_sync() {
    let mut c = X11Client::new(true, true, 800, 600);
    assert!(c.lock_sync_due());
    let locks = LockKeys { caps_lock: true, num_lock: true, scroll_lock: false };
    let mut last = None;
    let events = vec![
        WindowEvent::KeyPress { code: 38 },
        WindowEvent::FocusOut { while_grabbed: false },
        WindowEvent::FocusOut { while_grabbed: true },
        WindowEvent::FocusIn,
    ];
    let out = c.poll(Some(locks), &events, ClipboardConfig::Deny, &mut last);
    assert_eq!(
        describe_all(&out.messages),
        vec![
            describe(&ClientMessage::Keylocks(locks)),
            describe(&ClientMessage::Key { keycode: 38, down: true }),
            describe(&ClientMessage::Key { keycode: 38, down: false }),
            describe(&ClientMessage::Activate { id: 0 }),
        ]
    );
    assert_eq!(out.grabs, vec![GrabAction::Ungrab, GrabAction::Grab]);
    // Getting the focus asks for a new sync.
    assert!(c.lock_sync_due());
}

#[test]
fn focus_out_without_grab_releases_keys() {
    let mut c = X11Client::new(false, false, 800, 600);
    let mut last = None;
    let events = vec![WindowEvent::KeyPress { code: 10 }, WindowEvent::FocusOut { while_grabbed: false }];
    let out = c.poll(None, &events, ClipboardConfig::Deny, &mut last);
    assert_eq!(out.messages.len(), 2);
    assert!(out.grabs.is_empty());
    assert!(!c.keyboard().is_pressed(10));
}

#[test]
fn clipboard_sent_last_under_allow() {
    let mut c = X11Client::new(false, false, 800, 600);
    let mut last = Some("copied".to_string());
    let out = c.poll(None, &vec![WindowEvent::Motion { x: 1, y: 1 }], ClipboardConfig::Allow, &mut last);
    assert_eq!(
        describe_all(&out.messages),
        vec![
            describe(&ClientMessage::Move { x: 1, y: 1 }),
            describe(&ClientMessage::Clipboard { data: "copied".to_string() }),
        ]
    );
    assert_eq!(last, None);
}

#[test]
fn server_replays_client_inputs() {
    let mut c = X11Client::new(false, false, 800, 600);
    let mut last = None;
    let events = vec![
        WindowEvent::ButtonPress { x: -5, y: 7, button: 3 },
        WindowEvent::KeyPress { code: 200 },
        WindowEvent::Motion { x: -300, y: 32767 },
    ];
    let out = c.poll(None, &events, ClipboardConfig::Deny, &mut last);
    let mut counter = StallCounter::new();
    let (actions, _) = x11_handle_messages(&out.messages, &mut counter);
    let inputs: Vec<XTestInput> = actions
        .iter()
        .map(|a| match a {
            X11Action::FakeInput(i) => *i,
            other => panic!("unexpected {other:?}"),
        })
        .collect();
    assert_eq!(
        inputs,
        vec![
            XTestInput { kind: 4, detail: 3, x: -5, y: 7 },
            XTestInput { kind: 2, detail: 200, x: 0, y: 0 },
            XTestInput { kind: 6, detail: 0, x: -300, y: 32767 },
        ]
    );
}

#[test]
fn client_window_no_larger_than_screen() {
    assert_eq!(client_window_size(None, (1920, 1080)), (1920, 1080));
    assert_eq!(client_window_size(Some((800, 600)), (1920, 1080)), (800, 600));
    assert_eq!(client_window_size(Some((2560, 600)), (1920, 1080)), (1920, 600));
    assert_eq!(client_window_size(Some((800, 1440)), (1920, 1080)), (800, 1080));
}

#[test]
fn shm_version_for_fd_passing() {
    assert!(shm_passes_fds(1, 2));
    assert!(shm_passes_fds(1, 3));
    assert!(shm_passes_fds(2, 0));
    assert!(!shm_passes_fds(1, 1));
    assert!(!shm_passes_fds(0, 9));
}
