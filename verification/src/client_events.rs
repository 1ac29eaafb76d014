//! What a server does with the events that its client sends: the input it
//! injects (through XTest on X11, through input records on Windows), the
//! clipboard it sets, the window it raises, the lock keys it sets and the
//! resolution changes it reports to its main loop.

use crate::keycodes::spec_keycode_to_scancode;
use crate::session::StallCounter;
use crate::utils::ServerEvent;
use crate::win_input::{keyboard_input, mouse_button_input, spec_key_input_flags, spec_mouse_button_input};
use vstd::prelude::*;

verus! {

/// The state of the client's lock keys.
#[derive(Debug, Clone, Copy, PartialEq, Eq)]
pub struct LockKeys {
    pub caps_lock: bool,
    pub num_lock: bool,
    pub scroll_lock: bool,
}

/// An event of the client.
#[derive(Debug)]
pub enum ClientMessage {
    /// The pointer moved to `(x, y)`.
    Move { x: u32, y: u32 },
    /// A mouse button was pressed (`down`) or released at `(x, y)`.
    Button { x: u32, y: u32, button: u32, down: bool },
    /// A key, by hardware key code, was pressed (`down`) or released.
    Key { keycode: u32, down: bool },
    /// The client's clipboard holds `data`.
    Clipboard { data: String },
    /// The client asks for a resolution.
    Display { width: u32, height: u32 },
    /// The client asks to raise the server window `id`.
    Activate { id: u32 },
    /// The client's lock keys changed.
    Keylocks(LockKeys),
    /// A message with no event in it.
    Empty,
}

/// The events of `events` that are not pointer moves, in order.
pub open spec fn without_moves(events: Seq<ClientMessage>) -> Seq<ClientMessage>
    decreases events.len(),
{
    if events.len() == 0 {
        Seq::empty()
    } else if events[0] is Move {
        without_moves(events.drop_first())
    } else {
        seq![events[0]] + without_moves(events.drop_first())
    }
}

/// The last pointer move of `events`, if any.
pub open spec fn last_move(events: Seq<ClientMessage>) -> Option<ClientMessage>
    decreases events.len(),
{
    if events.len() == 0 {
        None
    } else {
        match last_move(events.drop_first()) {
            Some(m) => Some(m),
            None => if events[0] is Move {
                Some(events[0])
            } else {
                None
            },
        }
    }
}

/// The events of a poll of the client window, as they are sent: the events
/// that are not pointer moves, in order, then the last pointer move, if any;
/// the other moves are dropped.
pub fn coalesce_moves(events: Vec<ClientMessage>) -> (r: Vec<ClientMessage>)
    ensures
        r@ == without_moves(events@) + match last_move(events@) {
            Some(m) => seq![m],
            None => Seq::empty(),
        },
{
    let ghost all = events@;
    let mut rest = events;
    let mut out: Vec<ClientMessage> = Vec::new();
    let mut last: Option<ClientMessage> = None;
    while rest.len() > 0
        invariant
            out@ + without_moves(rest@) == without_moves(all),
            last_move(all) == match last_move(rest@) {
                Some(m) => Some(m),
                None => last,
            },
            last matches Some(m) ==> m is Move,
        decreases rest@.len(),
    {
        let ghost before = rest@;
        let item = rest.remove(0);
        assert(rest@ =~= before.drop_first());
        match item {
            ClientMessage::Move { .. } => {
                last = Some(item);
            },
            _ => {
                let ghost ob = out@;
                out.push(item);
                assert(out@ + without_moves(rest@) =~= ob + without_moves(before));
            },
        }
    }
    assert(out@ + without_moves(rest@) =~= out@);
    match last {
        Some(m) => {
            out.push(m);
        },
        None => {},
    }
    out
}

/// XTest event type of a key press.
pub const X_KEY_PRESS: u8 = 2;

/// XTest event type of a key release.
pub const X_KEY_RELEASE: u8 = 3;

/// XTest event type of a button press.
pub const X_BUTTON_PRESS: u8 = 4;

/// XTest event type of a button release.
pub const X_BUTTON_RELEASE: u8 = 5;

/// XTest event type of a pointer motion.
pub const X_MOTION_NOTIFY: u8 = 6;

/// An input that XTest fakes on the server's root window.
#[derive(Debug, Clone, Copy, PartialEq, Eq)]
pub struct XTestInput {
    /// Event type.
    pub kind: u8,
    /// Button or key code.
    pub detail: u8,
    pub x: i16,
    pub y: i16,
}

/// What an X11 server does for an event of its client.
#[derive(Debug)]
pub enum X11Action {
    FakeInput(XTestInput),
    SetClipboard(String),
    ActivateWindow(u32),
    SetLockKeys(LockKeys),
}

/// What a Windows server does for an event of its client.
#[derive(Debug)]
pub enum WinAction {
    /// Moves the pointer to `(x, y)` of the client's frame.
    MoveMouse { x: u32, y: u32 },
    /// A mouse input with these flags and data.
    MouseInput { flags: u32, data: u32 },
    /// A key input with this scan code and these flags.
    KeyInput { scan: u16, flags: u32 },
    SetClipboard(String),
    SetLockKeys(LockKeys),
}

/// The action of an X11 server for `m`: coordinates and codes are cut to
/// the width XTest takes; a resolution request or an empty message needs
/// none.
pub open spec fn x11_action(m: ClientMessage) -> Option<X11Action> {
    match m {
        ClientMessage::Move { x, y } => Some(
            X11Action::FakeInput(XTestInput { kind: X_MOTION_NOTIFY, detail: 0, x: x as i16, y: y as i16 }),
        ),
        ClientMessage::Button { x, y, button, down } => Some(
            X11Action::FakeInput(
                XTestInput {
                    kind: if down {
                        X_BUTTON_PRESS
                    } else {
                        X_BUTTON_RELEASE
                    },
                    detail: button as u8,
                    x: x as i16,
                    y: y as i16,
                },
            ),
        ),
        ClientMessage::Key { keycode, down } => Some(
            X11Action::FakeInput(
                XTestInput {
                    kind: if down {
                        X_KEY_PRESS
                    } else {
                        X_KEY_RELEASE
                    },
                    detail: keycode as u8,
                    x: 0,
                    y: 0,
                },
            ),
        ),
        ClientMessage::Clipboard { data } => Some(X11Action::SetClipboard(data)),
        ClientMessage::Activate { id } => Some(X11Action::ActivateWindow(id)),
        ClientMessage::Keylocks(l) => Some(X11Action::SetLockKeys(l)),
        ClientMessage::Display { .. } => None,
        ClientMessage::Empty => None,
    }
}

/// The actions of an X11 server for `ms`, in order.
pub open spec fn x11_actions(ms: Seq<ClientMessage>) -> Seq<X11Action>
    decreases ms.len(),
{
    if ms.len() == 0 {
        Seq::empty()
    } else {
        let rest = x11_actions(ms.drop_last());
        match x11_action(ms.last()) {
            Some(a) => rest.push(a),
            None => rest,
        }
    }
}

/// The actions of a Windows server for `m`: a button event first moves the
/// pointer; a key with no scan code, a window activation, a resolution
/// request or an empty message needs none.
pub open spec fn win_actions_of(m: ClientMessage) -> Seq<WinAction> {
    match m {
        ClientMessage::Move { x, y } => seq![WinAction::MoveMouse { x, y }],
        ClientMessage::Button { x, y, button, down } => seq![
            WinAction::MoveMouse { x, y },
            WinAction::MouseInput {
                flags: spec_mouse_button_input(button, down).0,
                data: spec_mouse_button_input(button, down).1,
            },
        ],
        ClientMessage::Key { keycode, down } => match spec_keycode_to_scancode(keycode) {
            Some((scan, extended)) => seq![
                WinAction::KeyInput { scan, flags: spec_key_input_flags(down, extended) },
            ],
            None => Seq::empty(),
        },
        ClientMessage::Clipboard { data } => seq![WinAction::SetClipboard(data)],
        ClientMessage::Keylocks(l) => seq![WinAction::SetLockKeys(l)],
        ClientMessage::Activate { .. } => Seq::empty(),
        ClientMessage::Display { .. } => Seq::empty(),
        ClientMessage::Empty => Seq::empty(),
    }
}

/// The actions of a Windows server for `ms`, in order.
pub open spec fn win_actions(ms: Seq<ClientMessage>) -> Seq<WinAction>
    decreases ms.len(),
{
    if ms.len() == 0 {
        Seq::empty()
    } else {
        win_actions(ms.drop_last()) + win_actions_of(ms.last())
    }
}

/// The resolution changes that `ms` asks for, in order.
pub open spec fn resolution_events(ms: Seq<ClientMessage>) -> Seq<ServerEvent>
    decreases ms.len(),
{
    if ms.len() == 0 {
        Seq::empty()
    } else {
        let rest = resolution_events(ms.drop_last());
        match ms.last() {
            ClientMessage::Display { width, height } => rest.push(ServerEvent::ResolutionChange(width, height)),
            _ => rest,
        }
    }
}

/// Some message of `ms` asks for a resolution.
pub open spec fn asks_resolution(ms: Seq<ClientMessage>) -> bool {
    exists|i: int| 0 <= i < ms.len() && #[trigger] ms[i] is Display
}

/// A copy of the lock key state.
fn copy_locks(l: &LockKeys) -> (r: LockKeys)
    ensures
        r == *l,
{
    LockKeys { caps_lock: l.caps_lock, num_lock: l.num_lock, scroll_lock: l.scroll_lock }
}

/// A copy of the message `m`.
pub(crate) fn copy_message(m: &ClientMessage) -> (r: ClientMessage)
    ensures
        r == *m,
{
    match m {
        ClientMessage::Move { x, y } => ClientMessage::Move { x: *x, y: *y },
        ClientMessage::Button { x, y, button, down } => ClientMessage::Button {
            x: *x,
            y: *y,
            button: *button,
            down: *down,
        },
        ClientMessage::Key { keycode, down } => ClientMessage::Key { keycode: *keycode, down: *down },
        ClientMessage::Clipboard { data } => ClientMessage::Clipboard { data: data.clone() },
        ClientMessage::Display { width, height } => ClientMessage::Display { width: *width, height: *height },
        ClientMessage::Activate { id } => ClientMessage::Activate { id: *id },
        ClientMessage::Keylocks(l) => ClientMessage::Keylocks(copy_locks(l)),
        ClientMessage::Empty => ClientMessage::Empty,
    }
}

/// The action of an X11 server for one message.
fn x11_action_exec(m: &ClientMessage) -> (r: Option<X11Action>)
    ensures
        r == x11_action(*m),
{
    match m {
        ClientMessage::Move { x, y } => Some(
            X11Action::FakeInput(XTestInput { kind: X_MOTION_NOTIFY, detail: 0, x: *x as i16, y: *y as i16 }),
        ),
        ClientMessage::Button { x, y, button, down } => {
            let kind = if *down {
                X_BUTTON_PRESS
            } else {
                X_BUTTON_RELEASE
            };
            Some(X11Action::FakeInput(XTestInput { kind, detail: *button as u8, x: *x as i16, y: *y as i16 }))
        },
        ClientMessage::Key { keycode, down } => {
            let kind = if *down {
                X_KEY_PRESS
            } else {
                X_KEY_RELEASE
            };
            Some(X11Action::FakeInput(XTestInput { kind, detail: *keycode as u8, x: 0, y: 0 }))
        },
        ClientMessage::Clipboard { data } => Some(X11Action::SetClipboard(data.clone())),
        ClientMessage::Activate { id } => Some(X11Action::ActivateWindow(*id)),
        ClientMessage::Keylocks(l) => Some(X11Action::SetLockKeys(copy_locks(l))),
        ClientMessage::Display { .. } => None,
        ClientMessage::Empty => None,
    }
}

/// Takes the resolution request of `m`, if it is one, into `events` and
/// restarts `counter`, so that the next image goes out at the new size.
fn note_resolution(m: &ClientMessage, events: &mut Vec<ServerEvent>, counter: &mut StallCounter)
    ensures
        match *m {
            ClientMessage::Display { width, height } => final(events)@ == old(events)@.push(
                ServerEvent::ResolutionChange(width, height),
            ) && final(counter).spec_frozen() == 0,
            _ => final(events)@ == old(events)@ && final(counter).spec_frozen() == old(
                counter,
            ).spec_frozen(),
        },
{
    match m {
        ClientMessage::Display { width, height } => {
            events.push(ServerEvent::ResolutionChange(*width, *height));
            counter.reset();
        },
        _ => {},
    }
}

/// What an X11 server does for the events `msgs` of its client, in order,
/// and the resolution changes it reports; a resolution request restarts
/// `counter`.
pub fn x11_handle_messages(msgs: &Vec<ClientMessage>, counter: &mut StallCounter) -> (r: (
    Vec<X11Action>,
    Vec<ServerEvent>,
))
    ensures
        r.0@ == x11_actions(msgs@),
        r.1@ == resolution_events(msgs@),
        asks_resolution(msgs@) ==> final(counter).spec_frozen() == 0,
        !asks_resolution(msgs@) ==> final(counter).spec_frozen() == old(counter).spec_frozen(),
{
    let mut actions: Vec<X11Action> = Vec::new();
    let mut events: Vec<ServerEvent> = Vec::new();
    let mut i: usize = 0;
    while i < msgs.len()
        invariant
            i <= msgs@.len(),
            actions@ == x11_actions(msgs@.take(i as int)),
            events@ == resolution_events(msgs@.take(i as int)),
            asks_resolution(msgs@.take(i as int)) ==> counter.spec_frozen() == 0,
            !asks_resolution(msgs@.take(i as int)) ==> counter.spec_frozen() == old(
                counter,
            ).spec_frozen(),
        decreases msgs@.len() - i,
    {
        let ghost prefix = msgs@.take(i as int);
        let ghost next = msgs@.take(i + 1);
        assert(next.drop_last() =~= prefix);
        assert(next.last() == msgs@[i as int]);
        assert(asks_resolution(next) == (asks_resolution(prefix) || msgs@[i as int] is Display)) by {
            if msgs@[i as int] is Display {
                assert(next[i as int] is Display);
            }
            if asks_resolution(next) && !(msgs@[i as int] is Display) {
                let k = choose|k: int| 0 <= k < next.len() && #[trigger] next[k] is Display;
                assert(prefix[k] is Display);
            }
            if asks_resolution(prefix) {
                let k = choose|k: int| 0 <= k < prefix.len() && #[trigger] prefix[k] is Display;
                assert(next[k] is Display);
            }
        }
        match x11_action_exec(&msgs[i]) {
            Some(a) => actions.push(a),
            None => {},
        }
        note_resolution(&msgs[i], &mut events, counter);
        i = i + 1;
    }
    assert(msgs@.take(msgs@.len() as int) =~= msgs@);
    (actions, events)
}

/// The actions of a Windows server for one message.
fn win_actions_exec(m: &ClientMessage, actions: &mut Vec<WinAction>)
    ensures
        final(actions)@ == old(actions)@ + win_actions_of(*m),
{
    match m {
        ClientMessage::Move { x, y } => {
            actions.push(WinAction::MoveMouse { x: *x, y: *y });
        },
        ClientMessage::Button { x, y, button, down } => {
            actions.push(WinAction::MoveMouse { x: *x, y: *y });
            let (flags, data) = mouse_button_input(*button, *down);
            actions.push(WinAction::MouseInput { flags, data });
        },
        ClientMessage::Key { keycode, down } => {
            match keyboard_input(*keycode, *down) {
                Some((scan, flags)) => {
                    actions.push(WinAction::KeyInput { scan, flags });
                },
                None => {},
            }
        },
        ClientMessage::Clipboard { data } => {
            actions.push(WinAction::SetClipboard(data.clone()));
        },
        ClientMessage::Keylocks(l) => {
            actions.push(WinAction::SetLockKeys(copy_locks(l)));
        },
        ClientMessage::Activate { .. } => {},
        ClientMessage::Display { .. } => {},
        ClientMessage::Empty => {},
    }
    assert(final(actions)@ =~= old(actions)@ + win_actions_of(*m));
}

/// What a Windows server does for the events `msgs` of its client, in
/// order, and the resolution changes it reports; a resolution request
/// restarts `counter`.
pub fn windows_handle_messages(msgs: &Vec<ClientMessage>, counter: &mut StallCounter) -> (r: (
    Vec<WinAction>,
    Vec<ServerEvent>,
))
    ensures
        r.0@ == win_actions(msgs@),
        r.1@ == resolution_events(msgs@),
        asks_resolution(msgs@) ==> final(counter).spec_frozen() == 0,
        !asks_resolution(msgs@) ==> final(counter).spec_frozen() == old(counter).spec_frozen(),
{
    let mut actions: Vec<WinAction> = Vec::new();
    let mut events: Vec<ServerEvent> = Vec::new();
    let mut i: usize = 0;
    while i < msgs.len()
        invariant
            i <= msgs@.len(),
            actions@ == win_actions(msgs@.take(i as int)),
            events@ == resolution_events(msgs@.take(i as int)),
            asks_resolution(msgs@.take(i as int)) ==> counter.spec_frozen() == 0,
            !asks_resolution(msgs@.take(i as int)) ==> counter.spec_frozen() == old(
                counter,
            ).spec_frozen(),
        decreases msgs@.len() - i,
    {
        let ghost prefix = msgs@.take(i as int);
        let ghost next = msgs@.take(i + 1);
        assert(next.drop_last() =~= prefix);
        assert(next.last() == msgs@[i as int]);
        assert(asks_resolution(next) == (asks_resolution(prefix) || msgs@[i as int] is Display)) by {
            if msgs@[i as int] is Display {
                assert(next[i as int] is Display);
            }
            if asks_resolution(next) && !(msgs@[i as int] is Display) {
                let k = choose|k: int| 0 <= k < next.len() && #[trigger] next[k] is Display;
                assert(prefix[k] is Display);
            }
            if asks_resolution(prefix) {
                let k = choose|k: int| 0 <= k < prefix.len() && #[trigger] prefix[k] is Display;
                assert(next[k] is Display);
            }
        }
        win_actions_exec(&msgs[i], &mut actions);
        note_resolution(&msgs[i], &mut events, counter);
        i = i + 1;
    }
    assert(msgs@.take(msgs@.len() as int) =~= msgs@);
    (actions, events)
}

} // verus!
