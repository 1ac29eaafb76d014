//! The Windows client's window messages that become events for the
//! server: pointer moves, button clicks, wheel turns and raw keyboard input;
//! and its rounds, which send the queued events with only the last pointer
//! move, and the clipboard as its setting says.

use crate::client_events::{copy_message, win_actions_of, ClientMessage, WinAction};
use crate::keycodes::lemma_scancode_roundtrip;
use crate::win_input::spec_key_input_flags;
use crate::client_input::{clipboard_outcome, KeyboardState, KeyboardView};
use crate::utils::ClipboardConfig;
use crate::keycodes::{spec_extended_scancode_to_keycode, spec_scancode_to_keycode, windows_scancode_to_hardware_keycode};
use vstd::prelude::*;

verus! {

/// `WM_MOUSEMOVE`.
pub const WM_MOUSEMOVE: u32 = 0x0200;

/// `WM_LBUTTONDOWN`.
pub const WM_LBUTTONDOWN: u32 = 0x0201;

/// `WM_LBUTTONUP`.
pub const WM_LBUTTONUP: u32 = 0x0202;

/// `WM_RBUTTONDOWN`.
pub const WM_RBUTTONDOWN: u32 = 0x0204;

/// `WM_RBUTTONUP`.
pub const WM_RBUTTONUP: u32 = 0x0205;

/// `WM_MBUTTONDOWN`.
pub const WM_MBUTTONDOWN: u32 = 0x0207;

/// `WM_MBUTTONUP`.
pub const WM_MBUTTONUP: u32 = 0x0208;

/// `WM_MOUSEWHEEL`.
pub const WM_MOUSEWHEEL: u32 = 0x020A;

/// The client button, and whether it went down, of a button message: left
/// is 1, middle 2, right 3.
pub open spec fn spec_message_button(msg: u32) -> Option<(u32, bool)> {
    if msg == WM_LBUTTONDOWN {
        Some((1, true))
    } else if msg == WM_LBUTTONUP {
        Some((1, false))
    } else if msg == WM_MBUTTONDOWN {
        Some((2, true))
    } else if msg == WM_MBUTTONUP {
        Some((2, false))
    } else if msg == WM_RBUTTONDOWN {
        Some((3, true))
    } else if msg == WM_RBUTTONUP {
        Some((3, false))
    } else {
        None
    }
}

/// The pointer position of a mouse message: the low 16 bits of `lparam`,
/// and the bits above them.
pub open spec fn spec_lparam_position(lparam: isize) -> (u32, u32) {
    ((lparam & 0xFFFF) as u32, (lparam >> 16isize) as u32)
}

/// The button of a wheel turn: 4 when the 32 bit value of `wparam` is
/// positive (away from the user), else 5.
pub open spec fn spec_wheel_button(wparam: usize) -> u32 {
    if (wparam as i32) > 0 {
        4
    } else {
        5
    }
}

/// The events for the server of the mouse message `msg`: a move, a click,
/// or a wheel turn, sent as a press and a release; none for another
/// message.
pub open spec fn spec_mouse_messages(msg: u32, wparam: usize, lparam: isize) -> Seq<ClientMessage> {
    let (x, y) = spec_lparam_position(lparam);
    if msg == WM_MOUSEMOVE {
        seq![ClientMessage::Move { x, y }]
    } else if msg == WM_MOUSEWHEEL {
        let b = spec_wheel_button(wparam);
        seq![
            ClientMessage::Button { x, y, button: b, down: true },
            ClientMessage::Button { x, y, button: b, down: false },
        ]
    } else {
        match spec_message_button(msg) {
            Some((button, down)) => seq![ClientMessage::Button { x, y, button, down }],
            None => Seq::empty(),
        }
    }
}

/// The pointer position of a mouse message.
pub fn lparam_position(lparam: isize) -> (r: (u32, u32))
    ensures
        r == spec_lparam_position(lparam),
{
    ((lparam & 0xFFFF) as u32, (lparam >> 16isize) as u32)
}

/// The client button, and whether it went down, of a button message.
pub fn message_button(msg: u32) -> (r: Option<(u32, bool)>)
    ensures
        r == spec_message_button(msg),
{
    if msg == WM_LBUTTONDOWN {
        Some((1, true))
    } else if msg == WM_LBUTTONUP {
        Some((1, false))
    } else if msg == WM_MBUTTONDOWN {
        Some((2, true))
    } else if msg == WM_MBUTTONUP {
        Some((2, false))
    } else if msg == WM_RBUTTONDOWN {
        Some((3, true))
    } else if msg == WM_RBUTTONUP {
        Some((3, false))
    } else {
        None
    }
}

/// The events for the server of the mouse message `msg`.
pub fn mouse_messages(msg: u32, wparam: usize, lparam: isize) -> (r: Vec<ClientMessage>)
    ensures
        r@ == spec_mouse_messages(msg, wparam, lparam),
{
    let (x, y) = lparam_position(lparam);
    let mut r: Vec<ClientMessage> = Vec::new();
    if msg == WM_MOUSEMOVE {
        r.push(ClientMessage::Move { x, y });
    } else if msg == WM_MOUSEWHEEL {
        let b: u32 = if (wparam as i32) > 0 {
            4
        } else {
            5
        };
        r.push(ClientMessage::Button { x, y, button: b, down: true });
        r.push(ClientMessage::Button { x, y, button: b, down: false });
    } else {
        match message_button(msg) {
            Some((button, down)) => {
                r.push(ClientMessage::Button { x, y, button, down });
            },
            None => {},
        }
    }
    assert(r@ =~= spec_mouse_messages(msg, wparam, lparam));
    r
}

/// The key of a raw keyboard input, by hardware key code, and whether it
/// went down: the scan code `make_code` is read as extended when bit 0 of
/// `flags` is set; the key goes down when bit 0 of `message` is clear. None
/// for a scan code with no key.
pub open spec fn spec_raw_key_event(make_code: u32, flags: u32, message: u32) -> Option<(u16, bool)> {
    let hw = if flags % 2 == 0 {
        spec_scancode_to_keycode(make_code)
    } else {
        spec_extended_scancode_to_keycode(make_code)
    };
    match hw {
        Some(k) => Some((k, message % 2 == 0)),
        None => None,
    }
}

/// The key of a raw keyboard input, by hardware key code, and whether it
/// went down.
pub fn raw_key_event(make_code: u32, flags: u32, message: u32) -> (r: Option<(u16, bool)>)
    ensures
        r == spec_raw_key_event(make_code, flags, message),
{
    let down = message % 2 == 0;
    match windows_scancode_to_hardware_keycode(make_code, flags) {
        Some(k) => Some((k, down)),
        None => None,
    }
}

/// The messages queued by the window procedure, sorted out: the others in
/// order, the last pointer move, and the last clipboard value (else
/// `clip`).
#[verifier::ext_equal]
pub struct QueueSpec {
    pub kept: Seq<ClientMessage>,
    pub last_move: Option<(u32, u32)>,
    pub clipboard: Option<String>,
}

/// The queued messages `ms` sorted out, from the last clipboard value
/// `clip`.
pub open spec fn queue_fold(ms: Seq<ClientMessage>, clip: Option<String>) -> QueueSpec
    decreases ms.len(),
{
    if ms.len() == 0 {
        QueueSpec { kept: Seq::empty(), last_move: None, clipboard: clip }
    } else {
        let p = queue_fold(ms.drop_last(), clip);
        match ms.last() {
            ClientMessage::Move { x, y } => QueueSpec { last_move: Some((x, y)), ..p },
            ClientMessage::Clipboard { data } => QueueSpec { clipboard: Some(data), ..p },
            _ => QueueSpec { kept: p.kept.push(ms.last()), ..p },
        }
    }
}

/// The messages of a round of the Windows client: the kept ones, then the
/// last pointer move, then the clipboard `sent`.
pub open spec fn windows_round_messages(q: QueueSpec, sent: Option<String>) -> Seq<ClientMessage> {
    let m1 = match q.last_move {
        Some((x, y)) => q.kept.push(ClientMessage::Move { x, y }),
        None => q.kept,
    };
    match sent {
        Some(data) => m1.push(ClientMessage::Clipboard { data }),
        None => m1,
    }
}

/// One round of the Windows client: the messages that its window procedure
/// queued, with only the last pointer move sent, after the others; a
/// clipboard change is kept as the last local value `last`, then the
/// clipboard goes out as the setting `config` and the shortcut say.
pub fn windows_poll(
    queued: &Vec<ClientMessage>,
    keyboard: &mut KeyboardState,
    config: ClipboardConfig,
    last: &mut Option<String>,
) -> (r: Vec<ClientMessage>)
    ensures
        ({
            let q = queue_fold(queued@, *old(last));
            let clip = clipboard_outcome(config, old(keyboard)@.clipboard_trig, q.clipboard);
            &&& r@ == windows_round_messages(q, clip.0)
            &&& *final(last) == clip.2
            &&& final(keyboard)@ == (KeyboardView { clipboard_trig: clip.1, ..old(keyboard)@ })
        }),
{
    let mut kept: Vec<ClientMessage> = Vec::new();
    let mut last_move: Option<(u32, u32)> = None;
    let mut i: usize = 0;
    while i < queued.len()
        invariant
            i <= queued@.len(),
            ({
                let q = queue_fold(queued@.take(i as int), *old(last));
                &&& kept@ == q.kept
                &&& last_move == q.last_move
                &&& *last == q.clipboard
            }),
        decreases queued@.len() - i,
    {
        assert(queued@.take(i + 1).drop_last() =~= queued@.take(i as int));
        match &queued[i] {
            ClientMessage::Move { x, y } => {
                last_move = Some((*x, *y));
            },
            ClientMessage::Clipboard { data } => {
                *last = Some(data.clone());
            },
            m => {
                kept.push(copy_message(m));
            },
        }
        i = i + 1;
    }
    assert(queued@.take(queued@.len() as int) =~= queued@);
    match last_move {
        Some((x, y)) => kept.push(ClientMessage::Move { x, y }),
        None => {},
    }
    match keyboard.clipboard_to_send(config, last) {
        Some(data) => kept.push(ClientMessage::Clipboard { data }),
        None => {},
    }
    kept
}

/// A key that the Windows client reads from raw input, a Windows server
/// presses or releases alike: the same scan code, extended or not, in the
/// same direction; but for the keys whose hardware key code leads to
/// another scan code (those that `lemma_scancode_roundtrip` leaves out).
pub proof fn lemma_windows_key_replayed(make_code: u32, flags: u32, message: u32)
    requires
        flags % 2 == 0 ==> make_code != 0x45,
        flags % 2 == 1 ==> make_code != 0x1c && make_code != 0x1d && make_code != 0x35 && make_code
            != 0x36 && make_code != 0x45 && make_code != 0x47 && make_code != 0x5b && make_code != 0x5c
            && make_code != 0x5d,
    ensures
        spec_raw_key_event(make_code, flags, message) matches Some((k, down)) ==> win_actions_of(
            ClientMessage::Key { keycode: k as u32, down },
        ) == seq![
            WinAction::KeyInput { scan: make_code as u16, flags: spec_key_input_flags(down, flags % 2 == 1) },
        ],
{
    lemma_scancode_roundtrip(make_code, flags % 2 == 1);
}

/// The button released, by the client's numbering, of a mouse message seen
/// by the low level hook outside the window: only releases are taken (a
/// press on the window comes with the window's own messages), and, as that
/// hook does, a right release is button 2 and a middle release button 3.
pub open spec fn spec_hook_button(w_param: u64) -> Option<u32> {
    if w_param & 0x200 != 0 {
        let b = w_param & 0xF;
        if b == 2 {
            Some(1)
        } else if b == 5 {
            Some(2)
        } else if b == 8 {
            Some(3)
        } else {
            None
        }
    } else {
        None
    }
}

/// The events of a mouse message seen by the low level hook, with the
/// pointer at `(x, y)` of the screen: the button release, if any, then the
/// pointer position.
pub open spec fn spec_hook_messages(w_param: u64, x: i32, y: i32) -> Seq<ClientMessage> {
    let mv = ClientMessage::Move { x: x as u32, y: y as u32 };
    match spec_hook_button(w_param) {
        Some(b) => seq![ClientMessage::Button { x: x as u32, y: y as u32, button: b, down: false }, mv],
        None => seq![mv],
    }
}

/// The events of a mouse message seen by the low level hook, with the
/// pointer at `(x, y)` of the screen.
pub fn hook_messages(w_param: u64, x: i32, y: i32) -> (r: Vec<ClientMessage>)
    ensures
        r@ == spec_hook_messages(w_param, x, y),
{
    let mut r: Vec<ClientMessage> = Vec::new();
    if w_param & 0x200 != 0 {
        let b = w_param & 0xF;
        let button: Option<u32> = if b == 2 {
            Some(1)
        } else if b == 5 {
            Some(2)
        } else if b == 8 {
            Some(3)
        } else {
            None
        };
        match button {
            Some(button) => r.push(ClientMessage::Button { x: x as u32, y: y as u32, button, down: false }),
            None => {},
        }
    }
    r.push(ClientMessage::Move { x: x as u32, y: y as u32 });
    assert(r@ =~= spec_hook_messages(w_param, x, y));
    r
}

/// Law: each button message names a button, and its press and its release
/// name the same one: the press of a button is the message just before its
/// release. The left button is 1 (messages 0x201 and 0x202), the middle one 2
/// (0x207, 0x208) and the right one 3 (0x204, 0x205); no other message is a
/// button message.
pub proof fn lemma_button_messages(msg: u32)
    ensures
        spec_message_button(msg) is Some <==> (0x201 <= msg <= 0x208 && msg != 0x203 && msg != 0x206),
        spec_message_button(msg) matches Some((b, down)) ==> {
            &&& down <==> (msg == 0x201 || msg == 0x204 || msg == 0x207)
            &&& (msg == 0x201 || msg == 0x202) ==> b == 1
            &&& (msg == 0x207 || msg == 0x208) ==> b == 2
            &&& (msg == 0x204 || msg == 0x205) ==> b == 3
        },
        spec_message_button(msg) matches Some((b, true)) ==> spec_message_button((msg + 1) as u32)
            == Some((b, false)),
{
}

/// Law: the events sent for a button message are one click of that button,
/// down for a press and up for a release, at the pointer position of the
/// message: the middle button's messages click button 2.
pub proof fn lemma_button_events(msg: u32, wparam: usize, lparam: isize)
    requires
        0x201 <= msg <= 0x208,
        msg != 0x203,
        msg != 0x206,
    ensures
        ({
            let (x, y) = spec_lparam_position(lparam);
            let b: u32 = if msg <= 0x202 {
                1
            } else if msg <= 0x205 {
                3
            } else {
                2
            };
            let down = msg == 0x201 || msg == 0x204 || msg == 0x207;
            spec_mouse_messages(msg, wparam, lparam) == seq![ClientMessage::Button { x, y, button: b, down }]
        }),
{
}

/// Law: a wheel turn away from the user (positive amount in the low 32 bits
/// of `wparam`) clicks button 4, any other turn button 5; the pointer
/// position of a message with a non-negative `lparam` below 2^31 (the
/// whole range of a 32 bit `isize`) is its low
/// 16 bits for x and the 16 bits above them for y.
pub proof fn lemma_wheel_and_position(wparam: usize, lparam: isize)
    ensures
        spec_wheel_button(wparam) == 4 <==> (wparam as i32) > 0,
        spec_wheel_button(wparam) == 5 <==> (wparam as i32) <= 0,
        0 <= lparam <= 0x7FFF_FFFF ==> spec_lparam_position(lparam) == ((lparam % 65536) as u32, (lparam
            / 65536) as u32),
{
    if 0 <= lparam <= 0x7FFF_FFFF {
        assert(lparam & 0xFFFF == lparam % 65536) by (bit_vector)
            requires
                0 <= lparam <= 0x7FFF_FFFFisize,
        ;
        assert(lparam >> 16isize == lparam / 65536) by (bit_vector)
            requires
                0 <= lparam <= 0x7FFF_FFFFisize,
        ;
    }
}

} // verus!
