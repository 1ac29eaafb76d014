//! One round of the X11 client: the window events that arrived since the
//! last round become the messages for the server, the keyboard grabs to
//! take or release, and the state that says whether the window must be
//! redrawn. Pointer moves and window resizes are coalesced: only the last
//! of each is sent, after the other messages.

use crate::client_events::{
    x11_action, ClientMessage, LockKeys, X11Action, XTestInput, X_BUTTON_PRESS, X_BUTTON_RELEASE, X_KEY_PRESS,
    X_KEY_RELEASE, X_MOTION_NOTIFY,
};
use crate::client_input::{
    after_key_press, after_key_release, all_released, clipboard_outcome, held_keys, press_hotkey, Hotkey,
    KeyboardState, KeyboardView,
};
use crate::utils::ClipboardConfig;
use vstd::prelude::*;

verus! {

/// A window event of the X11 client.
#[derive(Debug, Clone, Copy, PartialEq, Eq)]
pub enum WindowEvent {
    /// The pointer moved to `(x, y)` of the window.
    Motion { x: i16, y: i16 },
    /// A mouse button was pressed at `(x, y)`.
    ButtonPress { x: i16, y: i16, button: u8 },
    /// A mouse button was released at `(x, y)`.
    ButtonRelease { x: i16, y: i16, button: u8 },
    /// A key was pressed.
    KeyPress { code: u8 },
    /// A key was released.
    KeyRelease { code: u8 },
    /// The window got the focus.
    FocusIn,
    /// The window lost the focus; `while_grabbed` when the keyboard was
    /// grabbed at that time.
    FocusOut { while_grabbed: bool },
    /// The window has the size `width` x `height`.
    Configure { width: u16, height: u16 },
    /// The window was mapped.
    Mapped,
    /// Any other event.
    Ignored,
}

/// A change of the keyboard grab.
#[derive(Debug, Clone, Copy, PartialEq, Eq)]
pub enum GrabAction {
    /// Grab every key, the window manager's shortcuts too.
    Grab,
    /// Give the keys back to the window manager.
    Ungrab,
}

/// The state of the X11 client, as the specifications see it.
#[verifier::ext_equal]
pub struct X11ClientView {
    pub kb: KeyboardView,
    pub width: u16,
    pub height: u16,
    /// The window must be redrawn.
    pub need_update: bool,
    /// The lock keys are sent to the server when they may have changed.
    pub sync_key_locks: bool,
    /// The lock keys may have changed since they were last sent.
    pub sync_needed: bool,
}

/// The state of the X11 client.
pub struct X11Client {
    keyboard: KeyboardState,
    width: u16,
    height: u16,
    need_update: bool,
    sync_key_locks: bool,
    sync_key_locks_needed: bool,
}

impl View for X11Client {
    type V = X11ClientView;

    closed spec fn view(&self) -> X11ClientView {
        X11ClientView {
            kb: self.keyboard@,
            width: self.width,
            height: self.height,
            need_update: self.need_update,
            sync_key_locks: self.sync_key_locks,
            sync_needed: self.sync_key_locks_needed,
        }
    }
}

/// A round in progress: the client, the messages so far, the grabs so far,
/// and the last pointer move and window size seen.
#[verifier::ext_equal]
pub struct PollSpec {
    pub client: X11ClientView,
    pub msgs: Seq<ClientMessage>,
    pub grabs: Seq<GrabAction>,
    pub last_move: Option<(u32, u32)>,
    pub last_resize: Option<(u32, u32)>,
}

/// The key releases sent for the keys `codes`.
pub open spec fn release_messages(codes: Seq<u8>) -> Seq<ClientMessage> {
    Seq::new(codes.len(), |i: int| ClientMessage::Key { keycode: codes[i] as u32, down: false })
}

/// `s` with every held key released and sent as released.
pub open spec fn release_keys(s: PollSpec) -> PollSpec {
    PollSpec {
        client: X11ClientView { kb: all_released(s.client.kb), ..s.client },
        msgs: s.msgs + release_messages(held_keys(s.client.kb.pressed)),
        ..s
    }
}

/// The round after the event `e`. A key press that completes the grab
/// shortcut, while the keyboard is grabbed, releases every held key (the
/// pressed one too) before the press is sent, and gives the keyboard back;
/// when it is not grabbed, grabs it. Losing the focus while the keyboard is
/// grabbed releases the held keys and gives the keyboard back when the grab
/// was active then, and does nothing otherwise; losing it while the
/// keyboard is not grabbed releases the held keys. Getting the focus grabs
/// the keyboard again when it is to be grabbed, tells the server, and asks
/// for a redraw and a lock key sync.
pub open spec fn poll_step(s: PollSpec, e: WindowEvent) -> PollSpec {
    let c = s.client;
    match e {
        WindowEvent::Motion { x, y } => PollSpec { last_move: Some((x as u32, y as u32)), ..s },
        WindowEvent::ButtonPress { x, y, button } => PollSpec {
            msgs: s.msgs.push(ClientMessage::Button { x: x as u32, y: y as u32, button: button as u32, down: true }),
            ..s
        },
        WindowEvent::ButtonRelease { x, y, button } => PollSpec {
            msgs: s.msgs.push(
                ClientMessage::Button { x: x as u32, y: y as u32, button: button as u32, down: false },
            ),
            ..s
        },
        WindowEvent::KeyPress { code } => {
            let pressed = PollSpec {
                client: X11ClientView { kb: after_key_press(c.kb, code), ..c },
                ..s
            };
            let key_msg = ClientMessage::Key { keycode: code as u32, down: true };
            if press_hotkey(c.kb, code) == Hotkey::ToggleGrab && c.kb.grab_keyboard {
                let released = release_keys(pressed);
                PollSpec { msgs: released.msgs.push(key_msg), grabs: s.grabs.push(GrabAction::Ungrab), ..released }
            } else if press_hotkey(c.kb, code) == Hotkey::ToggleGrab {
                PollSpec { msgs: s.msgs.push(key_msg), grabs: s.grabs.push(GrabAction::Grab), ..pressed }
            } else {
                PollSpec { msgs: s.msgs.push(key_msg), ..pressed }
            }
        },
        WindowEvent::KeyRelease { code } => PollSpec {
            client: X11ClientView { kb: after_key_release(c.kb, code), ..c },
            msgs: s.msgs.push(ClientMessage::Key { keycode: code as u32, down: false }),
            ..s
        },
        WindowEvent::FocusIn => PollSpec {
            client: X11ClientView { need_update: true, sync_needed: true, ..c },
            msgs: s.msgs.push(ClientMessage::Activate { id: 0 }),
            grabs: if c.kb.grab_keyboard {
                s.grabs.push(GrabAction::Grab)
            } else {
                s.grabs
            },
            ..s
        },
        WindowEvent::FocusOut { while_grabbed } => if c.kb.grab_keyboard {
            if while_grabbed {
                let released = release_keys(s);
                PollSpec { grabs: s.grabs.push(GrabAction::Ungrab), ..released }
            } else {
                s
            }
        } else {
            release_keys(s)
        },
        WindowEvent::Configure { width, height } => if width != c.width || height != c.height {
            PollSpec {
                client: X11ClientView { width, height, need_update: true, ..c },
                last_resize: Some((width as u32, height as u32)),
                ..s
            }
        } else {
            PollSpec { client: X11ClientView { need_update: true, ..c }, ..s }
        },
        WindowEvent::Mapped => PollSpec { client: X11ClientView { need_update: true, ..c }, ..s },
        WindowEvent::Ignored => s,
    }
}

/// The round after the events `es`, in order.
pub open spec fn poll_fold(s: PollSpec, es: Seq<WindowEvent>) -> PollSpec
    decreases es.len(),
{
    if es.len() == 0 {
        s
    } else {
        poll_step(poll_fold(s, es.drop_last()), es.last())
    }
}

/// The start of a round: no redraw asked yet; the lock keys `locks` sent
/// first when a sync is due and they were read.
pub open spec fn poll_start(v: X11ClientView, locks: Option<LockKeys>) -> PollSpec {
    let v0 = X11ClientView { need_update: false, ..v };
    if v.sync_key_locks && v.sync_needed && locks is Some {
        PollSpec {
            client: X11ClientView { sync_needed: false, ..v0 },
            msgs: seq![ClientMessage::Keylocks(locks->0)],
            grabs: Seq::empty(),
            last_move: None,
            last_resize: None,
        }
    } else {
        PollSpec { client: v0, msgs: Seq::empty(), grabs: Seq::empty(), last_move: None, last_resize: None }
    }
}

/// The messages of a finished round: those of the events, then the last
/// pointer move, then the last new window size, then the clipboard `sent`.
pub open spec fn poll_messages(fin: PollSpec, sent: Option<String>) -> Seq<ClientMessage> {
    let m1 = match fin.last_move {
        Some((x, y)) => fin.msgs.push(ClientMessage::Move { x, y }),
        None => fin.msgs,
    };
    let m2 = match fin.last_resize {
        Some((w, h)) => m1.push(ClientMessage::Display { width: w, height: h }),
        None => m1,
    };
    match sent {
        Some(data) => m2.push(ClientMessage::Clipboard { data }),
        None => m2,
    }
}

/// What a round gives: the messages for the server, in order, and the
/// changes of the keyboard grab, in order.
pub struct PollOutcome {
    pub messages: Vec<ClientMessage>,
    pub grabs: Vec<GrabAction>,
}

/// Sends the keys `codes` as released.
fn push_releases(msgs: &mut Vec<ClientMessage>, codes: &Vec<u8>)
    ensures
        final(msgs)@ == old(msgs)@ + release_messages(codes@),
{
    let ghost start = msgs@;
    let mut i: usize = 0;
    while i < codes.len()
        invariant
            i <= codes@.len(),
            msgs@ == start + release_messages(codes@.take(i as int)),
        decreases codes@.len() - i,
    {
        msgs.push(ClientMessage::Key { keycode: codes[i] as u32, down: false });
        i = i + 1;
        assert(msgs@ =~= start + release_messages(codes@.take(i as int)));
    }
    assert(codes@.take(codes@.len() as int) =~= codes@);
}

impl X11Client {
    /// The keyboard state holds one entry per key code.
    pub open spec fn wf(&self) -> bool {
        self@.kb.pressed.len() == 256
    }

    /// A client window of `width` x `height`, to be drawn, with no key
    /// held; a lock key sync is due when syncing is asked for.
    pub fn new(grab_keyboard: bool, sync_key_locks: bool, width: u16, height: u16) -> (c: Self)
        ensures
            c@.kb.pressed == Seq::new(256, |i: int| false),
            !c@.kb.display_stats,
            !c@.kb.clipboard_trig,
            c@.kb.grab_keyboard == grab_keyboard,
            c@.width == width,
            c@.height == height,
            c@.need_update,
            c@.sync_key_locks == sync_key_locks,
            c@.sync_needed == sync_key_locks,
            c.wf(),
    {
        X11Client {
            keyboard: KeyboardState::new(grab_keyboard),
            width,
            height,
            need_update: true,
            sync_key_locks,
            sync_key_locks_needed: sync_key_locks,
        }
    }

    /// The keyboard state.
    pub fn keyboard(&self) -> (k: &KeyboardState)
        ensures
            k@ == self@.kb,
    {
        &self.keyboard
    }

    /// The size of the window.
    pub fn size(&self) -> (s: (u16, u16))
        ensures
            s == (self@.width, self@.height),
    {
        (self.width, self.height)
    }

    /// The lock keys are to be read and sent at the next round.
    pub fn lock_sync_due(&self) -> (b: bool)
        ensures
            b == (self@.sync_key_locks && self@.sync_needed),
    {
        self.sync_key_locks && self.sync_key_locks_needed
    }

    /// A new image was drawn: the window must be redrawn.
    pub fn image_changed(&mut self)
        ensures
            final(self)@ == (X11ClientView { need_update: true, ..old(self)@ }),
    {
        self.need_update = true;
    }

    /// Whether the window must be redrawn now; it is then taken as done.
    pub fn take_update(&mut self) -> (b: bool)
        ensures
            b == old(self)@.need_update,
            final(self)@ == (X11ClientView { need_update: false, ..old(self)@ }),
    {
        let b = self.need_update;
        self.need_update = false;
        b
    }

    /// Releases every held key and sends them as released.
    fn release_into(&mut self, msgs: &mut Vec<ClientMessage>)
        requires
            old(self).wf(),
        ensures
            final(self)@ == (X11ClientView { kb: all_released(old(self)@.kb), ..old(self)@ }),
            final(msgs)@ == old(msgs)@ + release_messages(held_keys(old(self)@.kb.pressed)),
    {
        let codes = self.keyboard.release_all();
        push_releases(msgs, &codes);
    }

    /// One event of the round.
    fn step(
        &mut self,
        e: WindowEvent,
        msgs: &mut Vec<ClientMessage>,
        grabs: &mut Vec<GrabAction>,
        last_move: &mut Option<(u32, u32)>,
        last_resize: &mut Option<(u32, u32)>,
    )
        requires
            old(self).wf(),
        ensures
            final(self).wf(),
            ({
                let s = (PollSpec {
                    client: old(self)@,
                    msgs: old(msgs)@,
                    grabs: old(grabs)@,
                    last_move: *old(last_move),
                    last_resize: *old(last_resize),
                });
                let t = poll_step(s, e);
                &&& final(self)@ == t.client
                &&& final(msgs)@ == t.msgs
                &&& final(grabs)@ == t.grabs
                &&& *final(last_move) == t.last_move
                &&& *final(last_resize) == t.last_resize
            }),
    {
        match e {
            WindowEvent::Motion { x, y } => {
                *last_move = Some((x as u32, y as u32));
            },
            WindowEvent::ButtonPress { x, y, button } => {
                msgs.push(ClientMessage::Button { x: x as u32, y: y as u32, button: button as u32, down: true });
            },
            WindowEvent::ButtonRelease { x, y, button } => {
                msgs.push(ClientMessage::Button { x: x as u32, y: y as u32, button: button as u32, down: false });
            },
            WindowEvent::KeyPress { code } => {
                let was_grabbed = self.keyboard.grab_keyboard();
                let hotkey = self.keyboard.on_key_press(code);
                if matches!(hotkey, Hotkey::ToggleGrab) {
                    if was_grabbed {
                        self.release_into(msgs);
                        grabs.push(GrabAction::Ungrab);
                    } else {
                        grabs.push(GrabAction::Grab);
                    }
                }
                msgs.push(ClientMessage::Key { keycode: code as u32, down: true });
            },
            WindowEvent::KeyRelease { code } => {
                self.keyboard.on_key_release(code);
                msgs.push(ClientMessage::Key { keycode: code as u32, down: false });
            },
            WindowEvent::FocusIn => {
                if self.keyboard.grab_keyboard() {
                    grabs.push(GrabAction::Grab);
                }
                msgs.push(ClientMessage::Activate { id: 0 });
                self.need_update = true;
                self.sync_key_locks_needed = true;
            },
            WindowEvent::FocusOut { while_grabbed } => {
                if self.keyboard.grab_keyboard() {
                    if while_grabbed {
                        self.release_into(msgs);
                        grabs.push(GrabAction::Ungrab);
                    }
                } else {
                    self.release_into(msgs);
                }
            },
            WindowEvent::Configure { width, height } => {
                if width != self.width || height != self.height {
                    *last_resize = Some((width as u32, height as u32));
                    self.width = width;
                    self.height = height;
                }
                self.need_update = true;
            },
            WindowEvent::Mapped => {
                self.need_update = true;
            },
            WindowEvent::Ignored => {},
        }
    }

    /// One round: the lock keys `locks` (read when `lock_sync_due`), the
    /// window events `events` since the last round, and the clipboard under
    /// the setting `config`, from the last local value `last`.
    pub fn poll(
        &mut self,
        locks: Option<LockKeys>,
        events: &Vec<WindowEvent>,
        config: ClipboardConfig,
        last: &mut Option<String>,
    ) -> (out: PollOutcome)
        requires
            old(self).wf(),
        ensures
            final(self).wf(),
            ({
                let fin = poll_fold(poll_start(old(self)@, locks), events@);
                let clip = clipboard_outcome(config, fin.client.kb.clipboard_trig, *old(last));
                &&& out.messages@ == poll_messages(fin, clip.0)
                &&& out.grabs@ == fin.grabs
                &&& *final(last) == clip.2
                &&& final(self)@ == (X11ClientView {
                    kb: (KeyboardView { clipboard_trig: clip.1, ..fin.client.kb }),
                    ..fin.client
                })
            }),
    {
        let mut msgs: Vec<ClientMessage> = Vec::new();
        let mut grabs: Vec<GrabAction> = Vec::new();
        let mut last_move: Option<(u32, u32)> = None;
        let mut last_resize: Option<(u32, u32)> = None;
        self.need_update = false;
        if self.sync_key_locks && self.sync_key_locks_needed {
            match locks {
                Some(l) => {
                    msgs.push(ClientMessage::Keylocks(l));
                    self.sync_key_locks_needed = false;
                },
                None => {},
            }
        }
        let ghost init = poll_start(old(self)@, locks);
        assert(self@ == init.client && msgs@ == init.msgs);
        let mut i: usize = 0;
        while i < events.len()
            invariant
                i <= events@.len(),
                self.wf(),
                init == poll_start(old(self)@, locks),
                ({
                    let s = poll_fold(init, events@.take(i as int));
                    &&& self@ == s.client
                    &&& msgs@ == s.msgs
                    &&& grabs@ == s.grabs
                    &&& last_move == s.last_move
                    &&& last_resize == s.last_resize
                }),
            decreases events@.len() - i,
        {
            assert(events@.take(i + 1).drop_last() =~= events@.take(i as int));
            self.step(events[i], &mut msgs, &mut grabs, &mut last_move, &mut last_resize);
            i = i + 1;
        }
        assert(events@.take(events@.len() as int) =~= events@);
        match last_move {
            Some((x, y)) => msgs.push(ClientMessage::Move { x, y }),
            None => {},
        }
        match last_resize {
            Some((w, h)) => msgs.push(ClientMessage::Display { width: w, height: h }),
            None => {},
        }
        match self.keyboard.clipboard_to_send(config, last) {
            Some(data) => msgs.push(ClientMessage::Clipboard { data }),
            None => {},
        }
        PollOutcome { messages: msgs, grabs }
    }
}

/// The last pointer position of the moves among `es`, else `prev`.
pub open spec fn last_motion(es: Seq<WindowEvent>, prev: Option<(u32, u32)>) -> Option<(u32, u32)>
    decreases es.len(),
{
    if es.len() == 0 {
        prev
    } else {
        match es.last() {
            WindowEvent::Motion { x, y } => Some((x as u32, y as u32)),
            _ => last_motion(es.drop_last(), prev),
        }
    }
}

/// No message of `m` is a pointer move or a window size.
pub open spec fn no_move_nor_size(m: Seq<ClientMessage>) -> bool {
    forall|i: int| 0 <= i < m.len() ==> !(#[trigger] m[i] is Move) && !(m[i] is Display)
}

proof fn lemma_fold_coalesces(s: PollSpec, es: Seq<WindowEvent>)
    requires
        no_move_nor_size(s.msgs),
    ensures
        no_move_nor_size(poll_fold(s, es).msgs),
        poll_fold(s, es).last_move == last_motion(es, s.last_move),
    decreases es.len(),
{
    if es.len() > 0 {
        lemma_fold_coalesces(s, es.drop_last());
        let p = poll_fold(s, es.drop_last());
        let r = release_messages(held_keys(p.client.kb.pressed));
        assert(no_move_nor_size(r));
        assert(no_move_nor_size(p.msgs + r)) by {
            assert forall|i: int| 0 <= i < (p.msgs + r).len() implies !(#[trigger] (p.msgs + r)[i] is Move)
                && !((p.msgs + r)[i] is Display) by {
                if i < p.msgs.len() {
                    assert((p.msgs + r)[i] == p.msgs[i]);
                } else {
                    assert((p.msgs + r)[i] == r[i - p.msgs.len()]);
                }
            }
        }
    }
}

/// A round sends at most one pointer move and at most one window size: the
/// last move among its events, and the last new size of the window.
pub proof fn lemma_round_coalesces(v: X11ClientView, locks: Option<LockKeys>, es: Seq<WindowEvent>, sent: Option<
    String,
>)
    ensures
        ({
            let fin = poll_fold(poll_start(v, locks), es);
            let m = poll_messages(fin, sent);
            &&& forall|i: int, j: int|
                0 <= i < m.len() && 0 <= j < m.len() && #[trigger] m[i] is Move && #[trigger] m[j] is Move
                    ==> i == j
            &&& forall|i: int, j: int|
                0 <= i < m.len() && 0 <= j < m.len() && #[trigger] m[i] is Display && #[trigger] m[j] is Display
                    ==> i == j
            &&& forall|i: int|
                0 <= i < m.len() && #[trigger] m[i] is Move ==> last_motion(es, None) == Some(
                    (m[i]->Move_x, m[i]->Move_y),
                )
            &&& last_motion(es, None) is Some ==> exists|i: int| 0 <= i < m.len() && #[trigger] m[i] is Move
            &&& forall|i: int|
                0 <= i < m.len() && #[trigger] m[i] is Display ==> fin.last_resize == Some(
                    (m[i]->width, m[i]->height),
                )
        }),
{
    let init = poll_start(v, locks);
    lemma_fold_coalesces(init, es);
    let fin = poll_fold(init, es);
    let n = fin.msgs.len();
    let m1 = match fin.last_move {
        Some((x, y)) => fin.msgs.push(ClientMessage::Move { x, y }),
        None => fin.msgs,
    };
    let m2 = match fin.last_resize {
        Some((w, h)) => m1.push(ClientMessage::Display { width: w, height: h }),
        None => m1,
    };
    let m = poll_messages(fin, sent);
    assert forall|i: int| 0 <= i < m.len() && #[trigger] m[i] is Move implies i == n && fin.last_move == Some(
        (m[i]->Move_x, m[i]->Move_y),
    ) by {
        if i < n {
            assert(m[i] == fin.msgs[i]);
        } else if i == n {
        } else if i == m1.len() {
        } else {
            assert(i == m2.len());
        }
    }
    assert forall|i: int| 0 <= i < m.len() && #[trigger] m[i] is Display implies i == m1.len()
        && fin.last_resize == Some((m[i]->width, m[i]->height)) by {
        if i < n {
            assert(m[i] == fin.msgs[i]);
        } else if i == n && fin.last_move is Some {
        } else if i == m1.len() {
        } else {
            assert(i == m2.len());
        }
    }
    if fin.last_move is Some {
        assert(m[n as int] is Move);
    }
}

proof fn lemma_i16_through_u32(v: i16)
    ensures
        ((v as u32) as i16) == v,
{
    assert(((v as u32) as i16) == v) by (bit_vector);
}

/// What the X11 client sends of a click, a key or a pointer move that its
/// window reports, an X11 server fakes as the same input: the same button
/// or key, at the same position (the position of the last move of the
/// round, for moves).
pub proof fn lemma_x11_inputs_replayed(s: PollSpec, e: WindowEvent)
    ensures
        ({
            let t = poll_step(s, e);
            match e {
                WindowEvent::ButtonPress { x, y, button } => t.msgs.len() == s.msgs.len() + 1 && x11_action(
                    t.msgs.last(),
                ) == Some(
                    X11Action::FakeInput(XTestInput { kind: X_BUTTON_PRESS, detail: button, x, y }),
                ),
                WindowEvent::ButtonRelease { x, y, button } => t.msgs.len() == s.msgs.len() + 1
                    && x11_action(t.msgs.last()) == Some(
                    X11Action::FakeInput(XTestInput { kind: X_BUTTON_RELEASE, detail: button, x, y }),
                ),
                WindowEvent::KeyPress { code } => t.msgs.len() > s.msgs.len() && x11_action(t.msgs.last())
                    == Some(X11Action::FakeInput(XTestInput { kind: X_KEY_PRESS, detail: code, x: 0, y: 0 })),
                WindowEvent::KeyRelease { code } => t.msgs.len() == s.msgs.len() + 1 && x11_action(
                    t.msgs.last(),
                ) == Some(
                    X11Action::FakeInput(XTestInput { kind: X_KEY_RELEASE, detail: code, x: 0, y: 0 }),
                ),
                WindowEvent::Motion { x, y } => t.last_move matches Some((mx, my)) && x11_action(
                    ClientMessage::Move { x: mx, y: my },
                ) == Some(X11Action::FakeInput(XTestInput { kind: X_MOTION_NOTIFY, detail: 0, x, y })),
                _ => true,
            }
        }),
{
    match e {
        WindowEvent::ButtonPress { x, y, button } => {
            lemma_i16_through_u32(x);
            lemma_i16_through_u32(y);
        },
        WindowEvent::ButtonRelease { x, y, button } => {
            lemma_i16_through_u32(x);
            lemma_i16_through_u32(y);
        },
        WindowEvent::Motion { x, y } => {
            lemma_i16_through_u32(x);
            lemma_i16_through_u32(y);
        },
        _ => {},
    }
}

/// The size of the X11 client window: the size the server asks for, else
/// the screen's, in both cases no larger than the screen.
pub open spec fn spec_client_window_size(server_size: Option<(u16, u16)>, screen: (u16, u16)) -> (u16, u16) {
    let (w, h) = match server_size {
        Some(s) => s,
        None => screen,
    };
    (if w < screen.0 { w } else { screen.0 }, if h < screen.1 { h } else { screen.1 })
}

/// The size of the X11 client window, for the size `server_size` the
/// server asks for and the size `screen` of the client's screen.
pub fn client_window_size(server_size: Option<(u16, u16)>, screen: (u16, u16)) -> (r: (u16, u16))
    ensures
        r == spec_client_window_size(server_size, screen),
{
    let (w, h) = match server_size {
        Some(s) => s,
        None => screen,
    };
    (if w < screen.0 { w } else { screen.0 }, if h < screen.1 { h } else { screen.1 })
}

/// Whether the X server's SHM extension, of version `major.minor`, can pass
/// file descriptors: version 1.2 or later is needed.
pub fn shm_passes_fds(major: u16, minor: u16) -> (r: bool)
    ensures
        r <==> (major > 1 || (major == 1 && minor >= 2)),
{
    !(major < 1 || (major == 1 && minor < 2))
}

} // verus!
