//! The client's keyboard state: which keys are held, the shortcuts that
//! toggle the statistics, send the clipboard or release the keyboard grab,
//! and when the local clipboard is sent to the server.

use crate::utils::ClipboardConfig;
use vstd::prelude::*;

verus! {

/// Hardware key code of the left control key.
pub const KEY_CTRL: usize = 37;

/// Hardware key code of the left shift key.
pub const KEY_SHIFT: usize = 50;

/// Hardware key code of the left alt key.
pub const KEY_ALT: usize = 64;

/// Hardware key code of the `s` key.
pub const KEY_S: usize = 39;

/// Hardware key code of the `c` key.
pub const KEY_C: usize = 54;

/// Hardware key code of the `h` key.
pub const KEY_H: usize = 43;

/// What a key press triggers besides being sent to the server.
#[derive(Debug, Clone, Copy, PartialEq, Eq)]
pub enum Hotkey {
    /// Nothing.
    NoAction,
    /// Control, shift, alt and `s`: show or hide the statistics.
    ToggleStats,
    /// Control, shift, alt and `c`: send the clipboard.
    TrigClipboard,
    /// Control, shift, alt and `h`: grab or release the keyboard.
    ToggleGrab,
}

/// The keyboard state, as the specifications see it.
#[verifier::ext_equal]
pub struct KeyboardView {
    /// For each of the 256 key codes, whether the key is held.
    pub pressed: Seq<bool>,
    /// The statistics are drawn on the image.
    pub display_stats: bool,
    /// The clipboard is to be sent at the next round.
    pub clipboard_trig: bool,
    /// The keyboard is grabbed.
    pub grab_keyboard: bool,
}

/// The client's keyboard state.
pub struct KeyboardState {
    keys: Vec<bool>,
    display_stats: bool,
    clipboard_trig: bool,
    grab_keyboard: bool,
}

/// Control, shift and alt are all held.
pub open spec fn combo_held(pressed: Seq<bool>) -> bool {
    pressed[KEY_CTRL as int] && pressed[KEY_SHIFT as int] && pressed[KEY_ALT as int]
}

/// The held keys of `pressed`, by increasing code.
pub open spec fn held_keys(pressed: Seq<bool>) -> Seq<u8>
    decreases pressed.len(),
{
    if pressed.len() == 0 {
        Seq::empty()
    } else {
        let rest = held_keys(pressed.drop_last());
        if pressed.last() {
            rest.push((pressed.len() - 1) as u8)
        } else {
            rest
        }
    }
}

/// The state after the key `code` is pressed, with the shortcut it
/// completes applied.
pub open spec fn after_key_press(k: KeyboardView, code: u8) -> KeyboardView {
    let p = k.pressed.update(code as int, true);
    let combo = combo_held(p);
    KeyboardView {
        pressed: p,
        display_stats: if code == KEY_S && combo {
            !k.display_stats
        } else {
            k.display_stats
        },
        clipboard_trig: if code == KEY_C && combo {
            true
        } else {
            k.clipboard_trig
        },
        grab_keyboard: if code == KEY_H && combo {
            !k.grab_keyboard
        } else {
            k.grab_keyboard
        },
    }
}

/// The shortcut that pressing `code` completes.
pub open spec fn press_hotkey(k: KeyboardView, code: u8) -> Hotkey {
    let combo = combo_held(k.pressed.update(code as int, true));
    if combo && code == KEY_S {
        Hotkey::ToggleStats
    } else if combo && code == KEY_C {
        Hotkey::TrigClipboard
    } else if combo && code == KEY_H {
        Hotkey::ToggleGrab
    } else {
        Hotkey::NoAction
    }
}

/// The state after the key `code` is released.
pub open spec fn after_key_release(k: KeyboardView, code: u8) -> KeyboardView {
    KeyboardView { pressed: k.pressed.update(code as int, false), ..k }
}

/// The state with every key released.
pub open spec fn all_released(k: KeyboardView) -> KeyboardView {
    KeyboardView { pressed: Seq::new(256, |i: int| false), ..k }
}

/// What a round does with the clipboard, from the setting, whether the
/// shortcut asked for it and the last local value: the value sent, whether
/// the shortcut still asks, and the last value kept.
pub open spec fn clipboard_outcome(config: ClipboardConfig, trig: bool, last: Option<String>) -> (
    Option<String>,
    bool,
    Option<String>,
) {
    match config {
        ClipboardConfig::Deny => (None, trig, last),
        ClipboardConfig::Allow => (last, trig, None),
        ClipboardConfig::Trig => (if trig {
            last
        } else {
            None
        }, false, last),
    }
}

impl View for KeyboardState {
    type V = KeyboardView;

    closed spec fn view(&self) -> KeyboardView {
        KeyboardView {
            pressed: self.keys@,
            display_stats: self.display_stats,
            clipboard_trig: self.clipboard_trig,
            grab_keyboard: self.grab_keyboard,
        }
    }
}

impl KeyboardState {
    /// No key held, no statistics, no clipboard to send, and the keyboard
    /// grabbed as asked.
    pub fn new(grab_keyboard: bool) -> (k: Self)
        ensures
            k@.pressed == Seq::new(256, |i: int| false),
            !k@.display_stats,
            !k@.clipboard_trig,
            k@.grab_keyboard == grab_keyboard,
    {
        let keys = vec![false; 256];
        let k = KeyboardState { keys, display_stats: false, clipboard_trig: false, grab_keyboard };
        assert(k.keys@ =~= Seq::new(256, |i: int| false));
        k
    }

    /// Whether the key `code` is held.
    pub fn is_pressed(&self, code: u8) -> (b: bool)
        requires
            self@.pressed.len() == 256,
        ensures
            b == self@.pressed[code as int],
    {
        self.keys[code as usize]
    }

    /// The statistics are drawn on the image.
    pub fn display_stats(&self) -> (b: bool)
        ensures
            b == self@.display_stats,
    {
        self.display_stats
    }

    /// The keyboard is grabbed.
    pub fn grab_keyboard(&self) -> (b: bool)
        ensures
            b == self@.grab_keyboard,
    {
        self.grab_keyboard
    }

    /// Records that the key `code` is pressed, and triggers the shortcut it
    /// completes, if any: with control, shift and alt held, `s` toggles the
    /// statistics, `c` asks for the clipboard to be sent, `h` toggles the
    /// keyboard grab.
    pub fn on_key_press(&mut self, code: u8) -> (h: Hotkey)
        requires
            old(self)@.pressed.len() == 256,
        ensures
            ({
                let p = old(self)@.pressed.update(code as int, true);
                let combo = combo_held(p);
                &&& final(self)@.pressed == p
                &&& code == KEY_S && combo ==> h == Hotkey::ToggleStats && final(self)@.display_stats
                    == !old(self)@.display_stats
                &&& !(code == KEY_S && combo) ==> final(self)@.display_stats == old(self)@.display_stats
                &&& code == KEY_C && combo ==> h == Hotkey::TrigClipboard && final(self)@.clipboard_trig
                &&& !(code == KEY_C && combo) ==> final(self)@.clipboard_trig == old(self)@.clipboard_trig
                &&& code == KEY_H && combo ==> h == Hotkey::ToggleGrab && final(self)@.grab_keyboard
                    == !old(self)@.grab_keyboard
                &&& !(code == KEY_H && combo) ==> final(self)@.grab_keyboard == old(self)@.grab_keyboard
                &&& !combo || (code != KEY_S && code != KEY_C && code != KEY_H) ==> h == Hotkey::NoAction
            }),
            final(self)@ == after_key_press(old(self)@, code),
            h == press_hotkey(old(self)@, code),
    {
        self.keys.set(code as usize, true);
        let combo = self.keys[KEY_CTRL] && self.keys[KEY_SHIFT] && self.keys[KEY_ALT];
        let mut hotkey = Hotkey::NoAction;
        if code as usize == KEY_S && combo {
            self.display_stats = !self.display_stats;
            hotkey = Hotkey::ToggleStats;
        }
        if code as usize == KEY_C && combo {
            self.clipboard_trig = true;
            hotkey = Hotkey::TrigClipboard;
        }
        if code as usize == KEY_H && combo {
            self.grab_keyboard = !self.grab_keyboard;
            hotkey = Hotkey::ToggleGrab;
        }
        hotkey
    }

    /// Records that the key `code` is released.
    pub fn on_key_release(&mut self, code: u8)
        requires
            old(self)@.pressed.len() == 256,
        ensures
            final(self)@.pressed == old(self)@.pressed.update(code as int, false),
            final(self)@.display_stats == old(self)@.display_stats,
            final(self)@.clipboard_trig == old(self)@.clipboard_trig,
            final(self)@.grab_keyboard == old(self)@.grab_keyboard,
            final(self)@ == after_key_release(old(self)@, code),
    {
        self.keys.set(code as usize, false);
    }

    /// Releases every held key (the window lost the focus) and gives back
    /// their codes, by increasing code, for the key releases sent to the
    /// server.
    pub fn release_all(&mut self) -> (released: Vec<u8>)
        requires
            old(self)@.pressed.len() == 256,
        ensures
            released@ == held_keys(old(self)@.pressed),
            final(self)@.pressed == Seq::new(256, |i: int| false),
            final(self)@.display_stats == old(self)@.display_stats,
            final(self)@.clipboard_trig == old(self)@.clipboard_trig,
            final(self)@.grab_keyboard == old(self)@.grab_keyboard,
            final(self)@ == all_released(old(self)@),
    {
        let ghost k0 = self.keys@;
        let mut keys = Vec::new();
        std::mem::swap(&mut keys, &mut self.keys);
        let mut released: Vec<u8> = Vec::new();
        let mut i: usize = 0;
        while i < keys.len()
            invariant
                i <= 256,
                keys@.len() == 256,
                k0.len() == 256,
                released@ == held_keys(k0.subrange(0, i as int)),
                forall|j: int| 0 <= j < i ==> !keys@[j],
                forall|j: int| i <= j < 256 ==> keys@[j] == k0[j],
            decreases 256 - i,
        {
            proof {
                assert(k0.subrange(0, i as int + 1).drop_last() =~= k0.subrange(0, i as int));
            }
            if keys[i] {
                keys.set(i, false);
                released.push(i as u8);
            }
            i = i + 1;
        }
        assert(k0.subrange(0, 256) =~= k0);
        assert(keys@ =~= Seq::new(256, |i: int| false));
        self.keys = keys;
        released
    }

    /// The clipboard sent to the server this round. Never when the client
    /// may not send it; on each change when it may; on the shortcut only
    /// when it is triggered by it, which is then reset.
    pub fn clipboard_to_send(&mut self, config: ClipboardConfig, last: &mut Option<String>) -> (sent:
        Option<String>)
        ensures
            final(self)@.pressed == old(self)@.pressed,
            final(self)@.display_stats == old(self)@.display_stats,
            final(self)@.grab_keyboard == old(self)@.grab_keyboard,
            config is Deny ==> sent is None && *final(last) == *old(last) && final(self)@.clipboard_trig
                == old(self)@.clipboard_trig,
            config is Allow ==> sent == *old(last) && *final(last) is None && final(self)@.clipboard_trig
                == old(self)@.clipboard_trig,
            config is Trig ==> !final(self)@.clipboard_trig && *final(last) == *old(last) && (if old(
                self,
            )@.clipboard_trig && *old(last) is Some {
                sent == *old(last)
            } else {
                sent is None
            }),
            (sent, final(self)@.clipboard_trig, *final(last)) == clipboard_outcome(
                config,
                old(self)@.clipboard_trig,
                *old(last),
            ),
    {
        match config {
            ClipboardConfig::Deny => None,
            ClipboardConfig::Allow => last.take(),
            ClipboardConfig::Trig => {
                let sent = if self.clipboard_trig {
                    match last {
                        Some(data) => Some(data.clone()),
                        None => None,
                    }
                } else {
                    None
                };
                self.clipboard_trig = false;
                sent
            },
        }
    }
}

/// Why a clipboard setting is refused.
#[derive(Debug, Clone, Copy, PartialEq, Eq)]
pub struct UnknownClipboardConfig;

/// Reads the clipboard setting of the client: `allow`, `deny` or `trig`.
pub fn parse_clipboard_config(s: &str) -> (res: Result<ClipboardConfig, UnknownClipboardConfig>)
    ensures
        s@ == "allow"@ ==> res matches Ok(ClipboardConfig::Allow),
        s@ == "deny"@ ==> res matches Ok(ClipboardConfig::Deny),
        s@ == "trig"@ ==> res matches Ok(ClipboardConfig::Trig),
        s@ != "allow"@ && s@ != "deny"@ && s@ != "trig"@ ==> res is Err,
{
    proof {
        reveal_strlit("allow");
        reveal_strlit("deny");
        reveal_strlit("trig");
        assert("deny"@[0] != "allow"@[0]);
        assert("trig"@[0] != "allow"@[0]);
        assert("trig"@[0] != "deny"@[0]);
    }
    let t = s.to_owned();
    if t == "allow".to_owned() {
        Ok(ClipboardConfig::Allow)
    } else if t == "deny".to_owned() {
        Ok(ClipboardConfig::Deny)
    } else if t == "trig".to_owned() {
        Ok(ClipboardConfig::Trig)
    } else {
        Err(UnknownClipboardConfig)
    }
}

} // verus!
