//! Key codes of the portable client (W3C `code` values), the hardware key
//! codes they are sent as, and that client's record of the keys it sent.

use crate::client_events::ClientMessage;
use crate::client_input::held_keys;
use crate::client_poll::release_messages;
use crate::keycodes::spec_keycode_to_scancode;
use vstd::prelude::*;

verus! {

/// A physical key, by its W3C `code` value.
#[derive(Debug, Clone, Copy, PartialEq, Eq)]
pub enum KeyCode {
    Escape,
    Digit1,
    Digit2,
    Digit3,
    Digit4,
    Digit5,
    Digit6,
    Digit7,
    Digit8,
    Digit9,
    Digit0,
    Minus,
    Equal,
    Backspace,
    Tab,
    KeyQ,
    KeyW,
    KeyE,
    KeyR,
    KeyT,
    KeyY,
    KeyU,
    KeyI,
    KeyO,
    KeyP,
    BracketLeft,
    BracketRight,
    Enter,
    ControlLeft,
    KeyA,
    KeyS,
    KeyD,
    KeyF,
    KeyG,
    KeyH,
    KeyJ,
    KeyK,
    KeyL,
    Semicolon,
    Quote,
    Backquote,
    ShiftLeft,
    Backslash,
    KeyZ,
    KeyX,
    KeyC,
    KeyV,
    KeyB,
    KeyN,
    KeyM,
    Comma,
    Period,
    Slash,
    ShiftRight,
    NumpadMultiply,
    AltLeft,
    Space,
    CapsLock,
    F1,
    F2,
    F3,
    F4,
    F5,
    F6,
    F7,
    F8,
    F9,
    F10,
    NumLock,
    ScrollLock,
    Numpad7,
    Numpad8,
    Numpad9,
    NumpadSubtract,
    Numpad4,
    Numpad5,
    Numpad6,
    NumpadAdd,
    Numpad1,
    Numpad2,
    Numpad3,
    Numpad0,
    NumpadDecimal,
    IntlBackslash,
    F11,
    F12,
    IntlRo,
    Convert,
    KanaMode,
    NonConvert,
    NumpadEnter,
    ControlRight,
    NumpadDivide,
    PrintScreen,
    AltRight,
    Home,
    ArrowUp,
    PageUp,
    ArrowLeft,
    ArrowRight,
    End,
    ArrowDown,
    PageDown,
    Insert,
    Delete,
    AudioVolumeMute,
    AudioVolumeDown,
    AudioVolumeUp,
    NumpadEqual,
    Pause,
    NumpadComma,
    Lang1,
    Lang2,
    IntlYen,
    MetaLeft,
    MetaRight,
    ContextMenu,
    BrowserStop,
    Again,
    Props,
    Undo,
    Select,
    Copy,
    Open,
    Paste,
    Find,
    Cut,
    Help,
    LaunchApp2,
    WakeUp,
    LaunchApp1,
    LaunchMail,
    BrowserFavorites,
    BrowserBack,
    BrowserForward,
    Eject,
    MediaTrackNext,
    MediaPlayPause,
    MediaTrackPrevious,
    MediaStop,
    MediaSelect,
    BrowserHome,
    BrowserRefresh,
    BrowserSearch,
    /// A key the platform could not identify.
    Unidentified,
    /// Any other key.
    Other,
}

/// The hardware key code of `code`, if it has one.
pub open spec fn spec_code_to_hardware_keycode(code: KeyCode) -> Option<u16> {
    match code {
        KeyCode::Escape => Some(0x0009u16),
        KeyCode::Digit1 => Some(0x000Au16),
        KeyCode::Digit2 => Some(0x000Bu16),
        KeyCode::Digit3 => Some(0x000Cu16),
        KeyCode::Digit4 => Some(0x000Du16),
        KeyCode::Digit5 => Some(0x000Eu16),
        KeyCode::Digit6 => Some(0x000Fu16),
        KeyCode::Digit7 => Some(0x0010u16),
        KeyCode::Digit8 => Some(0x0011u16),
        KeyCode::Digit9 => Some(0x0012u16),
        KeyCode::Digit0 => Some(0x0013u16),
        KeyCode::Minus => Some(0x0014u16),
        KeyCode::Equal => Some(0x0015u16),
        KeyCode::Backspace => Some(0x0016u16),
        KeyCode::Tab => Some(0x0017u16),
        KeyCode::KeyQ => Some(0x0018u16),
        KeyCode::KeyW => Some(0x0019u16),
        KeyCode::KeyE => Some(0x001Au16),
        KeyCode::KeyR => Some(0x001Bu16),
        KeyCode::KeyT => Some(0x001Cu16),
        KeyCode::KeyY => Some(0x001Du16),
        KeyCode::KeyU => Some(0x001Eu16),
        KeyCode::KeyI => Some(0x001Fu16),
        KeyCode::KeyO => Some(0x0020u16),
        KeyCode::KeyP => Some(0x0021u16),
        KeyCode::BracketLeft => Some(0x0022u16),
        KeyCode::BracketRight => Some(0x0023u16),
        KeyCode::Enter => Some(0x0024u16),
        KeyCode::ControlLeft => Some(0x0025u16),
        KeyCode::KeyA => Some(0x0026u16),
        KeyCode::KeyS => Some(0x0027u16),
        KeyCode::KeyD => Some(0x0028u16),
        KeyCode::KeyF => Some(0x0029u16),
        KeyCode::KeyG => Some(0x002Au16),
        KeyCode::KeyH => Some(0x002Bu16),
        KeyCode::KeyJ => Some(0x002Cu16),
        KeyCode::KeyK => Some(0x002Du16),
        KeyCode::KeyL => Some(0x002Eu16),
        KeyCode::Semicolon => Some(0x002Fu16),
        KeyCode::Quote => Some(0x0030u16),
        KeyCode::Backquote => Some(0x0031u16),
        KeyCode::ShiftLeft => Some(0x0032u16),
        KeyCode::Backslash => Some(0x0033u16),
        KeyCode::KeyZ => Some(0x0034u16),
        KeyCode::KeyX => Some(0x0035u16),
        KeyCode::KeyC => Some(0x0036u16),
        KeyCode::KeyV => Some(0x0037u16),
        KeyCode::KeyB => Some(0x0038u16),
        KeyCode::KeyN => Some(0x0039u16),
        KeyCode::KeyM => Some(0x003Au16),
        KeyCode::Comma => Some(0x003Bu16),
        KeyCode::Period => Some(0x003Cu16),
        KeyCode::Slash => Some(0x003Du16),
        KeyCode::ShiftRight => Some(0x003Eu16),
        KeyCode::NumpadMultiply => Some(0x003Fu16),
        KeyCode::AltLeft => Some(0x0040u16),
        KeyCode::Space => Some(0x0041u16),
        KeyCode::CapsLock => Some(0x0042u16),
        KeyCode::F1 => Some(0x0043u16),
        KeyCode::F2 => Some(0x0044u16),
        KeyCode::F3 => Some(0x0045u16),
        KeyCode::F4 => Some(0x0046u16),
        KeyCode::F5 => Some(0x0047u16),
        KeyCode::F6 => Some(0x0048u16),
        KeyCode::F7 => Some(0x0049u16),
        KeyCode::F8 => Some(0x004Au16),
        KeyCode::F9 => Some(0x004Bu16),
        KeyCode::F10 => Some(0x004Cu16),
        KeyCode::NumLock => Some(0x004Du16),
        KeyCode::ScrollLock => Some(0x004Eu16),
        KeyCode::Numpad7 => Some(0x004Fu16),
        KeyCode::Numpad8 => Some(0x0050u16),
        KeyCode::Numpad9 => Some(0x0051u16),
        KeyCode::NumpadSubtract => Some(0x0052u16),
        KeyCode::Numpad4 => Some(0x0053u16),
        KeyCode::Numpad5 => Some(0x0054u16),
        KeyCode::Numpad6 => Some(0x0055u16),
        KeyCode::NumpadAdd => Some(0x0056u16),
        KeyCode::Numpad1 => Some(0x0057u16),
        KeyCode::Numpad2 => Some(0x0058u16),
        KeyCode::Numpad3 => Some(0x0059u16),
        KeyCode::Numpad0 => Some(0x005Au16),
        KeyCode::NumpadDecimal => Some(0x005Bu16),
        KeyCode::IntlBackslash => Some(0x005Eu16),
        KeyCode::F11 => Some(0x005Fu16),
        KeyCode::F12 => Some(0x0060u16),
        KeyCode::IntlRo => Some(0x0061u16),
        KeyCode::Convert => Some(0x0064u16),
        KeyCode::KanaMode => Some(0x0065u16),
        KeyCode::NonConvert => Some(0x0066u16),
        KeyCode::NumpadEnter => Some(0x0068u16),
        KeyCode::ControlRight => Some(0x0069u16),
        KeyCode::NumpadDivide => Some(0x006Au16),
        KeyCode::PrintScreen => Some(0x006Bu16),
        KeyCode::AltRight => Some(0x006Cu16),
        KeyCode::Home => Some(0x006Eu16),
        KeyCode::ArrowUp => Some(0x006Fu16),
        KeyCode::PageUp => Some(0x0070u16),
        KeyCode::ArrowLeft => Some(0x0071u16),
        KeyCode::ArrowRight => Some(0x0072u16),
        KeyCode::End => Some(0x0073u16),
        KeyCode::ArrowDown => Some(0x0074u16),
        KeyCode::PageDown => Some(0x0075u16),
        KeyCode::Insert => Some(0x0076u16),
        KeyCode::Delete => Some(0x0077u16),
        KeyCode::AudioVolumeMute => Some(0x0079u16),
        KeyCode::AudioVolumeDown => Some(0x007Au16),
        KeyCode::AudioVolumeUp => Some(0x007Bu16),
        KeyCode::NumpadEqual => Some(0x007Du16),
        KeyCode::Pause => Some(0x007Fu16),
        KeyCode::NumpadComma => Some(0x0081u16),
        KeyCode::Lang1 => Some(0x0082u16),
        KeyCode::Lang2 => Some(0x0083u16),
        KeyCode::IntlYen => Some(0x0084u16),
        KeyCode::MetaLeft => Some(0x0085u16),
        KeyCode::MetaRight => Some(0x0086u16),
        KeyCode::ContextMenu => Some(0x0087u16),
        KeyCode::BrowserStop => Some(0x0088u16),
        KeyCode::Again => Some(0x0089u16),
        KeyCode::Props => Some(0x008Au16),
        KeyCode::Undo => Some(0x008Bu16),
        KeyCode::Select => Some(0x008Cu16),
        KeyCode::Copy => Some(0x008Du16),
        KeyCode::Open => Some(0x008Eu16),
        KeyCode::Paste => Some(0x008Fu16),
        KeyCode::Find => Some(0x0090u16),
        KeyCode::Cut => Some(0x0091u16),
        KeyCode::Help => Some(0x0092u16),
        KeyCode::LaunchApp2 => Some(0x0094u16),
        KeyCode::WakeUp => Some(0x0097u16),
        KeyCode::LaunchApp1 => Some(0x0098u16),
        KeyCode::LaunchMail => Some(0x00A3u16),
        KeyCode::BrowserFavorites => Some(0x00A4u16),
        KeyCode::BrowserBack => Some(0x00A6u16),
        KeyCode::BrowserForward => Some(0x00A7u16),
        KeyCode::Eject => Some(0x00A9u16),
        KeyCode::MediaTrackNext => Some(0x00ABu16),
        KeyCode::MediaPlayPause => Some(0x00ACu16),
        KeyCode::MediaTrackPrevious => Some(0x00ADu16),
        KeyCode::MediaStop => Some(0x00AEu16),
        KeyCode::MediaSelect => Some(0x00B3u16),
        KeyCode::BrowserHome => Some(0x00B4u16),
        KeyCode::BrowserRefresh => Some(0x00B5u16),
        KeyCode::BrowserSearch => Some(0x00E1u16),
        _ => None,
    }
}

/// The hardware key code that the key `keycode` is sent to the server as.
pub fn code_to_hardware_keycode(keycode: KeyCode) -> (r: Option<u16>)
    ensures
        r == spec_code_to_hardware_keycode(keycode),
{
    let hw_keycode: u16 = match keycode {
        KeyCode::Escape => 0x0009,
        KeyCode::Digit1 => 0x000A,
        KeyCode::Digit2 => 0x000B,
        KeyCode::Digit3 => 0x000C,
        KeyCode::Digit4 => 0x000D,
        KeyCode::Digit5 => 0x000E,
        KeyCode::Digit6 => 0x000F,
        KeyCode::Digit7 => 0x0010,
        KeyCode::Digit8 => 0x0011,
        KeyCode::Digit9 => 0x0012,
        KeyCode::Digit0 => 0x0013,
        KeyCode::Minus => 0x0014,
        KeyCode::Equal => 0x0015,
        KeyCode::Backspace => 0x0016,
        KeyCode::Tab => 0x0017,
        KeyCode::KeyQ => 0x0018,
        KeyCode::KeyW => 0x0019,
        KeyCode::KeyE => 0x001A,
        KeyCode::KeyR => 0x001B,
        KeyCode::KeyT => 0x001C,
        KeyCode::KeyY => 0x001D,
        KeyCode::KeyU => 0x001E,
        KeyCode::KeyI => 0x001F,
        KeyCode::KeyO => 0x0020,
        KeyCode::KeyP => 0x0021,
        KeyCode::BracketLeft => 0x0022,
        KeyCode::BracketRight => 0x0023,
        KeyCode::Enter => 0x0024,
        KeyCode::ControlLeft => 0x0025,
        KeyCode::KeyA => 0x0026,
        KeyCode::KeyS => 0x0027,
        KeyCode::KeyD => 0x0028,
        KeyCode::KeyF => 0x0029,
        KeyCode::KeyG => 0x002A,
        KeyCode::KeyH => 0x002B,
        KeyCode::KeyJ => 0x002C,
        KeyCode::KeyK => 0x002D,
        KeyCode::KeyL => 0x002E,
        KeyCode::Semicolon => 0x002F,
        KeyCode::Quote => 0x0030,
        KeyCode::Backquote => 0x0031,
        KeyCode::ShiftLeft => 0x0032,
        KeyCode::Backslash => 0x0033,
        KeyCode::KeyZ => 0x0034,
        KeyCode::KeyX => 0x0035,
        KeyCode::KeyC => 0x0036,
        KeyCode::KeyV => 0x0037,
        KeyCode::KeyB => 0x0038,
        KeyCode::KeyN => 0x0039,
        KeyCode::KeyM => 0x003A,
        KeyCode::Comma => 0x003B,
        KeyCode::Period => 0x003C,
        KeyCode::Slash => 0x003D,
        KeyCode::ShiftRight => 0x003E,
        KeyCode::NumpadMultiply => 0x003F,
        KeyCode::AltLeft => 0x0040,
        KeyCode::Space => 0x0041,
        KeyCode::CapsLock => 0x0042,
        KeyCode::F1 => 0x0043,
        KeyCode::F2 => 0x0044,
        KeyCode::F3 => 0x0045,
        KeyCode::F4 => 0x0046,
        KeyCode::F5 => 0x0047,
        KeyCode::F6 => 0x0048,
        KeyCode::F7 => 0x0049,
        KeyCode::F8 => 0x004A,
        KeyCode::F9 => 0x004B,
        KeyCode::F10 => 0x004C,
        KeyCode::NumLock => 0x004D,
        KeyCode::ScrollLock => 0x004E,
        KeyCode::Numpad7 => 0x004F,
        KeyCode::Numpad8 => 0x0050,
        KeyCode::Numpad9 => 0x0051,
        KeyCode::NumpadSubtract => 0x0052,
        KeyCode::Numpad4 => 0x0053,
        KeyCode::Numpad5 => 0x0054,
        KeyCode::Numpad6 => 0x0055,
        KeyCode::NumpadAdd => 0x0056,
        KeyCode::Numpad1 => 0x0057,
        KeyCode::Numpad2 => 0x0058,
        KeyCode::Numpad3 => 0x0059,
        KeyCode::Numpad0 => 0x005A,
        KeyCode::NumpadDecimal => 0x005B,
        KeyCode::IntlBackslash => 0x005E,
        KeyCode::F11 => 0x005F,
        KeyCode::F12 => 0x0060,
        KeyCode::IntlRo => 0x0061,
        KeyCode::Convert => 0x0064,
        KeyCode::KanaMode => 0x0065,
        KeyCode::NonConvert => 0x0066,
        KeyCode::NumpadEnter => 0x0068,
        KeyCode::ControlRight => 0x0069,
        KeyCode::NumpadDivide => 0x006A,
        KeyCode::PrintScreen => 0x006B,
        KeyCode::AltRight => 0x006C,
        KeyCode::Home => 0x006E,
        KeyCode::ArrowUp => 0x006F,
        KeyCode::PageUp => 0x0070,
        KeyCode::ArrowLeft => 0x0071,
        KeyCode::ArrowRight => 0x0072,
        KeyCode::End => 0x0073,
        KeyCode::ArrowDown => 0x0074,
        KeyCode::PageDown => 0x0075,
        KeyCode::Insert => 0x0076,
        KeyCode::Delete => 0x0077,
        KeyCode::AudioVolumeMute => 0x0079,
        KeyCode::AudioVolumeDown => 0x007A,
        KeyCode::AudioVolumeUp => 0x007B,
        KeyCode::NumpadEqual => 0x007D,
        KeyCode::Pause => 0x007F,
        KeyCode::NumpadComma => 0x0081,
        KeyCode::Lang1 => 0x0082,
        KeyCode::Lang2 => 0x0083,
        KeyCode::IntlYen => 0x0084,
        KeyCode::MetaLeft => 0x0085,
        KeyCode::MetaRight => 0x0086,
        KeyCode::ContextMenu => 0x0087,
        KeyCode::BrowserStop => 0x0088,
        KeyCode::Again => 0x0089,
        KeyCode::Props => 0x008A,
        KeyCode::Undo => 0x008B,
        KeyCode::Select => 0x008C,
        KeyCode::Copy => 0x008D,
        KeyCode::Open => 0x008E,
        KeyCode::Paste => 0x008F,
        KeyCode::Find => 0x0090,
        KeyCode::Cut => 0x0091,
        KeyCode::Help => 0x0092,
        KeyCode::LaunchApp2 => 0x0094,
        KeyCode::WakeUp => 0x0097,
        KeyCode::LaunchApp1 => 0x0098,
        KeyCode::LaunchMail => 0x00A3,
        KeyCode::BrowserFavorites => 0x00A4,
        KeyCode::BrowserBack => 0x00A6,
        KeyCode::BrowserForward => 0x00A7,
        KeyCode::Eject => 0x00A9,
        KeyCode::MediaTrackNext => 0x00AB,
        KeyCode::MediaPlayPause => 0x00AC,
        KeyCode::MediaTrackPrevious => 0x00AD,
        KeyCode::MediaStop => 0x00AE,
        KeyCode::MediaSelect => 0x00B3,
        KeyCode::BrowserHome => 0x00B4,
        KeyCode::BrowserRefresh => 0x00B5,
        KeyCode::BrowserSearch => 0x00E1,
        KeyCode::Unidentified => {
            return None;
        },
        KeyCode::Other => {
            return None;
        },
    };
    Some(hw_keycode)
}

/// The keys that the portable client has sent, by hardware key code: a key
/// is marked when it is pressed and, as that client does, when it is
/// released too; every marked key is sent as released when the window
/// loses the focus.
pub struct KeyMarks {
    marks: Vec<bool>,
}

impl View for KeyMarks {
    type V = Seq<bool>;

    closed spec fn view(&self) -> Seq<bool> {
        self.marks@
    }
}

impl KeyMarks {
    /// One mark per key code.
    pub open spec fn wf(&self) -> bool {
        self@.len() == 256
    }

    /// No key marked.
    pub fn new() -> (k: Self)
        ensures
            k@ == Seq::new(256, |i: int| false),
            k.wf(),
    {
        let k = KeyMarks { marks: vec![false; 256] };
        assert(k.marks@ =~= Seq::new(256, |i: int| false));
        k
    }

    /// Whether the key `code` is marked.
    pub fn is_marked(&self, code: u8) -> (b: bool)
        requires
            self.wf(),
        ensures
            b == self@[code as int],
    {
        self.marks[code as usize]
    }

    /// The key `code` went down (`down`) or up: the message for the
    /// server, and the key marked; nothing for a key with no hardware code.
    pub fn key_event(&mut self, code: KeyCode, down: bool) -> (r: Option<ClientMessage>)
        requires
            old(self).wf(),
        ensures
            final(self).wf(),
            match spec_code_to_hardware_keycode(code) {
                Some(h) => r == Some(ClientMessage::Key { keycode: h as u32, down }) && final(self)@ == old(
                    self,
                )@.update(h as int, true),
                None => r is None && final(self)@ == old(self)@,
            },
    {
        match code_to_hardware_keycode(code) {
            Some(h) => {
                self.marks.set(h as usize, true);
                Some(ClientMessage::Key { keycode: h as u32, down })
            },
            None => None,
        }
    }

    /// The window lost the focus: every marked key is sent as released, by
    /// increasing code, and no key stays marked.
    pub fn lost_focus(&mut self) -> (released: Vec<ClientMessage>)
        requires
            old(self).wf(),
        ensures
            final(self).wf(),
            released@ == release_messages(held_keys(old(self)@)),
            final(self)@ == Seq::new(256, |i: int| false),
    {
        let ghost k0 = self.marks@;
        let mut released: Vec<ClientMessage> = Vec::new();
        let mut i: usize = 0;
        while i < 256
            invariant
                i <= 256,
                self.marks@.len() == 256,
                k0.len() == 256,
                released@ == release_messages(held_keys(k0.subrange(0, i as int))),
                forall|j: int| 0 <= j < i ==> !self.marks@[j],
                forall|j: int| i <= j < 256 ==> self.marks@[j] == k0[j],
            decreases 256 - i,
        {
            proof {
                assert(k0.subrange(0, i as int + 1).drop_last() =~= k0.subrange(0, i as int));
            }
            if self.marks[i] {
                self.marks.set(i, false);
                released.push(ClientMessage::Key { keycode: i as u32, down: false });
            }
            i = i + 1;
            assert(released@ =~= release_messages(held_keys(k0.subrange(0, i as int))));
        }
        assert(k0.subrange(0, 256) =~= k0);
        assert(self.marks@ =~= Seq::new(256, |i: int| false));
        released
    }
}

/// Law: the letters, digits, escape, tab, backspace, enter and space of
/// the portable client are sent as the hardware key codes of the same
/// physical keys: the key code of each gives back, through the scan code
/// table, the PS/2 set 1 scan code of that key (for instance `KeyS` gives
/// 0x1f and `KeyD` 0x20).
pub proof fn lemma_code_scancodes(code: KeyCode)
    ensures
        code == KeyCode::Digit1 ==> (spec_code_to_hardware_keycode(code) matches Some(hw) && spec_keycode_to_scancode(
            hw as u32,
        ) == Some((0x02u16, false))),
        code == KeyCode::Digit2 ==> (spec_code_to_hardware_keycode(code) matches Some(hw) && spec_keycode_to_scancode(
            hw as u32,
        ) == Some((0x03u16, false))),
        code == KeyCode::Digit3 ==> (spec_code_to_hardware_keycode(code) matches Some(hw) && spec_keycode_to_scancode(
            hw as u32,
        ) == Some((0x04u16, false))),
        code == KeyCode::Digit4 ==> (spec_code_to_hardware_keycode(code) matches Some(hw) && spec_keycode_to_scancode(
            hw as u32,
        ) == Some((0x05u16, false))),
        code == KeyCode::Digit5 ==> (spec_code_to_hardware_keycode(code) matches Some(hw) && spec_keycode_to_scancode(
            hw as u32,
        ) == Some((0x06u16, false))),
        code == KeyCode::Digit6 ==> (spec_code_to_hardware_keycode(code) matches Some(hw) && spec_keycode_to_scancode(
            hw as u32,
        ) == Some((0x07u16, false))),
        code == KeyCode::Digit7 ==> (spec_code_to_hardware_keycode(code) matches Some(hw) && spec_keycode_to_scancode(
            hw as u32,
        ) == Some((0x08u16, false))),
        code == KeyCode::Digit8 ==> (spec_code_to_hardware_keycode(code) matches Some(hw) && spec_keycode_to_scancode(
            hw as u32,
        ) == Some((0x09u16, false))),
        code == KeyCode::Digit9 ==> (spec_code_to_hardware_keycode(code) matches Some(hw) && spec_keycode_to_scancode(
            hw as u32,
        ) == Some((0x0au16, false))),
        code == KeyCode::Digit0 ==> (spec_code_to_hardware_keycode(code) matches Some(hw) && spec_keycode_to_scancode(
            hw as u32,
        ) == Some((0x0bu16, false))),
        code == KeyCode::KeyQ ==> (spec_code_to_hardware_keycode(code) matches Some(hw) && spec_keycode_to_scancode(
            hw as u32,
        ) == Some((0x10u16, false))),
        code == KeyCode::KeyW ==> (spec_code_to_hardware_keycode(code) matches Some(hw) && spec_keycode_to_scancode(
            hw as u32,
        ) == Some((0x11u16, false))),
        code == KeyCode::KeyE ==> (spec_code_to_hardware_keycode(code) matches Some(hw) && spec_keycode_to_scancode(
            hw as u32,
        ) == Some((0x12u16, false))),
        code == KeyCode::KeyR ==> (spec_code_to_hardware_keycode(code) matches Some(hw) && spec_keycode_to_scancode(
            hw as u32,
        ) == Some((0x13u16, false))),
        code == KeyCode::KeyT ==> (spec_code_to_hardware_keycode(code) matches Some(hw) && spec_keycode_to_scancode(
            hw as u32,
        ) == Some((0x14u16, false))),
        code == KeyCode::KeyY ==> (spec_code_to_hardware_keycode(code) matches Some(hw) && spec_keycode_to_scancode(
            hw as u32,
        ) == Some((0x15u16, false))),
        code == KeyCode::KeyU ==> (spec_code_to_hardware_keycode(code) matches Some(hw) && spec_keycode_to_scancode(
            hw as u32,
        ) == Some((0x16u16, false))),
        code == KeyCode::KeyI ==> (spec_code_to_hardware_keycode(code) matches Some(hw) && spec_keycode_to_scancode(
            hw as u32,
        ) == Some((0x17u16, false))),
        code == KeyCode::KeyO ==> (spec_code_to_hardware_keycode(code) matches Some(hw) && spec_keycode_to_scancode(
            hw as u32,
        ) == Some((0x18u16, false))),
        code == KeyCode::KeyP ==> (spec_code_to_hardware_keycode(code) matches Some(hw) && spec_keycode_to_scancode(
            hw as u32,
        ) == Some((0x19u16, false))),
        code == KeyCode::KeyA ==> (spec_code_to_hardware_keycode(code) matches Some(hw) && spec_keycode_to_scancode(
            hw as u32,
        ) == Some((0x1eu16, false))),
        code == KeyCode::KeyS ==> (spec_code_to_hardware_keycode(code) matches Some(hw) && spec_keycode_to_scancode(
            hw as u32,
        ) == Some((0x1fu16, false))),
        code == KeyCode::KeyD ==> (spec_code_to_hardware_keycode(code) matches Some(hw) && spec_keycode_to_scancode(
            hw as u32,
        ) == Some((0x20u16, false))),
        code == KeyCode::KeyF ==> (spec_code_to_hardware_keycode(code) matches Some(hw) && spec_keycode_to_scancode(
            hw as u32,
        ) == Some((0x21u16, false))),
        code == KeyCode::KeyG ==> (spec_code_to_hardware_keycode(code) matches Some(hw) && spec_keycode_to_scancode(
            hw as u32,
        ) == Some((0x22u16, false))),
        code == KeyCode::KeyH ==> (spec_code_to_hardware_keycode(code) matches Some(hw) && spec_keycode_to_scancode(
            hw as u32,
        ) == Some((0x23u16, false))),
        code == KeyCode::KeyJ ==> (spec_code_to_hardware_keycode(code) matches Some(hw) && spec_keycode_to_scancode(
            hw as u32,
        ) == Some((0x24u16, false))),
        code == KeyCode::KeyK ==> (spec_code_to_hardware_keycode(code) matches Some(hw) && spec_keycode_to_scancode(
            hw as u32,
        ) == Some((0x25u16, false))),
        code == KeyCode::KeyL ==> (spec_code_to_hardware_keycode(code) matches Some(hw) && spec_keycode_to_scancode(
            hw as u32,
        ) == Some((0x26u16, false))),
        code == KeyCode::KeyZ ==> (spec_code_to_hardware_keycode(code) matches Some(hw) && spec_keycode_to_scancode(
            hw as u32,
        ) == Some((0x2cu16, false))),
        code == KeyCode::KeyX ==> (spec_code_to_hardware_keycode(code) matches Some(hw) && spec_keycode_to_scancode(
            hw as u32,
        ) == Some((0x2du16, false))),
        code == KeyCode::KeyC ==> (spec_code_to_hardware_keycode(code) matches Some(hw) && spec_keycode_to_scancode(
            hw as u32,
        ) == Some((0x2eu16, false))),
        code == KeyCode::KeyV ==> (spec_code_to_hardware_keycode(code) matches Some(hw) && spec_keycode_to_scancode(
            hw as u32,
        ) == Some((0x2fu16, false))),
        code == KeyCode::KeyB ==> (spec_code_to_hardware_keycode(code) matches Some(hw) && spec_keycode_to_scancode(
            hw as u32,
        ) == Some((0x30u16, false))),
        code == KeyCode::KeyN ==> (spec_code_to_hardware_keycode(code) matches Some(hw) && spec_keycode_to_scancode(
            hw as u32,
        ) == Some((0x31u16, false))),
        code == KeyCode::KeyM ==> (spec_code_to_hardware_keycode(code) matches Some(hw) && spec_keycode_to_scancode(
            hw as u32,
        ) == Some((0x32u16, false))),
        code == KeyCode::Escape ==> (spec_code_to_hardware_keycode(code) matches Some(hw) && spec_keycode_to_scancode(
            hw as u32,
        ) == Some((0x01u16, false))),
        code == KeyCode::Enter ==> (spec_code_to_hardware_keycode(code) matches Some(hw) && spec_keycode_to_scancode(
            hw as u32,
        ) == Some((0x1cu16, false))),
        code == KeyCode::Space ==> (spec_code_to_hardware_keycode(code) matches Some(hw) && spec_keycode_to_scancode(
            hw as u32,
        ) == Some((0x39u16, false))),
        code == KeyCode::Tab ==> (spec_code_to_hardware_keycode(code) matches Some(hw) && spec_keycode_to_scancode(
            hw as u32,
        ) == Some((0x0fu16, false))),
        code == KeyCode::Backspace ==> (spec_code_to_hardware_keycode(code) matches Some(hw) && spec_keycode_to_scancode(
            hw as u32,
        ) == Some((0x0eu16, false))),
{
}

} // verus!
