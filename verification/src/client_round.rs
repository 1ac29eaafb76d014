//! What the client does with the messages that the server sends in one
//! round: the last frame is the one shown, a frame too large ends the
//! session, sound, clipboard, cursor, notifications and print requests are
//! handed on in order, area updates are collected, and the last statistics
//! are kept.

use crate::areas::{client_area, spec_client_area, AreaUpdate, ClientArea};
use crate::notifications::Notification;
use crate::session::{check_frame, SessionError};
use crate::utils::{
    check_cusor_size, MAX_BYTES_PER_LINE, MAX_CURSOR_HEIGHT, MAX_CURSOR_WIDTH, MAX_WINDOW_HEIGHT, MAX_WINDOW_WIDTH,
};
use vstd::prelude::*;

verus! {

/// A message of the server.
#[derive(Debug)]
pub enum ServerMessage {
    /// A frame, encoded.
    ImgEncoded { data: Vec<u8>, width: u32, height: u32 },
    /// A frame, raw, with its line length.
    ImgRaw { data: Vec<u8>, width: u32, height: u32, bytes_per_line: u32 },
    /// Encoded sound packets.
    SoundEncoded(Vec<Vec<u8>>),
    /// The server's clipboard.
    Clipboard(String),
    /// The server's cursor, with its hot spot.
    Cursor { data: Vec<u8>, width: u32, height: u32, xhot: u32, yhot: u32 },
    /// The state of a server window.
    AreaUpdt(AreaUpdate),
    /// A desktop notification.
    Notifications(Vec<Notification>),
    /// A file to print.
    Printfile(String),
    /// The server's statistics line.
    Stats(String),
    /// A message with nothing in it.
    Empty,
}

/// What the client does for a message of the server.
#[derive(Debug)]
pub enum ClientAction {
    /// Plays these sound packets, in order.
    PlaySound(Vec<Vec<u8>>),
    SetClipboard(String),
    /// Sets the cursor; its size and hot spot were checked.
    SetCursor { data: Vec<u8>, width: u32, height: u32, xhot: u16, yhot: u16 },
    /// Shows a notification made of these pieces.
    Notify(Vec<Notification>),
    PrintFile(String),
}

/// A round in progress.
pub struct RoundSpec {
    /// What was handed on, in order.
    pub actions: Seq<ClientAction>,
    /// The area updates, in order.
    pub areas: Seq<ClientArea>,
    /// The last frame and its size.
    pub image: Option<(Vec<u8>, u32, u32)>,
    /// The line length of raw frames, which stands until the next raw frame.
    pub bytes_per_line: Option<u16>,
    /// The last statistics line.
    pub stats: String,
    /// Why the session ends, when a message makes it end.
    pub error: Option<SessionError>,
}

/// The round after the message `m`; nothing more is done once an error
/// ends the session.
pub open spec fn round_step(s: RoundSpec, m: ServerMessage) -> RoundSpec {
    if s.error is Some {
        s
    } else {
        match m {
            ServerMessage::ImgEncoded { data, width, height } => if width <= MAX_WINDOW_WIDTH && height
                <= MAX_WINDOW_HEIGHT {
                RoundSpec { image: Some((data, width, height)), ..s }
            } else {
                RoundSpec { error: Some(SessionError::ImageTooBig(width, height)), ..s }
            },
            ServerMessage::ImgRaw { data, width, height, bytes_per_line } => if !(width <= MAX_WINDOW_WIDTH
                && height <= MAX_WINDOW_HEIGHT) {
                RoundSpec { error: Some(SessionError::ImageTooBig(width, height)), ..s }
            } else if bytes_per_line > MAX_BYTES_PER_LINE {
                RoundSpec { error: Some(SessionError::BytesPerLineTooBig(bytes_per_line)), ..s }
            } else {
                RoundSpec {
                    image: Some((data, width, height)),
                    bytes_per_line: Some(bytes_per_line as u16),
                    ..s
                }
            },
            ServerMessage::SoundEncoded(p) => RoundSpec { actions: s.actions.push(ClientAction::PlaySound(p)), ..s },
            ServerMessage::Clipboard(c) => RoundSpec {
                actions: s.actions.push(ClientAction::SetClipboard(c)),
                ..s
            },
            ServerMessage::Cursor { data, width, height, xhot, yhot } => if width <= MAX_CURSOR_WIDTH && height
                <= MAX_CURSOR_HEIGHT && xhot <= MAX_CURSOR_WIDTH && yhot <= MAX_CURSOR_HEIGHT {
                RoundSpec {
                    actions: s.actions.push(
                        ClientAction::SetCursor { data, width, height, xhot: xhot as u16, yhot: yhot as u16 },
                    ),
                    ..s
                }
            } else {
                s
            },
            ServerMessage::AreaUpdt(u) => RoundSpec { areas: s.areas.push(spec_client_area(u)), ..s },
            ServerMessage::Notifications(n) => if n@.len() > 0 {
                RoundSpec { actions: s.actions.push(ClientAction::Notify(n)), ..s }
            } else {
                s
            },
            ServerMessage::Printfile(p) => RoundSpec { actions: s.actions.push(ClientAction::PrintFile(p)), ..s },
            ServerMessage::Stats(st) => RoundSpec { stats: st, ..s },
            ServerMessage::Empty => s,
        }
    }
}

/// The round after the messages `ms`, in order.
pub open spec fn round_fold(s: RoundSpec, ms: Seq<ServerMessage>) -> RoundSpec
    decreases ms.len(),
{
    if ms.len() == 0 {
        s
    } else {
        round_step(round_fold(s, ms.drop_last()), ms.last())
    }
}

/// What the client takes from a round of messages.
pub struct RoundOutcome {
    pub actions: Vec<ClientAction>,
    pub areas: Vec<ClientArea>,
    pub image: Option<(Vec<u8>, u32, u32)>,
    pub error: Option<SessionError>,
}

/// The client's state between rounds.
pub struct ClientSession {
    /// The size of the frames that the decoder is set for.
    pub img_width: u16,
    pub img_height: u16,
    /// The line length of raw frames.
    pub bytes_per_line: Option<u16>,
    /// The last statistics line of the server.
    pub stats: String,
}

/// The start of a round from the session `c`.
pub open spec fn round_start(c: ClientSession) -> RoundSpec {
    RoundSpec {
        actions: Seq::empty(),
        areas: Seq::empty(),
        image: None,
        bytes_per_line: c.bytes_per_line,
        stats: c.stats,
        error: None,
    }
}

impl ClientSession {
    /// A session whose decoder is set for frames of `width` x `height`.
    pub fn new(width: u16, height: u16) -> (c: Self)
        ensures
            c.img_width == width,
            c.img_height == height,
            c.bytes_per_line is None,
            c.stats@ == Seq::<char>::empty(),
    {
        ClientSession { img_width: width, img_height: height, bytes_per_line: None, stats: String::new() }
    }

    /// One message of the round.
    fn step(&mut self, m: ServerMessage, out: &mut RoundOutcome)
        requires
            old(out).error is None,
        ensures
            ({
                let s = RoundSpec {
                    actions: old(out).actions@,
                    areas: old(out).areas@,
                    image: old(out).image,
                    bytes_per_line: old(self).bytes_per_line,
                    stats: old(self).stats,
                    error: None,
                };
                let t = round_step(s, m);
                &&& final(out).actions@ == t.actions
                &&& final(out).areas@ == t.areas
                &&& final(out).image == t.image
                &&& final(out).error == t.error
                &&& final(self).bytes_per_line == t.bytes_per_line
                &&& final(self).stats == t.stats
                &&& final(self).img_width == old(self).img_width
                &&& final(self).img_height == old(self).img_height
            }),
    {
        match m {
            ServerMessage::ImgEncoded { data, width, height } => {
                match check_frame(width, height, None) {
                    Ok(_) => {
                        out.image = Some((data, width, height));
                    },
                    Err(e) => {
                        out.error = Some(e);
                    },
                }
            },
            ServerMessage::ImgRaw { data, width, height, bytes_per_line } => {
                match check_frame(width, height, Some(bytes_per_line)) {
                    Ok((_, _, b)) => {
                        out.image = Some((data, width, height));
                        self.bytes_per_line = b;
                    },
                    Err(e) => {
                        out.error = Some(e);
                    },
                }
            },
            ServerMessage::SoundEncoded(p) => {
                out.actions.push(ClientAction::PlaySound(p));
            },
            ServerMessage::Clipboard(c) => {
                out.actions.push(ClientAction::SetClipboard(c));
            },
            ServerMessage::Cursor { data, width, height, xhot, yhot } => {
                match check_cusor_size(width, height, xhot, yhot) {
                    Ok((w, h, x, y)) => {
                        out.actions.push(
                            ClientAction::SetCursor { data, width: w, height: h, xhot: x as u16, yhot: y as u16 },
                        );
                    },
                    Err(_) => {},
                }
            },
            ServerMessage::AreaUpdt(u) => {
                out.areas.push(client_area(&u));
            },
            ServerMessage::Notifications(n) => {
                if n.len() > 0 {
                    out.actions.push(ClientAction::Notify(n));
                }
            },
            ServerMessage::Printfile(p) => {
                out.actions.push(ClientAction::PrintFile(p));
            },
            ServerMessage::Stats(st) => {
                self.stats = st;
            },
            ServerMessage::Empty => {},
        }
    }

    /// One round: the messages `msgs` of the server, in order, until one
    /// ends the session.
    pub fn receive(&mut self, msgs: Vec<ServerMessage>) -> (out: RoundOutcome)
        ensures
            ({
                let fin = round_fold(round_start(*old(self)), msgs@);
                &&& out.actions@ == fin.actions
                &&& out.areas@ == fin.areas
                &&& out.image == fin.image
                &&& out.error == fin.error
                &&& final(self).bytes_per_line == fin.bytes_per_line
                &&& final(self).stats == fin.stats
                &&& final(self).img_width == old(self).img_width
                &&& final(self).img_height == old(self).img_height
            }),
    {
        let ghost all = msgs@;
        let ghost start = round_start(*self);
        let mut msgs = msgs;
        let total = msgs.len();
        let mut out = RoundOutcome { actions: Vec::new(), areas: Vec::new(), image: None, error: None };
        let mut done: usize = 0;
        while msgs.len() > 0
            invariant
                all.len() == total,
                done + msgs@.len() == all.len(),
                msgs@ == all.skip(done as int),
                start == round_start(*old(self)),
                ({
                    let s = round_fold(start, all.take(done as int));
                    &&& out.actions@ == s.actions
                    &&& out.areas@ == s.areas
                    &&& out.image == s.image
                    &&& out.error == s.error
                    &&& self.bytes_per_line == s.bytes_per_line
                    &&& self.stats == s.stats
                    &&& self.img_width == old(self).img_width
                    &&& self.img_height == old(self).img_height
                }),
            decreases msgs@.len(),
        {
            let m = msgs.remove(0);
            assert(all.take(done + 1).drop_last() =~= all.take(done as int));
            assert(all.take(done + 1).last() == m);
            if out.error.is_none() {
                self.step(m, &mut out);
            }
            done = done + 1;
            assert(msgs@ =~= all.skip(done as int));
        }
        assert(all.take(done as int) =~= all);
        out
    }

    /// A frame of `width` x `height` is to be shown: whether the decoder
    /// must be reloaded, because the size changed; the session then takes
    /// the new size.
    pub fn frame_size(&mut self, width: u32, height: u32) -> (reload: bool)
        ensures
            reload == (old(self).img_width != width as u16 || old(self).img_height != height as u16),
            final(self).img_width == width as u16,
            final(self).img_height == height as u16,
            final(self).bytes_per_line == old(self).bytes_per_line,
            final(self).stats == old(self).stats,
    {
        let w = width as u16;
        let h = height as u16;
        let reload = self.img_width != w || self.img_height != h;
        self.img_width = w;
        self.img_height = h;
        reload
    }
}

/// Once a message ends the session, the messages after it change nothing:
/// no action, area, frame, line length or statistics of theirs is taken.
pub proof fn lemma_error_ends_round(s: RoundSpec, ms: Seq<ServerMessage>, k: int)
    requires
        0 <= k <= ms.len(),
        round_fold(s, ms.take(k)).error is Some,
    ensures
        round_fold(s, ms) == round_fold(s, ms.take(k)),
    decreases ms.len() - k,
{
    if k < ms.len() {
        assert(ms.take(k + 1).drop_last() =~= ms.take(k));
        lemma_error_ends_round(s, ms, k + 1);
    } else {
        assert(ms.take(k) =~= ms);
    }
}

} // verus!
