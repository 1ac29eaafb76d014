//! The decisions of the server and client main loops: the transport a
//! server listens on, the version handshake, the frames a client accepts,
//! and when the server changes its resolution.

use crate::utils::{ServerEvent, MAX_BYTES_PER_LINE, MAX_WINDOW_HEIGHT, MAX_WINDOW_WIDTH};
use vstd::prelude::*;

verus! {

/// Why a session stops.
#[derive(Debug, Clone, Copy, PartialEq, Eq)]
pub enum SessionError {
    /// More than one transport was asked for.
    TransportArguments,
    /// The peers do not speak the same protocol version.
    VersionMismatch,
    /// A frame is larger than the largest window.
    ImageTooBig(u32, u32),
    /// A raw frame has longer lines than accepted.
    BytesPerLineTooBig(u32),
}

/// The transport a server accepts its client on.
#[derive(Debug, Clone, Copy, PartialEq, Eq)]
pub enum Transport {
    Tcp,
    Vsock,
    UnixSocket,
    Stdio,
}

/// Picks the transport from the three switches of the server: at most one
/// may be set, and none means TCP.
pub fn select_transport(vsock: bool, stdio: bool, unixsock: bool) -> (res: Result<Transport, SessionError>)
    ensures
        !vsock && !stdio && !unixsock ==> res == Ok::<Transport, SessionError>(Transport::Tcp),
        vsock && !stdio && !unixsock ==> res == Ok::<Transport, SessionError>(Transport::Vsock),
        !vsock && !stdio && unixsock ==> res == Ok::<Transport, SessionError>(Transport::UnixSocket),
        !vsock && stdio && !unixsock ==> res == Ok::<Transport, SessionError>(Transport::Stdio),
        (vsock as int) + (stdio as int) + (unixsock as int) > 1 ==> res == Err::<Transport, SessionError>(
            SessionError::TransportArguments,
        ),
{
    match (vsock, stdio, unixsock) {
        (true, false, false) => Ok(Transport::Vsock),
        (false, false, true) => Ok(Transport::UnixSocket),
        (false, true, false) => Ok(Transport::Stdio),
        (false, false, false) => Ok(Transport::Tcp),
        _ => Err(SessionError::TransportArguments),
    }
}

/// Accepts the peer's protocol version only when it is ours.
pub fn check_version(ours: &str, theirs: &str) -> (res: Result<(), SessionError>)
    ensures
        ours@ == theirs@ ==> res is Ok,
        ours@ != theirs@ ==> res == Err::<(), SessionError>(SessionError::VersionMismatch),
{
    let a = ours.to_owned();
    let b = theirs.to_owned();
    if a == b {
        Ok(())
    } else {
        Err(SessionError::VersionMismatch)
    }
}

/// `x` with its lowest bit cleared: screens and codecs take even sizes.
pub open spec fn spec_even(x: u32) -> u32 {
    (x - x % 2) as u32
}

/// Makes a size even.
pub fn even(x: u32) -> (r: u32)
    ensures
        r == spec_even(x),
        r % 2 == 0,
        r <= x < r + 2,
{
    let r = x & !1u32;
    assert(x & !1u32 == x - x % 2) by (bit_vector);
    r
}

/// The resolution asked for by the last request among `events`, made even.
pub open spec fn last_request(events: Seq<ServerEvent>, prev: Option<(u32, u32)>) -> Option<(u32, u32)> {
    if events.len() == 0 {
        prev
    } else {
        match events.last() {
            ServerEvent::ResolutionChange(w, h) => Some((spec_even(w), spec_even(h))),
        }
    }
}

/// Keeps the resolution that the client's events ask for, to be applied at
/// the next round: the last request wins, made even; with no request, the
/// pending one stays.
pub fn take_resolution_requests(events: Vec<ServerEvent>, pending: Option<(u32, u32)>) -> (r: Option<
    (u32, u32),
>)
    ensures
        r == last_request(events@, pending),
{
    let mut new_size = pending;
    let mut i: usize = 0;
    while i < events.len()
        invariant
            i <= events@.len(),
            new_size == last_request(events@.subrange(0, i as int), pending),
        decreases events@.len() - i,
    {
        match &events[i] {
            ServerEvent::ResolutionChange(width, height) => {
                new_size = Some((even(*width), even(*height)));
            },
        }
        proof {
            let s = events@.subrange(0, i as int + 1);
            assert(s.last() == events@[i as int]);
        }
        i = i + 1;
    }
    assert(events@.subrange(0, events@.len() as int) =~= events@);
    new_size
}

/// The server changes its resolution to the one asked for only when it
/// differs from the current one, neither side is zero, and the server is
/// allowed to change it.
pub open spec fn spec_should_change_resolution(
    requested: (u32, u32),
    current: Option<(u32, u32)>,
    keep_server_resolution: bool,
) -> bool {
    &&& current != Some(requested)
    &&& requested.0 != 0
    &&& requested.1 != 0
    &&& !keep_server_resolution
}

/// Whether the server changes its resolution to `requested`.
pub fn should_change_resolution(
    requested: (u32, u32),
    current: Option<(u32, u32)>,
    keep_server_resolution: bool,
) -> (r: bool)
    ensures
        r == spec_should_change_resolution(requested, current, keep_server_resolution),
        r <==> (current != Some(requested) && requested.0 != 0 && requested.1 != 0
            && !keep_server_resolution),
{
    let same = match current {
        Some((w, h)) => w == requested.0 && h == requested.1,
        None => false,
    };
    !same && requested.0 != 0 && requested.1 != 0 && !keep_server_resolution
}

/// Accepts a frame sent by the server: its size must fit in the largest
/// window, and a raw frame's lines must not be longer than accepted.
/// Gives back the size, and the line length as the decoder takes it.
pub fn check_frame(width: u32, height: u32, bytes_per_line: Option<u32>) -> (res: Result<
    (u32, u32, Option<u16>),
    SessionError,
>)
    ensures
        !(width <= MAX_WINDOW_WIDTH && height <= MAX_WINDOW_HEIGHT) ==> res == Err::<
            (u32, u32, Option<u16>),
            SessionError,
        >(SessionError::ImageTooBig(width, height)),
        width <= MAX_WINDOW_WIDTH && height <= MAX_WINDOW_HEIGHT ==> match bytes_per_line {
            None => res == Ok::<(u32, u32, Option<u16>), SessionError>((width, height, None)),
            Some(b) => if b > MAX_BYTES_PER_LINE {
                res == Err::<(u32, u32, Option<u16>), SessionError>(
                    SessionError::BytesPerLineTooBig(b),
                )
            } else {
                res == Ok::<(u32, u32, Option<u16>), SessionError>(
                    (width, height, Some(b as u16)),
                )
            },
        },
{
    if width > MAX_WINDOW_WIDTH || height > MAX_WINDOW_HEIGHT {
        return Err(SessionError::ImageTooBig(width, height));
    }
    match bytes_per_line {
        None => Ok((width, height, None)),
        Some(b) => {
            if b > MAX_BYTES_PER_LINE {
                Err(SessionError::BytesPerLineTooBig(b))
            } else {
                Ok((width, height, Some(b as u16)))
            }
        },
    }
}

/// Frames per second shown in the statistics: one second divided by the
/// time of the last frame, in microseconds; none for a zero time.
pub fn frames_per_second(frame_time_micro: u128) -> (r: Option<u128>)
    ensures
        frame_time_micro == 0 ==> r is None,
        frame_time_micro > 0 ==> r == Some((1_000_000u128 / frame_time_micro) as u128),
{
    if frame_time_micro == 0 {
        None
    } else {
        Some(1_000_000 / frame_time_micro)
    }
}

/// What the server sends of the screen this round.
#[derive(Debug, Clone, Copy, PartialEq, Eq)]
pub enum FramePlan {
    /// The screen has not changed for too long: no image.
    Skip,
    /// Images are not extracted: an empty raw image of the screen's size.
    EmptyRaw,
    /// The frame is encoded and sent: raw (`raw`), with its data unless the
    /// video goes through shared memory (`with_data`), or encoded.
    Encode { raw: bool, with_data: bool },
}

/// Counts the rounds since the screen last changed.
pub struct StallCounter {
    frozen: u32,
}

impl StallCounter {
    /// Rounds since the screen last changed.
    pub closed spec fn spec_frozen(&self) -> u32 {
        self.frozen
    }

    /// No round yet.
    pub fn new() -> (c: Self)
        ensures
            c.spec_frozen() == 0,
    {
        StallCounter { frozen: 0 }
    }

    /// Rounds since the screen last changed.
    pub fn frozen(&self) -> (n: u32)
        ensures
            n == self.spec_frozen(),
    {
        self.frozen
    }

    /// Ends a round: the count restarts when the screen changed, else it
    /// goes up by one (wrapping around after `u32::MAX`).
    pub fn after_poll(&mut self, modified: bool)
        ensures
            modified ==> final(self).spec_frozen() == 0,
            !modified ==> final(self).spec_frozen() == (old(self).spec_frozen() + 1) % 0x1_0000_0000,
    {
        if modified {
            self.frozen = 0;
        } else {
            self.frozen = self.frozen.wrapping_add(1);
        }
    }

    /// The client asked for a new resolution: the next image is sent, at
    /// the new size.
    pub fn reset(&mut self)
        ensures
            final(self).spec_frozen() == 0,
    {
        self.frozen = 0;
    }

    /// What is sent of the screen this round: nothing once it has not
    /// changed for more than `max_stall_img` rounds; else an empty raw
    /// image when images are not extracted; else the encoded frame.
    pub fn plan(&self, max_stall_img: u32, avoid_img_extraction: bool, raw_encoder: bool, exported: bool) -> (p:
        FramePlan)
        ensures
            self.spec_frozen() > max_stall_img ==> p == FramePlan::Skip,
            self.spec_frozen() <= max_stall_img && avoid_img_extraction ==> p == FramePlan::EmptyRaw,
            self.spec_frozen() <= max_stall_img && !avoid_img_extraction ==> p == (FramePlan::Encode {
                raw: raw_encoder,
                with_data: !(raw_encoder && exported),
            }),
    {
        if self.frozen > max_stall_img {
            FramePlan::Skip
        } else if avoid_img_extraction {
            FramePlan::EmptyRaw
        } else {
            FramePlan::Encode { raw: raw_encoder, with_data: !(raw_encoder && exported) }
        }
    }
}

/// What the server does when a session with a client has ended.
#[derive(Debug, Clone, Copy, PartialEq, Eq)]
pub enum RunnerAction {
    /// Report the session's error, if any, and serve a new client.
    ServeAgain,
    /// Stop, with the session's outcome.
    Stop,
}

/// What the server does after a session: when it keeps listening, it
/// serves a new client whatever the outcome (an error is only reported);
/// otherwise it stops with the outcome of the one session it served.
pub fn after_session(keep_listening: bool) -> (a: RunnerAction)
    ensures
        keep_listening ==> a == RunnerAction::ServeAgain,
        !keep_listening ==> a == RunnerAction::Stop,
{
    if keep_listening {
        RunnerAction::ServeAgain
    } else {
        RunnerAction::Stop
    }
}

/// Law: a request for a resolution other than the current one changes it,
/// whichever side differs (width, height or both), when neither side asked
/// for is zero and the server may change; a request for the current
/// resolution, a zero side, or a server that keeps its resolution changes
/// nothing. Without a known current resolution, any non-zero request is
/// taken.
pub proof fn lemma_resolution_change(requested: (u32, u32), current: Option<(u32, u32)>, keep: bool)
    ensures
        current matches Some((w, h)) ==> (w != requested.0 || h != requested.1) && requested.0 != 0
            && requested.1 != 0 && !keep ==> spec_should_change_resolution(requested, current, keep),
        current is None && requested.0 != 0 && requested.1 != 0 && !keep ==> spec_should_change_resolution(
            requested,
            current,
            keep,
        ),
        current == Some(requested) ==> !spec_should_change_resolution(requested, current, keep),
        requested.0 == 0 || requested.1 == 0 || keep ==> !spec_should_change_resolution(
            requested,
            current,
            keep,
        ),
{
}

} // verus!
