//! Framing of the messages exchanged on the wire: each message is sent as
//! its length on eight bytes (little endian) followed by its bytes.

use crate::byte_order::{le_bytes_u64, le_u64_at, lemma_le_u64_roundtrip, read_u64_le, write_u64_le};
use vstd::prelude::*;

verus! {

/// Largest message a peer accepts (10 MiB).
pub const MAX_PACKET_LEN: usize = 10485760;

/// Why a frame is refused.
#[derive(Debug, Clone, Copy, PartialEq, Eq)]
pub enum FrameError {
    /// The header announces a message longer than `MAX_PACKET_LEN`.
    PacketTooBig,
    /// The buffer ends before the header or the message does.
    Truncated,
}

/// A frame: the length of `payload` on eight bytes, then `payload`.
pub open spec fn spec_frame(payload: Seq<u8>) -> Seq<u8> {
    le_bytes_u64(payload.len() as u64) + payload
}

/// What a buffer that starts with a frame holds: the message, or why it
/// cannot be read.
pub open spec fn spec_split_frame(buf: Seq<u8>) -> Result<Seq<u8>, FrameError> {
    if buf.len() < 8 {
        Err(FrameError::Truncated)
    } else if le_u64_at(buf, 0) > MAX_PACKET_LEN {
        Err(FrameError::PacketTooBig)
    } else if buf.len() < 8 + le_u64_at(buf, 0) {
        Err(FrameError::Truncated)
    } else {
        Ok(buf.subrange(8, 8 + le_u64_at(buf, 0)))
    }
}

/// Sends and receives length prefixed messages.
pub struct Tunnel {}

impl Tunnel {
    pub fn new() -> Self {
        Tunnel {  }
    }

    /// Builds the frame that carries `payload`.
    pub fn frame_message(&self, payload: &[u8]) -> (frame: Vec<u8>)
        requires
            payload@.len() <= u64::MAX,
        ensures
            frame@ == spec_frame(payload@),
    {
        let mut frame: Vec<u8> = vec![0u8; 8];
        write_u64_le(frame.as_mut_slice(), payload.len() as u64);
        let ghost header = frame@;
        let mut i: usize = 0;
        while i < payload.len()
            invariant
                i <= payload@.len(),
                header == le_bytes_u64(payload@.len() as u64),
                frame@ == header + payload@.subrange(0, i as int),
            decreases payload@.len() - i,
        {
            frame.push(payload[i]);
            i = i + 1;
            assert(frame@ =~= header + payload@.subrange(0, i as int));
        }
        assert(payload@.subrange(0, i as int) =~= payload@);
        frame
    }

    /// Reads the length announced by a frame header (its first eight bytes)
    /// and refuses it when it is above `MAX_PACKET_LEN`.
    pub fn parse_header(&self, header: &[u8]) -> (res: Result<usize, FrameError>)
        requires
            8 <= header@.len(),
        ensures
            le_u64_at(header@, 0) <= MAX_PACKET_LEN ==> res == Ok::<usize, FrameError>(
                le_u64_at(header@, 0) as usize,
            ),
            le_u64_at(header@, 0) > MAX_PACKET_LEN ==> res == Err::<usize, FrameError>(
                FrameError::PacketTooBig,
            ),
    {
        let len = read_u64_le(header);
        if len > MAX_PACKET_LEN as u64 {
            Err(FrameError::PacketTooBig)
        } else {
            Ok(len as usize)
        }
    }

    /// Takes the message out of a buffer that starts with a frame.
    pub fn split_frame(&self, buf: &[u8]) -> (res: Result<Vec<u8>, FrameError>)
        ensures
            match spec_split_frame(buf@) {
                Ok(m) => res matches Ok(v) && v@ == m,
                Err(e) => res == Err::<Vec<u8>, FrameError>(e),
            },
    {
        if buf.len() < 8 {
            return Err(FrameError::Truncated);
        }
        let len = match self.parse_header(buf) {
            Ok(len) => len,
            Err(e) => return Err(e),
        };
        if buf.len() - 8 < len {
            return Err(FrameError::Truncated);
        }
        let msg = vstd::slice::slice_subrange(buf, 8, 8 + len);
        Ok(vstd::slice::slice_to_vec(msg))
    }
}

/// Law: a message framed by `frame_message`, followed by anything the
/// stream holds next, is given back whole by `split_frame`.
pub proof fn lemma_frame_roundtrip(payload: Seq<u8>, rest: Seq<u8>)
    requires
        payload.len() <= MAX_PACKET_LEN,
    ensures
        spec_split_frame(spec_frame(payload) + rest) == Ok::<Seq<u8>, FrameError>(payload),
{
    let f = spec_frame(payload) + rest;
    lemma_le_u64_roundtrip(payload.len() as u64);
    assert(f.subrange(0, 8) =~= le_bytes_u64(payload.len() as u64));
    assert(le_u64_at(f, 0) == le_u64_at(le_bytes_u64(payload.len() as u64), 0));
    assert(f.subrange(8, 8 + payload.len() as int) =~= payload);
}

} // verus!
