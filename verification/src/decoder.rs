//! Frame decoder: consumes bytes from the producer stream and incrementally
//! reassembles exactly one well-formed frame, validating the magic byte, the
//! declared length and — for sensitive frames — the checksum.  The decoder
//! holds its accumulation buffer across calls, so a caller can poll it with
//! whatever fragments the stream happens to deliver.

use crate::checksum::{check_checksum, checksum_matches};
use crate::frame::{declared_payload_len, is_sensitive, lemma_encode_shape, payload_of, spec_encode_frame};
use crate::{HEADER_LEN, MAGIC_BYTE, MAX_FRAME_LEN, MAX_PAYLOAD_LEN, SENSITIVE_FLAG};
use vstd::prelude::*;

verus! {

/// Why a frame was rejected.
#[derive(Clone, Copy, Debug, PartialEq, Eq, Structural)]
pub enum InvalidReason {
    /// The stream ended while the accumulated bytes were short of a frame.
    IncompleteAtEof,
    /// The first byte of the header is not the magic byte.
    BadMagic,
    /// The frame is sensitive and its stored checksum does not verify.
    BadChecksum,
}

/// What one decoding attempt reports: more bytes are needed, the frame is
/// rejected for a reason, or a complete validated frame with its total byte
/// count.
#[derive(Debug)]
pub enum FrameResult {
    Incomplete,
    Invalid(InvalidReason),
    Complete(Vec<u8>, usize),
}

/// The full header is present.
pub open spec fn header_full(buf: Seq<u8>) -> bool {
    buf.len() >= HEADER_LEN
}

/// The header is present and starts with the magic byte.
pub open spec fn magic_ok(buf: Seq<u8>) -> bool {
    buf[0] == MAGIC_BYTE
}

/// The buffer holds exactly one structurally complete frame: a full header
/// followed by exactly the declared number of payload bytes.
pub open spec fn frame_complete(buf: Seq<u8>) -> bool {
    header_full(buf) && buf.len() == HEADER_LEN + declared_payload_len(buf)
}

/// The verdict on an accumulated buffer, with `eof` saying whether the stream
/// can still deliver more bytes.
#[derive(Clone, Copy, Debug, PartialEq, Eq, Structural)]
pub enum Verdict {
    /// No decision yet: keep accumulating.
    Pending,
    /// The frame is rejected and its bytes are discarded.
    Rejected(InvalidReason),
    /// The buffer is exactly one complete validated frame.
    Accepted,
}

/// The decoder's decision on the accumulated bytes `buf`.  A wrong magic byte
/// is rejected as soon as the header is full, without waiting for the rest of
/// the frame; a complete frame is checksum-verified if it is sensitive; and a
/// stream that ends early turns a pending frame into a rejection, because the
/// missing bytes will never arrive.
pub open spec fn spec_verdict(buf: Seq<u8>, eof: bool) -> Verdict {
    if header_full(buf) && !magic_ok(buf) {
        Verdict::Rejected(InvalidReason::BadMagic)
    } else if frame_complete(buf) {
        if is_sensitive(buf) && !checksum_matches(buf, buf.len()) {
            Verdict::Rejected(InvalidReason::BadChecksum)
        } else {
            Verdict::Accepted
        }
    } else if eof {
        Verdict::Rejected(InvalidReason::IncompleteAtEof)
    } else {
        Verdict::Pending
    }
}

/// Round trip: the byte image of a well-formed non-sensitive frame is
/// accepted, whatever its stored checksum field holds and whether or not the
/// stream has ended, and its payload comes back byte-identical.
pub proof fn lemma_encode_decode_round_trip(flags: u8, checksum: u16, payload: Seq<u8>, eof: bool)
    requires
        payload.len() <= MAX_PAYLOAD_LEN,
        flags & SENSITIVE_FLAG == 0,
    ensures
        spec_verdict(spec_encode_frame(flags, checksum, payload), eof) == Verdict::Accepted,
        payload_of(spec_encode_frame(flags, checksum, payload)) == payload,
{
    lemma_encode_shape(flags, checksum, payload);
    let enc = spec_encode_frame(flags, checksum, payload);
    assert(enc[1] == flags);
}

/// Round trip for sensitive frames: a complete frame image whose stored
/// checksum verifies is accepted, whether or not the stream has ended.
pub proof fn lemma_sealed_round_trip(buf: Seq<u8>, eof: bool)
    requires
        frame_complete(buf),
        magic_ok(buf),
        checksum_matches(buf, buf.len()),
    ensures
        spec_verdict(buf, eof) == Verdict::Accepted,
{
}

/// Fewer than a full header while the stream is still open is always pending:
/// never a rejection, never an accepted frame.
pub proof fn lemma_short_buffer_pending(buf: Seq<u8>)
    requires
        buf.len() < HEADER_LEN,
    ensures
        spec_verdict(buf, false) == Verdict::Pending,
{
}

/// A wrong magic byte is rejected as soon as the header is full, even when no
/// further bytes are available.
pub proof fn lemma_bad_magic_rejected(buf: Seq<u8>, eof: bool)
    requires
        header_full(buf),
        !magic_ok(buf),
    ensures
        spec_verdict(buf, eof) == Verdict::Rejected(InvalidReason::BadMagic),
{
}

/// A frame is decided at exactly header-plus-declared-length bytes, not
/// before: every proper prefix of an accepted frame image, seen while the
/// stream is still open, is pending.
pub proof fn lemma_prefix_pending(buf: Seq<u8>, k: int, eof: bool)
    requires
        spec_verdict(buf, eof) == Verdict::Accepted,
        0 <= k < buf.len(),
    ensures
        spec_verdict(buf.take(k), false) == Verdict::Pending,
{
    let pre = buf.take(k);
    if k >= HEADER_LEN {
        assert(pre[0] == buf[0]);
        assert(pre[2] == buf[2] && pre[3] == buf[3]);
        assert(declared_payload_len(pre) == declared_payload_len(buf));
    }
}

/// Reassembles one frame at a time from a fragmented byte stream.  Owns an
/// accumulation buffer sized to the protocol maximum, cleared at frame
/// boundaries and on rejection.
pub struct Decoder {
    buffer: Vec<u8>,
}

impl View for Decoder {
    type V = Seq<u8>;

    /// The bytes accumulated so far.
    closed spec fn view(&self) -> Seq<u8> {
        self.buffer@
    }
}

impl Decoder {
    /// The accumulation never outgrows the largest frame.
    pub open spec fn wf(&self) -> bool {
        self@.len() <= MAX_FRAME_LEN
    }

    /// A fresh decoder with an empty accumulation buffer.
    pub fn new() -> (d: Decoder)
        ensures
            d@ == Seq::<u8>::empty(),
            d.wf(),
    {
        Decoder { buffer: Vec::new() }
    }

    /// Discards any partial frame, e.g. when the producer connection is
    /// replaced.
    pub fn reset(&mut self)
        ensures
            final(self)@ == Seq::<u8>::empty(),
            final(self).wf(),
    {
        self.buffer = Vec::new();
    }

    /// How many bytes are accumulated toward the current frame.
    pub fn buffered_len(&self) -> (n: usize)
        ensures
            n == self@.len(),
    {
        self.buffer.len()
    }

    /// How many more bytes the accumulation buffer can take before it reaches
    /// the protocol's maximum frame size.
    pub fn capacity_left(&self) -> (n: usize)
        requires
            self.wf(),
        ensures
            n == MAX_FRAME_LEN - self@.len(),
    {
        MAX_FRAME_LEN - self.buffer.len()
    }

    /// One decoding attempt: appends the newly available bytes, then decides.
    /// `eof` says the source reported end-of-stream, so a frame still pending
    /// after the append is an error, not a transient state.  The buffer keeps
    /// a pending frame and is cleared on any decision.
    pub fn try_decode(&mut self, chunk: &[u8], eof: bool) -> (r: FrameResult)
        requires
            old(self).wf(),
            old(self)@.len() + chunk@.len() <= MAX_FRAME_LEN,
        ensures
            final(self).wf(),
            ({
                let buf = old(self)@ + chunk@;
                match r {
                    FrameResult::Incomplete => spec_verdict(buf, eof) == Verdict::Pending
                        && final(self)@ == buf,
                    FrameResult::Invalid(reason) => spec_verdict(buf, eof) == Verdict::Rejected(
                        reason,
                    ) && final(self)@ == Seq::<u8>::empty(),
                    FrameResult::Complete(frame, total) => {
                        &&& spec_verdict(buf, eof) == Verdict::Accepted
                        &&& frame@ == buf
                        &&& total == buf.len()
                        &&& final(self)@ == Seq::<u8>::empty()
                    },
                }
            }),
    {
        let ghost prebuf = self.buffer@;
        let mut k: usize = 0;
        while k < chunk.len()
            invariant
                k <= chunk@.len(),
                prebuf.len() + chunk@.len() <= MAX_FRAME_LEN,
                self.buffer@ =~= prebuf + chunk@.take(k as int),
            decreases chunk@.len() - k,
        {
            self.buffer.push(chunk[k]);
            k = k + 1;
        }
        proof {
            assert(self.buffer@ =~= prebuf + chunk@);
        }
        let n = self.buffer.len();
        if n >= HEADER_LEN {
            if self.buffer[0] != MAGIC_BYTE {
                self.buffer = Vec::new();
                return FrameResult::Invalid(InvalidReason::BadMagic);
            }
            let declared: usize = (self.buffer[2] as usize) * 256 + (self.buffer[3] as usize);
            if n == HEADER_LEN + declared {
                if self.buffer[1] & SENSITIVE_FLAG != 0 {
                    if !check_checksum(self.buffer.as_slice(), n) {
                        self.buffer = Vec::new();
                        return FrameResult::Invalid(InvalidReason::BadChecksum);
                    }
                }
                let mut frame: Vec<u8> = Vec::new();
                core::mem::swap(&mut frame, &mut self.buffer);
                let total = frame.len();
                return FrameResult::Complete(frame, total);
            }
        }
        if eof {
            self.buffer = Vec::new();
            return FrameResult::Invalid(InvalidReason::IncompleteAtEof);
        }
        FrameResult::Incomplete
    }
}

} // verus!

