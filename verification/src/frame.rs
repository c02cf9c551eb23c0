//! Frames: the unit of transfer.  A frame is an 8-byte header — magic byte,
//! flags byte, big-endian 16-bit payload length, big-endian 16-bit checksum,
//! two reserved bytes — followed by exactly `length` payload bytes.

use crate::checksum::{
    calculate_checksum, checksum_matches, checksum_of, lemma_checksum_ignores_stored_field,
    stored_checksum,
};
use crate::{HEADER_LEN, MAGIC_BYTE, MAX_PAYLOAD_LEN, SENSITIVE_FLAG};
use vstd::arithmetic::div_mod::lemma_fundamental_div_mod;
use vstd::prelude::*;

verus! {

/// A frame about to be put on the wire: its flags, the value to write into
/// the checksum field, and its payload.  The magic byte and the length field
/// are fixed by the payload itself.
pub struct Frame {
    pub flags: u8,
    pub checksum: u16,
    pub payload: Vec<u8>,
}

/// The byte image of a frame with the given flags, stored checksum field and
/// payload.
pub open spec fn spec_encode_frame(flags: u8, checksum: u16, payload: Seq<u8>) -> Seq<u8> {
    seq![
        MAGIC_BYTE,
        flags,
        (payload.len() / 256) as u8,
        (payload.len() % 256) as u8,
        (checksum / 256) as u8,
        (checksum % 256) as u8,
        0u8,
        0u8,
    ] + payload
}

/// The declared payload length of a buffer: the big-endian 16-bit value at
/// byte offset 2 of its header.
pub open spec fn declared_payload_len(buf: Seq<u8>) -> int {
    (buf[2] as int) * 256 + (buf[3] as int)
}

/// A buffer's flags byte asks for checksum verification.
pub open spec fn is_sensitive(buf: Seq<u8>) -> bool {
    buf[1] & SENSITIVE_FLAG != 0
}

/// The payload carried by a structurally complete buffer: everything after
/// the header.
pub open spec fn payload_of(buf: Seq<u8>) -> Seq<u8> {
    buf.skip(HEADER_LEN as int)
}

/// An encoded frame starts with the magic byte, declares exactly its payload's
/// length, stores the requested checksum field, and carries the payload
/// verbatim after the header.
pub proof fn lemma_encode_shape(flags: u8, checksum: u16, payload: Seq<u8>)
    requires
        payload.len() <= MAX_PAYLOAD_LEN,
    ensures
        spec_encode_frame(flags, checksum, payload).len() == HEADER_LEN + payload.len(),
        spec_encode_frame(flags, checksum, payload)[0] == MAGIC_BYTE,
        spec_encode_frame(flags, checksum, payload)[1] == flags,
        declared_payload_len(spec_encode_frame(flags, checksum, payload)) == payload.len(),
        stored_checksum(spec_encode_frame(flags, checksum, payload)) == checksum,
        payload_of(spec_encode_frame(flags, checksum, payload)) =~= payload,
{
    let enc = spec_encode_frame(flags, checksum, payload);
    lemma_fundamental_div_mod(payload.len() as int, 256);
    lemma_fundamental_div_mod(checksum as int, 256);
    assert(enc[2] == (payload.len() / 256) as u8 && enc[3] == (payload.len() % 256) as u8);
    assert(enc[4] == (checksum / 256) as u8 && enc[5] == (checksum % 256) as u8);
}

impl Frame {
    /// The payload fits the 16-bit length field.
    pub open spec fn wf(&self) -> bool {
        self.payload@.len() <= MAX_PAYLOAD_LEN
    }

    /// The flags byte asks for checksum verification.
    pub open spec fn spec_sensitive(&self) -> bool {
        self.flags & SENSITIVE_FLAG != 0
    }

    /// Writes the frame out as bytes, with the checksum field holding
    /// `self.checksum` as it stands.
    pub fn encode(&self) -> (r: Vec<u8>)
        requires
            self.wf(),
        ensures
            r@ == spec_encode_frame(self.flags, self.checksum, self.payload@),
    {
        encode_frame(self.flags, self.checksum, &self.payload)
    }

    /// Writes the frame out as bytes with a checksum field that verifies:
    /// the field holds the checksum recomputed over the frame image itself,
    /// which does not depend on what the field held before.
    pub fn encode_sealed(&self) -> (r: Vec<u8>)
        requires
            self.wf(),
        ensures
            r@ == spec_encode_frame(
                self.flags,
                checksum_of(
                    spec_encode_frame(self.flags, self.checksum, self.payload@),
                    (HEADER_LEN + self.payload@.len()) as nat,
                ) as u16,
                self.payload@,
            ),
            checksum_matches(r@, r@.len()),
    {
        let draft = encode_frame(self.flags, self.checksum, &self.payload);
        let sealed_checksum = calculate_checksum(draft.as_slice(), draft.len());
        let r = encode_frame(self.flags, sealed_checksum, &self.payload);
        proof {
            let n = (HEADER_LEN + self.payload@.len()) as nat;
            lemma_encode_shape(self.flags, self.checksum, self.payload@);
            lemma_encode_shape(self.flags, sealed_checksum, self.payload@);
            assert forall|i: int| 0 <= i < n && i != 4 && i != 5 implies draft@[i] == r@[i] by {
                if i >= 8 {
                    assert(draft@[i] == self.payload@[i - 8] && r@[i] == self.payload@[i - 8]);
                }
            }
            lemma_checksum_ignores_stored_field(draft@, r@, n);
            assert(stored_checksum(r@) == sealed_checksum as int);
        }
        r
    }
}

/// Builds the byte image of one frame: the 8-byte header followed by the
/// payload, with big-endian length and checksum fields.
pub fn encode_frame(flags: u8, checksum: u16, payload: &Vec<u8>) -> (r: Vec<u8>)
    requires
        payload@.len() <= MAX_PAYLOAD_LEN,
    ensures
        r@ == spec_encode_frame(flags, checksum, payload@),
{
    let mut out: Vec<u8> = Vec::new();
    let len = payload.len();
    out.push(MAGIC_BYTE);
    out.push(flags);
    out.push((len / 256) as u8);
    out.push((len % 256) as u8);
    out.push((checksum / 256) as u8);
    out.push((checksum % 256) as u8);
    out.push(0u8);
    out.push(0u8);
    let mut k: usize = 0;
    while k < payload.len()
        invariant
            payload@.len() <= MAX_PAYLOAD_LEN,
            k <= payload@.len(),
            out@.len() == HEADER_LEN + k,
            out@ =~= spec_encode_frame(flags, checksum, payload@).take(HEADER_LEN + k as int),
        decreases payload@.len() - k,
    {
        out.push(payload[k]);
        k = k + 1;
    }
    proof {
        assert(out@ =~= spec_encode_frame(flags, checksum, payload@));
    }
    out
}

} // verus!
