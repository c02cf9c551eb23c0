//! Core of a single-direction relay for a framed binary protocol: a checksum
//! engine in the style of RFC 1071, an incremental frame decoder, a
//! best-effort fan-out over consumer connections, and the relay control state
//! that ties them together.  All socket handling lives outside this crate;
//! the types here work on plain bytes and connection identifiers.

use vstd::prelude::*;

pub mod checksum;
pub mod decoder;
pub mod fanout;
pub mod frame;
pub mod relay;

verus! {

/// Fixed first byte of every frame.
pub const MAGIC_BYTE: u8 = 0xCC;

/// Bit of the flags byte that marks a frame as sensitive, i.e. protected by a
/// mandatory checksum.
pub const SENSITIVE_FLAG: u8 = 0x40;

/// Number of header bytes that precede the payload.
pub const HEADER_LEN: usize = 8;

/// Largest payload a frame can declare: the length field is 16 bits.
pub const MAX_PAYLOAD_LEN: usize = 65535;

/// Largest whole frame: header plus largest payload.
pub const MAX_FRAME_LEN: usize = 65543;

} // verus!
