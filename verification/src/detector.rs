//! Detection of complete protocol frames at the front of an accumulation
//! buffer.
//!
//! A frame starts with a fixed 2-byte header, followed by a 4-byte device
//! address, a 1-byte packet id, and a 2-byte big-endian length field that
//! declares how many bytes (payload plus checksum) follow it. The smallest
//! legal declared length is 3, so the smallest frame occupies 12 bytes.

use vstd::prelude::*;

verus! {

/// First byte of the fixed frame header.
pub const HEADER_0: u8 = 0xEF;

/// Second byte of the fixed frame header.
pub const HEADER_1: u8 = 0x01;

/// Smallest on-wire frame: a 9-byte prefix plus the minimum declared length 3.
pub const MIN_FRAME: usize = 12;

/// Outcome of examining a buffer for one complete frame at its front.
#[derive(Clone, Copy, Debug, PartialEq, Eq)]
pub enum Detection {
    /// A complete frame occupies this many bytes at the front of the buffer.
    Frame(usize),
    /// No decision can be made until more bytes arrive.
    Incomplete,
    /// The buffer cannot begin with a frame addressed to this bridge.
    Invalid,
}

/// The length field of a buffer that holds at least 9 bytes: bytes 7 and 8
/// read as a big-endian 16-bit value.
pub open spec fn spec_declared_len(b: Seq<u8>) -> int {
    b[7] as int * 256 + b[8] as int
}

/// What detection returns on any buffer and expected address.
pub open spec fn spec_detect(b: Seq<u8>, addr: Seq<u8>) -> Detection {
    if b.len() < MIN_FRAME {
        Detection::Incomplete
    } else if b[0] != HEADER_0 || b[1] != HEADER_1 {
        Detection::Invalid
    } else if b[2] != addr[0] || b[3] != addr[1] || b[4] != addr[2] || b[5] != addr[3] {
        Detection::Invalid
    } else if spec_declared_len(b) < 3 {
        Detection::Invalid
    } else if b.len() < spec_declared_len(b) + 9 {
        Detection::Incomplete
    } else {
        Detection::Frame((spec_declared_len(b) + 9) as usize)
    }
}

/// Looks into the buffer for a well-formed frame at its front and returns
/// its total byte length if one is complete.
///
/// Handles any buffer length, reads nothing beyond the frame prefix, and
/// has no side effect.
pub fn detect(buffer: &[u8], address: &[u8; 4]) -> (r: Detection)
    ensures
        r == spec_detect(buffer@, address@),
{
    if buffer.len() < MIN_FRAME {
        return Detection::Incomplete;
    }
    if buffer[0] != HEADER_0 || buffer[1] != HEADER_1 {
        return Detection::Invalid;
    }
    if buffer[2] != address[0] || buffer[3] != address[1] || buffer[4] != address[2]
        || buffer[5] != address[3] {
        return Detection::Invalid;
    }
    let declared: usize = (buffer[7] as usize) * 256 + (buffer[8] as usize);
    if declared < 3 {
        return Detection::Invalid;
    }
    if buffer.len() < declared + 9 {
        return Detection::Incomplete;
    }
    Detection::Frame(declared + 9)
}

/// Detection is a pure function of the buffer and the address: results
/// computed from equal inputs are equal, however often it is repeated.
pub proof fn lemma_detect_deterministic(b1: Seq<u8>, a1: Seq<u8>, b2: Seq<u8>, a2: Seq<u8>)
    requires
        b1 == b2,
        a1 == a2,
    ensures
        spec_detect(b1, a1) == spec_detect(b2, a2),
{
}

/// A buffer of fewer than 12 bytes never decides: detection is `Incomplete`
/// whatever the bytes hold and whatever the address is.
pub proof fn lemma_short_buffer_incomplete(b: Seq<u8>, addr: Seq<u8>)
    requires
        b.len() < MIN_FRAME,
    ensures
        spec_detect(b, addr) is Incomplete,
{
}

/// A declared length below the minimum of 3 makes the buffer invalid even
/// when header and address match.
pub proof fn lemma_undersized_length_invalid(b: Seq<u8>, addr: Seq<u8>)
    requires
        b.len() >= MIN_FRAME,
        b[0] == HEADER_0,
        b[1] == HEADER_1,
        b[2] == addr[0],
        b[3] == addr[1],
        b[4] == addr[2],
        b[5] == addr[3],
        spec_declared_len(b) < 3,
    ensures
        spec_detect(b, addr) is Invalid,
{
}

/// A buffer long enough to decide whose first two bytes are not the fixed
/// header is `Invalid`, never `Incomplete`.
pub proof fn lemma_header_mismatch_invalid(b: Seq<u8>, addr: Seq<u8>)
    requires
        b.len() >= MIN_FRAME,
        b[0] != HEADER_0 || b[1] != HEADER_1,
    ensures
        spec_detect(b, addr) is Invalid,
{
}

} // verus!
