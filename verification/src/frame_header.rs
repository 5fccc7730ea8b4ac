//! The fixed 9-byte HTTP/2 frame header: 3-byte big-endian payload length,
//! 1-byte type, 1-byte flags, and a 4-byte big-endian stream id whose top bit
//! is reserved and always cleared on parse.

use vstd::prelude::*;

verus! {

/// The value of two bytes read big-endian.
pub open spec fn spec_be16(b0: u8, b1: u8) -> u16 {
    (b0 * 0x100 + b1) as u16
}

/// The value of three bytes read big-endian.
pub open spec fn spec_be24(b0: u8, b1: u8, b2: u8) -> u32 {
    (b0 * 0x10000 + b1 * 0x100 + b2) as u32
}

/// The value of four bytes read big-endian.
pub open spec fn spec_be32(b0: u8, b1: u8, b2: u8, b3: u8) -> u32 {
    (b0 * 0x1000000 + b1 * 0x10000 + b2 * 0x100 + b3) as u32
}

/// A 32-bit wire value with bit 31 (the reserved bit) cleared.
pub open spec fn spec_mask31(x: u32) -> u32 {
    (x % 0x80000000) as u32
}

/// A parsed HTTP/2 frame header (9 bytes on the wire).
#[derive(Debug, Clone, Copy, PartialEq, Eq, Structural)]
pub struct H2FrameHeader {
    /// Payload byte count (24 bits on the wire).
    pub length: u32,
    /// Frame type code.
    pub frame_type: u8,
    /// Flag bitmask.
    pub flags: u8,
    /// Stream id (31 bits; the wire's reserved top bit is never surfaced set).
    pub stream_id: u32,
}

/// The header encoded in the first 9 bytes of `b`.
pub open spec fn spec_parse_header(b: Seq<u8>) -> H2FrameHeader
    recommends
        b.len() >= 9,
{
    H2FrameHeader {
        length: spec_be24(b[0], b[1], b[2]),
        frame_type: b[3],
        flags: b[4],
        stream_id: spec_mask31(spec_be32(b[5], b[6], b[7], b[8])),
    }
}

impl H2FrameHeader {
    /// Parse a frame header from the first 9 bytes of `data`; `None` means
    /// not enough bytes arrived yet (a normal incremental-input state, not a
    /// malformed frame).
    pub fn parse(data: &[u8]) -> (r: Option<Self>)
        ensures
            data@.len() < 9 ==> r is None,
            data@.len() >= 9 ==> r == Some(spec_parse_header(data@)),
    {
        if data.len() < 9 {
            return None;
        }
        let length: u32 = (data[0] as u32) * 0x10000 + (data[1] as u32) * 0x100 + (data[2] as u32);
        let frame_type = data[3];
        let flags = data[4];
        let raw_stream_id: u32 = (data[5] as u32) * 0x1000000 + (data[6] as u32) * 0x10000
            + (data[7] as u32) * 0x100 + (data[8] as u32);
        let stream_id = raw_stream_id % 0x80000000;
        Some(H2FrameHeader { length, frame_type, flags, stream_id })
    }

    /// The whole frame's size: 9 header bytes plus the payload length.
    pub open spec fn spec_total_size(self) -> int {
        9 + self.length
    }

    /// Total frame size including the 9-byte header.
    pub fn total_size(&self) -> (r: usize)
        requires
            self.length < 0x1000000,
        ensures
            r == self.spec_total_size(),
    {
        9 + self.length as usize
    }

    /// Whether the END_STREAM flag (bit 0x1) is set.
    pub open spec fn spec_is_end_stream(self) -> bool {
        self.flags & crate::flags::END_STREAM != 0
    }

    /// Check if the END_STREAM flag is set.
    pub fn is_end_stream(&self) -> (r: bool)
        ensures
            r == self.spec_is_end_stream(),
    {
        self.flags & crate::flags::END_STREAM != 0
    }

    /// Whether the END_HEADERS flag (bit 0x4) is set.
    pub open spec fn spec_is_end_headers(self) -> bool {
        self.flags & crate::flags::END_HEADERS != 0
    }

    /// Check if the END_HEADERS flag is set.
    pub fn is_end_headers(&self) -> (r: bool)
        ensures
            r == self.spec_is_end_headers(),
    {
        self.flags & crate::flags::END_HEADERS != 0
    }
}

/// Read two bytes big-endian.
pub(crate) fn read_be16(b0: u8, b1: u8) -> (r: u16)
    ensures
        r == spec_be16(b0, b1),
{
    (b0 as u16) * 0x100 + (b1 as u16)
}

/// Read four bytes big-endian.
pub(crate) fn read_be32(b0: u8, b1: u8, b2: u8, b3: u8) -> (r: u32)
    ensures
        r == spec_be32(b0, b1, b2, b3),
{
    (b0 as u32) * 0x1000000 + (b1 as u32) * 0x10000 + (b2 as u32) * 0x100 + (b3 as u32)
}

} // verus!
