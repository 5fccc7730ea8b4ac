//! Pure frame builders: stateless, total functions producing outbound
//! control frames as exact byte sequences (all inputs are caller-controlled,
//! so none of them can fail).

use vstd::prelude::*;
use crate::codec::H2Codec;
use crate::frame_header::spec_mask31;
use crate::frame_type;
use crate::flags;

verus! {

/// A 32-bit value as its four big-endian bytes.
pub open spec fn spec_be32_bytes(x: u32) -> Seq<u8> {
    seq![
        (x / 0x1000000) as u8,
        ((x / 0x10000) % 0x100) as u8,
        ((x / 0x100) % 0x100) as u8,
        (x % 0x100) as u8,
    ]
}

/// A 24-bit value as its three big-endian bytes.
pub open spec fn spec_be24_bytes(n: int) -> Seq<u8> {
    seq![((n / 0x10000) % 0x100) as u8, ((n / 0x100) % 0x100) as u8, (n % 0x100) as u8]
}

/// RST_STREAM: length 4, no flags, the stream id, then the error code.
pub open spec fn spec_rst_stream_frame(stream_id: u32, error_code: u32) -> Seq<u8> {
    seq![0u8, 0u8, 4u8, frame_type::RST_STREAM, 0u8] + spec_be32_bytes(stream_id)
        + spec_be32_bytes(error_code)
}

/// GOAWAY: length 8, no flags, stream 0, the last stream id, the error code.
pub open spec fn spec_goaway_frame(last_stream_id: u32, error_code: u32) -> Seq<u8> {
    seq![0u8, 0u8, 8u8, frame_type::GOAWAY, 0u8, 0u8, 0u8, 0u8, 0u8] + spec_be32_bytes(
        last_stream_id,
    ) + spec_be32_bytes(error_code)
}

/// SETTINGS ACK: an empty SETTINGS frame with the ACK flag.
pub open spec fn spec_settings_ack_frame() -> Seq<u8> {
    seq![0u8, 0u8, 0u8, frame_type::SETTINGS, 0x1u8, 0u8, 0u8, 0u8, 0u8]
}

/// An empty SETTINGS frame (defaults), no flags.
pub open spec fn spec_settings_frame() -> Seq<u8> {
    seq![0u8, 0u8, 0u8, frame_type::SETTINGS, 0u8, 0u8, 0u8, 0u8, 0u8]
}

/// SETTINGS carrying a single INITIAL_WINDOW_SIZE entry.
pub open spec fn spec_settings_with_window_frame(initial_window_size: u32) -> Seq<u8> {
    seq![0u8, 0u8, 6u8, frame_type::SETTINGS, 0u8, 0u8, 0u8, 0u8, 0u8, 0u8, 4u8]
        + spec_be32_bytes(initial_window_size)
}

/// PING ACK echoing 8 opaque bytes.
pub open spec fn spec_ping_ack_frame(data: Seq<u8>) -> Seq<u8> {
    seq![0u8, 0u8, 8u8, frame_type::PING, 0x1u8, 0u8, 0u8, 0u8, 0u8] + data
}

/// WINDOW_UPDATE: the increment's reserved bit is cleared on the wire.
pub open spec fn spec_window_update_frame(stream_id: u32, increment: u32) -> Seq<u8> {
    seq![0u8, 0u8, 4u8, frame_type::WINDOW_UPDATE, 0u8] + spec_be32_bytes(stream_id)
        + spec_be32_bytes(spec_mask31(increment))
}

/// CONTINUATION carrying a header-block fragment, END_HEADERS as chosen.
pub open spec fn spec_continuation_frame(stream_id: u32, payload: Seq<u8>, end_headers: bool) -> Seq<
    u8,
> {
    spec_be24_bytes(payload.len() as int) + seq![
        frame_type::CONTINUATION,
        if end_headers {
            flags::END_HEADERS
        } else {
            0u8
        },
    ] + spec_be32_bytes(stream_id) + payload
}

/// Append a 32-bit value big-endian.
fn push_be32(frame: &mut Vec<u8>, x: u32)
    ensures
        final(frame)@ == old(frame)@ + spec_be32_bytes(x),
{
    frame.push((x / 0x1000000) as u8);
    frame.push(((x / 0x10000) % 0x100) as u8);
    frame.push(((x / 0x100) % 0x100) as u8);
    frame.push((x % 0x100) as u8);
    proof {
        assert(frame@ =~= old(frame)@ + spec_be32_bytes(x));
    }
}

impl H2Codec {
    /// Build a RST_STREAM frame for the given stream and error code.
    pub fn create_rst_stream(stream_id: u32, error_code: u32) -> (r: Vec<u8>)
        ensures
            r@ == spec_rst_stream_frame(stream_id, error_code),
    {
        let mut frame: Vec<u8> = Vec::new();
        frame.push(0);
        frame.push(0);
        frame.push(4);
        frame.push(frame_type::RST_STREAM);
        frame.push(0);
        push_be32(&mut frame, stream_id);
        push_be32(&mut frame, error_code);
        proof {
            assert(frame@ =~= spec_rst_stream_frame(stream_id, error_code));
        }
        frame
    }

    /// Build a GOAWAY frame naming the last processed stream id.
    pub fn create_goaway(last_stream_id: u32, error_code: u32) -> (r: Vec<u8>)
        ensures
            r@ == spec_goaway_frame(last_stream_id, error_code),
    {
        let mut frame: Vec<u8> = Vec::new();
        frame.push(0);
        frame.push(0);
        frame.push(8);
        frame.push(frame_type::GOAWAY);
        frame.push(0);
        frame.push(0);
        frame.push(0);
        frame.push(0);
        frame.push(0);
        push_be32(&mut frame, last_stream_id);
        push_be32(&mut frame, error_code);
        proof {
            assert(frame@ =~= spec_goaway_frame(last_stream_id, error_code));
        }
        frame
    }

    /// Build a SETTINGS ACK frame.
    pub fn create_settings_ack() -> (r: Vec<u8>)
        ensures
            r@ == spec_settings_ack_frame(),
    {
        let mut frame: Vec<u8> = Vec::new();
        frame.push(0);
        frame.push(0);
        frame.push(0);
        frame.push(frame_type::SETTINGS);
        frame.push(0x1);
        frame.push(0);
        frame.push(0);
        frame.push(0);
        frame.push(0);
        proof {
            assert(frame@ =~= spec_settings_ack_frame());
        }
        frame
    }

    /// Build an empty SETTINGS frame (use default settings), as a server
    /// sends at connection start.
    pub fn create_settings() -> (r: Vec<u8>)
        ensures
            r@ == spec_settings_frame(),
    {
        let mut frame: Vec<u8> = Vec::new();
        frame.push(0);
        frame.push(0);
        frame.push(0);
        frame.push(frame_type::SETTINGS);
        frame.push(0);
        frame.push(0);
        frame.push(0);
        frame.push(0);
        frame.push(0);
        proof {
            assert(frame@ =~= spec_settings_frame());
        }
        frame
    }

    /// Build a SETTINGS frame carrying one INITIAL_WINDOW_SIZE entry, to let
    /// the peer send more data before waiting for WINDOW_UPDATE.
    pub fn create_settings_with_window(initial_window_size: u32) -> (r: Vec<u8>)
        ensures
            r@ == spec_settings_with_window_frame(initial_window_size),
    {
        let mut frame: Vec<u8> = Vec::new();
        frame.push(0);
        frame.push(0);
        frame.push(6);
        frame.push(frame_type::SETTINGS);
        frame.push(0);
        frame.push(0);
        frame.push(0);
        frame.push(0);
        frame.push(0);
        frame.push(0);
        frame.push(4);
        push_be32(&mut frame, initial_window_size);
        proof {
            assert(frame@ =~= spec_settings_with_window_frame(initial_window_size));
        }
        frame
    }

    /// Build a PING ACK frame echoing the peer's 8 opaque bytes.
    pub fn create_ping_ack(data: [u8; 8]) -> (r: Vec<u8>)
        ensures
            r@ == spec_ping_ack_frame(data@),
    {
        let mut frame: Vec<u8> = Vec::new();
        frame.push(0);
        frame.push(0);
        frame.push(8);
        frame.push(frame_type::PING);
        frame.push(0x1);
        frame.push(0);
        frame.push(0);
        frame.push(0);
        frame.push(0);
        let mut i: usize = 0;
        while i < 8
            invariant
                0 <= i <= 8,
                frame@ == seq![0u8, 0u8, 8u8, frame_type::PING, 0x1u8, 0u8, 0u8, 0u8, 0u8]
                    + data@.subrange(0, i as int),
            decreases 8 - i,
        {
            frame.push(data[i]);
            proof {
                assert(data@.subrange(0, i + 1 as int) =~= data@.subrange(0, i as int).push(
                    data@[i as int],
                ));
                assert(frame@ =~= seq![0u8, 0u8, 8u8, frame_type::PING, 0x1u8, 0u8, 0u8, 0u8, 0u8]
                    + data@.subrange(0, i + 1 as int));
            }
            i += 1;
        }
        proof {
            assert(data@.subrange(0, 8) =~= data@);
            assert(frame@ =~= spec_ping_ack_frame(data@));
        }
        frame
    }

    /// Build a WINDOW_UPDATE frame to replenish a flow-control window:
    /// stream 0 updates the connection-level window, any other id that
    /// stream's window. The increment's reserved bit is cleared.
    pub fn create_window_update(stream_id: u32, increment: u32) -> (r: Vec<u8>)
        ensures
            r@ == spec_window_update_frame(stream_id, increment),
    {
        let increment = increment % 0x80000000;
        let mut frame: Vec<u8> = Vec::new();
        frame.push(0);
        frame.push(0);
        frame.push(4);
        frame.push(frame_type::WINDOW_UPDATE);
        frame.push(0);
        push_be32(&mut frame, stream_id);
        push_be32(&mut frame, increment);
        proof {
            assert(frame@ =~= spec_window_update_frame(stream_id, increment));
        }
        frame
    }

    /// Build a CONTINUATION frame carrying a header-block fragment;
    /// `end_headers` marks the final fragment of the block. The fragment
    /// must fit the wire format's 24-bit length field.
    pub fn create_continuation_frame(stream_id: u32, payload: &[u8], end_headers: bool) -> (r: Vec<
        u8,
    >)
        requires
            payload@.len() < 0x1000000,
        ensures
            r@ == spec_continuation_frame(stream_id, payload@, end_headers),
    {
        let length = payload.len();
        let flags_byte: u8 = if end_headers {
            flags::END_HEADERS
        } else {
            0x0
        };
        let mut frame: Vec<u8> = Vec::new();
        frame.push(((length / 0x10000) % 0x100) as u8);
        frame.push(((length / 0x100) % 0x100) as u8);
        frame.push((length % 0x100) as u8);
        frame.push(frame_type::CONTINUATION);
        frame.push(flags_byte);
        push_be32(&mut frame, stream_id);
        let ghost head = frame@;
        let mut i: usize = 0;
        while i < payload.len()
            invariant
                0 <= i <= payload@.len(),
                frame@ == head + payload@.subrange(0, i as int),
            decreases payload@.len() - i,
        {
            frame.push(payload[i]);
            proof {
                assert(head + payload@.subrange(0, i + 1 as int) =~= (head + payload@.subrange(
                    0,
                    i as int,
                )).push(payload@[i as int]));
            }
            i += 1;
        }
        proof {
            assert(payload@.subrange(0, payload@.len() as int) =~= payload@);
            assert(frame@ =~= spec_continuation_frame(stream_id, payload@, end_headers));
        }
        frame
    }
}

} // verus!
