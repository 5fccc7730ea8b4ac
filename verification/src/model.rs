//! The mathematical model of the connection codec: ghost views of its state
//! and the step function every `process` call is proved against.
//!
//! `spec_process` says exactly which events a call returns, which error ends
//! it, and how the buffer, the stream table, and the pending header-block
//! assembly move — so the executable codec's contract pins all of it down.

use vstd::prelude::*;
use crate::events::{EventView, H2Error};
use crate::frame_header::{H2FrameHeader, spec_be16, spec_be24, spec_be32, spec_mask31,
    spec_parse_header};
use crate::codec::{StreamState, MAX_HEADER_BLOCK_SIZE};
use crate::frame_type;
use crate::flags;

verus! {

/// The in-progress header-block assembly: at most one per connection, alive
/// strictly between a HEADERS frame lacking END_HEADERS and the CONTINUATION
/// that ends the block on the same stream.
pub ghost struct PendingView {
    /// The stream the assembly belongs to.
    pub stream_id: u32,
    /// Header-block bytes accumulated so far.
    pub block: Seq<u8>,
    /// END_STREAM as captured from the originating HEADERS frame.
    pub end_stream: bool,
}

/// The per-frame dispatch state: the stream table and the pending assembly.
pub ghost struct TableView {
    pub streams: Map<u32, StreamState>,
    pub pending: Option<PendingView>,
}

/// The whole codec state: dispatch state plus the receive buffer and the
/// preface-recognition flag.
pub ghost struct CodecView {
    /// Bytes received but not yet consumed as whole frames.
    pub buffer: Seq<u8>,
    /// Lifecycle flags per tracked stream id.
    pub streams: Map<u32, StreamState>,
    /// Whether the 24-byte connection preface was already consumed.
    pub preface_received: bool,
    /// The in-flight header-block assembly, if any.
    pub pending: Option<PendingView>,
}

impl CodecView {
    /// The dispatch part of the state, which frame handling acts on.
    pub open spec fn table(self) -> TableView {
        TableView { streams: self.streams, pending: self.pending }
    }

    /// The same state with a different buffer.
    pub open spec fn with_buffer(self, buffer: Seq<u8>) -> CodecView {
        CodecView { buffer, streams: self.streams, preface_received: self.preface_received, pending: self.pending }
    }
}

/// The stream entry after a DATA, HEADERS or CONTINUATION frame touches it:
/// created empty if absent, with the named flags switched on.
pub open spec fn stream_after(
    streams: Map<u32, StreamState>,
    id: u32,
    set_complete: bool,
    set_ended: bool,
) -> StreamState {
    let prev = if streams.contains_key(id) {
        streams[id]
    } else {
        StreamState { headers_complete: false, stream_ended: false }
    };
    StreamState {
        headers_complete: prev.headers_complete || set_complete,
        stream_ended: prev.stream_ended || set_ended,
    }
}

/// A DATA payload with padding stripped: under the PADDED flag the first
/// byte declares how many trailing padding bytes to drop, and it must leave
/// the declaration itself and the padding inside the payload.
pub open spec fn spec_extract_data(frame_flags: u8, payload: Seq<u8>) -> Result<Seq<u8>, H2Error> {
    if frame_flags & flags::PADDED != 0 {
        if payload.len() == 0 {
            Err(H2Error::InvalidPadding { frame_type: frame_type::DATA })
        } else if payload[0] >= payload.len() {
            Err(H2Error::InvalidPadding { frame_type: frame_type::DATA })
        } else {
            Ok(payload.subrange(1, payload.len() - payload[0]))
        }
    } else {
        Ok(payload)
    }
}

/// A HEADERS payload reduced to its header-block fragment: the PADDED flag
/// strips a 1-byte pad-length prefix and that many trailing bytes, and the
/// PRIORITY flag then strips a 5-byte dependency-and-weight prefix, which
/// must fit in what padding left over.
pub open spec fn spec_extract_headers(frame_flags: u8, payload: Seq<u8>) -> Result<
    Seq<u8>,
    H2Error,
> {
    let padded = frame_flags & flags::PADDED != 0;
    let prio = frame_flags & flags::PRIORITY != 0;
    if padded && payload.len() == 0 {
        Err(H2Error::InvalidPadding { frame_type: frame_type::HEADERS })
    } else if padded && payload[0] >= payload.len() - 1 {
        Err(H2Error::InvalidPadding { frame_type: frame_type::HEADERS })
    } else {
        let start: int = if padded { 1 } else { 0 };
        let end: int = if padded { payload.len() - payload[0] } else { payload.len() as int };
        if prio && end - start < 5 {
            Err(H2Error::MalformedFrame { frame_type: frame_type::HEADERS, required: 5 })
        } else {
            Ok(payload.subrange(if prio { start + 5 } else { start }, end))
        }
    }
}

/// A SETTINGS payload as consecutive 6-byte entries (16-bit id, 32-bit
/// value), any trailing incomplete entry dropped, unknown ids kept.
pub open spec fn spec_parse_settings(p: Seq<u8>) -> Seq<(u16, u32)>
    decreases p.len(),
{
    if p.len() < 6 {
        Seq::empty()
    } else {
        seq![(spec_be16(p[0], p[1]), spec_be32(p[2], p[3], p[4], p[5]))] + spec_parse_settings(
            p.skip(6),
        )
    }
}

/// One frame's effect: how the dispatch state moves and what comes out — an
/// event, nothing (PRIORITY, PUSH_PROMISE, unknown types, or a silently
/// accumulated header fragment), or the error that ends the call.
pub open spec fn step_frame(tv: TableView, h: H2FrameHeader, payload: Seq<u8>) -> (
    TableView,
    Result<Option<EventView>, H2Error>,
)
    recommends
        payload.len() < 0x1000000,
{
    let end_stream = h.spec_is_end_stream();
    let end_headers = h.spec_is_end_headers();
    if h.frame_type == frame_type::DATA {
        match spec_extract_data(h.flags, payload) {
            Err(e) => (tv, Err(e)),
            Ok(data) => (
                TableView {
                    streams: tv.streams.insert(
                        h.stream_id,
                        stream_after(tv.streams, h.stream_id, false, end_stream),
                    ),
                    pending: tv.pending,
                },
                Ok(Some(EventView::Data { stream_id: h.stream_id, data, end_stream })),
            ),
        }
    } else if h.frame_type == frame_type::HEADERS {
        match spec_extract_headers(h.flags, payload) {
            Err(e) => (tv, Err(e)),
            Ok(block) => {
                let streams2 = tv.streams.insert(
                    h.stream_id,
                    stream_after(tv.streams, h.stream_id, end_headers, end_stream),
                );
                if end_headers {
                    (
                        TableView { streams: streams2, pending: tv.pending },
                        Ok(
                            Some(
                                EventView::Headers {
                                    stream_id: h.stream_id,
                                    header_block: block,
                                    end_stream,
                                },
                            ),
                        ),
                    )
                } else if block.len() > MAX_HEADER_BLOCK_SIZE {
                    (
                        TableView { streams: streams2, pending: tv.pending },
                        Err(
                            H2Error::ResourceLimitExceeded {
                                size: block.len() as usize,
                                limit: MAX_HEADER_BLOCK_SIZE,
                            },
                        ),
                    )
                } else {
                    (
                        TableView {
                            streams: streams2,
                            pending: Some(
                                PendingView { stream_id: h.stream_id, block, end_stream },
                            ),
                        },
                        Ok(None),
                    )
                }
            },
        }
    } else if h.frame_type == frame_type::CONTINUATION {
        match tv.pending {
            None => (tv, Err(H2Error::UnexpectedContinuation { stream_id: h.stream_id })),
            Some(p) => {
                if p.stream_id != h.stream_id {
                    (
                        tv,
                        Err(
                            H2Error::ProtocolViolation {
                                received_stream_id: h.stream_id,
                                pending_stream_id: p.stream_id,
                            },
                        ),
                    )
                } else if p.block.len() + payload.len() > MAX_HEADER_BLOCK_SIZE {
                    (
                        TableView { streams: tv.streams, pending: None },
                        Err(
                            H2Error::ResourceLimitExceeded {
                                size: (p.block.len() + payload.len()) as usize,
                                limit: MAX_HEADER_BLOCK_SIZE,
                            },
                        ),
                    )
                } else if end_headers {
                    (
                        TableView {
                            streams: tv.streams.insert(
                                h.stream_id,
                                stream_after(tv.streams, h.stream_id, true, false),
                            ),
                            pending: None,
                        },
                        Ok(
                            Some(
                                EventView::Headers {
                                    stream_id: h.stream_id,
                                    header_block: p.block + payload,
                                    end_stream: p.end_stream,
                                },
                            ),
                        ),
                    )
                } else {
                    (
                        TableView {
                            streams: tv.streams,
                            pending: Some(
                                PendingView {
                                    stream_id: p.stream_id,
                                    block: p.block + payload,
                                    end_stream: p.end_stream,
                                },
                            ),
                        },
                        Ok(None),
                    )
                }
            },
        }
    } else if h.frame_type == frame_type::RST_STREAM {
        if payload.len() < 4 {
            (tv, Err(H2Error::MalformedFrame { frame_type: frame_type::RST_STREAM, required: 4 }))
        } else {
            (
                TableView { streams: tv.streams.remove(h.stream_id), pending: tv.pending },
                Ok(
                    Some(
                        EventView::StreamReset {
                            stream_id: h.stream_id,
                            error_code: spec_be32(payload[0], payload[1], payload[2], payload[3]),
                        },
                    ),
                ),
            )
        }
    } else if h.frame_type == frame_type::SETTINGS {
        let ack = h.flags & 0x1 != 0;
        (
            tv,
            Ok(
                Some(
                    EventView::Settings {
                        ack,
                        settings: if ack {
                            Seq::empty()
                        } else {
                            spec_parse_settings(payload)
                        },
                    },
                ),
            ),
        )
    } else if h.frame_type == frame_type::GOAWAY {
        if payload.len() < 8 {
            (tv, Err(H2Error::MalformedFrame { frame_type: frame_type::GOAWAY, required: 8 }))
        } else {
            (
                tv,
                Ok(
                    Some(
                        EventView::GoAway {
                            last_stream_id: spec_mask31(
                                spec_be32(payload[0], payload[1], payload[2], payload[3]),
                            ),
                            error_code: spec_be32(payload[4], payload[5], payload[6], payload[7]),
                        },
                    ),
                ),
            )
        }
    } else if h.frame_type == frame_type::WINDOW_UPDATE {
        if payload.len() < 4 {
            (
                tv,
                Err(H2Error::MalformedFrame { frame_type: frame_type::WINDOW_UPDATE, required: 4 }),
            )
        } else {
            (
                tv,
                Ok(
                    Some(
                        EventView::WindowUpdate {
                            stream_id: h.stream_id,
                            increment: spec_mask31(
                                spec_be32(payload[0], payload[1], payload[2], payload[3]),
                            ),
                        },
                    ),
                ),
            )
        }
    } else if h.frame_type == frame_type::PING {
        if payload.len() < 8 {
            (tv, Err(H2Error::MalformedFrame { frame_type: frame_type::PING, required: 8 }))
        } else {
            (
                tv,
                Ok(
                    Some(
                        EventView::Ping { ack: h.flags & 0x1 != 0, data: payload.subrange(0, 8) },
                    ),
                ),
            )
        }
    } else {
        (tv, Ok(None))
    }
}

/// Frame consumption: while the buffer holds a complete frame, slice it out,
/// dispatch it, and collect its event; stop at the first incomplete frame,
/// preserving the remainder verbatim. An error stops dispatch at once — the
/// buffer has still advanced past the frame that raised it, and events from
/// earlier frames of the same run are discarded.
pub open spec fn spec_run(cv: CodecView) -> (CodecView, Result<Seq<EventView>, H2Error>)
    decreases cv.buffer.len(),
{
    if cv.buffer.len() < 9 {
        (cv, Ok(Seq::empty()))
    } else {
        let h = spec_parse_header(cv.buffer);
        let total = 9 + h.length as int;
        if cv.buffer.len() < total {
            (cv, Ok(Seq::empty()))
        } else {
            let payload = cv.buffer.subrange(9, total);
            let stepped = step_frame(cv.table(), h, payload);
            let cv2 = CodecView {
                buffer: cv.buffer.subrange(total, cv.buffer.len() as int),
                streams: stepped.0.streams,
                preface_received: cv.preface_received,
                pending: stepped.0.pending,
            };
            match stepped.1 {
                Err(e) => (cv2, Err(e)),
                Ok(opt) => {
                    let rest = spec_run(cv2);
                    match rest.1 {
                        Err(e) => (rest.0, Err(e)),
                        Ok(evs) => (
                            rest.0,
                            Ok(
                                match opt {
                                    Some(ev) => seq![ev] + evs,
                                    None => evs,
                                },
                            ),
                        ),
                    }
                },
            }
        }
    }
}

/// How a finished run's result extends a partial run: the events already
/// emitted, followed by whatever the rest of the buffer yields — or the
/// error that the rest raises, which discards the earlier events.
pub open spec fn run_extends(
    whole: Result<Seq<EventView>, H2Error>,
    emitted: Seq<EventView>,
    rest: Result<Seq<EventView>, H2Error>,
) -> bool {
    match rest {
        Ok(evs) => whole == Ok::<Seq<EventView>, H2Error>(emitted + evs),
        Err(e) => whole == Err::<Seq<EventView>, H2Error>(e),
    }
}

/// The 24 ASCII bytes of the HTTP/2 connection preface.
pub open spec fn spec_preface() -> Seq<u8> {
    seq![
        0x50u8, 0x52u8, 0x49u8, 0x20u8, 0x2au8, 0x20u8, 0x48u8, 0x54u8, 0x54u8, 0x50u8, 0x2fu8,
        0x32u8, 0x2eu8, 0x30u8, 0x0du8, 0x0au8, 0x0du8, 0x0au8, 0x53u8, 0x4du8, 0x0du8, 0x0au8,
        0x0du8, 0x0au8,
    ]
}

/// Opportunistic preface recognition: while the flag is unset and the buffer
/// already starts with the whole preface, those 24 bytes are removed and the
/// flag is set for good; with fewer bytes buffered the check is only
/// deferred to a later call, never skipped.
pub open spec fn spec_absorb_preface(cv: CodecView) -> CodecView {
    if !cv.preface_received && cv.buffer.len() >= 24 && cv.buffer.subrange(0, 24)
        == spec_preface() {
        CodecView {
            buffer: cv.buffer.subrange(24, cv.buffer.len() as int),
            streams: cv.streams,
            preface_received: true,
            pending: cv.pending,
        }
    } else {
        cv
    }
}

/// One whole `process` call: append the input to the buffer, run preface
/// recognition if still owed, then consume complete frames.
pub open spec fn spec_process(cv: CodecView, input: Seq<u8>) -> (
    CodecView,
    Result<Seq<EventView>, H2Error>,
) {
    spec_run(spec_absorb_preface(cv.with_buffer(cv.buffer + input)))
}

} // verus!
