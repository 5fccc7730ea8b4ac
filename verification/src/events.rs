//! Semantic outcomes of frame parsing: a closed set of events, and the error
//! taxonomy for frames the codec refuses.

use vstd::prelude::*;

verus! {

/// The mathematical shape of an emitted event: byte payloads as sequences.
pub ghost enum EventView {
    Headers { stream_id: u32, header_block: Seq<u8>, end_stream: bool },
    Data { stream_id: u32, data: Seq<u8>, end_stream: bool },
    StreamReset { stream_id: u32, error_code: u32 },
    GoAway { last_stream_id: u32, error_code: u32 },
    Settings { ack: bool, settings: Seq<(u16, u32)> },
    WindowUpdate { stream_id: u32, increment: u32 },
    Ping { ack: bool, data: Seq<u8> },
}

/// An event emitted by the codec when parsing frames. Frames of type
/// PRIORITY or PUSH_PROMISE, and unrecognized type codes, are consumed from
/// the buffer but never produce an event.
#[derive(Debug)]
#[allow(inconsistent_fields)]
pub enum H2Event {
    /// A complete header block (possibly reassembled from HEADERS plus
    /// CONTINUATION frames), still HPACK-encoded.
    Headers { stream_id: u32, header_block: Vec<u8>, end_stream: bool },
    /// One DATA frame's payload, padding stripped.
    Data { stream_id: u32, data: Vec<u8>, end_stream: bool },
    /// RST_STREAM: the stream was reset.
    StreamReset { stream_id: u32, error_code: u32 },
    /// Connection-level GOAWAY.
    GoAway { last_stream_id: u32, error_code: u32 },
    /// SETTINGS: `(identifier, value)` pairs in wire order, empty for an ACK.
    Settings { ack: bool, settings: Vec<(u16, u32)> },
    /// WINDOW_UPDATE, increment with the reserved bit cleared.
    WindowUpdate { stream_id: u32, increment: u32 },
    /// PING with its 8 opaque bytes.
    Ping { ack: bool, data: [u8; 8] },
}

impl View for H2Event {
    type V = EventView;

    open spec fn view(&self) -> EventView {
        match *self {
            H2Event::Headers { stream_id, ref header_block, end_stream } => EventView::Headers {
                stream_id,
                header_block: header_block@,
                end_stream,
            },
            H2Event::Data { stream_id, ref data, end_stream } => EventView::Data {
                stream_id,
                data: data@,
                end_stream,
            },
            H2Event::StreamReset { stream_id, error_code } => EventView::StreamReset {
                stream_id,
                error_code,
            },
            H2Event::GoAway { last_stream_id, error_code } => EventView::GoAway {
                last_stream_id,
                error_code,
            },
            H2Event::Settings { ack, ref settings } => EventView::Settings {
                ack,
                settings: settings@,
            },
            H2Event::WindowUpdate { stream_id, increment } => EventView::WindowUpdate {
                stream_id,
                increment,
            },
            H2Event::Ping { ack, ref data } => EventView::Ping { ack, data: data@ },
        }
    }
}

/// The views of a sequence of emitted events, in order.
pub open spec fn views_of(s: Seq<H2Event>) -> Seq<EventView> {
    s.map_values(|e: H2Event| e@)
}

/// Appending an event to a vector appends its view to the views.
pub proof fn lemma_views_of_push(s: Seq<H2Event>, e: H2Event)
    ensures
        views_of(s.push(e)) == views_of(s).push(e@),
{
    assert(views_of(s.push(e)) =~= views_of(s).push(e@));
}

/// Why a `process` call refused a frame. Every error is terminal for that
/// call: dispatch stops and no events are returned beside it.
#[derive(Debug, Clone, Copy, PartialEq, Eq, Structural)]
pub enum H2Error {
    /// A payload shorter than the fixed minimum for its frame type
    /// (RST_STREAM needs 4 bytes, GOAWAY 8, WINDOW_UPDATE 4, PING 8), or a
    /// HEADERS frame with the PRIORITY flag but fewer than 5 bytes left after
    /// padding was stripped.
    MalformedFrame { frame_type: u8, required: usize },
    /// A PADDED frame whose payload is empty or whose declared pad length
    /// reaches past the remaining payload.
    InvalidPadding { frame_type: u8 },
    /// A CONTINUATION frame naming a different stream than the pending
    /// header-block assembly.
    ProtocolViolation { received_stream_id: u32, pending_stream_id: u32 },
    /// A CONTINUATION frame while no header-block assembly is pending.
    UnexpectedContinuation { stream_id: u32 },
    /// Accumulated header-block bytes surpassing the fixed limit.
    ResourceLimitExceeded { size: usize, limit: usize },
}

} // verus!
