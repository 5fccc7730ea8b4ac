//! Laws of the codec, proved over the model: fragmentation invariance of
//! `process`, reserved-bit clearing, the header-block size bound, and the
//! CONTINUATION protocol guards.

use vstd::prelude::*;
use crate::builders::{spec_be32_bytes, spec_rst_stream_frame};
use crate::codec::MAX_HEADER_BLOCK_SIZE;
use crate::events::{EventView, H2Error};
use crate::frame_header::{H2FrameHeader, spec_be32, spec_mask31, spec_parse_header};
use crate::model::{CodecView, PendingView, TableView, run_extends, spec_process, spec_run,
    step_frame};
use crate::frame_type;

verus! {

/// Frame consumption never touches the preface flag: only preface
/// recognition itself, before the frame loop, sets it.
pub proof fn lemma_run_preserves_preface(cv: CodecView)
    ensures
        spec_run(cv).0.preface_received == cv.preface_received,
    decreases cv.buffer.len(),
{
    let b = cv.buffer;
    if b.len() < 9 || b.len() < 9 + spec_parse_header(b).length {
    } else {
        let h = spec_parse_header(b);
        let total = 9 + h.length as int;
        let stepped = step_frame(cv.table(), h, b.subrange(9, total));
        let cv2 = CodecView {
            buffer: b.subrange(total, b.len() as int),
            streams: stepped.0.streams,
            preface_received: cv.preface_received,
            pending: stepped.0.pending,
        };
        lemma_run_preserves_preface(cv2);
    }
}

/// Frame consumption is incremental: running on a buffer and then running
/// on what it left plus further bytes is the same as running on the whole —
/// the same final state, and the same events in the same order (an error in
/// the first part carries over unchanged).
pub proof fn lemma_run_extend(cv: CodecView, ext: Seq<u8>)
    ensures
        ({
            let base = spec_run(cv);
            let whole = spec_run(cv.with_buffer(cv.buffer + ext));
            match base.1 {
                Ok(evs) => ({
                    let cont = spec_run(base.0.with_buffer(base.0.buffer + ext));
                    whole.0 == cont.0 && run_extends(whole.1, evs, cont.1)
                }),
                Err(e) => whole == (
                    base.0.with_buffer(base.0.buffer + ext),
                    Err::<Seq<EventView>, H2Error>(e),
                ),
            }
        }),
    decreases cv.buffer.len(),
{
    let b = cv.buffer;
    let w = cv.with_buffer(b + ext);
    let base = spec_run(cv);
    let whole = spec_run(w);
    if b.len() < 9 || b.len() < 9 + spec_parse_header(b).length {
        // No complete frame yet: the first run emits nothing and keeps the
        // buffer, so the continuation run starts from exactly the whole run's
        // state.
        assert(base == (cv, Ok::<Seq<EventView>, H2Error>(Seq::empty())));
        match whole.1 {
            Ok(evs) => {
                assert(Seq::<EventView>::empty() + evs =~= evs);
            },
            Err(e) => {},
        }
    } else {
        let h = spec_parse_header(b);
        let total = 9 + h.length as int;
        // The extension cannot change the frame at the front.
        assert((b + ext)[0] == b[0]);
        assert((b + ext)[1] == b[1]);
        assert((b + ext)[2] == b[2]);
        assert((b + ext)[3] == b[3]);
        assert((b + ext)[4] == b[4]);
        assert((b + ext)[5] == b[5]);
        assert((b + ext)[6] == b[6]);
        assert((b + ext)[7] == b[7]);
        assert((b + ext)[8] == b[8]);
        assert(spec_parse_header(b + ext) == h);
        let payload = b.subrange(9, total);
        assert((b + ext).subrange(9, total) =~= payload);
        let stepped = step_frame(cv.table(), h, payload);
        let cv2 = CodecView {
            buffer: b.subrange(total, b.len() as int),
            streams: stepped.0.streams,
            preface_received: cv.preface_received,
            pending: stepped.0.pending,
        };
        let w2 = CodecView {
            buffer: (b + ext).subrange(total, (b + ext).len() as int),
            streams: stepped.0.streams,
            preface_received: cv.preface_received,
            pending: stepped.0.pending,
        };
        assert(w2.buffer =~= cv2.buffer + ext);
        assert(w2 == cv2.with_buffer(cv2.buffer + ext));
        match stepped.1 {
            Err(e) => {
                assert(base == (cv2, Err::<Seq<EventView>, H2Error>(e)));
                assert(whole == (w2, Err::<Seq<EventView>, H2Error>(e)));
            },
            Ok(opt) => {
                lemma_run_extend(cv2, ext);
                let base2 = spec_run(cv2);
                let whole2 = spec_run(w2);
                match base2.1 {
                    Ok(evs2) => {
                        let cont = spec_run(base2.0.with_buffer(base2.0.buffer + ext));
                        match cont.1 {
                            Ok(ecs) => {
                                match opt {
                                    Some(ev) => {
                                        assert(seq![ev] + (evs2 + ecs) =~= (seq![ev] + evs2)
                                            + ecs);
                                    },
                                    None => {},
                                }
                            },
                            Err(e) => {},
                        }
                    },
                    Err(e2) => {},
                }
            },
        }
    }
}

/// Fragmentation invariance: on a codec past the preface, splitting one
/// call's input at any byte offset across two calls yields the same final
/// state, and — when the whole input succeeds — the same event sequence as
/// feeding it whole. Splits into more than two calls follow by applying
/// this repeatedly.
pub proof fn lemma_process_split(cv: CodecView, a: Seq<u8>, b: Seq<u8>)
    requires
        cv.preface_received,
        spec_process(cv, a + b).1 is Ok,
    ensures
        ({
            let whole = spec_process(cv, a + b);
            let first = spec_process(cv, a);
            let second = spec_process(first.0, b);
            &&& second.0 == whole.0
            &&& first.1 matches Ok(e1) && second.1 matches Ok(e2) && whole.1 == Ok::<
                Seq<EventView>,
                H2Error,
            >(e1 + e2)
        }),
{
    let cva = cv.with_buffer(cv.buffer + a);
    let cvab = cv.with_buffer(cv.buffer + (a + b));
    assert(cv.buffer + (a + b) =~= (cv.buffer + a) + b);
    assert(cvab == cva.with_buffer(cva.buffer + b));
    let first = spec_run(cva);
    lemma_run_preserves_preface(cva);
    lemma_run_extend(cva, b);
    match first.1 {
        Ok(evs1) => {
            let cont = spec_run(first.0.with_buffer(first.0.buffer + b));
            match cont.1 {
                Ok(ecs) => {},
                Err(e) => {
                    assert(false);
                },
            }
        },
        Err(e) => {
            assert(false);
        },
    }
}

/// Any header's wire stream id parses with bit 31 cleared: the stream id
/// surfaced is the raw big-endian value modulo `0x80000000`, so it is always
/// below `0x80000000` even when the wire had the reserved bit set.
pub proof fn lemma_stream_id_reserved_bit_cleared(b: Seq<u8>)
    requires
        b.len() >= 9,
    ensures
        spec_parse_header(b).stream_id == spec_mask31(spec_be32(b[5], b[6], b[7], b[8])),
        spec_parse_header(b).stream_id < 0x80000000,
{
}

/// A WINDOW_UPDATE increment is surfaced with bit 31 cleared, whatever the
/// wire bytes held, and the frame changes no state.
pub proof fn lemma_window_update_increment_masked(tv: TableView, h: H2FrameHeader, payload: Seq<u8>)
    requires
        h.frame_type == frame_type::WINDOW_UPDATE,
        payload.len() >= 4,
    ensures
        step_frame(tv, h, payload) == (
            tv,
            Ok::<Option<EventView>, H2Error>(
                Some(
                    EventView::WindowUpdate {
                        stream_id: h.stream_id,
                        increment: spec_mask31(
                            spec_be32(payload[0], payload[1], payload[2], payload[3]),
                        ),
                    },
                ),
            ),
        ),
        spec_mask31(spec_be32(payload[0], payload[1], payload[2], payload[3])) < 0x80000000,
{
}

/// The header-block accumulation bound: a CONTINUATION for the pending
/// stream succeeds while the cumulative size stays at or below the limit; a
/// fragment pushing it above the limit fails with ResourceLimitExceeded and
/// clears the assembly, so that every further CONTINUATION — on any stream —
/// then fails as unexpected.
pub proof fn lemma_continuation_size_bound(
    tv: TableView,
    p: PendingView,
    h: H2FrameHeader,
    payload: Seq<u8>,
)
    requires
        tv.pending == Some(p),
        h.frame_type == frame_type::CONTINUATION,
        p.stream_id == h.stream_id,
    ensures
        ({
            let stepped = step_frame(tv, h, payload);
            if p.block.len() + payload.len() > MAX_HEADER_BLOCK_SIZE {
                &&& stepped.1 == Err::<Option<EventView>, H2Error>(
                    H2Error::ResourceLimitExceeded {
                        size: (p.block.len() + payload.len()) as usize,
                        limit: MAX_HEADER_BLOCK_SIZE,
                    },
                )
                &&& stepped.0.pending is None
                &&& forall|h2: H2FrameHeader, payload2: Seq<u8>|
                    h2.frame_type == frame_type::CONTINUATION ==> #[trigger] step_frame(
                        stepped.0,
                        h2,
                        payload2,
                    ).1 == Err::<Option<EventView>, H2Error>(
                        H2Error::UnexpectedContinuation { stream_id: h2.stream_id },
                    )
            } else {
                stepped.1 is Ok
            }
        }),
{
}

/// A CONTINUATION naming a different stream than the pending assembly fails
/// with a ProtocolViolation naming both the received and the pending stream
/// id, and changes nothing.
pub proof fn lemma_continuation_stream_mismatch(
    tv: TableView,
    p: PendingView,
    h: H2FrameHeader,
    payload: Seq<u8>,
)
    requires
        tv.pending == Some(p),
        h.frame_type == frame_type::CONTINUATION,
        p.stream_id != h.stream_id,
    ensures
        step_frame(tv, h, payload) == (
            tv,
            Err::<Option<EventView>, H2Error>(
                H2Error::ProtocolViolation {
                    received_stream_id: h.stream_id,
                    pending_stream_id: p.stream_id,
                },
            ),
        ),
{
}

/// A CONTINUATION while no assembly is pending fails as unexpected and
/// changes nothing.
pub proof fn lemma_unexpected_continuation(tv: TableView, h: H2FrameHeader, payload: Seq<u8>)
    requires
        tv.pending is None,
        h.frame_type == frame_type::CONTINUATION,
    ensures
        step_frame(tv, h, payload) == (
            tv,
            Err::<Option<EventView>, H2Error>(
                H2Error::UnexpectedContinuation { stream_id: h.stream_id },
            ),
        ),
{
}

/// Reading four big-endian bytes written from a 32-bit value recovers it.
pub proof fn lemma_be32_bytes_roundtrip(x: u32)
    ensures
        spec_be32(
            spec_be32_bytes(x)[0],
            spec_be32_bytes(x)[1],
            spec_be32_bytes(x)[2],
            spec_be32_bytes(x)[3],
        ) == x,
{
    let b0 = (x / 0x1000000) as u8;
    let b1 = ((x / 0x10000) % 0x100) as u8;
    let b2 = ((x / 0x100) % 0x100) as u8;
    let b3 = (x % 0x100) as u8;
    assert(b0 * 0x1000000 + b1 * 0x10000 + b2 * 0x100 + b3 == x) by (nonlinear_arith)
        requires
            b0 == (x / 0x1000000) as u8,
            b1 == ((x / 0x10000) % 0x100) as u8,
            b2 == ((x / 0x100) % 0x100) as u8,
            b3 == (x % 0x100) as u8,
    ;
}

/// The builders and the parser cohere: feeding a built RST_STREAM frame to a
/// codec past the preface with an empty buffer yields exactly its StreamReset
/// event and removes exactly that stream's tracked state.
pub proof fn lemma_rst_stream_round_trip(cv: CodecView, stream_id: u32, error_code: u32)
    requires
        cv.preface_received,
        cv.buffer.len() == 0,
        stream_id < 0x80000000,
    ensures
        ({
            let outcome = spec_process(cv, spec_rst_stream_frame(stream_id, error_code));
            &&& outcome.0 == (CodecView {
                buffer: Seq::empty(),
                streams: cv.streams.remove(stream_id),
                preface_received: true,
                pending: cv.pending,
            })
            &&& outcome.1 == Ok::<Seq<EventView>, H2Error>(
                seq![EventView::StreamReset { stream_id, error_code }],
            )
        }),
{
    let frame = spec_rst_stream_frame(stream_id, error_code);
    assert(cv.buffer + frame =~= frame);
    let w = cv.with_buffer(frame);
    assert(frame.len() == 13);
    assert(frame[5] == spec_be32_bytes(stream_id)[0]);
    assert(frame[6] == spec_be32_bytes(stream_id)[1]);
    assert(frame[7] == spec_be32_bytes(stream_id)[2]);
    assert(frame[8] == spec_be32_bytes(stream_id)[3]);
    lemma_be32_bytes_roundtrip(stream_id);
    let h = spec_parse_header(frame);
    assert(h.length == 4);
    assert(h.frame_type == frame_type::RST_STREAM);
    assert(h.stream_id == stream_id);
    let payload = frame.subrange(9, 13);
    assert(payload[0] == spec_be32_bytes(error_code)[0]);
    assert(payload[1] == spec_be32_bytes(error_code)[1]);
    assert(payload[2] == spec_be32_bytes(error_code)[2]);
    assert(payload[3] == spec_be32_bytes(error_code)[3]);
    lemma_be32_bytes_roundtrip(error_code);
    let stepped = step_frame(w.table(), h, payload);
    let cv2 = CodecView {
        buffer: frame.subrange(13, 13),
        streams: stepped.0.streams,
        preface_received: true,
        pending: stepped.0.pending,
    };
    assert(frame.subrange(13, 13) =~= Seq::<u8>::empty());
    assert(spec_run(cv2) == (cv2, Ok::<Seq<EventView>, H2Error>(Seq::empty())));
    let ev = EventView::StreamReset { stream_id, error_code };
    assert(seq![ev] + Seq::<EventView>::empty() =~= seq![ev]);
    assert(stepped.1 == Ok::<Option<EventView>, H2Error>(Some(ev)));
    assert(stepped.0.streams == w.streams.remove(stream_id));
    assert(stepped.0.pending == cv.pending);
}

/// RST_STREAM removes the stream's tracked state entirely: afterwards the
/// stream table no longer holds the id, and nothing else changed.
pub proof fn lemma_rst_stream_removes_state(tv: TableView, h: H2FrameHeader, payload: Seq<u8>)
    requires
        h.frame_type == frame_type::RST_STREAM,
        payload.len() >= 4,
    ensures
        !step_frame(tv, h, payload).0.streams.contains_key(h.stream_id),
        step_frame(tv, h, payload).0.streams == tv.streams.remove(h.stream_id),
        step_frame(tv, h, payload).0.pending == tv.pending,
{
}

} // verus!
