//! The connection codec: buffering of partial input, frame-boundary
//! detection, per-type dispatch, header-block reassembly under a fixed size
//! bound, and per-stream lifecycle tracking.

use vstd::prelude::*;
use std::collections::HashMap;
use crate::events::{EventView, H2Error, H2Event, lemma_views_of_push, views_of};
use crate::frame_header::{H2FrameHeader, read_be16, read_be32};
use crate::model::{CodecView, PendingView, run_extends, spec_absorb_preface, spec_extract_data,
    spec_extract_headers, spec_parse_settings, spec_preface, spec_process, spec_run, stream_after,
    step_frame};
use crate::flags;
use crate::frame_type;

verus! {

/// A copy of `v[start..end]`.
fn copy_range(v: &Vec<u8>, start: usize, end: usize) -> (r: Vec<u8>)
    requires
        start <= end <= v@.len(),
    ensures
        r@ == v@.subrange(start as int, end as int),
{
    let mut r: Vec<u8> = Vec::new();
    let mut i: usize = start;
    while i < end
        invariant
            start <= i <= end <= v@.len(),
            r@ == v@.subrange(start as int, i as int),
        decreases end - i,
    {
        r.push(v[i]);
        proof {
            assert(v@.subrange(start as int, i + 1 as int) =~= v@.subrange(
                start as int,
                i as int,
            ).push(v@[i as int]));
        }
        i += 1;
    }
    r
}

/// Append all of `src` to `dst`.
fn append_from_slice(dst: &mut Vec<u8>, src: &[u8])
    ensures
        final(dst)@ == old(dst)@ + src@,
{
    let mut i: usize = 0;
    while i < src.len()
        invariant
            0 <= i <= src@.len(),
            dst@ == old(dst)@ + src@.subrange(0, i as int),
        decreases src@.len() - i,
    {
        dst.push(src[i]);
        proof {
            assert(old(dst)@ + src@.subrange(0, i + 1 as int) =~= (old(dst)@ + src@.subrange(
                0,
                i as int,
            )).push(src@[i as int]));
        }
        i += 1;
    }
    proof {
        assert(old(dst)@ + src@.subrange(0, src@.len() as int) =~= old(dst)@ + src@);
    }
}

/// Create the stream's entry if absent and switch on the named flags.
fn touch_stream(streams: &mut HashMap<u32, StreamState>, id: u32, set_complete: bool, set_ended: bool)
    ensures
        final(streams)@ == old(streams)@.insert(
            id,
            stream_after(old(streams)@, id, set_complete, set_ended),
        ),
{
    let prev = match streams.get(&id) {
        Some(s) => *s,
        None => StreamState { headers_complete: false, stream_ended: false },
    };
    let next = StreamState {
        headers_complete: prev.headers_complete || set_complete,
        stream_ended: prev.stream_ended || set_ended,
    };
    streams.insert(id, next);
}

/// Parse a SETTINGS payload as consecutive 6-byte entries, dropping any
/// trailing incomplete entry.
fn parse_settings(payload: &Vec<u8>) -> (r: Vec<(u16, u32)>)
    ensures
        r@ == spec_parse_settings(payload@),
{
    let mut settings: Vec<(u16, u32)> = Vec::new();
    let mut pos: usize = 0;
    proof {
        assert(payload@.skip(0) =~= payload@);
        assert(Seq::<(u16, u32)>::empty() + spec_parse_settings(payload@) =~= spec_parse_settings(
            payload@,
        ));
    }
    while payload.len() - pos >= 6
        invariant
            0 <= pos <= payload@.len(),
            spec_parse_settings(payload@) == settings@ + spec_parse_settings(
                payload@.skip(pos as int),
            ),
        decreases payload@.len() - pos,
    {
        let id = read_be16(payload[pos], payload[pos + 1]);
        let value = read_be32(
            payload[pos + 2],
            payload[pos + 3],
            payload[pos + 4],
            payload[pos + 5],
        );
        let ghost settings0 = settings@;
        settings.push((id, value));
        proof {
            let rest = payload@.skip(pos as int);
            assert(rest[0] == payload@[pos as int]);
            assert(rest[1] == payload@[pos + 1]);
            assert(rest[2] == payload@[pos + 2]);
            assert(rest[3] == payload@[pos + 3]);
            assert(rest[4] == payload@[pos + 4]);
            assert(rest[5] == payload@[pos + 5]);
            assert(rest.skip(6) =~= payload@.skip(pos + 6));
            assert(spec_parse_settings(rest) == seq![(id, value)] + spec_parse_settings(
                payload@.skip(pos + 6),
            ));
            assert(settings0 + spec_parse_settings(rest) =~= settings@ + spec_parse_settings(
                payload@.skip(pos + 6),
            ));
        }
        pos += 6;
    }
    proof {
        assert(spec_parse_settings(payload@.skip(pos as int)) =~= Seq::<(u16, u32)>::empty());
        assert(settings@ + Seq::<(u16, u32)>::empty() =~= settings@);
    }
    settings
}

/// Maximum accumulated header-block size. Bounds memory growth from a peer
/// that withholds END_HEADERS indefinitely.
pub const MAX_HEADER_BLOCK_SIZE: usize = 256 * 1024;

/// The HTTP/2 connection preface (24 ASCII bytes).
pub const CONNECTION_PREFACE: [u8; 24] = [
    0x50, 0x52, 0x49, 0x20, 0x2a, 0x20, 0x48, 0x54, 0x54, 0x50, 0x2f, 0x32, 0x2e, 0x30, 0x0d,
    0x0a, 0x0d, 0x0a, 0x53, 0x4d, 0x0d, 0x0a, 0x0d, 0x0a,
];

/// Lifecycle flags for a single tracked stream. Entries are created lazily
/// when DATA or HEADERS first references a stream id, and removed only by
/// RST_STREAM or an explicit `remove_stream` call.
#[derive(Debug, Clone, Copy, PartialEq, Eq, Structural)]
pub struct StreamState {
    /// True once END_HEADERS was seen for the stream.
    pub headers_complete: bool,
    /// True once END_STREAM was seen for the stream.
    pub stream_ended: bool,
}

impl Default for StreamState {
    /// A fresh entry: no flags observed yet.
    fn default() -> (r: Self)
        ensures
            r == (StreamState { headers_complete: false, stream_ended: false }),
    {
        StreamState { headers_complete: false, stream_ended: false }
    }
}

/// The in-progress header-block assembly awaiting CONTINUATION frames.
pub(crate) struct PendingAssembly {
    pub stream_id: u32,
    pub header_block: Vec<u8>,
    pub end_stream: bool,
}

/// One HTTP/2 connection's frame parser. Feed raw bytes to `process` and get
/// back the parsed events; build outbound control frames with the `create_*`
/// functions. One instance models exactly one connection.
pub struct H2Codec {
    /// Bytes of a trailing partial frame, kept between calls.
    buffer: Vec<u8>,
    /// Lifecycle flags per tracked stream id.
    streams: HashMap<u32, StreamState>,
    /// Whether the connection preface was already consumed.
    preface_received: bool,
    /// The single in-flight header-block assembly, if any.
    pending: Option<PendingAssembly>,
}

impl View for H2Codec {
    type V = CodecView;

    closed spec fn view(&self) -> CodecView {
        CodecView {
            buffer: self.buffer@,
            streams: self.streams@,
            preface_received: self.preface_received,
            pending: match self.pending {
                Some(p) => Some(
                    PendingView {
                        stream_id: p.stream_id,
                        block: p.header_block@,
                        end_stream: p.end_stream,
                    },
                ),
                None => None,
            },
        }
    }
}

/// The codec's internal invariant over its view.
pub open spec fn view_wf(cv: CodecView) -> bool {
    cv.pending matches Some(p) ==> p.block.len() <= MAX_HEADER_BLOCK_SIZE
}

impl H2Codec {
    /// Well-formedness: a pending header block never exceeds the size bound.
    /// Constructors establish it and every method preserves it.
    pub open spec fn wf(&self) -> bool {
        view_wf(self@)
    }

    /// The state of a fresh codec: everything empty, preface still owed.
    pub open spec fn spec_initial() -> CodecView {
        CodecView {
            buffer: Seq::empty(),
            streams: Map::empty(),
            preface_received: false,
            pending: None,
        }
    }

    /// A codec for a new connection.
    pub fn new() -> (r: Self)
        ensures
            r.wf(),
            r@ == Self::spec_initial(),
    {
        H2Codec { buffer: Vec::new(), streams: HashMap::new(), preface_received: false, pending: None }
    }

    /// Whether the connection preface was already consumed.
    pub fn preface_received(&self) -> (r: bool)
        ensures
            r == self@.preface_received,
    {
        self.preface_received
    }

    /// Force the preface flag, as when the preface is known to be handled
    /// elsewhere (or owed again).
    pub fn set_preface_received(&mut self, value: bool)
        requires
            old(self).wf(),
        ensures
            final(self).wf(),
            final(self)@ == (CodecView { preface_received: value, ..old(self)@ }),
    {
        self.preface_received = value;
    }

    /// The tracked lifecycle flags of a stream, if any.
    pub fn stream_state(&self, stream_id: u32) -> (r: Option<StreamState>)
        ensures
            r == if self@.streams.contains_key(stream_id) {
                Some(self@.streams[stream_id])
            } else {
                None::<StreamState>
            },
    {
        match self.streams.get(&stream_id) {
            Some(s) => Some(*s),
            None => None,
        }
    }

    /// How many received bytes wait in the buffer for a complete frame.
    pub fn buffer_len(&self) -> (r: usize)
        ensures
            r == self@.buffer.len(),
    {
        self.buffer.len()
    }

    /// Extract a DATA payload, stripping padding under the PADDED flag.
    fn extract_data_payload(&self, header: &H2FrameHeader, payload: Vec<u8>) -> (r: Result<
        Vec<u8>,
        H2Error,
    >)
        ensures
            match (r, spec_extract_data(header.flags, payload@)) {
                (Ok(v), Ok(s)) => v@ == s,
                (Err(e), Err(se)) => e == se,
                _ => false,
            },
    {
        if header.flags & flags::PADDED != 0 {
            if payload.len() == 0 {
                return Err(H2Error::InvalidPadding { frame_type: frame_type::DATA });
            }
            let pad = payload[0] as usize;
            if pad >= payload.len() {
                return Err(H2Error::InvalidPadding { frame_type: frame_type::DATA });
            }
            Ok(copy_range(&payload, 1, payload.len() - pad))
        } else {
            Ok(payload)
        }
    }

    /// Extract a HEADERS payload's header-block fragment, stripping padding
    /// and the priority prefix under the PADDED and PRIORITY flags.
    fn extract_headers_payload(&self, header: &H2FrameHeader, payload: Vec<u8>) -> (r: Result<
        Vec<u8>,
        H2Error,
    >)
        ensures
            match (r, spec_extract_headers(header.flags, payload@)) {
                (Ok(v), Ok(s)) => v@ == s,
                (Err(e), Err(se)) => e == se,
                _ => false,
            },
    {
        let padded = header.flags & flags::PADDED != 0;
        let prio = header.flags & flags::PRIORITY != 0;
        if padded && payload.len() == 0 {
            return Err(H2Error::InvalidPadding { frame_type: frame_type::HEADERS });
        }
        let pad: usize = if padded {
            payload[0] as usize
        } else {
            0
        };
        if padded && pad >= payload.len() - 1 {
            return Err(H2Error::InvalidPadding { frame_type: frame_type::HEADERS });
        }
        let start: usize = if padded {
            1
        } else {
            0
        };
        let end: usize = payload.len() - pad;
        if prio && end - start < 5 {
            return Err(H2Error::MalformedFrame { frame_type: frame_type::HEADERS, required: 5 });
        }
        let offset: usize = if prio {
            start + 5
        } else {
            start
        };
        Ok(copy_range(&payload, offset, end))
    }

    /// Consume the preface from the front of the buffer if it is owed and
    /// fully buffered; otherwise leave everything as it is (the check is
    /// retried on the next call, never skipped).
    fn try_absorb_preface(&mut self)
        requires
            old(self).wf(),
        ensures
            final(self).wf(),
            final(self)@ == spec_absorb_preface(old(self)@),
    {
        if !self.preface_received && self.buffer.len() >= 24 {
            if is_h2c_preface(self.buffer.as_slice()) {
                let rest = copy_range(&self.buffer, 24, self.buffer.len());
                self.buffer = rest;
                self.preface_received = true;
            }
        }
    }

    /// Process incoming bytes and return the parsed events, in frame-arrival
    /// order. This is the main entry point: the input is appended to the
    /// connection buffer, the preface is recognized if still owed, and every
    /// complete buffered frame is consumed — a trailing partial frame is
    /// preserved verbatim for a later call. On an error the call returns no
    /// events, dispatch stops at the offending frame, and bytes already
    /// consumed stay consumed.
    #[verifier::rlimit(100)]
    pub fn process(&mut self, data: &[u8]) -> (r: Result<Vec<H2Event>, H2Error>)
        requires
            old(self).wf(),
        ensures
            final(self).wf(),
            ({
                let outcome = spec_process(old(self)@, data@);
                final(self)@ == outcome.0 && match (r, outcome.1) {
                    (Ok(events), Ok(evs)) => views_of(events@) == evs,
                    (Err(e), Err(se)) => e == se,
                    _ => false,
                }
            }),
    {
        append_from_slice(&mut self.buffer, data);
        proof {
            assert(self@ == old(self)@.with_buffer(old(self)@.buffer + data@));
        }
        self.try_absorb_preface();
        let ghost pre = self@;
        proof {
            assert(spec_process(old(self)@, data@) == spec_run(pre));
        }
        let mut events: Vec<H2Event> = Vec::new();
        proof {
            assert(views_of(events@) =~= Seq::<EventView>::empty());
            match spec_run(pre).1 {
                Ok(evs) => {
                    assert(Seq::<EventView>::empty() + evs =~= evs);
                },
                Err(e) => {},
            }
        }
        loop
            invariant
                self.wf(),
                spec_process(old(self)@, data@) == spec_run(pre),
                spec_run(self@).0 == spec_run(pre).0,
                run_extends(spec_run(pre).1, views_of(events@), spec_run(self@).1),
            ensures
                self.wf(),
                spec_run(pre).0 == self@,
                spec_run(pre).1 == Ok::<Seq<EventView>, H2Error>(views_of(events@)),
            decreases self@.buffer.len(),
        {
            let ghost cv_top = self@;
            if self.buffer.len() < 9 {
                proof {
                    assert(spec_run(cv_top) == (cv_top, Ok::<Seq<EventView>, H2Error>(
                        Seq::empty(),
                    )));
                    assert(views_of(events@) + Seq::<EventView>::empty() =~= views_of(events@));
                }
                break;
            }
            let header = H2FrameHeader::parse(self.buffer.as_slice()).unwrap();
            let total = header.total_size();
            if self.buffer.len() < total {
                proof {
                    assert(spec_run(cv_top) == (cv_top, Ok::<Seq<EventView>, H2Error>(
                        Seq::empty(),
                    )));
                    assert(views_of(events@) + Seq::<EventView>::empty() =~= views_of(events@));
                }
                break;
            }
            let payload = copy_range(&self.buffer, 9, total);
            let rest = copy_range(&self.buffer, total, self.buffer.len());
            self.buffer = rest;
            let ghost stepped = step_frame(cv_top.table(), header, payload@);
            let ghost cv2 = (CodecView {
                buffer: cv_top.buffer.subrange(9 + header.length as int, cv_top.buffer.len() as int),
                streams: stepped.0.streams,
                preface_received: cv_top.preface_received,
                pending: stepped.0.pending,
            });
            match self.parse_frame(&header, payload) {
                Ok(opt) => {
                    proof {
                        assert(self@ == cv2);
                    }
                    let ghost emitted0 = views_of(events@);
                    if let Some(ev) = opt {
                        let ghost events0 = events@;
                        events.push(ev);
                        proof {
                            lemma_views_of_push(events0, ev);
                        }
                    }
                    proof {
                        match spec_run(cv2).1 {
                            Ok(evs) => {
                                match stepped.1 {
                                    Ok(Some(evv)) => {
                                        assert(spec_run(cv_top).1 == Ok::<
                                            Seq<EventView>,
                                            H2Error,
                                        >(seq![evv] + evs));
                                        assert(emitted0 + (seq![evv] + evs) =~= views_of(events@)
                                            + evs);
                                    },
                                    Ok(None) => {
                                        assert(spec_run(cv_top).1 == Ok::<
                                            Seq<EventView>,
                                            H2Error,
                                        >(evs));
                                    },
                                    Err(e) => {
                                        assert(false);
                                    },
                                }
                            },
                            Err(e) => {},
                        }
                    }
                },
                Err(e) => {
                    proof {
                        assert(self@ == cv2);
                        assert(spec_run(cv_top) == (cv2, Err::<Seq<EventView>, H2Error>(e)));
                    }
                    return Err(e);
                },
            }
        }
        Ok(events)
    }

    /// Dispatch a single complete frame by its type, mutating the stream
    /// table and the pending assembly exactly as the model's `step_frame`
    /// says, and produce its event if it has one.
    fn parse_frame(&mut self, header: &H2FrameHeader, payload: Vec<u8>) -> (r: Result<
        Option<H2Event>,
        H2Error,
    >)
        requires
            old(self).wf(),
            payload@.len() < 0x1000000,
        ensures
            final(self).wf(),
            final(self)@.buffer == old(self)@.buffer,
            final(self)@.preface_received == old(self)@.preface_received,
            ({
                let stepped = step_frame(old(self)@.table(), *header, payload@);
                final(self)@.table() == stepped.0 && match (r, stepped.1) {
                    (Ok(Some(ev)), Ok(Some(evv))) => ev@ == evv,
                    (Ok(None), Ok(None)) => true,
                    (Err(e), Err(se)) => e == se,
                    _ => false,
                }
            }),
    {
        if header.frame_type == frame_type::DATA {
            let end_stream = header.is_end_stream();
            let data = match self.extract_data_payload(header, payload) {
                Ok(d) => d,
                Err(e) => {
                    return Err(e);
                },
            };
            touch_stream(&mut self.streams, header.stream_id, false, end_stream);
            Ok(Some(H2Event::Data { stream_id: header.stream_id, data, end_stream }))
        } else if header.frame_type == frame_type::HEADERS {
            let end_stream = header.is_end_stream();
            let end_headers = header.is_end_headers();
            let header_block = match self.extract_headers_payload(header, payload) {
                Ok(b) => b,
                Err(e) => {
                    return Err(e);
                },
            };
            touch_stream(&mut self.streams, header.stream_id, end_headers, end_stream);
            if end_headers {
                // The complete header block arrived in a single frame.
                Ok(
                    Some(
                        H2Event::Headers { stream_id: header.stream_id, header_block, end_stream },
                    ),
                )
            } else if header_block.len() > MAX_HEADER_BLOCK_SIZE {
                Err(
                    H2Error::ResourceLimitExceeded {
                        size: header_block.len(),
                        limit: MAX_HEADER_BLOCK_SIZE,
                    },
                )
            } else {
                // The block spans frames: start an assembly and wait for
                // CONTINUATION. No event yet.
                self.pending = Some(
                    PendingAssembly { stream_id: header.stream_id, header_block, end_stream },
                );
                Ok(None)
            }
        } else if header.frame_type == frame_type::CONTINUATION {
            match self.pending.take() {
                None => Err(H2Error::UnexpectedContinuation { stream_id: header.stream_id }),
                Some(mut p) => {
                    if p.stream_id != header.stream_id {
                        let pending_stream_id = p.stream_id;
                        self.pending = Some(p);
                        Err(
                            H2Error::ProtocolViolation {
                                received_stream_id: header.stream_id,
                                pending_stream_id,
                            },
                        )
                    } else if p.header_block.len() + payload.len() > MAX_HEADER_BLOCK_SIZE {
                        // Guard against unbounded accumulation: the assembly
                        // is dropped, so a later CONTINUATION is unexpected.
                        Err(
                            H2Error::ResourceLimitExceeded {
                                size: p.header_block.len() + payload.len(),
                                limit: MAX_HEADER_BLOCK_SIZE,
                            },
                        )
                    } else {
                        append_from_slice(&mut p.header_block, payload.as_slice());
                        if header.is_end_headers() {
                            touch_stream(&mut self.streams, header.stream_id, true, false);
                            Ok(
                                Some(
                                    H2Event::Headers {
                                        stream_id: header.stream_id,
                                        header_block: p.header_block,
                                        end_stream: p.end_stream,
                                    },
                                ),
                            )
                        } else {
                            self.pending = Some(p);
                            Ok(None)
                        }
                    }
                },
            }
        } else if header.frame_type == frame_type::RST_STREAM {
            if payload.len() < 4 {
                return Err(
                    H2Error::MalformedFrame { frame_type: frame_type::RST_STREAM, required: 4 },
                );
            }
            let error_code = read_be32(payload[0], payload[1], payload[2], payload[3]);
            self.streams.remove(&header.stream_id);
            Ok(Some(H2Event::StreamReset { stream_id: header.stream_id, error_code }))
        } else if header.frame_type == frame_type::SETTINGS {
            let ack = header.flags & 0x1 != 0;
            let settings = if ack {
                Vec::new()
            } else {
                parse_settings(&payload)
            };
            Ok(Some(H2Event::Settings { ack, settings }))
        } else if header.frame_type == frame_type::GOAWAY {
            if payload.len() < 8 {
                return Err(
                    H2Error::MalformedFrame { frame_type: frame_type::GOAWAY, required: 8 },
                );
            }
            let last_stream_id = read_be32(payload[0], payload[1], payload[2], payload[3])
                % 0x80000000;
            let error_code = read_be32(payload[4], payload[5], payload[6], payload[7]);
            Ok(Some(H2Event::GoAway { last_stream_id, error_code }))
        } else if header.frame_type == frame_type::WINDOW_UPDATE {
            if payload.len() < 4 {
                return Err(
                    H2Error::MalformedFrame { frame_type: frame_type::WINDOW_UPDATE, required: 4 },
                );
            }
            let increment = read_be32(payload[0], payload[1], payload[2], payload[3]) % 0x80000000;
            Ok(Some(H2Event::WindowUpdate { stream_id: header.stream_id, increment }))
        } else if header.frame_type == frame_type::PING {
            if payload.len() < 8 {
                return Err(H2Error::MalformedFrame { frame_type: frame_type::PING, required: 8 });
            }
            let ack = header.flags & 0x1 != 0;
            let data: [u8; 8] = [
                payload[0],
                payload[1],
                payload[2],
                payload[3],
                payload[4],
                payload[5],
                payload[6],
                payload[7],
            ];
            proof {
                assert(data@ =~= payload@.subrange(0, 8));
            }
            Ok(Some(H2Event::Ping { ack, data }))
        } else {
            // PRIORITY, PUSH_PROMISE, and unknown type codes: consumed, no
            // event.
            Ok(None)
        }
    }

    /// Remove a stream's tracked state (as after completing a flow).
    /// Idempotent: a no-op if the stream is not tracked.
    pub fn remove_stream(&mut self, stream_id: u32)
        requires
            old(self).wf(),
        ensures
            final(self).wf(),
            final(self)@ == (CodecView { streams: old(self)@.streams.remove(stream_id), ..old(self)@ }),
    {
        self.streams.remove(&stream_id);
    }

    /// Reset all codec state (as after the underlying connection restarts),
    /// so nothing leaks across sessions: buffer, stream table, preface flag,
    /// and any partially assembled header block are discarded.
    pub fn reset(&mut self)
        ensures
            final(self).wf(),
            final(self)@ == Self::spec_initial(),
    {
        self.buffer.clear();
        self.streams.clear();
        self.preface_received = false;
        self.pending = None;
    }
}

impl Default for H2Codec {
    /// Same as `new`: a codec for a fresh connection.
    fn default() -> (r: Self)
        ensures
            r.wf(),
            r@ == Self::spec_initial(),
    {
        Self::new()
    }
}

/// Check whether `data` starts with the HTTP/2 connection preface (h2c
/// upgrade detection), independent of any codec instance.
pub fn is_h2c_preface(data: &[u8]) -> (r: bool)
    ensures
        r == (data@.len() >= 24 && data@.subrange(0, 24) == spec_preface()),
{
    if data.len() < 24 {
        return false;
    }
    let mut i: usize = 0;
    while i < 24
        invariant
            0 <= i <= 24,
            data@.len() >= 24,
            forall|j: int| 0 <= j < i ==> data@[j] == spec_preface()[j],
        decreases 24 - i,
    {
        if data[i] != CONNECTION_PREFACE[i] {
            proof {
                assert(data@.subrange(0, 24)[i as int] == data@[i as int]);
                assert(data@[i as int] != spec_preface()[i as int]);
            }
            return false;
        }
        i += 1;
    }
    proof {
        assert(data@.subrange(0, 24) =~= spec_preface());
    }
    true
}

} // verus!
