//! A synchronous, I/O-free codec for the HTTP/2 binary framing layer
//! (RFC 7540): it turns raw connection bytes into semantic protocol events
//! and builds outbound control frames as exact byte sequences.
//!
//! The codec buffers partial input across calls, detects frame boundaries,
//! strips padding and priority prefixes, reassembles header blocks that span
//! HEADERS and CONTINUATION frames under a fixed size bound, and tracks
//! per-stream lifecycle flags. HPACK compression is an external collaborator:
//! header-block bytes cross this boundary opaque.

pub mod frame_type;
pub mod flags;
pub mod settings_id;
pub mod error_code;
mod frame_header;
mod events;
mod model;
mod codec;
mod builders;
mod laws;
mod hpack;

pub use frame_header::{H2FrameHeader, spec_be16, spec_be24, spec_be32, spec_mask31,
    spec_parse_header};
pub use events::{EventView, H2Error, H2Event, views_of};
pub use model::{CodecView, PendingView, TableView, run_extends, spec_absorb_preface,
    spec_extract_data, spec_extract_headers, spec_parse_settings, spec_preface, spec_process,
    spec_run, step_frame, stream_after};
pub use codec::{H2Codec, StreamState, is_h2c_preface, view_wf, CONNECTION_PREFACE,
    MAX_HEADER_BLOCK_SIZE};
pub use builders::{spec_be24_bytes, spec_be32_bytes, spec_continuation_frame, spec_goaway_frame,
    spec_ping_ack_frame, spec_rst_stream_frame, spec_settings_ack_frame, spec_settings_frame,
    spec_settings_with_window_frame, spec_window_update_frame};
pub use laws::{lemma_be32_bytes_roundtrip, lemma_continuation_size_bound,
    lemma_continuation_stream_mismatch, lemma_process_split, lemma_rst_stream_removes_state,
    lemma_rst_stream_round_trip, lemma_run_extend, lemma_run_preserves_preface,
    lemma_stream_id_reserved_bit_cleared, lemma_unexpected_continuation,
    lemma_window_update_increment_masked};
pub use hpack::{H2Header, HpackDecoder, HpackEncoder};
