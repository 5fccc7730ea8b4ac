//! Edge cases: deferred preface recognition, error propagation within one
//! call, padding boundaries, the exact size-bound boundary, and builder
//! byte-exactness.

use h2_sans_io::{
    H2Codec, H2Error, H2Event, CONNECTION_PREFACE, MAX_HEADER_BLOCK_SIZE, flags, frame_type,
    is_h2c_preface,
};

#[test]
fn preface_recognition_is_deferred_not_skipped() {
    let mut codec = H2Codec::new();

    // First call: only part of the preface. Nothing is consumed yet.
    let events1 = codec.process(&CONNECTION_PREFACE[..10]).unwrap();
    assert!(events1.is_empty());
    assert!(!codec.preface_received());

    // Second call: the rest of the preface plus an empty SETTINGS frame.
    let mut rest = CONNECTION_PREFACE[10..].to_vec();
    rest.extend_from_slice(&[0, 0, 0, 4, 0, 0, 0, 0, 0]);
    let events2 = codec.process(&rest).unwrap();
    assert!(codec.preface_received());
    assert_eq!(events2.len(), 1);
    assert!(matches!(&events2[0], H2Event::Settings { ack: false, .. }));
}

#[test]
fn error_in_later_frame_discards_earlier_events_but_keeps_consumed_state() {
    let mut codec = H2Codec::new();
    codec.set_preface_received(true);

    // One call holding a valid DATA frame followed by a short RST_STREAM.
    let mut data = vec![0, 0, 5, 0, 1, 0, 0, 0, 1];
    data.extend_from_slice(b"hello");
    data.extend_from_slice(&[0, 0, 2, 3, 0, 0, 0, 0, 1, 0, 0]);

    let result = codec.process(&data);
    // The DATA event from earlier in the same call is not returned.
    assert!(matches!(
        result.unwrap_err(),
        H2Error::MalformedFrame { frame_type: frame_type::RST_STREAM, required: 4 }
    ));
    // But the frames were consumed: stream 1 was tracked by the DATA frame,
    // and the buffer advanced past both frames.
    assert!(codec.stream_state(1).is_some());
    assert_eq!(codec.buffer_len(), 0);

    // A later call starts clean.
    let mut next = vec![0, 0, 3, 0, 0, 0, 0, 0, 3];
    next.extend_from_slice(b"abc");
    let events = codec.process(&next).unwrap();
    assert_eq!(events.len(), 1);
}

#[test]
fn padded_data_frame_with_empty_payload_is_invalid() {
    let mut codec = H2Codec::new();
    codec.set_preface_received(true);

    // PADDED DATA frame with length 0: no room even for the pad length.
    let frame = vec![0, 0, 0, 0, 0x8, 0, 0, 0, 1];
    let result = codec.process(&frame);
    assert!(matches!(
        result.unwrap_err(),
        H2Error::InvalidPadding { frame_type: frame_type::DATA }
    ));
}

#[test]
fn padded_data_frame_may_leave_no_data() {
    let mut codec = H2Codec::new();
    codec.set_preface_received(true);

    // Length 4, pad length 3: everything after the declaration is padding.
    let frame = vec![0, 0, 4, 0, 0x8, 0, 0, 0, 1, 3, 0, 0, 0];
    let events = codec.process(&frame).unwrap();
    match &events[0] {
        H2Event::Data { data, .. } => assert!(data.is_empty()),
        _ => panic!("Expected Data event"),
    }
}

#[test]
fn padded_headers_frame_with_pad_reaching_payload_is_invalid() {
    let mut codec = H2Codec::new();
    codec.set_preface_received(true);

    // Length 3, pad length 2: only 2 bytes remain after the declaration.
    let frame = vec![0, 0, 3, 1, 0x8 | 0x4, 0, 0, 0, 1, 2, 0x82, 0x86];
    let result = codec.process(&frame);
    assert!(matches!(
        result.unwrap_err(),
        H2Error::InvalidPadding { frame_type: frame_type::HEADERS }
    ));
}

#[test]
fn headers_priority_prefix_must_fit_after_padding() {
    let mut codec = H2Codec::new();
    codec.set_preface_received(true);

    // PADDED | PRIORITY | END_HEADERS, length 8, pad length 2: after the pad
    // declaration and the padding only 5 bytes remain for the 5-byte priority
    // prefix, leaving an empty header block -- still valid.
    let frame = vec![0, 0, 8, 1, 0x8 | 0x20 | 0x4, 0, 0, 0, 1, 2, 0, 0, 0, 0, 16, 0, 0];
    let events = codec.process(&frame).unwrap();
    match &events[0] {
        H2Event::Headers { header_block, .. } => assert!(header_block.is_empty()),
        _ => panic!("Expected Headers event"),
    }

    // Same frame but pad length 3: only 4 bytes remain, too few for the
    // priority prefix.
    let frame = vec![0, 0, 8, 1, 0x8 | 0x20 | 0x4, 0, 0, 0, 1, 3, 0, 0, 0, 0, 16, 0, 0];
    let result = codec.process(&frame);
    assert!(matches!(
        result.unwrap_err(),
        H2Error::MalformedFrame { frame_type: frame_type::HEADERS, required: 5 }
    ));
}

#[test]
fn cumulative_block_exactly_at_limit_succeeds() {
    let mut codec = H2Codec::new();
    codec.set_preface_received(true);

    // HEADERS fragment of 200 * 1024 bytes, then a CONTINUATION that brings
    // the total to exactly the limit.
    let first = 200 * 1024;
    let second = MAX_HEADER_BLOCK_SIZE - first;
    let len = first as u32;
    let mut data = vec![
        (len >> 16) as u8,
        (len >> 8) as u8,
        len as u8,
        frame_type::HEADERS,
        0,
        0, 0, 0, 1,
    ];
    data.extend_from_slice(&vec![0x82; first]);
    assert!(codec.process(&data).unwrap().is_empty());

    let len2 = second as u32;
    let mut cont = vec![
        (len2 >> 16) as u8,
        (len2 >> 8) as u8,
        len2 as u8,
        frame_type::CONTINUATION,
        flags::END_HEADERS,
        0, 0, 0, 1,
    ];
    cont.extend_from_slice(&vec![0x86; second]);
    let events = codec.process(&cont).unwrap();
    match &events[0] {
        H2Event::Headers { header_block, .. } => {
            assert_eq!(header_block.len(), MAX_HEADER_BLOCK_SIZE);
        }
        _ => panic!("Expected Headers event"),
    }
}

#[test]
fn continuation_after_size_limit_error_is_unexpected() {
    let mut codec = H2Codec::new();
    codec.set_preface_received(true);

    // Start an assembly, then push it over the limit.
    let first = 200 * 1024;
    let len = first as u32;
    let mut data = vec![
        (len >> 16) as u8,
        (len >> 8) as u8,
        len as u8,
        frame_type::HEADERS,
        0,
        0, 0, 0, 1,
    ];
    data.extend_from_slice(&vec![0x82; first]);
    codec.process(&data).unwrap();

    let second = 100 * 1024;
    let len2 = second as u32;
    let mut cont = vec![
        (len2 >> 16) as u8,
        (len2 >> 8) as u8,
        len2 as u8,
        frame_type::CONTINUATION,
        0,
        0, 0, 0, 1,
    ];
    cont.extend_from_slice(&vec![0x86; second]);
    assert!(matches!(
        codec.process(&cont).unwrap_err(),
        H2Error::ResourceLimitExceeded { size: 307200, limit: 262144 }
    ));

    // The assembly was cleared: a further CONTINUATION on the same stream is
    // now unexpected.
    let tail = vec![0, 0, 1, 9, 4, 0, 0, 0, 1, 0x84];
    assert!(matches!(
        codec.process(&tail).unwrap_err(),
        H2Error::UnexpectedContinuation { stream_id: 1 }
    ));
}

#[test]
fn rst_stream_then_remove_then_continuation_scenario() {
    let mut codec = H2Codec::new();
    codec.set_preface_received(true);

    // Track stream 1 via HEADERS with END_HEADERS.
    let mut data = vec![0, 0, 2, 1, 4, 0, 0, 0, 1];
    data.extend_from_slice(&[0x82, 0x86]);
    codec.process(&data).unwrap();
    assert!(codec.stream_state(1).is_some());

    // RST_STREAM with error code 0xd removes the tracked state.
    let rst = [0, 0, 4, 3, 0, 0, 0, 0, 1, 0, 0, 0, 0xd];
    let events = codec.process(&rst).unwrap();
    assert!(matches!(
        &events[0],
        H2Event::StreamReset { stream_id: 1, error_code: 0xd }
    ));
    assert!(codec.stream_state(1).is_none());

    // A subsequent explicit removal is a no-op.
    codec.remove_stream(1);
    assert!(codec.stream_state(1).is_none());

    // A CONTINUATION naming stream 1 now fails as unexpected: no assembly is
    // pending.
    let cont = vec![0, 0, 1, 9, 4, 0, 0, 0, 1, 0x84];
    assert!(matches!(
        codec.process(&cont).unwrap_err(),
        H2Error::UnexpectedContinuation { stream_id: 1 }
    ));
}

#[test]
fn settings_trailing_partial_entry_is_dropped() {
    let mut codec = H2Codec::new();
    codec.set_preface_received(true);

    // One full 6-byte entry plus 2 stray bytes.
    let mut frame = vec![0, 0, 8, 4, 0, 0, 0, 0, 0];
    frame.extend_from_slice(&[0, 4, 0, 0, 0xFF, 0xFF]);
    frame.extend_from_slice(&[0, 5]);
    let events = codec.process(&frame).unwrap();
    match &events[0] {
        H2Event::Settings { settings, .. } => {
            assert_eq!(settings, &vec![(4u16, 65535u32)]);
        }
        _ => panic!("Expected Settings event"),
    }
}

#[test]
fn is_h2c_preface_checks_the_prefix() {
    let mut data = CONNECTION_PREFACE.to_vec();
    assert!(is_h2c_preface(&data));

    // More bytes after the preface still match.
    data.push(0);
    assert!(is_h2c_preface(&data));

    // Too short, or a flipped byte, does not.
    assert!(!is_h2c_preface(&CONNECTION_PREFACE[..23]));
    let mut other = CONNECTION_PREFACE.to_vec();
    other[0] = b'X';
    assert!(!is_h2c_preface(&other));
}

#[test]
fn built_rst_stream_parses_back_to_its_event() {
    let mut codec = H2Codec::new();
    codec.set_preface_received(true);

    let frame = H2Codec::create_rst_stream(9, 0x8);
    let events = codec.process(&frame).unwrap();
    assert_eq!(events.len(), 1);
    assert!(matches!(
        &events[0],
        H2Event::StreamReset { stream_id: 9, error_code: 0x8 }
    ));
}

#[test]
fn window_update_builder_clears_reserved_bit() {
    let frame = H2Codec::create_window_update(0, 0x8000_0001);
    assert_eq!(&frame[9..13], &[0, 0, 0, 1]);
}

#[test]
fn data_after_headers_marks_stream_ended() {
    let mut codec = H2Codec::new();
    codec.set_preface_received(true);

    // HEADERS with END_HEADERS but not END_STREAM.
    let mut data = vec![0, 0, 2, 1, 4, 0, 0, 0, 1];
    data.extend_from_slice(&[0x82, 0x86]);
    codec.process(&data).unwrap();
    let st = codec.stream_state(1).unwrap();
    assert!(st.headers_complete);
    assert!(!st.stream_ended);

    // DATA with END_STREAM sets the other flag.
    let mut body = vec![0, 0, 3, 0, 1, 0, 0, 0, 1];
    body.extend_from_slice(b"abc");
    codec.process(&body).unwrap();
    let st = codec.stream_state(1).unwrap();
    assert!(st.headers_complete);
    assert!(st.stream_ended);
}
