use kinetix_engine::decoding::{
    DecodeEvent, DecodeStep, DecoderError, DecoderState, Rational, StreamInfo, VideoDecoder,
    MAX_SKIP,
};

fn stream(index: usize, tb_num: i32, tb_den: i32) -> StreamInfo {
    StreamInfo {
        index,
        time_base: Rational { num: tb_num, den: tb_den },
        rate: Rational { num: 30, den: 1 },
        width: 1280,
        height: 720,
    }
}

fn open(tb_num: i32, tb_den: i32) -> VideoDecoder {
    VideoDecoder::new("/media/a.mp4", Some(stream(1, tb_num, tb_den))).unwrap()
}

fn fail(error: DecoderError) -> DecodeStep {
    DecodeStep::Fail { error }
}

#[test]
fn open_records_what_the_container_says() {
    let decoder = open(1, 90_000);
    assert_eq!(decoder.file_path, "/media/a.mp4");
    assert_eq!(decoder.stream_index, 1);
    assert_eq!(decoder.time_base, Rational { num: 1, den: 90_000 });
    assert_eq!(decoder.fps, Rational { num: 30, den: 1 });
    assert_eq!(decoder.width(), 1280);
    assert_eq!(decoder.height(), 720);
    assert_eq!(decoder.state, DecoderState::Opened);
}

#[test]
fn open_fails_without_a_video_stream() {
    assert_eq!(VideoDecoder::new("/media/a.wav", None), Err(DecoderError::OpenError));
}

#[test]
fn open_fails_on_a_time_base_that_is_not_positive() {
    for (num, den) in [(0, 90_000), (1, 0), (-1, 90_000), (1, -90_000), (0, 0)] {
        assert_eq!(
            VideoDecoder::new("/media/a.mp4", Some(stream(0, num, den))),
            Err(DecoderError::OpenError)
        );
    }
}

#[test]
fn seek_target_converts_microseconds_to_ticks() {
    assert_eq!(open(1, 90_000).seek_target(2_000_000), 180_000);
    assert_eq!(open(1, 1_000).seek_target(1_500_000), 1_500);
    assert_eq!(open(1, 1_000_000).seek_target(123_456), 123_456);
    assert_eq!(open(1, 90_000).seek_target(0), 0);
}

#[test]
fn seek_target_rounds_toward_zero() {
    // One second at 30000/1001 ticks a second is 29.97 ticks.
    assert_eq!(open(1_001, 30_000).seek_target(1_000_000), 29);
    assert_eq!(open(1_001, 30_000).seek_target(-1_000_000), -29);
    assert_eq!(open(1, 1_000).seek_target(999), 0);
    assert_eq!(open(1, 1_000).seek_target(-999), 0);
    assert_eq!(open(1, 1_000).seek_target(-1_500_000), -1_500);
}

#[test]
fn seek_target_stays_in_the_range_of_stream_positions() {
    let decoder = open(1, 90_000);
    assert_eq!(decoder.seek_target(i128::MAX), i64::MAX);
    assert_eq!(decoder.seek_target(i128::MIN), i64::MIN);
    assert_eq!(decoder.seek_target(i64::MAX as i128 * 1_000), i64::MAX);
    assert_eq!(decoder.seek_target(i64::MIN as i128 * 1_000), i64::MIN);
    let coarse = open(i32::MAX, 1);
    assert_eq!(coarse.seek_target(i128::MAX), i64::MAX);
    assert_eq!(coarse.seek_target(i128::MIN), i64::MIN);
    assert_eq!(coarse.seek_target(i64::MAX as i128), 4_294);
    assert_eq!(coarse.seek_target(i64::MIN as i128), -4_294);
    let fine = open(1, i32::MAX);
    assert_eq!(fine.seek_target(4_294_967_298_000_000), i64::MAX - 1);
    assert_eq!(fine.seek_target(4_294_967_299_000_000), i64::MAX);
}

#[test]
fn presentation_time_converts_ticks_to_microseconds() {
    let decoder = open(1, 90_000);
    assert_eq!(decoder.pts_to_time(Some(90_000)), 1_000_000);
    assert_eq!(decoder.pts_to_time(Some(3_003)), 33_366);
    assert_eq!(decoder.pts_to_time(Some(-3_003)), -33_366);
    assert_eq!(decoder.pts_to_time(Some(0)), 0);
    assert_eq!(open(1_001, 30_000).pts_to_time(Some(30)), 1_001_000);
}

#[test]
fn frame_without_timestamp_counts_as_time_zero() {
    assert_eq!(open(1, 90_000).pts_to_time(None), 0);
}

#[test]
fn presentation_time_is_exact_at_the_limits() {
    let decoder = open(i32::MAX, 1);
    assert_eq!(
        decoder.pts_to_time(Some(i64::MAX)),
        (i64::MAX as i128) * (i32::MAX as i128) * 1_000_000
    );
    assert_eq!(
        decoder.pts_to_time(Some(i64::MIN)),
        (i64::MIN as i128) * (i32::MAX as i128) * 1_000_000
    );
}

#[test]
fn first_frame_of_the_stream_is_delivered() {
    let mut decoder = open(1, 90_000);
    assert_eq!(decoder.decode_next_frame(), DecodeStep::ReadPacket);
    assert_eq!(decoder.state, DecoderState::Decoding);
    assert_eq!(decoder.advance(DecodeEvent::Packet { stream_index: 1 }), DecodeStep::SendPacket);
    assert_eq!(decoder.advance(DecodeEvent::NoFrame), DecodeStep::ReadPacket);
    assert_eq!(decoder.advance(DecodeEvent::Packet { stream_index: 1 }), DecodeStep::SendPacket);
    assert_eq!(
        decoder.advance(DecodeEvent::Frame { pts: Some(45_000) }),
        DecodeStep::Deliver { time: 500_000 }
    );
    assert_eq!(decoder.state, DecoderState::Decoding);
}

#[test]
fn packets_of_other_streams_are_passed_over() {
    let mut decoder = open(1, 90_000);
    decoder.decode_next_frame();
    assert_eq!(decoder.advance(DecodeEvent::Packet { stream_index: 0 }), DecodeStep::ReadPacket);
    assert_eq!(decoder.advance(DecodeEvent::Packet { stream_index: 2 }), DecodeStep::ReadPacket);
    assert_eq!(decoder.advance(DecodeEvent::Packet { stream_index: 1 }), DecodeStep::SendPacket);
}

#[test]
fn end_of_input_flushes_and_gives_the_last_frame() {
    let mut decoder = open(1, 90_000);
    decoder.decode_next_frame();
    assert_eq!(decoder.advance(DecodeEvent::EndOfInput), DecodeStep::Flush);
    assert_eq!(decoder.state, DecoderState::Flushing);
    assert_eq!(
        decoder.advance(DecodeEvent::Frame { pts: Some(90_000) }),
        DecodeStep::Deliver { time: 1_000_000 }
    );
    assert_eq!(decoder.state, DecoderState::Exhausted);
    assert_eq!(decoder.decode_next_frame(), fail(DecoderError::EndOfStream));
}

#[test]
fn end_of_input_without_a_frame_is_end_of_stream() {
    let mut decoder = open(1, 90_000);
    decoder.decode_next_frame();
    assert_eq!(decoder.advance(DecodeEvent::EndOfInput), DecodeStep::Flush);
    assert_eq!(decoder.advance(DecodeEvent::NoFrame), fail(DecoderError::EndOfStream));
    assert_eq!(decoder.state, DecoderState::Exhausted);
}

#[test]
fn exhausted_session_fails_every_request() {
    let mut decoder = open(1, 90_000);
    decoder.decode_next_frame();
    decoder.advance(DecodeEvent::EndOfInput);
    decoder.advance(DecodeEvent::NoFrame);
    let before = decoder.clone();
    for event in [
        DecodeEvent::Packet { stream_index: 1 },
        DecodeEvent::EndOfInput,
        DecodeEvent::Frame { pts: Some(1) },
        DecodeEvent::NoFrame,
        DecodeEvent::CodecError,
    ] {
        assert_eq!(decoder.advance(event), fail(DecoderError::EndOfStream));
        assert_eq!(decoder, before);
    }
    assert_eq!(decoder.decode_next_frame(), fail(DecoderError::EndOfStream));
    assert_eq!(decoder, before);
}

#[test]
fn codec_error_fails_the_call_and_leaves_the_session_decoding() {
    let mut decoder = open(1, 90_000);
    decoder.decode_next_frame();
    decoder.advance(DecodeEvent::Packet { stream_index: 1 });
    assert_eq!(decoder.advance(DecodeEvent::CodecError), fail(DecoderError::DecodeError));
    assert_eq!(decoder.state, DecoderState::Decoding);
    assert_eq!(decoder.decode_next_frame(), DecodeStep::ReadPacket);
}

#[test]
fn codec_error_at_the_flush_is_a_decode_error() {
    let mut decoder = open(1, 90_000);
    decoder.decode_next_frame();
    decoder.advance(DecodeEvent::EndOfInput);
    assert_eq!(decoder.advance(DecodeEvent::CodecError), fail(DecoderError::DecodeError));
    assert_eq!(decoder.state, DecoderState::Exhausted);
}

#[test]
fn seek_asks_for_the_target_position() {
    let mut decoder = open(1, 90_000);
    assert_eq!(decoder.seek(2_000_000), DecodeStep::SeekTo { target_ts: 180_000 });
    assert_eq!(decoder.target_ts, 180_000);
    assert_eq!(decoder.state, DecoderState::Opened);
}

#[test]
fn failed_seek_leaves_the_session_where_it_stood() {
    let mut decoder = open(1, 90_000);
    decoder.decode_next_frame();
    decoder.advance(DecodeEvent::Packet { stream_index: 1 });
    decoder.advance(DecodeEvent::Frame { pts: Some(0) });
    decoder.seek(2_000_000);
    let before = decoder.clone();
    assert_eq!(decoder.advance(DecodeEvent::SeekFailed), fail(DecoderError::SeekError));
    assert_eq!(decoder, before);
    assert_eq!(decoder.state, DecoderState::Decoding);
}

#[test]
fn seek_rolls_forward_to_the_first_frame_at_or_after_the_target() {
    let mut decoder = open(1, 90_000);
    decoder.seek(2_000_000);
    assert_eq!(decoder.advance(DecodeEvent::Positioned), DecodeStep::ReadPacket);
    assert_eq!(decoder.state, DecoderState::Seeking);
    assert_eq!(decoder.advance(DecodeEvent::Packet { stream_index: 0 }), DecodeStep::ReadPacket);
    assert_eq!(decoder.advance(DecodeEvent::Packet { stream_index: 1 }), DecodeStep::SendPacket);
    assert_eq!(decoder.advance(DecodeEvent::NoFrame), DecodeStep::ReadPacket);
    assert_eq!(decoder.advance(DecodeEvent::Packet { stream_index: 1 }), DecodeStep::SendPacket);
    assert_eq!(
        decoder.advance(DecodeEvent::Frame { pts: Some(177_000) }),
        DecodeStep::ReceiveFrame
    );
    assert_eq!(
        decoder.advance(DecodeEvent::Frame { pts: Some(179_999) }),
        DecodeStep::ReceiveFrame
    );
    assert_eq!(decoder.frames_decoded, 2);
    assert_eq!(decoder.advance(DecodeEvent::Frame { pts: Some(180_000) }), DecodeStep::Done);
    assert_eq!(decoder.frames_decoded, 2);
    assert_eq!(decoder.state, DecoderState::Decoding);
    assert_eq!(decoder.decode_next_frame(), DecodeStep::ReadPacket);
}

#[test]
fn seek_stops_on_a_frame_past_the_target() {
    let mut decoder = open(1, 90_000);
    decoder.seek(2_000_000);
    decoder.advance(DecodeEvent::Positioned);
    assert_eq!(decoder.advance(DecodeEvent::Frame { pts: Some(183_000) }), DecodeStep::Done);
    assert_eq!(decoder.frames_decoded, 0);
}

#[test]
fn frame_without_timestamp_counts_as_tick_zero_in_a_seek() {
    let mut decoder = open(1, 90_000);
    decoder.seek(2_000_000);
    decoder.advance(DecodeEvent::Positioned);
    assert_eq!(decoder.advance(DecodeEvent::Frame { pts: None }), DecodeStep::ReceiveFrame);
    let mut back = open(1, 90_000);
    back.seek(-1_000_000);
    back.advance(DecodeEvent::Positioned);
    assert_eq!(back.advance(DecodeEvent::Frame { pts: None }), DecodeStep::Done);
}

#[test]
fn seek_gives_up_after_the_cap_without_failing() {
    let mut decoder = open(1, 90_000);
    decoder.seek(1_000_000_000);
    decoder.advance(DecodeEvent::Positioned);
    for i in 0..MAX_SKIP {
        assert_eq!(
            decoder.advance(DecodeEvent::Frame { pts: Some(i as i64) }),
            DecodeStep::ReceiveFrame
        );
        assert_eq!(decoder.state, DecoderState::Seeking);
    }
    assert_eq!(decoder.frames_decoded, 600);
    assert_eq!(decoder.advance(DecodeEvent::Frame { pts: Some(600) }), DecodeStep::Done);
    assert_eq!(decoder.frames_decoded, 601);
    assert_eq!(decoder.state, DecoderState::Decoding);
}

#[test]
fn seek_ends_when_the_input_ends() {
    let mut decoder = open(1, 90_000);
    decoder.seek(2_000_000);
    decoder.advance(DecodeEvent::Positioned);
    decoder.advance(DecodeEvent::Frame { pts: Some(1) });
    assert_eq!(decoder.advance(DecodeEvent::EndOfInput), DecodeStep::Done);
    assert_eq!(decoder.state, DecoderState::Decoding);
}

#[test]
fn codec_error_in_a_seek_is_a_seek_error_and_the_session_goes_back() {
    let mut decoder = open(1, 90_000);
    decoder.decode_next_frame();
    decoder.advance(DecodeEvent::Packet { stream_index: 1 });
    assert_eq!(
        decoder.advance(DecodeEvent::Frame { pts: Some(6_000) }),
        DecodeStep::Deliver { time: 66_666 }
    );
    assert_eq!(decoder.position, Some(6_000));

    decoder.seek(2_000_000);
    decoder.advance(DecodeEvent::Positioned);
    assert_eq!(decoder.resume, DecoderState::Decoding);
    decoder.advance(DecodeEvent::Packet { stream_index: 1 });
    assert_eq!(
        decoder.advance(DecodeEvent::Frame { pts: Some(171_000) }),
        DecodeStep::ReceiveFrame
    );
    // The codec fails: the container is sent back to the frame given last.
    assert_eq!(
        decoder.advance(DecodeEvent::CodecError),
        DecodeStep::SeekTo { target_ts: 6_000 }
    );
    assert_eq!(decoder.state, DecoderState::Restoring);
    assert_eq!(decoder.advance(DecodeEvent::Positioned), DecodeStep::ReadPacket);
    assert_eq!(decoder.advance(DecodeEvent::Packet { stream_index: 1 }), DecodeStep::SendPacket);
    assert_eq!(decoder.advance(DecodeEvent::Frame { pts: Some(0) }), DecodeStep::ReceiveFrame);
    assert_eq!(decoder.advance(DecodeEvent::Frame { pts: Some(3_000) }), DecodeStep::ReceiveFrame);
    assert_eq!(decoder.advance(DecodeEvent::NoFrame), DecodeStep::ReadPacket);
    assert_eq!(decoder.advance(DecodeEvent::Packet { stream_index: 1 }), DecodeStep::SendPacket);
    assert_eq!(
        decoder.advance(DecodeEvent::Frame { pts: Some(6_000) }),
        fail(DecoderError::SeekError)
    );
    assert_eq!(decoder.state, DecoderState::Decoding);
    assert_eq!(decoder.position, Some(6_000));
    assert_eq!(decoder.file_path, "/media/a.mp4");
    assert_eq!(decoder.stream_index, 1);
    assert_eq!(decoder.time_base, Rational { num: 1, den: 90_000 });
    assert_eq!(decoder.fps, Rational { num: 30, den: 1 });
    // Decoding goes on behind the frame given last.
    assert_eq!(decoder.decode_next_frame(), DecodeStep::ReadPacket);
    decoder.advance(DecodeEvent::Packet { stream_index: 1 });
    assert_eq!(
        decoder.advance(DecodeEvent::Frame { pts: Some(9_000) }),
        DecodeStep::Deliver { time: 100_000 }
    );
}

#[test]
fn failed_seek_of_an_exhausted_session_leaves_it_exhausted() {
    let mut decoder = open(1, 90_000);
    decoder.decode_next_frame();
    decoder.advance(DecodeEvent::EndOfInput);
    decoder.advance(DecodeEvent::NoFrame);
    assert_eq!(decoder.state, DecoderState::Exhausted);
    let position = decoder.position;

    decoder.seek(2_000_000);
    decoder.advance(DecodeEvent::Positioned);
    decoder.advance(DecodeEvent::Packet { stream_index: 1 });
    // Nothing is read by an exhausted session, so nothing is put back.
    assert_eq!(decoder.advance(DecodeEvent::CodecError), fail(DecoderError::SeekError));
    assert_eq!(decoder.state, DecoderState::Exhausted);
    assert_eq!(decoder.position, position);
    assert_eq!(decoder.decode_next_frame(), fail(DecoderError::EndOfStream));
}

#[test]
fn failed_seek_before_the_first_frame_goes_back_to_the_start() {
    let mut decoder = open(1, 90_000);
    decoder.seek(2_000_000);
    decoder.advance(DecodeEvent::Positioned);
    decoder.advance(DecodeEvent::Packet { stream_index: 1 });
    assert_eq!(
        decoder.advance(DecodeEvent::CodecError),
        DecodeStep::SeekTo { target_ts: i64::MIN }
    );
    // At the start no frame is discarded.
    assert_eq!(decoder.advance(DecodeEvent::Positioned), fail(DecoderError::SeekError));
    assert_eq!(decoder.state, DecoderState::Opened);
    assert_eq!(decoder.position, None);
    assert_eq!(decoder.decode_next_frame(), DecodeStep::ReadPacket);
}

#[test]
fn way_back_that_fails_still_ends_in_the_state_before_the_seek() {
    for event in [
        DecodeEvent::SeekFailed,
        DecodeEvent::CodecError,
        DecodeEvent::EndOfInput,
    ] {
        let mut decoder = open(1, 90_000);
        decoder.decode_next_frame();
        decoder.advance(DecodeEvent::Packet { stream_index: 1 });
        decoder.advance(DecodeEvent::Frame { pts: Some(6_000) });
        decoder.seek(2_000_000);
        decoder.advance(DecodeEvent::Positioned);
        decoder.advance(DecodeEvent::CodecError);
        assert_eq!(decoder.state, DecoderState::Restoring);
        assert_eq!(decoder.advance(event), fail(DecoderError::SeekError));
        assert_eq!(decoder.state, DecoderState::Decoding);
        assert_eq!(decoder.position, Some(6_000));
    }
}

#[test]
fn way_back_gives_up_after_the_cap() {
    let mut decoder = open(1, 90_000);
    decoder.decode_next_frame();
    decoder.advance(DecodeEvent::Frame { pts: Some(9_000_000) });
    decoder.seek(0);
    decoder.advance(DecodeEvent::Positioned);
    decoder.advance(DecodeEvent::CodecError);
    decoder.advance(DecodeEvent::Positioned);
    for i in 0..MAX_SKIP {
        assert_eq!(
            decoder.advance(DecodeEvent::Frame { pts: Some(i as i64) }),
            DecodeStep::ReceiveFrame
        );
    }
    assert_eq!(
        decoder.advance(DecodeEvent::Frame { pts: Some(600) }),
        fail(DecoderError::SeekError)
    );
    assert_eq!(decoder.state, DecoderState::Decoding);
}

#[test]
fn completed_seek_moves_the_position_to_the_frame_it_ends_on() {
    let mut decoder = open(1, 90_000);
    decoder.seek(2_000_000);
    decoder.advance(DecodeEvent::Positioned);
    decoder.advance(DecodeEvent::Frame { pts: Some(177_000) });
    assert_eq!(decoder.position, None);
    assert_eq!(decoder.advance(DecodeEvent::Frame { pts: Some(180_000) }), DecodeStep::Done);
    assert_eq!(decoder.position, Some(180_000));
    // A seek that ends with the input stands behind every frame.
    decoder.seek(9_000_000);
    decoder.advance(DecodeEvent::Positioned);
    assert_eq!(decoder.advance(DecodeEvent::EndOfInput), DecodeStep::Done);
    assert_eq!(decoder.position, Some(i64::MAX));
}

#[test]
fn seek_revives_an_exhausted_session() {
    let mut decoder = open(1, 90_000);
    decoder.decode_next_frame();
    decoder.advance(DecodeEvent::EndOfInput);
    decoder.advance(DecodeEvent::NoFrame);
    assert_eq!(decoder.state, DecoderState::Exhausted);
    assert_eq!(decoder.seek(0), DecodeStep::SeekTo { target_ts: 0 });
    assert_eq!(decoder.state, DecoderState::Exhausted);
    assert_eq!(decoder.advance(DecodeEvent::Positioned), DecodeStep::ReadPacket);
    assert_eq!(decoder.advance(DecodeEvent::Frame { pts: Some(0) }), DecodeStep::Done);
    assert_eq!(decoder.decode_next_frame(), DecodeStep::ReadPacket);
}

#[test]
fn second_seek_to_the_same_time_ends_on_the_same_frame() {
    let frames: Vec<i64> = (0..40).map(|i| i * 3_000).collect();
    let mut decoder = open(1, 90_000);
    let mut stops = Vec::new();
    for _ in 0..2 {
        assert_eq!(decoder.seek(1_000_000), DecodeStep::SeekTo { target_ts: 90_000 });
        decoder.advance(DecodeEvent::Positioned);
        let mut stop = None;
        for pts in &frames {
            if decoder.advance(DecodeEvent::Frame { pts: Some(*pts) }) == DecodeStep::Done {
                stop = Some(*pts);
                break;
            }
        }
        stops.push(stop);
        // What is decoded in between does not count.
        decoder.decode_next_frame();
        decoder.advance(DecodeEvent::Packet { stream_index: 1 });
        decoder.advance(DecodeEvent::Frame { pts: Some(93_000) });
    }
    assert_eq!(stops, vec![Some(90_000), Some(90_000)]);
}

#[test]
fn rows_are_packed_without_their_padding() {
    // Two rows of two pixels, each row followed by four bytes of padding.
    let data: Vec<u8> = vec![
        1, 2, 3, 4, 5, 6, 7, 8, 0xAA, 0xAA, 0xAA, 0xAA, //
        9, 10, 11, 12, 13, 14, 15, 16, 0xBB, 0xBB, 0xBB, 0xBB,
    ];
    let pixels = VideoDecoder::process_frame(&data, 12, 2, 2);
    assert_eq!(pixels, vec![1, 2, 3, 4, 5, 6, 7, 8, 9, 10, 11, 12, 13, 14, 15, 16]);
}

#[test]
fn rows_without_padding_are_copied_as_they_are() {
    let data: Vec<u8> = (0..24).collect();
    assert_eq!(VideoDecoder::process_frame(&data, 8, 2, 3), data);
}

#[test]
fn last_row_needs_no_padding_behind_it() {
    let data: Vec<u8> = vec![1, 2, 3, 4, 0, 0, 5, 6, 7, 8];
    assert_eq!(VideoDecoder::process_frame(&data, 6, 1, 2), vec![1, 2, 3, 4, 5, 6, 7, 8]);
}

#[test]
fn frame_without_rows_or_columns_is_empty() {
    assert!(VideoDecoder::process_frame(&[], 16, 4, 0).is_empty());
    assert!(VideoDecoder::process_frame(&[], 16, 0, 3).is_empty());
    assert!(VideoDecoder::process_frame(&[7, 7, 7], 1, 0, 3).is_empty());
}
