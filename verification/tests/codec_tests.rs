use byte_watcher::checksum::Checksum;
use byte_watcher::codec::next_marker;
use byte_watcher::codec::CodecError;
use byte_watcher::codec::Frame;
use byte_watcher::codec::LineCodec;

fn payloads(frames: &[Frame]) -> Vec<Vec<u8>> {
    frames.iter().map(|f| f.payload.clone()).collect()
}

#[test]
fn new_codec_checks_nothing() {
    let codec = LineCodec::new();
    assert_eq!(codec.checksum(), Checksum::Disabled);
    assert_eq!(LineCodec::with_checksum(Checksum::AdditiveSum).checksum(), Checksum::AdditiveSum);
    assert_eq!(LineCodec::checked().checksum(), Checksum::Crc16Xmodem);
}

#[test]
fn next_marker_finds_the_first_marker_from_an_offset() {
    let bytes = [0x55, 0xAA, 0x01, 0x55, 0x55, 0xAA, 0xAA];
    assert_eq!(next_marker(&bytes, 0), Some(0));
    assert_eq!(next_marker(&bytes, 1), Some(4));
    assert_eq!(next_marker(&bytes, 4), Some(4));
    assert_eq!(next_marker(&bytes, 5), None);
    assert_eq!(next_marker(&bytes, 7), None);
    assert_eq!(next_marker(&[], 0), None);
    assert_eq!(next_marker(&[0x55], 0), None);
}

#[test]
fn no_marker_gives_no_frame_and_keeps_every_byte() {
    let codec = LineCodec::new();
    let mut buffer = Vec::new();
    let frames = codec.feed(&mut buffer, &[1, 2, 3, 0x55, 0x00, 0xAA], 7);
    assert!(frames.is_empty());
    assert_eq!(buffer, vec![1, 2, 3, 0x55, 0x00, 0xAA]);
    let frames = codec.feed(&mut buffer, &[4, 5], 8);
    assert!(frames.is_empty());
    assert_eq!(buffer, vec![1, 2, 3, 0x55, 0x00, 0xAA, 4, 5]);
}

#[test]
fn empty_feed_changes_nothing() {
    let codec = LineCodec::new();
    let mut buffer = vec![9, 0x55];
    let frames = codec.feed(&mut buffer, &[], 1);
    assert!(frames.is_empty());
    assert_eq!(buffer, vec![9, 0x55]);
}

#[test]
fn two_markers_give_one_empty_frame() {
    let codec = LineCodec::new();
    let mut buffer = Vec::new();
    let frames = codec.feed(&mut buffer, &[0x55, 0xAA, 0x55, 0xAA], 42);
    assert_eq!(frames.len(), 1);
    assert_eq!(frames[0].payload, Vec::<u8>::new());
    assert_eq!(frames[0].timestamp_ms, 42);
    assert!(frames[0].valid);
    assert_eq!(buffer, vec![0x55, 0xAA]);
}

#[test]
fn one_marker_gives_no_frame() {
    let codec = LineCodec::new();
    let mut buffer = Vec::new();
    let frames = codec.feed(&mut buffer, &[7, 0x55, 0xAA, 1, 2], 0);
    assert!(frames.is_empty());
    assert_eq!(buffer, vec![7, 0x55, 0xAA, 1, 2]);
}

#[test]
fn k_markers_give_k_minus_one_frames() {
    let codec = LineCodec::new();
    let mut buffer = Vec::new();
    let stream = [
        9, 9, 0x55, 0xAA, 1, 2, 3, 0x55, 0xAA, 0x55, 0xAA, 4, 0x55, 0xAA, 5, 6,
    ];
    let frames = codec.feed(&mut buffer, &stream, 1000);
    assert_eq!(payloads(&frames), vec![vec![1, 2, 3], vec![], vec![4]]);
    assert_eq!(buffer, vec![0x55, 0xAA, 5, 6]);
    for f in &frames {
        assert_eq!(f.timestamp_ms, 1000);
        assert!(f.valid);
    }
}

#[test]
fn marker_split_across_two_feeds_is_found() {
    let codec = LineCodec::new();
    let mut buffer = Vec::new();
    assert!(codec.feed(&mut buffer, &[0x55, 0xAA, 1, 2, 0x55], 1).is_empty());
    assert_eq!(buffer, vec![0x55, 0xAA, 1, 2, 0x55]);
    let frames = codec.feed(&mut buffer, &[0xAA, 3], 2);
    assert_eq!(payloads(&frames), vec![vec![1, 2]]);
    assert_eq!(frames[0].timestamp_ms, 2);
    assert_eq!(buffer, vec![0x55, 0xAA, 3]);
}

#[test]
fn every_split_in_two_gives_the_same_frames() {
    let stream: Vec<u8> = vec![
        3, 0x55, 0xAA, 1, 0x55, 0x55, 0xAA, 0x55, 0xAA, 0xAA, 2, 0x55, 0xAA, 0x55,
    ];
    let codec = LineCodec::new();
    let mut whole_buffer = Vec::new();
    let whole = payloads(&codec.feed(&mut whole_buffer, &stream, 0));
    assert_eq!(whole, vec![vec![1, 0x55], vec![], vec![0xAA, 2]]);
    for cut in 0..=stream.len() {
        let mut buffer = Vec::new();
        let mut got = payloads(&codec.feed(&mut buffer, &stream[..cut], 0));
        got.extend(payloads(&codec.feed(&mut buffer, &stream[cut..], 0)));
        assert_eq!(got, whole);
        assert_eq!(buffer, whole_buffer);
    }
}

#[test]
fn byte_by_byte_gives_the_same_frames() {
    let stream: Vec<u8> = vec![
        0x55, 0xAA, 1, 2, 0x55, 0xAA, 0x55, 0xAA, 3, 0x55, 0xAA, 4,
    ];
    let codec = LineCodec::new();
    let mut whole_buffer = Vec::new();
    let whole = payloads(&codec.feed(&mut whole_buffer, &stream, 0));
    assert_eq!(whole.len(), 3);
    let mut buffer = Vec::new();
    let mut got = Vec::new();
    for b in &stream {
        got.extend(payloads(&codec.feed(&mut buffer, &[*b], 0)));
    }
    assert_eq!(got, whole);
    assert_eq!(buffer, whole_buffer);
}

#[test]
fn marker_inside_a_payload_cuts_it() {
    let codec = LineCodec::new();
    let mut buffer = Vec::new();
    let frames = codec.feed(&mut buffer, &[0x55, 0xAA, 1, 0x55, 0xAA, 2, 0x55, 0xAA], 0);
    assert_eq!(payloads(&frames), vec![vec![1], vec![2]]);
}

#[test]
fn frames_are_judged_under_the_additive_sum() {
    let codec = LineCodec::with_checksum(Checksum::AdditiveSum);
    let mut buffer = Vec::new();
    let stream = [
        0x55, 0xAA, 1, 2, 3, 6, 0, 0x55, 0xAA, 1, 2, 3, 9, 9, 0x55, 0xAA, 0x55, 0xAA,
    ];
    let frames = codec.feed(&mut buffer, &stream, 5);
    assert_eq!(frames.len(), 3);
    assert_eq!(frames[0], Frame { timestamp_ms: 5, payload: vec![1, 2, 3, 6, 0], valid: true });
    assert_eq!(frames[1], Frame { timestamp_ms: 5, payload: vec![1, 2, 3, 9, 9], valid: false });
    assert_eq!(frames[2], Frame { timestamp_ms: 5, payload: vec![], valid: false });
}

#[test]
fn frames_are_judged_under_the_xmodem_crc() {
    let codec = LineCodec::with_checksum(Checksum::Crc16Xmodem);
    let mut buffer = Vec::new();
    let mut stream = vec![0x55, 0xAA];
    stream.extend_from_slice(b"123456789");
    stream.extend_from_slice(&[0xC3, 0x31, 0x55, 0xAA]);
    stream.extend_from_slice(b"123456789");
    stream.extend_from_slice(&[0x31, 0xC3, 0x55, 0xAA]);
    let frames = codec.feed(&mut buffer, &stream, 5);
    assert_eq!(frames.len(), 2);
    assert!(frames[0].valid);
    assert!(!frames[1].valid);
    assert_eq!(frames[0].payload.len(), 11);
}

#[test]
fn end_of_stream_with_an_empty_buffer_is_clean() {
    let codec = LineCodec::new();
    let mut buffer = Vec::new();
    assert_eq!(codec.decode_eof(&mut buffer, 3), Ok(vec![]));
    assert!(buffer.is_empty());
}

#[test]
fn end_of_stream_with_bytes_left_is_an_error() {
    let codec = LineCodec::new();
    let mut buffer = vec![0x55, 0xAA, 1, 2];
    assert_eq!(codec.decode_eof(&mut buffer, 3), Err(CodecError::BytesRemaining));
    assert_eq!(buffer, vec![0x55, 0xAA, 1, 2]);
    let mut buffer = vec![7];
    assert_eq!(codec.decode_eof(&mut buffer, 3), Err(CodecError::BytesRemaining));
    assert_eq!(buffer, vec![7]);
}

#[test]
fn end_of_stream_cuts_frames_that_are_still_whole() {
    let codec = LineCodec::new();
    let mut buffer = vec![0x55, 0xAA, 1, 2, 0x55, 0xAA, 9];
    let frames = codec.decode_eof(&mut buffer, 3).unwrap();
    assert_eq!(frames, vec![Frame { timestamp_ms: 3, payload: vec![1, 2], valid: true }]);
    assert_eq!(buffer, vec![0x55, 0xAA, 9]);
}

#[test]
fn bytes_before_the_first_marker_belong_to_no_frame() {
    let codec = LineCodec::new();
    let mut buffer = Vec::new();
    let frames = codec.feed(&mut buffer, &[8, 8, 8, 0x55, 0xAA, 1, 0x55, 0xAA], 0);
    assert_eq!(payloads(&frames), vec![vec![1]]);
    assert_eq!(buffer, vec![0x55, 0xAA]);
}

#[test]
fn codecs_compare_by_their_policy() {
    assert_eq!(LineCodec::new(), LineCodec::with_checksum(Checksum::Disabled));
    assert_ne!(LineCodec::new(), LineCodec::with_checksum(Checksum::Crc16Xmodem));
    assert_eq!(LineCodec::new().clone(), LineCodec::new());
}
