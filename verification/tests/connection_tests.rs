use byte_watcher::bridge::Bridge;
use byte_watcher::bridge::Offer;
use byte_watcher::checksum::Checksum;
use byte_watcher::codec::Frame;
use byte_watcher::codec::LineCodec;
use byte_watcher::config::classify_open_failure;
use byte_watcher::config::ConnectError;
use byte_watcher::config::ConnectType;
use byte_watcher::config::OpenFailure;
use byte_watcher::config::SerialInfo;
use byte_watcher::lifecycle::CloseAction;
use byte_watcher::lifecycle::Lifecycle;
use byte_watcher::lifecycle::Phase;
use byte_watcher::reader::ReadEvent;
use byte_watcher::reader::Reader;
use byte_watcher::reader::ReaderAction;
use byte_watcher::reader::StopReason;

fn frame(n: u8) -> Frame {
    Frame { timestamp_ms: n as u64, payload: vec![n], valid: true }
}

#[test]
fn default_settings() {
    let info = SerialInfo::default();
    assert_eq!(info.path, "");
    assert_eq!(info.baud_rate, 115200);
    assert_eq!(info.data_bits, 8);
    assert_eq!(info.stop_bits, 1);
    assert_eq!(info.validate(), Ok(()));
}

#[test]
fn connect_types_differ() {
    assert_ne!(ConnectType::SERIAL, ConnectType::TCP);
    assert_ne!(ConnectType::UDP, ConnectType::WS);
    assert_eq!(ConnectType::SERIAL, ConnectType::SERIAL);
}

#[test]
fn validation_accepts_exactly_the_port_settings() {
    for data_bits in 0..=255u8 {
        for stop_bits in 0..=255u8 {
            let info = SerialInfo::new("COM6".to_string(), 9600, data_bits, stop_bits);
            let ok = (5..=8).contains(&data_bits) && (1..=2).contains(&stop_bits);
            let expected = if ok { Ok(()) } else { Err(ConnectError::InvalidConfig) };
            assert_eq!(info.validate(), expected);
        }
    }
}

#[test]
fn open_failures_map_to_errors() {
    assert_eq!(classify_open_failure(OpenFailure::InvalidInput), ConnectError::InvalidConfig);
    assert_eq!(classify_open_failure(OpenFailure::NoDevice), ConnectError::PortUnavailable);
    assert_eq!(classify_open_failure(OpenFailure::NotFound), ConnectError::PortUnavailable);
    assert_eq!(classify_open_failure(OpenFailure::PermissionDenied), ConnectError::PortUnavailable);
    assert_eq!(classify_open_failure(OpenFailure::Busy), ConnectError::PortUnavailable);
    assert_eq!(classify_open_failure(OpenFailure::Other), ConnectError::DriverError);
}

#[test]
fn life_cycle_runs_from_connecting_to_closed() {
    let mut life = Lifecycle::new(&SerialInfo::default());
    assert_eq!(life.current_phase(), Phase::Connecting);
    assert_eq!(life.opened(None), Ok(()));
    assert_eq!(life.current_phase(), Phase::Running);
    assert_eq!(life.close(), CloseAction::SignalAndJoin);
    assert_eq!(life.current_phase(), Phase::Closing);
    life.joined();
    assert_eq!(life.current_phase(), Phase::Closed);
    assert_eq!(life.connect_error(), None);
    assert!(!life.has_read_failed());
}

#[test]
fn closing_twice_does_nothing_the_second_time() {
    let mut life = Lifecycle::new(&SerialInfo::default());
    assert_eq!(life.opened(None), Ok(()));
    assert_eq!(life.close(), CloseAction::SignalAndJoin);
    assert_eq!(life.close(), CloseAction::Nothing);
    assert_eq!(life.current_phase(), Phase::Closing);
    life.joined();
    assert_eq!(life.close(), CloseAction::Nothing);
    assert_eq!(life.current_phase(), Phase::Closed);
}

#[test]
fn closing_a_failed_connection_does_nothing() {
    let bad = SerialInfo::new("COM6".to_string(), 115200, 9, 1);
    let mut life = Lifecycle::new(&bad);
    assert_eq!(life.current_phase(), Phase::Failed(ConnectError::InvalidConfig));
    assert_eq!(life.connect_error(), Some(ConnectError::InvalidConfig));
    assert_eq!(life.opened(None), Err(ConnectError::InvalidConfig));
    assert_eq!(life.close(), CloseAction::Nothing);
    assert_eq!(life.close(), CloseAction::Nothing);
    assert_eq!(life.current_phase(), Phase::Failed(ConnectError::InvalidConfig));

    let mut life = Lifecycle::new(&SerialInfo::default());
    assert_eq!(life.opened(Some(OpenFailure::Busy)), Err(ConnectError::PortUnavailable));
    assert_eq!(life.current_phase(), Phase::Failed(ConnectError::PortUnavailable));
    assert_eq!(life.close(), CloseAction::Nothing);
    life.joined();
    assert_eq!(life.opened(None), Err(ConnectError::PortUnavailable));
    assert_eq!(life.current_phase(), Phase::Failed(ConnectError::PortUnavailable));

    let mut life = Lifecycle::new(&SerialInfo::default());
    assert_eq!(life.opened(Some(OpenFailure::Other)), Err(ConnectError::DriverError));
    assert_eq!(life.connect_error(), Some(ConnectError::DriverError));
}

#[test]
fn a_lost_device_is_kept_and_close_still_works() {
    let mut life = Lifecycle::new(&SerialInfo::default());
    assert_eq!(life.opened(None), Ok(()));
    life.reader_stopped(StopReason::ConsumerGone);
    assert!(!life.has_read_failed());
    life.reader_stopped(StopReason::DeviceLost);
    assert!(life.has_read_failed());
    assert_eq!(life.current_phase(), Phase::Running);
    assert_eq!(life.close(), CloseAction::SignalAndJoin);
    life.joined();
    assert_eq!(life.current_phase(), Phase::Closed);
    assert!(life.has_read_failed());
}

#[test]
fn reader_forwards_frames_and_keeps_the_rest() {
    let mut reader = Reader::new(LineCodec::new());
    assert_eq!(reader.stop_reason(), None);
    let first = reader.step(ReadEvent::Bytes { chunk: vec![0x55, 0xAA, 1], timestamp_ms: 10 });
    assert!(matches!(first, ReaderAction::Continue));
    assert_eq!(reader.buffered(), 3);
    let second = reader.step(ReadEvent::Bytes { chunk: vec![2, 0x55, 0xAA, 3], timestamp_ms: 11 });
    match second {
        ReaderAction::Forward(frames) => {
            assert_eq!(frames, vec![Frame { timestamp_ms: 11, payload: vec![1, 2], valid: true }]);
        }
        other => panic!("{:?}", other),
    }
    assert_eq!(reader.buffered(), 3);
    let third = reader.step(ReadEvent::Bytes { chunk: vec![], timestamp_ms: 12 });
    assert!(matches!(third, ReaderAction::Continue));
}

#[test]
fn reader_reports_a_passing_error_and_goes_on() {
    let mut reader = Reader::new(LineCodec::with_checksum(Checksum::AdditiveSum));
    let action = reader.step(ReadEvent::ReadFailed { device_gone: false });
    assert!(matches!(action, ReaderAction::Report));
    assert_eq!(reader.stop_reason(), None);
    assert!(!reader.failed());
    let action = reader.step(ReadEvent::Bytes {
        chunk: vec![0x55, 0xAA, 1, 1, 0, 0x55, 0xAA],
        timestamp_ms: 1,
    });
    match action {
        ReaderAction::Forward(frames) => {
            assert_eq!(frames, vec![Frame { timestamp_ms: 1, payload: vec![1, 1, 0], valid: true }]);
        }
        other => panic!("{:?}", other),
    }
}

#[test]
fn reader_stops_on_a_lost_device() {
    let mut reader = Reader::new(LineCodec::new());
    let action = reader.step(ReadEvent::ReadFailed { device_gone: true });
    assert!(matches!(action, ReaderAction::Stop(StopReason::DeviceLost)));
    assert_eq!(reader.stop_reason(), Some(StopReason::DeviceLost));
    assert!(reader.failed());
}

#[test]
fn reader_emits_nothing_after_cancellation() {
    let mut reader = Reader::new(LineCodec::new());
    let _ = reader.step(ReadEvent::Bytes { chunk: vec![0x55, 0xAA, 1], timestamp_ms: 1 });
    let action = reader.step(ReadEvent::Cancelled);
    assert!(matches!(action, ReaderAction::Stop(StopReason::Cancelled)));
    assert_eq!(reader.buffered(), 3);
    let action = reader.step(ReadEvent::Bytes { chunk: vec![0x55, 0xAA], timestamp_ms: 2 });
    assert!(matches!(action, ReaderAction::Stop(StopReason::Cancelled)));
    assert_eq!(reader.buffered(), 3);
    let action = reader.step(ReadEvent::ReadFailed { device_gone: true });
    assert!(matches!(action, ReaderAction::Stop(StopReason::Cancelled)));
    assert!(!reader.failed());
}

#[test]
fn reader_stops_when_the_consumer_is_gone() {
    let mut reader = Reader::new(LineCodec::new());
    let action = reader.step(ReadEvent::ConsumerGone);
    assert!(matches!(action, ReaderAction::Stop(StopReason::ConsumerGone)));
    assert_eq!(reader.stop_reason(), Some(StopReason::ConsumerGone));
    let action = reader.step(ReadEvent::Cancelled);
    assert!(matches!(action, ReaderAction::Stop(StopReason::ConsumerGone)));
}

#[test]
fn bridge_holds_one_frame_and_hands_back_the_next() {
    let mut bridge = Bridge::new();
    assert_eq!(bridge.try_receive(), None);
    assert!(matches!(bridge.try_send(frame(1)), Offer::Accepted));
    match bridge.try_send(frame(2)) {
        Offer::Full(back) => assert_eq!(back, frame(2)),
        other => panic!("{:?}", other),
    }
    assert_eq!(bridge.try_receive(), Some(frame(1)));
    assert!(matches!(bridge.try_send(frame(2)), Offer::Accepted));
    assert_eq!(bridge.try_receive(), Some(frame(2)));
    assert_eq!(bridge.try_receive(), None);
}

#[test]
fn closed_bridge_refuses_frames() {
    let mut bridge = Bridge::new();
    assert!(matches!(bridge.try_send(frame(1)), Offer::Accepted));
    bridge.close();
    match bridge.try_send(frame(2)) {
        Offer::Closed(back) => assert_eq!(back, frame(2)),
        other => panic!("{:?}", other),
    }
    assert_eq!(bridge.try_receive(), Some(frame(1)));
    assert!(matches!(bridge.try_send(frame(3)), Offer::Closed(_)));
}
