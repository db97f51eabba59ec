use motodiag::framing::{checksum, parse_buffer, read_frame, FrameCodec, ParseStatus};
use motodiag::init::{fast_init, slow_init_5baud, FastInitConfig, SlowInitConfig};
use motodiag::kwp::KwpError;
use motodiag::mock::{pair, LineEvent};
use motodiag::replay::ReplayTransport;
use motodiag::timing::TimingParams;
use motodiag::trace::{EventKind, HexBytes, TraceDirection, TraceEvent, TraceSink, TracingTransport, VecSink};
use motodiag::transport::{KLineTransport, TransportError};

#[test]
fn encodes_marelli_start_communication() {
    let codec = FrameCodec::physical(0x10, 0xF1);
    // Known-good KWP fast-init request shape: 81 10 F1 81 03
    assert_eq!(codec.encode(&[0x81]), vec![0x81, 0x10, 0xF1, 0x81, 0x03]);
}

#[test]
fn encodes_separate_length_byte() {
    let codec = FrameCodec {
        addressing: Some((0x10, 0xF1)),
        separate_length_byte: true,
    };
    let frame = codec.encode(&[0x3E]);
    assert_eq!(
        frame,
        vec![0x80, 0x10, 0xF1, 0x01, 0x3E, checksum(&frame[..5])]
    );
}

#[test]
fn decode_roundtrip() {
    let codec = FrameCodec::physical(0xF1, 0x10); // ECU -> tester direction
    let encoded = codec.encode(&[0xC1, 0xE9, 0x8F]);

    let (mut tester, ecu) = pair();
    ecu.send_bytes(&encoded).unwrap();
    let frame = read_frame(&mut tester, 50, 20).unwrap();
    assert_eq!(frame.target, Some(0xF1));
    assert_eq!(frame.source, Some(0x10));
    assert_eq!(frame.payload, vec![0xC1, 0xE9, 0x8F]);
    assert_eq!(frame.raw, encoded);
}

#[test]
fn detects_bad_checksum() {
    let codec = FrameCodec::physical(0xF1, 0x10);
    let mut encoded = codec.encode(&[0xC1]);
    *encoded.last_mut().unwrap() ^= 0xFF;

    let (mut tester, ecu) = pair();
    ecu.send_bytes(&encoded).unwrap();
    let err = read_frame(&mut tester, 50, 20).unwrap_err();
    assert!(matches!(err, KwpError::BadChecksum { .. }));
}

#[test]
fn roundtrip_bytes_and_break() {
    let (mut tester, ecu) = pair();
    tester.send_break(25).unwrap();
    tester.send(&[0x81, 0x10]).unwrap();

    assert_eq!(ecu.recv_event(10).unwrap(), LineEvent::Break(25));
    assert_eq!(ecu.recv_event(10).unwrap(), LineEvent::Byte(0x81));
    assert_eq!(ecu.recv_event(10).unwrap(), LineEvent::Byte(0x10));

    ecu.send_bytes(&[0xC1]).unwrap();
    assert_eq!(tester.read_byte(10).unwrap(), 0xC1);
}

#[test]
fn read_times_out() {
    let (mut tester, _ecu) = pair();
    assert!(matches!(tester.read_byte(5), Err(TransportError::Timeout)));
}

fn bytes_event(dir: TraceDirection, bytes: &[u8]) -> TraceEvent {
    TraceEvent {
        t_ms: 0,
        dir,
        kind: EventKind::Bytes {
            hex: HexBytes(bytes.to_vec()),
        },
    }
}

#[test]
fn replays_recorded_exchange() {
    let events = vec![
        TraceEvent {
            t_ms: 0,
            dir: TraceDirection::Tx,
            kind: EventKind::Break { ms: 25 },
        },
        bytes_event(TraceDirection::Tx, &[0x81, 0x10, 0xF1, 0x81, 0x03]),
        bytes_event(TraceDirection::Rx, &[0xC1]),
        bytes_event(TraceDirection::Rx, &[0xEA]),
    ];
    let mut replay = ReplayTransport::from_events(events);

    replay.send_break(25).unwrap();
    replay.send(&[0x81, 0x10, 0xF1, 0x81, 0x03]).unwrap();
    assert_eq!(replay.read_byte(10).unwrap(), 0xC1);
    assert_eq!(replay.read_byte(10).unwrap(), 0xEA);
}

#[test]
fn mismatched_send_is_an_error() {
    let events = vec![bytes_event(TraceDirection::Tx, &[0x81])];
    let mut replay = ReplayTransport::from_events(events);
    assert!(replay.send(&[0x99]).is_err());
}

#[test]
fn replays_5baud_address_exchange() {
    let events = vec![
        TraceEvent {
            t_ms: 0,
            dir: TraceDirection::Tx,
            kind: EventKind::FiveBaudAddress { address: 0x10 },
        },
        bytes_event(TraceDirection::Rx, &[0x55]),
    ];
    let mut replay = ReplayTransport::from_events(events);
    replay.send_5baud_address(0x10, 1).unwrap();
    assert_eq!(replay.read_byte(10).unwrap(), 0x55);
}

#[test]
fn mismatched_5baud_address_is_an_error() {
    let events = vec![TraceEvent {
        t_ms: 0,
        dir: TraceDirection::Tx,
        kind: EventKind::FiveBaudAddress { address: 0x10 },
    }];
    let mut replay = ReplayTransport::from_events(events);
    assert!(replay.send_5baud_address(0x55, 1).is_err());
}

#[test]
fn exhausted_recording_times_out_on_read() {
    let mut replay = ReplayTransport::from_events(vec![]);
    assert!(matches!(replay.read_byte(1), Err(TransportError::Timeout)));
}

#[test]
fn replay_mismatch_names_what_was_expected() {
    let events = vec![bytes_event(TraceDirection::Tx, &[0x81])];
    let mut replay = ReplayTransport::from_events(events);
    match replay.send(&[0x99, 0x01]) {
        Err(TransportError::Io(m)) => {
            assert!(m.starts_with("replay mismatch: expected tx [99, 01]"), "{m}");
        }
        other => panic!("unexpected {other:?}"),
    }
    // The mismatched event was consumed: the recording is now exhausted.
    assert!(matches!(replay.read_byte(1), Err(TransportError::Timeout)));
}

#[test]
fn replay_flush_consumes_nothing() {
    let events = vec![bytes_event(TraceDirection::Rx, &[0x42])];
    let mut replay = ReplayTransport::from_events(events);
    replay.flush_input().unwrap();
    replay.pause(100);
    assert_eq!(replay.read_byte(1).unwrap(), 0x42);
}

#[test]
fn records_send_break_and_receive() {
    let (tester, ecu) = pair();
    let mut traced = TracingTransport::new(tester, VecSink::default());

    traced.send_break(25).unwrap();
    traced.send(&[0x81, 0x10]).unwrap();
    ecu.send_bytes(&[0xC1]).unwrap();
    let byte = traced.read_byte(50).unwrap();
    assert_eq!(byte, 0xC1);

    let events = &traced.sink().0;
    assert_eq!(events.len(), 3);
    assert_eq!(events[0].dir, TraceDirection::Tx);
    assert_eq!(events[0].kind, EventKind::Break { ms: 25 });
    assert_eq!(events[1].dir, TraceDirection::Tx);
    assert_eq!(
        events[1].kind,
        EventKind::Bytes {
            hex: HexBytes(vec![0x81, 0x10])
        }
    );
    assert_eq!(events[2].dir, TraceDirection::Rx);
    assert_eq!(
        events[2].kind,
        EventKind::Bytes {
            hex: HexBytes(vec![0xC1])
        }
    );
}

#[test]
fn failed_send_is_not_recorded() {
    let (tester, ecu) = pair();
    drop(ecu); // closes the link
    let mut traced = TracingTransport::new(tester, VecSink::default());

    assert!(traced.send(&[0x00]).is_err());
    assert!(traced.sink().0.is_empty());
}

#[test]
fn traced_session_replays_byte_for_byte() {
    // Record a session on the mock link, then replay the recording: every
    // operation is accepted and every read gives back the recorded byte.
    let (tester, ecu) = pair();
    let mut traced = TracingTransport::new(tester, VecSink::default());
    traced.send_break(25).unwrap();
    traced.set_baud(10400).unwrap();
    traced.send(&[0x81, 0x10, 0xF1, 0x81, 0x03]).unwrap();
    ecu.send_bytes(&[0xC1, 0xEA]).unwrap();
    let a = traced.read_byte(50).unwrap();
    let b = traced.read_byte(50).unwrap();
    traced.send_5baud_address(0x10, 1).unwrap();

    let events = traced.sink().0.clone();
    assert_eq!(events.len(), 6);
    let mut replay = ReplayTransport::from_events(events);
    replay.send_break(99).unwrap();
    replay.set_baud(9600).unwrap();
    replay.send(&[0x81, 0x10, 0xF1, 0x81, 0x03]).unwrap();
    assert_eq!(replay.read_byte(1).unwrap(), a);
    assert_eq!(replay.read_byte(1).unwrap(), b);
    replay.send_5baud_address(0x10, 1).unwrap();
    assert!(matches!(replay.read_byte(1), Err(TransportError::Timeout)));
}

#[test]
fn vec_sink_collects_events() {
    let (tester, _ecu) = pair();
    let mut traced = TracingTransport::new(tester, VecSink::default());
    traced.set_baud(10400).unwrap();
    traced.flush_input().unwrap();
    traced.pause(1);
}

#[test]
fn parse_buffer_reports_each_state() {
    let codec = FrameCodec::physical(0xF1, 0x10);
    let encoded = codec.encode(&[0x61, 0x01, 0x2E, 0xE0]);
    assert!(matches!(parse_buffer(&encoded[..3]), ParseStatus::Incomplete));
    match parse_buffer(&encoded) {
        ParseStatus::Complete { frame, consumed } => {
            assert_eq!(consumed, encoded.len());
            assert_eq!(frame.payload, vec![0x61, 0x01, 0x2E, 0xE0]);
        }
        other => panic!("unexpected {other:?}"),
    }
    let mut bad = encoded.clone();
    *bad.last_mut().unwrap() ^= 0x01;
    assert!(matches!(parse_buffer(&bad), ParseStatus::Invalid(_)));
}

#[test]
fn checksum_is_the_byte_sum() {
    assert_eq!(checksum(&[0x81, 0x10, 0xF1, 0x81]), 0x03);
    assert_eq!(checksum(&[]), 0x00);
    assert_eq!(checksum(&[0xFF, 0x02]), 0x01);
}

fn quick_fast() -> FastInitConfig {
    FastInitConfig {
        idle_before_ms: 1,
        low_time_ms: 1,
        high_time_ms: 1,
    }
}

fn tx(kind: EventKind) -> TraceEvent {
    TraceEvent { t_ms: 0, dir: TraceDirection::Tx, kind }
}

fn tx_bytes(bytes: &[u8]) -> TraceEvent {
    tx(EventKind::Bytes { hex: HexBytes(bytes.to_vec()) })
}

fn rx_bytes(bytes: &[u8]) -> Vec<TraceEvent> {
    bytes
        .iter()
        .map(|&b| TraceEvent {
            t_ms: 0,
            dir: TraceDirection::Rx,
            kind: EventKind::Bytes { hex: HexBytes(vec![b]) },
        })
        .collect()
}

/// A far end that expects the wake-up break and the StartCommunication
/// frame, then answers with `reply`.
fn answer_start_communication(reply: Vec<u8>) -> ReplayTransport {
    let mut events = vec![tx(EventKind::Break { ms: 1 }), tx_bytes(&[0x81, 0x10, 0xF1, 0x81, 0x03])];
    events.extend(rx_bytes(&reply));
    ReplayTransport::from_events(events)
}

#[test]
fn fast_init_accepts_positive_start_communication() {
    let reply = FrameCodec::physical(0xF1, 0x10).encode(&[0xC1, 0xEA, 0x8F]);
    let mut tester = answer_start_communication(reply);
    let codec = FrameCodec::physical(0x10, 0xF1);
    let out = fast_init(&mut tester, &codec, &TimingParams::default(), &quick_fast()).unwrap();
    assert_eq!(out.key_bytes, Some((0xEA, 0x8F)));
    assert_eq!(out.raw_response, vec![0xC1, 0xEA, 0x8F]);
    // The wake-up break and the StartCommunication frame went out as
    // scripted, and the whole answer was read.
    assert!(matches!(tester.read_byte(1), Err(TransportError::Timeout)));
}

#[test]
fn fast_init_reports_rejection() {
    let reply = FrameCodec::physical(0xF1, 0x10).encode(&[0x7F, 0x81, 0x10]);
    let mut tester = answer_start_communication(reply);
    let codec = FrameCodec::physical(0x10, 0xF1);
    match fast_init(&mut tester, &codec, &TimingParams::default(), &quick_fast()) {
        Err(KwpError::InitFailed(m)) => assert_eq!(m, "StartCommunication rejected: [7F, 81, 10]"),
        other => panic!("unexpected {other:?}"),
    }
}

#[test]
fn fast_init_times_out_on_a_silent_ecu() {
    let (mut tester, _ecu) = pair();
    let codec = FrameCodec::physical(0x10, 0xF1);
    let r = fast_init(&mut tester, &codec, &TimingParams::default(), &quick_fast());
    assert!(matches!(r, Err(KwpError::Transport(TransportError::Timeout))));
}

#[test]
fn fast_init_config_defaults() {
    let c = FastInitConfig::default();
    assert_eq!((c.idle_before_ms, c.low_time_ms, c.high_time_ms), (300, 25, 25));
    let s = SlowInitConfig::default();
    assert_eq!((s.bit_time_ms, s.sync_timeout_ms), (200, 1500));
}

fn quick_slow() -> SlowInitConfig {
    SlowInitConfig {
        bit_time_ms: 1,
        sync_timeout_ms: 50,
    }
}

/// A far end for 5-baud init of address 0x10: the start bit and the seven
/// 0-bits of 0x10 go out as breaks; it then sends `head`, expects the
/// acknowledgement `ack` (if any) and sends `tail`.
fn answer_slow_init(head: &[u8], ack: Option<u8>, tail: &[u8]) -> ReplayTransport {
    let mut events: Vec<TraceEvent> = (0..8).map(|_| tx(EventKind::Break { ms: 1 })).collect();
    events.extend(rx_bytes(head));
    if let Some(a) = ack {
        events.push(tx_bytes(&[a]));
    }
    events.extend(rx_bytes(tail));
    ReplayTransport::from_events(events)
}

#[test]
fn slow_init_completes_the_handshake() {
    let mut tester = answer_slow_init(&[0x55, 0x08, 0x08], Some(!0x08), &[!0x10]);
    let out = slow_init_5baud(&mut tester, 0x10, &TimingParams::default(), &quick_slow()).unwrap();
    assert_eq!(out.key_bytes, Some((0x08, 0x08)));
    assert_eq!(out.raw_response, vec![0x55, 0x08, 0x08, 0xEF]);
    // Eight breaks, then the inverted second key byte as acknowledgement,
    // exactly as scripted.
    assert!(matches!(tester.read_byte(1), Err(TransportError::Timeout)));
}

#[test]
fn slow_init_rejects_a_bad_sync_byte() {
    let mut tester = answer_slow_init(&[0x54], None, &[]);
    match slow_init_5baud(&mut tester, 0x10, &TimingParams::default(), &quick_slow()) {
        Err(KwpError::InitFailed(m)) => assert_eq!(m, "expected sync byte 0x55, got 0x54"),
        other => panic!("unexpected {other:?}"),
    }
}

#[test]
fn slow_init_rejects_a_wrong_address_ack() {
    let mut tester = answer_slow_init(&[0x55, 0x08, 0x08], Some(!0x08), &[0x00]);
    match slow_init_5baud(&mut tester, 0x10, &TimingParams::default(), &quick_slow()) {
        Err(KwpError::InitFailed(m)) => {
            assert_eq!(m, "expected inverted address 0xEF, got 0x00")
        }
        other => panic!("unexpected {other:?}"),
    }
}

#[test]
fn read_exact_collects_bytes() {
    let (mut tester, ecu) = pair();
    ecu.send_bytes(&[1, 2, 3]).unwrap();
    assert_eq!(tester.read_exact(3, 20, 20).unwrap(), vec![1, 2, 3]);
    assert!(matches!(tester.read_exact(1, 5, 5), Err(TransportError::Timeout)));
}

#[test]
fn checksum_of_joined_runs_is_the_wrapping_sum() {
    let a = [0x81u8, 0x10, 0xF1];
    let b = [0x3Eu8, 0xFF, 0x80];
    let joined: Vec<u8> = a.iter().chain(b.iter()).copied().collect();
    assert_eq!(checksum(&joined), checksum(&a).wrapping_add(checksum(&b)));
    assert_eq!(checksum(&joined), 0x3F);
}

#[test]
fn replay_mismatch_names_the_recorded_event() {
    let mut replay = ReplayTransport::from_events(vec![TraceEvent {
        t_ms: 0,
        dir: TraceDirection::Tx,
        kind: EventKind::Break { ms: 25 },
    }]);
    match replay.send(&[0x81]) {
        Err(TransportError::Io(m)) => {
            assert_eq!(m, "replay mismatch: expected tx [81], but recording had tx break 25 ms")
        }
        other => panic!("unexpected {other:?}"),
    }
    match replay.read_byte(10) {
        Err(TransportError::Timeout) => {}
        other => panic!("unexpected {other:?}"),
    }
}

#[test]
fn failed_send_passes_on_the_inner_error() {
    let (plain, plain_ecu) = pair();
    drop(plain_ecu);
    let mut plain = plain;
    let expected = plain.send(&[0x00]).unwrap_err();

    let (tester, ecu) = pair();
    drop(ecu);
    let mut traced = TracingTransport::new(tester, VecSink::default());
    assert_eq!(traced.send(&[0x00]).unwrap_err(), expected);
    assert!(traced.sink().0.is_empty());
}

#[test]
fn traced_send_reaches_the_line_once() {
    let (tester, ecu) = pair();
    let mut traced = TracingTransport::new(tester, VecSink::default());
    traced.send(&[0x81, 0x10]).unwrap();
    assert!(matches!(ecu.recv_event(50), Ok(LineEvent::Byte(0x81))));
    assert!(matches!(ecu.recv_event(50), Ok(LineEvent::Byte(0x10))));
    assert!(matches!(ecu.recv_event(5), Err(TransportError::Timeout)));
    assert_eq!(traced.sink().0.len(), 1);
}
