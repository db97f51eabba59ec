use motodiag::can::{pair, CanBusEcuEnd, CanFrame, CanTransport, MockCanBus};
use motodiag::can_sim::{run_on_can_bus, CanSimConfig, CanSimulator};
use motodiag::iso_tp::{receive, send};
use motodiag::framing::FrameCodec;
use motodiag::mock::pair as kline_pair;
use motodiag::sim::{run_on_link, serve_request, take_line_event, LineReply, SimConfig, Simulator};
use motodiag::mock::LineEvent;
use motodiag::transport::KLineTransport;
use motodiag::uds_session::{UdsError, UdsSession};

const TESTER_ID: u32 = 0x7E0;
const ECU_ID: u32 = 0x7E8;

#[test]
fn start_communication_then_ident() {
    let mut sim = Simulator::new(SimConfig::default());
    assert_eq!(sim.handle_request(&[0x1A, 0x80]), None); // not initialized

    let resp = sim.handle_request(&[0x81]).unwrap();
    assert_eq!(resp, vec![0xC1, 0xEA, 0x8F]);

    let resp = sim.handle_request(&[0x1A, 0x80]).unwrap();
    assert_eq!(&resp[..2], &[0x5A, 0x80]);
    assert_eq!(&resp[2..], b"IAW 5SM SIM v0.1");
}

#[test]
fn lib_dtc_read_and_clear() {
    let mut sim = Simulator::new(SimConfig::default());
    sim.handle_request(&[0x81]).unwrap();

    let resp = sim.handle_request(&[0x18, 0x02, 0xFF, 0x00]).unwrap();
    assert_eq!(resp[0], 0x58);
    assert_eq!(resp[1], 2); // two stored DTCs
    assert_eq!(resp[2..], [0x01, 0x15, 0x60, 0x01, 0x20, 0x20]);

    let resp = sim.handle_request(&[0x14, 0xFF, 0x00]).unwrap();
    assert_eq!(resp, vec![0x54, 0xFF, 0x00]);
    assert_eq!(sim.dtc_count(), 0);
}

#[test]
fn lib_unknown_service_gets_negative_response() {
    let mut sim = Simulator::new(SimConfig::default());
    sim.handle_request(&[0x81]).unwrap();
    let resp = sim.handle_request(&[0x27, 0x01]).unwrap();
    assert_eq!(resp, vec![0x7F, 0x27, 0x11]);
}

#[test]
fn live_data_wanders_around_idle() {
    let mut sim = Simulator::new(SimConfig::default());
    sim.handle_request(&[0x81]).unwrap();
    // 1250 rpm + 37 rpm = 1287 rpm = 5148 quarter-rpm.
    assert_eq!(sim.handle_request(&[0x21, 0x01]), Some(vec![0x61, 0x01, 0x14, 0x1C]));
    // 1287 + 37 = 1324 rpm.
    assert_eq!(sim.handle_request(&[0x21, 0x01]), Some(vec![0x61, 0x01, 0x14, 0xB0]));
    assert_eq!(sim.handle_request(&[0x21, 0x05]), Some(vec![0x61, 0x05, 0xCC]));
    assert_eq!(sim.handle_request(&[0x21, 0x03]), Some(vec![0x61, 0x03, 124]));
    assert_eq!(sim.handle_request(&[0x21, 0x06]), Some(vec![0x61, 0x06, 0x03, 0xED]));
    assert_eq!(sim.handle_request(&[0x21, 0x09]), None);
    let mut stopped = Simulator::new(SimConfig {
        engine_running: false,
        ..SimConfig::default()
    });
    stopped.handle_request(&[0x81]).unwrap();
    assert_eq!(stopped.handle_request(&[0x21, 0x01]), Some(vec![0x61, 0x01, 0x00, 0x00]));
}

#[test]
fn wake_requires_a_fresh_start_communication() {
    let mut sim = Simulator::new(SimConfig::default());
    sim.handle_request(&[0x81]).unwrap();
    assert_eq!(sim.handle_request(&[0x3E]), Some(vec![0x7E]));
    sim.wake();
    assert_eq!(sim.handle_request(&[0x3E]), None);
    assert!(sim.accepts(&[0x10]));
    sim.handle_request(&[0x81]).unwrap();
    assert!(!sim.accepts(&[0x10]));
    assert_eq!(sim.handle_request(&[0x10, 0x85]), Some(vec![0x50, 0x85]));
    assert_eq!(sim.handle_request(&[0x31, 0x01, 0x07]), Some(vec![0x71, 0x01, 0x07]));
    assert_eq!(sim.routine_log, vec![vec![0x31, 0x01, 0x07]]);
}

#[test]
fn identifies_and_reads_live_data() {
    let mut sim = CanSimulator::new(CanSimConfig::default());
    let resp = sim.handle_request(&[0x22, 0xF1, 0x90]).unwrap();
    assert_eq!(&resp[..3], &[0x62, 0xF1, 0x90]);
    assert_eq!(&resp[3..], b"MC3-SIM-0001");

    let resp = sim.handle_request(&[0x22, 0xF1, 0x0C]).unwrap();
    assert_eq!(resp, vec![0x62, 0xF1, 0x0C, 0x13, 0x88]); // 1250 / 0.25 = 5000 = 0x1388
}

#[test]
fn can_dtc_read_and_clear() {
    let mut sim = CanSimulator::new(CanSimConfig::default());
    let resp = sim.handle_request(&[0x19, 0x02, 0xFF]).unwrap();
    assert_eq!(resp[0], 0x59);
    assert_eq!(&resp[3..6], &[0x00, 0x03, 0x35]);

    let resp = sim.handle_request(&[0x14, 0xFF, 0xFF, 0xFF]).unwrap();
    assert_eq!(resp[0], 0x54);
    assert_eq!(sim.dtc_count(), 0);
}

#[test]
fn can_unknown_service_gets_negative_response() {
    let mut sim = CanSimulator::new(CanSimConfig::default());
    let resp = sim.handle_request(&[0x27, 0x01]).unwrap();
    assert_eq!(resp, vec![0x7F, 0x27, 0x11]);
    assert_eq!(sim.handle_request(&[0x22, 0x12, 0x34]), None);
    assert_eq!(sim.handle_request(&[]), None);
}

/// A UDS session on a mock CAN bus whose far end is a simulated ECU. The
/// simulator's answer to each request is put on the bus before the request
/// goes out, so the session finds it waiting.
struct Bench {
    session: UdsSession<MockCanBus>,
    ecu: CanBusEcuEnd,
    sim: CanSimulator,
}

impl Bench {
    /// `flow_controls` is the number of multi-frame answers the tester will
    /// be ready for.
    fn new(flow_controls: usize) -> Bench {
        let (mut tester, ecu) = pair();
        for _ in 0..flow_controls {
            tester.send(&CanFrame::new(TESTER_ID, vec![0x30, 0x00, 0x00])).unwrap();
        }
        Bench {
            session: UdsSession::new(tester, TESTER_ID, ECU_ID),
            ecu,
            sim: CanSimulator::new(CanSimConfig::default()),
        }
    }

    fn ask(&mut self, request: &[u8]) -> Result<Vec<u8>, UdsError> {
        if let Some(answer) = self.sim.handle_request(request) {
            send(&mut self.ecu, ECU_ID, TESTER_ID, &answer, 50).unwrap();
        }
        let result = self.session.request(request);
        assert_eq!(receive(&mut self.ecu, ECU_ID, TESTER_ID, 50).unwrap(), request);
        // Drop the session's own flow control for a multi-frame answer.
        while self.ecu.recv(1).is_ok() {}
        result
    }
}

#[test]
fn identifies_the_simulated_ecu() {
    let mut bench = Bench::new(1);
    let resp = bench.ask(&[0x22, 0xF1, 0x90]).expect("read VIN-ish DID");
    assert_eq!(&resp[..3], &[0x62, 0xF1, 0x90]);
    assert_eq!(&resp[3..], b"MC3-SIM-0001");
}

#[test]
fn reads_live_data_channels() {
    let mut bench = Bench::new(0);
    let rpm_resp = bench.ask(&[0x22, 0xF1, 0x0C]).expect("read rpm DID");
    let raw_rpm = u16::from_be_bytes([rpm_resp[3], rpm_resp[4]]);
    assert_eq!(f64::from(raw_rpm) * 0.25, 1250.0);

    let batt_resp = bench.ask(&[0x22, 0xF1, 0x0D]).expect("read battery DID");
    let raw_batt = batt_resp[3];
    assert!((f64::from(raw_batt) * 0.0625 - 12.8).abs() < 0.1);
}

#[test]
fn reads_and_clears_dtcs() {
    let mut bench = Bench::new(0);
    let resp = bench.ask(&[0x19, 0x02, 0xFF]).expect("read DTCs over CAN");
    assert_eq!(resp[0], 0x59);
    let dtc_count = (resp.len() - 3) / 4;
    assert_eq!(dtc_count, 1);
    assert_eq!(&resp[3..6], &[0x00, 0x03, 0x35]);

    bench.ask(&[0x14, 0xFF, 0xFF, 0xFF]).expect("clear DTCs over CAN");
    let resp = bench.ask(&[0x19, 0x02, 0xFF]).expect("re-read DTCs over CAN");
    assert_eq!(resp.len(), 3); // just SID + subfunction + availability mask
}

#[test]
fn runs_an_io_control_routine() {
    let mut bench = Bench::new(0);
    let resp = bench.ask(&[0x2F, 0xF1, 0x50, 0x03]).expect("IOControl over CAN");
    assert_eq!(resp[0], 0x6F);
    assert_eq!(bench.sim.routine_log.len(), 1);
}

#[test]
fn tester_present_keepalive() {
    let mut bench = Bench::new(1);
    bench.ask(&[0x22, 0xF1, 0x90]).unwrap();
    assert!(!bench.session.keepalive_due());
    let answer = bench.sim.handle_request(&[0x3E]).unwrap();
    send(&mut bench.ecu, ECU_ID, TESTER_ID, &answer, 50).unwrap();
    bench.session.tester_present().expect("tester present accepted");
}

#[test]
fn multi_frame_identification_over_can() {
    // The ident string (12 bytes) plus the 3-byte header exceeds a single
    // CAN frame's 7-byte payload budget.
    let mut bench = Bench::new(1);
    let resp = bench.ask(&[0x22, 0xF1, 0x90]).unwrap();
    assert!(resp.len() > 7, "response should have required multi-frame ISO-TP");
    assert_eq!(&resp[3..], b"MC3-SIM-0001");
}

#[test]
fn unsupported_service_is_a_negative_response_error() {
    let mut bench = Bench::new(0);
    let err = bench.ask(&[0x27, 0x01]).unwrap_err();
    assert!(matches!(err, UdsError::NegativeResponse { .. }));
}

#[test]
fn simulator_serves_a_link_until_it_halts() {
    let (mut tester, ecu) = kline_pair();
    let to_ecu = FrameCodec::physical(0x10, 0xF1);
    tester.send_break(25).unwrap();
    tester.send(&to_ecu.encode(&[0x81])).unwrap();
    tester.send(&to_ecu.encode(&[0x14, 0xFF, 0x00])).unwrap();
    // A bare StartDiagnosticSession is a request the simulated ECU cannot
    // take: it stops serving.
    tester.send(&to_ecu.encode(&[0x10])).unwrap();
    let sim = run_on_link(Simulator::new(SimConfig::default()), ecu);
    assert_eq!(sim.dtc_count(), 0);
    let from_ecu = FrameCodec::physical(0xF1, 0x10);
    let mut expected = from_ecu.encode(&[0xC1, 0xEA, 0x8F]);
    expected.extend(from_ecu.encode(&[0x54, 0xFF, 0x00]));
    let mut got = Vec::new();
    for _ in 0..expected.len() {
        got.push(tester.read_byte(50).unwrap());
    }
    assert_eq!(got, expected);
}

#[test]
fn line_events_step_the_simulator() {
    let mut sim = Simulator::new(SimConfig::default());
    let mut buf = Vec::new();
    let frame = FrameCodec::physical(0x10, 0xF1).encode(&[0x81]);
    let (last, head) = frame.split_last().unwrap();
    for b in head {
        assert!(matches!(take_line_event(&mut sim, &mut buf, LineEvent::Byte(*b)), LineReply::Quiet));
    }
    match take_line_event(&mut sim, &mut buf, LineEvent::Byte(*last)) {
        LineReply::Answer(bytes) => assert_eq!(bytes, FrameCodec::physical(0xF1, 0x10).encode(&[0xC1, 0xEA, 0x8F])),
        _ => panic!("StartCommunication is answered"),
    }
    assert!(buf.is_empty());
    // A frame for another ECU is dropped without an answer.
    for b in FrameCodec::physical(0x11, 0xF1).encode(&[0x81]) {
        assert!(matches!(take_line_event(&mut sim, &mut buf, LineEvent::Byte(b)), LineReply::Quiet));
    }
    assert!(matches!(serve_request(&mut sim, &[0x10]), LineReply::Halt));
}

#[test]
fn can_simulator_serves_a_bus_until_it_closes() {
    let (mut tester, ecu) = pair();
    send(&mut tester, TESTER_ID, ECU_ID, &[0x14, 0xFF, 0xFF, 0xFF], 50).unwrap();
    drop(tester);
    let sim = run_on_can_bus(CanSimulator::new(CanSimConfig::default()), ecu);
    assert_eq!(sim.dtc_count(), 0);
}
