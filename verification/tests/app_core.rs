
use motodiag::discovery::{
    probe, run_discovery, DiscoveryOptions, DiscoveryReport, DtcProbe, IdentificationProbe,
    LocalIdProbe, ProbeOutcome,
};
use motodiag::dtc::{parse_read_dtc_response, Dtc};
use motodiag::error::{AppError, SafetyViolation, VacuumError};
use motodiag::framing::{parse_buffer, FrameCodec, ParseStatus};
use motodiag::init::FastInitConfig;
use motodiag::kwp::KwpError;
use motodiag::mock::pair;
use motodiag::schema::{
    AccessGuide, AccessZone, BodyStyle, BusKind, CanBusConfig, Channel, DtcConfig, DtcEntry,
    EcuDefinition, EcuInfo, Identification, InitConfig, InitMethod, PreconditionNeeds, RiskLevel,
    Routine,
};
use motodiag::services::NegativeResponseCode;
use motodiag::session::{identity_text, printable_text, ConnectOptions, DiagSession};
use motodiag::timing::TimingOverrides;
use motodiag::replay::ReplayTransport;
use motodiag::trace::{EventKind, HexBytes, TraceDirection, TraceEvent, VecSink};
use motodiag::transport::{KLineTransport, TransportError};
use motodiag::troubleshoot::{diagnose_error, probe_connection, FailurePoint};
use motodiag::ui::{cable_step, handshake_step, open_port_step, troubleshoot_report};

fn channel(key: &str, request: Vec<u8>, length: usize) -> Channel {
    Channel {
        key: key.into(),
        name: key.to_uppercase(),
        unit: "u".into(),
        request,
        offset: 2,
        length,
        signed: false,
        verified: false,
    }
}

fn routine(key: &str, request: Vec<u8>, engine_off: bool) -> Routine {
    Routine {
        key: key.into(),
        name: key.into(),
        description: String::new(),
        procedure: vec![],
        risk: RiskLevel::Low,
        request,
        preconditions: PreconditionNeeds {
            engine_must_be_off: engine_off,
            battery_window: false,
        },
        tools: vec![],
        source: None,
        source_url: None,
        verified: false,
    }
}

fn k_line_def(id: &str) -> EcuDefinition {
    EcuDefinition {
        ecu: EcuInfo {
            id: id.into(),
            name: "Test ECU".into(),
            manufacturer: "Test".into(),
            models: vec![],
            bus: BusKind::KLine,
            body_style: BodyStyle::default(),
            verified: false,
            notes: None,
        },
        init: Some(InitConfig {
            method: InitMethod::Fast,
            ecu_address: 0x10,
            tester_address: 0xF1,
            baud: 10400,
            separate_length_byte: false,
        }),
        can: None,
        timing: TimingOverrides::default(),
        identification: Identification::default(),
        channels: vec![],
        dtc: DtcConfig::default(),
        routines: vec![],
        charging: None,
        connector_access: None,
        vacuum_access: None,
    }
}

fn brutale() -> EcuDefinition {
    let mut def = k_line_def("mv-5sm-brutale-910");
    def.channels = vec![
        channel("rpm", vec![0x21, 0x01], 2),
        channel("batt", vec![0x21, 0x05], 1),
    ];
    def.dtc.table = vec![DtcEntry {
        code: 0x0115,
        description: "Coolant temperature sensor".into(),
        causes: vec![],
        checks: vec![],
    }];
    def.routines = vec![routine("fuel_pump_test", vec![0x30, 0x01, 0x07], true)];
    def
}

fn quick_options() -> ConnectOptions {
    ConnectOptions {
        fast_init: Some(FastInitConfig {
            idle_before_ms: 1,
            low_time_ms: 1,
            high_time_ms: 1,
        }),
        ..Default::default()
    }
}

/// The expected conversation with a KWP2000 ECU at 0x10, written as the
/// recording a replay transport plays back: each request frame the tester
/// must send, then the ECU's answer byte by byte.
#[derive(Default)]
struct Script(Vec<TraceEvent>);

impl Script {
    fn event(mut self, dir: TraceDirection, kind: EventKind) -> Script {
        self.0.push(TraceEvent { t_ms: 0, dir, kind });
        self
    }

    fn exchange(mut self, request: &[u8], reply: &[u8]) -> Script {
        let frame = FrameCodec::physical(0x10, 0xF1).encode(request);
        self = self.event(TraceDirection::Tx, EventKind::Bytes { hex: HexBytes(frame) });
        for b in FrameCodec::physical(0xF1, 0x10).encode(reply) {
            self = self.event(TraceDirection::Rx, EventKind::Bytes { hex: HexBytes(vec![b]) });
        }
        self
    }

    /// The fast-init wake-up and StartCommunication.
    fn initialized() -> Script {
        Script::default()
            .event(TraceDirection::Tx, EventKind::Break { ms: 1 })
            .exchange(&[0x81], &[0xC1, 0xEA, 0x8F])
    }

    /// Initialization and the identification request.
    fn connected() -> Script {
        let mut ident = vec![0x5A, 0x80];
        ident.extend_from_slice(b"IAW 5SM SIM v0.1");
        Script::initialized().exchange(&[0x1A, 0x80], &ident)
    }

    /// One more answer to the request before, with no new request.
    fn answer(mut self, reply: &[u8]) -> Script {
        for b in FrameCodec::physical(0xF1, 0x10).encode(reply) {
            self = self.event(TraceDirection::Rx, EventKind::Bytes { hex: HexBytes(vec![b]) });
        }
        self
    }

    fn ecu(self) -> ReplayTransport {
        ReplayTransport::from_events(self.0)
    }
}

const READ_DTCS: [u8; 4] = [0x18, 0x02, 0xFF, 0x00];
const TWO_DTCS: [u8; 8] = [0x58, 0x02, 0x01, 0x15, 0x60, 0x01, 0x20, 0x20];
const READ_RPM: [u8; 2] = [0x21, 0x01];
const RPM_5000: [u8; 4] = [0x61, 0x01, 0x13, 0x88];
const READ_BATT: [u8; 2] = [0x21, 0x05];
const BATT_CC: [u8; 3] = [0x61, 0x05, 0xCC];

fn connect(script: Script) -> DiagSession<ReplayTransport> {
    DiagSession::connect(script.ecu(), brutale(), quick_options()).expect("connects")
}

#[test]
fn refusing_ecu_is_reported_as_alive() {
    let error = AppError::Kwp(KwpError::NegativeResponse {
        service: 0x1A,
        code: NegativeResponseCode::ServiceNotSupported,
    });
    let diagnosis = diagnose_error(&error);
    assert_eq!(diagnosis.failure_point, FailurePoint::EcuRefused);
    assert!(diagnosis.finding.contains("alive"));
}

#[test]
fn checksum_errors_point_at_baud_mismatch() {
    let error = AppError::Kwp(KwpError::BadChecksum {
        computed: 0x12,
        received: 0x34,
    });
    let diagnosis = diagnose_error(&error);
    assert_eq!(diagnosis.failure_point, FailurePoint::GarbledResponse);
    assert!(diagnosis.suggestion.contains("baud"));
}

#[test]
fn missing_echo_points_at_wiring() {
    let error = AppError::Kwp(KwpError::Transport(TransportError::NoEcho { sent: vec![0x81] }));
    let diagnosis = diagnose_error(&error);
    assert_eq!(diagnosis.failure_point, FailurePoint::BusEcho);
    assert!(diagnosis.suggestion.contains("K-line pin"));
}

#[test]
fn silent_ecu_points_at_ignition_and_power() {
    let (tester, _ecu) = pair();
    let diagnosis = probe_connection(tester, &brutale(), &quick_options());
    assert_eq!(diagnosis.failure_point, FailurePoint::EcuSilent);
    assert!(diagnosis.suggestion.contains("ignition"));
}

#[test]
fn garbage_on_the_bus_points_at_baud() {
    // An "ECU" that answers the request with a noise burst shaped like a
    // plausible frame start (0x81 fmt byte, so the parser commits to reading
    // a frame and then fails its checksum).
    let mut script = Script::default().event(TraceDirection::Tx, EventKind::Break { ms: 1 });
    let frame = FrameCodec::physical(0x10, 0xF1).encode(&[0x81]);
    script = script.event(TraceDirection::Tx, EventKind::Bytes { hex: HexBytes(frame) });
    for b in [0x81, 0xAA, 0x00, 0xFF, 0x13] {
        script = script.event(TraceDirection::Rx, EventKind::Bytes { hex: HexBytes(vec![b]) });
    }
    let diagnosis = probe_connection(script.ecu(), &brutale(), &quick_options());
    assert_eq!(diagnosis.failure_point, FailurePoint::GarbledResponse);
    assert!(diagnosis.suggestion.contains("baud"));
}

#[test]
fn healthy_connection_reports_identity() {
    let diagnosis = probe_connection(Script::connected().ecu(), &brutale(), &quick_options());
    assert_eq!(diagnosis.failure_point, FailurePoint::Connected);
    assert!(diagnosis.finding.contains("IAW 5SM SIM v0.1"));
    assert!(diagnosis.raw_error.is_none());
}

#[test]
fn can_definitions_are_not_k_line() {
    let mut def = k_line_def("can-ecu");
    def.ecu.bus = BusKind::Can;
    def.init = None;
    def.can = Some(CanBusConfig {
        tx_id: 0x7E0,
        rx_id: 0x7E8,
        extended_ids: false,
    });
    let (tester, _ecu) = pair();
    match DiagSession::connect(tester, def.clone(), quick_options()) {
        Err(AppError::NotKLine(id)) => assert_eq!(id, "can-ecu"),
        Err(other) => panic!("unexpected {other:?}"),
        Ok(_) => panic!("a CAN definition must not connect over K-line"),
    }
    let (tester, _ecu) = pair();
    let d = probe_connection(tester, &def, &quick_options());
    assert_eq!(d.failure_point, FailurePoint::PortOpen);
    assert_eq!(
        d.raw_error.as_deref(),
        Some("'can-ecu' is a CAN-bus ECU definition; DiagSession only supports K-line/KWP2000 so far")
    );
}

#[test]
fn error_texts_read_as_before() {
    assert_eq!(
        TransportError::Timeout.message(),
        "timed out waiting for data"
    );
    assert_eq!(
        TransportError::EchoMismatch {
            sent: vec![0x81, 0x10],
            echoed: vec![0x81]
        }
        .message(),
        "bus echo mismatch: sent [81, 10], read back [81]"
    );
    assert_eq!(
        KwpError::NegativeResponse {
            service: 0x1A,
            code: NegativeResponseCode::ServiceNotSupported
        }
        .message(),
        "negative response to service 1A: service not supported (0x11)"
    );
    assert_eq!(
        KwpError::BadChecksum {
            computed: 0x12,
            received: 0x34
        }
        .message(),
        "bad checksum: computed 12, received 34"
    );
    assert_eq!(NegativeResponseCode::Other(0x5A).text(), "code 0x5A");
    assert_eq!(
        AppError::Safety(SafetyViolation::ServiceModeDisabled).message(),
        "blocked by safety interlock: service mode is not enabled; this session is read-only"
    );
    assert_eq!(
        AppError::UnknownChannel("tps".into()).message(),
        "unknown channel 'tps' for this ECU"
    );
    assert_eq!(
        SafetyViolation::BatteryOutOfRange {
            measured: "11.4".into(),
            min: "12.0".into(),
            max: "14.8".into()
        }
        .message(),
        "battery voltage 11.4 V outside allowed range 12.0–14.8 V"
    );
    assert_eq!(VacuumError::Closed.message(), "gauge disconnected");
}

#[test]
fn every_diagnosis_carries_the_raw_error() {
    let errors = vec![
        AppError::Kwp(KwpError::Transport(TransportError::Timeout)),
        AppError::Kwp(KwpError::Transport(TransportError::Closed)),
        AppError::Kwp(KwpError::Transport(TransportError::Io("gone".into()))),
        AppError::Kwp(KwpError::InitFailed("bad key".into())),
        AppError::Kwp(KwpError::MalformedFrame("short".into())),
        AppError::Io("disk".into()),
    ];
    let points = vec![
        FailurePoint::EcuSilent,
        FailurePoint::PortOpen,
        FailurePoint::PortOpen,
        FailurePoint::GarbledResponse,
        FailurePoint::GarbledResponse,
        FailurePoint::PortOpen,
    ];
    for (e, p) in errors.iter().zip(points) {
        let d = diagnose_error(e);
        assert_eq!(d.failure_point, p);
        assert_eq!(d.raw_error, Some(e.message()));
    }
    let d = diagnose_error(&AppError::Kwp(KwpError::InitFailed("bad key".into())));
    assert_eq!(
        d.finding,
        "The ECU answered the wake-up, but not as expected: bad key"
    );
    let d = diagnose_error(&AppError::Kwp(KwpError::Transport(TransportError::Io("gone".into()))));
    assert_eq!(d.finding, "Serial port I/O failed: gone");
}

#[test]
fn dtc_response_is_parsed_against_the_table() {
    let def = brutale();
    let dtcs = parse_read_dtc_response(&[0x58, 0x02, 0x01, 0x15, 0x60, 0x01, 0x20, 0x20, 0x99], &def);
    assert_eq!(
        dtcs,
        vec![
            Dtc {
                code: 0x0115,
                status: 0x60,
                description: Some("Coolant temperature sensor".into()),
                causes: vec![],
                checks: vec![],
            },
            Dtc {
                code: 0x0120,
                status: 0x20,
                description: None,
                causes: vec![],
                checks: vec![],
            },
        ]
    );
    assert_eq!(dtcs[0].code_string(), "0115");
    assert!(parse_read_dtc_response(&[0x58], &def).is_empty());
    assert!(parse_read_dtc_response(&[0x58, 0x00], &def).is_empty());
}

#[test]
fn session_reads_identity_dtcs_and_channels() {
    let mut session = connect(
        Script::connected()
            .exchange(&READ_DTCS, &TWO_DTCS)
            .exchange(&READ_RPM, &RPM_5000)
            .exchange(&READ_BATT, &BATT_CC)
            .exchange(&READ_RPM, &RPM_5000)
            .exchange(&READ_BATT, &BATT_CC),
    );
    assert_eq!(session.identity().text, "IAW 5SM SIM v0.1");
    assert_eq!(session.identity().raw, b"IAW 5SM SIM v0.1".to_vec());
    assert!(!session.service_mode());

    let dtcs = session.read_dtcs().unwrap();
    assert_eq!(dtcs.len(), 2);
    assert_eq!(dtcs[0].code, 0x0115);

    let rpm = session.read_channel("rpm").unwrap();
    assert_eq!(rpm.raw, 5000);
    assert_eq!(rpm.key, "rpm");
    let batt = session.read_channel("batt").unwrap();
    assert_eq!(batt.raw, 0xCC);
    match session.read_channel("tps") {
        Err(AppError::UnknownChannel(k)) => assert_eq!(k, "tps"),
        other => panic!("unexpected {other:?}"),
    }
    let all = session.poll_all_channels();
    assert_eq!(all.len(), 2);
    assert!(all.iter().all(|r| r.is_ok()));
    session.keepalive_if_due().unwrap();
}

#[test]
fn routines_need_write_access_and_passing_preconditions() {
    let mut session = connect(
        Script::connected()
            .exchange(&READ_RPM, &RPM_5000)
            .exchange(&[0x30, 0x01, 0x07], &[0x70, 0x01, 0x07]),
    );
    match session.run_routine("fuel_pump_test", true, Ok(())) {
        Err(AppError::Safety(SafetyViolation::ServiceModeDisabled)) => {}
        other => panic!("unexpected {other:?}"),
    }
    session.enable_service_mode();
    match session.routine_readings("nope", true) {
        Err(AppError::UnknownRoutine(k)) => assert_eq!(k, "nope"),
        other => panic!("unexpected {other:?}"),
    }
    let readings = session.routine_readings("fuel_pump_test", true).unwrap();
    assert_eq!(readings.rpm.as_ref().map(|r| r.raw), Some(5000));
    assert!(readings.battery.is_none());

    let running = SafetyViolation::EngineRunning { rpm: "1250".into() };
    match session.run_routine("fuel_pump_test", true, Err(running.clone())) {
        Err(AppError::Safety(v)) => assert_eq!(v, running),
        other => panic!("unexpected {other:?}"),
    }
    let resp = session.run_routine("fuel_pump_test", true, Ok(())).unwrap();
    assert_eq!(resp, vec![0x70, 0x01, 0x07]);
}

#[test]
fn printable_text_masks_control_characters() {
    assert_eq!(printable_text("A\u{1}B\u{7f}C"), "A·B·C");
    assert_eq!(identity_text(b"IAW\x00"), "IAW·");
    assert_eq!(identity_text(&[0x41, 0xFF]), "A\u{FFFD}");
}

#[test]
fn probe_records_errors_as_text() {
    let ok = probe(Ok(vec![0x5A, 0x80]));
    assert_eq!(ok.result, Ok(vec![0x5A, 0x80]));
    let err = probe(Err(KwpError::Transport(TransportError::Timeout)));
    assert_eq!(err.result, Err("timed out waiting for data".to_string()));
}

#[test]
fn summary_is_readable_and_non_empty() {
    let report = DiscoveryReport {
        identification: vec![IdentificationProbe {
            option_byte: 0x80,
            outcome: ProbeOutcome {
                result: Ok(vec![0x5A, 0x80, 0x49]),
            },
        }],
        dtc: vec![DtcProbe {
            request: vec![0x18, 0x02, 0xFF, 0x00],
            outcome: ProbeOutcome {
                result: Err("timed out waiting for data".into()),
            },
        }],
        local_identifiers: vec![
            LocalIdProbe {
                local_id: 0x00,
                outcome: ProbeOutcome {
                    result: Err("negative".into()),
                },
                looks_live: false,
            },
            LocalIdProbe {
                local_id: 0x01,
                outcome: ProbeOutcome {
                    result: Ok(vec![0x61, 0x01, 0x13, 0x88]),
                },
                looks_live: true,
            },
        ],
    };
    let summary = report.summary();
    assert!(summary.contains("ReadEcuIdentification"));
    assert!(summary.contains("0x01"));
    assert_eq!(
        summary,
        "== ReadEcuIdentification option bytes ==\n  0x80: [5A, 80, 49]\n== ReadDTCByStatus variants ==\n  [18, 02, FF, 00]: timed out waiting for data\n== ReadDataByLocalIdentifier: 1 of 2 IDs responded ==\n  0x01: [61, 01, 13, 88] (changed between polls — likely live)\n"
    );
    let live: Vec<u8> = report.responsive_local_ids().iter().map(|p| p.local_id).collect();
    assert_eq!(live, vec![0x01]);
}

#[test]
fn discovery_probes_the_requested_space() {
    let refused = [0x7F, 0x21, 0x31];
    let tester = Script::connected()
        .exchange(&READ_DTCS, &TWO_DTCS)
        .exchange(&[0x21, 0x00], &refused)
        .exchange(&READ_RPM, &RPM_5000)
        .exchange(&READ_RPM, &[0x61, 0x01, 0x13, 0x8C])
        .exchange(&[0x21, 0x02], &refused)
        .exchange(&[0x21, 0x03], &refused)
        .exchange(&[0x21, 0x04], &refused)
        .exchange(&READ_BATT, &BATT_CC)
        .exchange(&READ_BATT, &BATT_CC)
        .exchange(&[0x21, 0x06], &refused)
        .ecu();
    let options = DiscoveryOptions {
        local_id_first: 0x00,
        local_id_last: 0x06,
        identification_options: vec![0x80],
        dtc_requests: vec![vec![0x18, 0x02, 0xFF, 0x00]],
        live_check_gap_ms: 1,
    };
    let report = run_discovery(tester, &brutale(), &quick_options(), &options, Some(VecSink::default()))
        .expect("discovery run completes");
    assert_eq!(report.local_identifiers.len(), 7);
    let responsive: Vec<u8> = report.responsive_local_ids().iter().map(|p| p.local_id).collect();
    assert_eq!(responsive, vec![0x01, 0x05]);
    assert_eq!(
        report.identification[0].outcome.result.as_ref().unwrap()[2..],
        *b"IAW 5SM SIM v0.1"
    );
    assert!(report.dtc[0].outcome.result.is_ok());
    let d = DiscoveryOptions::default();
    assert_eq!((d.local_id_first, d.local_id_last), (0x00, 0xFF));
    assert_eq!(d.dtc_requests.len(), 3);
}

#[test]
fn access_guide_zone_names() {
    let g = AccessGuide {
        zone: AccessZone::UnderTankRight,
        summary: "3-pin connector under the tank, right side.".into(),
        steps: vec!["Key OFF".into()],
        tools: vec!["FTDI KKL cable".into()],
        verify_note: None,
        source: None,
        source_url: None,
    };
    assert_eq!(g.zone.as_str(), "under-tank-right");
    assert_eq!(BodyStyle::Faired.as_str(), "faired");
    assert_eq!(BodyStyle::default(), BodyStyle::Naked);
    let info = motodiag::ui::access_guide_info(&g);
    assert_eq!(info.zone, "under-tank-right");
    assert_eq!(info.steps, g.steps);
}

#[test]
fn response_pending_answers_are_waited_out() {
    let script = Script::connected()
        .exchange(&READ_RPM, &[0x7F, 0x21, 0x78])
        .answer(&[0x7F, 0x21, 0x78])
        .answer(&RPM_5000);
    let mut session = connect(script);
    let reading = session.read_channel("rpm").expect("answer after two pending replies");
    assert_eq!(reading.raw, 5000);
}

#[test]
fn too_many_pending_answers_end_the_request() {
    let mut script = Script::connected().exchange(&READ_RPM, &[0x7F, 0x21, 0x78]);
    for _ in 0..10 {
        script = script.answer(&[0x7F, 0x21, 0x78]);
    }
    let mut session = connect(script);
    let err = session.read_channel("rpm").unwrap_err();
    assert_eq!(
        err,
        AppError::Kwp(KwpError::NegativeResponse {
            service: 0x21,
            code: NegativeResponseCode::ResponsePending,
        })
    );
}

#[test]
fn negative_response_carries_the_received_code() {
    let script = Script::connected().exchange(&READ_RPM, &[0x7F, 0x21, 0x31]);
    let mut session = connect(script);
    let err = session.read_channel("rpm").unwrap_err();
    assert_eq!(
        err,
        AppError::Kwp(KwpError::NegativeResponse {
            service: 0x21,
            code: NegativeResponseCode::from(0x31),
        })
    );
}

#[test]
fn troubleshoot_report_has_three_named_stages() {
    let healthy = probe_connection(Script::connected().ecu(), &brutale(), &quick_options());
    let steps = troubleshoot_report(
        cable_step("simulator", true, &vec![]),
        Some(open_port_step("simulator", 10400, true, &Ok(()))),
        Some(handshake_step(healthy)),
    );
    let names: Vec<&str> = steps.iter().map(|s| s.name.as_str()).collect();
    assert_eq!(names, ["Interface cable", "Open serial port", "Bus & ECU handshake"]);
    assert!(steps.iter().all(|s| s.status == "passed"));

    let steps = troubleshoot_report(cable_step("/dev/ttyUSB9", false, &vec![]), None, None);
    let statuses: Vec<&str> = steps.iter().map(|s| s.status.as_str()).collect();
    assert_eq!(statuses, ["failed", "skipped", "skipped"]);
    assert!(steps[0].suggestion.is_some());

    let steps = troubleshoot_report(
        cable_step("simulator", true, &vec![]),
        Some(open_port_step("/dev/ttyUSB0", 10400, false, &Err("busy".to_string()))),
        None,
    );
    let names: Vec<&str> = steps.iter().map(|s| s.name.as_str()).collect();
    assert_eq!(names, ["Interface cable", "Open serial port", "Bus & ECU handshake"]);
    assert_eq!(steps[1].status, "failed");
    assert_eq!(steps[2].status, "skipped");
}
