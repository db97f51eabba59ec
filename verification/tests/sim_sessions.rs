use motodiag::discovery::{run_discovery, DiscoveryOptions};
use motodiag::error::{AppError, SafetyViolation};
use motodiag::init::FastInitConfig;
use motodiag::schema::{
    BodyStyle, BusKind, Channel, DtcConfig, DtcEntry, EcuDefinition, EcuInfo, Identification,
    InitConfig, InitMethod, PreconditionNeeds, RiskLevel, Routine,
};
use motodiag::session::{ConnectOptions, DiagSession};
use motodiag::sim::{SimConfig, SimulatedLine, Simulator};
use motodiag::timing::TimingOverrides;
use motodiag::trace::{EventKind, EventWriter, HexBytes, TraceDirection, TraceEvent, WriterSink};
use std::sync::{Arc, Mutex};
use motodiag::transport::{KLineTransport, TransportError};
use motodiag::troubleshoot::{probe_connection, FailurePoint};

fn channel(key: &str, local_id: u8, length: usize) -> Channel {
    Channel {
        key: key.into(),
        name: key.to_uppercase(),
        unit: String::new(),
        request: vec![0x21, local_id],
        offset: 2,
        length,
        signed: false,
        verified: false,
    }
}

fn routine(key: &str, request: Vec<u8>, engine_off: bool, battery: bool) -> Routine {
    Routine {
        key: key.into(),
        name: key.into(),
        description: String::new(),
        procedure: vec![],
        risk: RiskLevel::Low,
        request,
        preconditions: PreconditionNeeds {
            engine_must_be_off: engine_off,
            battery_window: battery,
        },
        tools: vec![],
        source: None,
        source_url: None,
        verified: false,
    }
}

/// The Brutale 910 (IAW 5SM) live-data layout the simulator reports.
fn brutale_def() -> EcuDefinition {
    EcuDefinition {
        ecu: EcuInfo {
            id: "mv-5sm-brutale-910".into(),
            name: "IAW 5SM".into(),
            manufacturer: "Magneti Marelli".into(),
            models: vec!["Brutale 910".into()],
            bus: BusKind::KLine,
            body_style: BodyStyle::Naked,
            verified: false,
            notes: None,
        },
        init: Some(InitConfig {
            method: InitMethod::Fast,
            ecu_address: 0x10,
            tester_address: 0xF1,
            baud: 10400,
            separate_length_byte: false,
        }),
        can: None,
        timing: TimingOverrides::default(),
        identification: Identification::default(),
        channels: vec![
            channel("rpm", 0x01, 2),
            channel("tps", 0x02, 2),
            channel("ect", 0x03, 1),
            channel("iat", 0x04, 1),
            channel("batt", 0x05, 1),
            channel("map", 0x06, 2),
        ],
        dtc: DtcConfig {
            table: vec![DtcEntry {
                code: 0x0115,
                description: "Throttle position sensor circuit".into(),
                causes: vec!["TPS connector loose or corroded".into()],
                checks: vec!["Check TPS supply voltage".into()],
            }],
            ..DtcConfig::default()
        },
        routines: vec![
            routine("fuel_pump_test", vec![0x30, 0x01, 0x07], true, true),
            routine("tps_reset", vec![0x31, 0x02], true, true),
        ],
        charging: None,
        connector_access: None,
        vacuum_access: None,
    }
}

/// Fast-init timings shrunk so the suite stays quick; the protocol sequence
/// is identical to the real one.
fn quick_connect_options() -> ConnectOptions {
    ConnectOptions {
        fast_init: Some(FastInitConfig {
            idle_before_ms: 1,
            low_time_ms: 1,
            high_time_ms: 1,
        }),
        ..Default::default()
    }
}

fn sim_line(config: SimConfig) -> SimulatedLine {
    SimulatedLine::new(Simulator::new(config))
}

fn connect_sim(config: SimConfig) -> DiagSession<SimulatedLine> {
    DiagSession::connect(sim_line(config), brutale_def(), quick_connect_options())
        .expect("connect to simulated ECU")
}

#[test]
fn connects_and_reads_identity() {
    let session = connect_sim(SimConfig::default());
    assert_eq!(session.identity().text, "IAW 5SM SIM v0.1");
}

#[test]
fn reads_and_maps_dtcs() {
    let mut session = connect_sim(SimConfig::default());
    let dtcs = session.read_dtcs().expect("read DTCs");
    assert_eq!(dtcs.len(), 2);
    assert_eq!(dtcs[0].code, 0x0115);
    // The definition's DTC table supplies the description plus the
    // plain-language causes/checks lists.
    assert!(dtcs[0]
        .description
        .as_deref()
        .unwrap_or("")
        .contains("Throttle"));
    assert!(
        !dtcs[0].causes.is_empty(),
        "TPS code should list likely causes"
    );
    assert!(dtcs[0].causes[0].contains("connector"));
    assert!(!dtcs[0].checks.is_empty(), "TPS code should list checks");
}

#[test]
fn polls_live_data_channels() {
    let mut session = connect_sim(SimConfig::default());
    let readings: Vec<_> = session
        .poll_all_channels()
        .into_iter()
        .collect::<Result<_, _>>()
        .expect("all channels decode");
    assert_eq!(readings.len(), 6);

    let get = |key: &str| readings.iter().find(|r| r.key == key).unwrap().raw as f64;
    let rpm = get("rpm") * 0.25;
    assert!(rpm > 1000.0 && rpm < 2000.0, "idle rpm");
    assert!((get("ect") - 40.0 - 84.0).abs() < 1.5, "coolant ~84°C");
    assert!((get("batt") * 0.0625 - 12.8).abs() < 0.2, "battery ~12.8V");
}

#[test]
fn write_operations_are_locked_down_by_default() {
    let mut session = connect_sim(SimConfig::default());

    // Read-only session: clearing DTCs is blocked before service mode.
    match session.clear_dtcs(true) {
        Err(AppError::Safety(SafetyViolation::ServiceModeDisabled)) => {}
        other => panic!("expected ServiceModeDisabled, got {other:?}"),
    }

    // Service mode alone is not enough: per-operation confirmation required.
    session.enable_service_mode();
    match session.clear_dtcs(false) {
        Err(AppError::Safety(SafetyViolation::ConfirmationRequired)) => {}
        other => panic!("expected ConfirmationRequired, got {other:?}"),
    }

    session.clear_dtcs(true).expect("clear DTCs once confirmed");
    assert!(session.read_dtcs().expect("re-read").is_empty());
}

#[test]
fn routine_blocked_while_engine_running() {
    // Default sim state: engine idling at ~1250 rpm.
    let mut session = connect_sim(SimConfig::default());
    session.enable_service_mode();
    let readings = session.routine_readings("fuel_pump_test", true).unwrap();
    let rpm = readings.rpm.expect("engine-off routines read rpm").raw as f64 * 0.25;
    assert!(rpm > 0.0);
    let running = SafetyViolation::EngineRunning { rpm: format!("{rpm:.0}") };
    match session.run_routine("fuel_pump_test", true, Err(running.clone())) {
        Err(AppError::Safety(v)) => assert_eq!(v, running),
        other => panic!("expected EngineRunning, got {other:?}"),
    }
}

#[test]
fn routine_runs_with_engine_off_and_good_battery() {
    let mut session = connect_sim(SimConfig {
        engine_running: false,
        ..SimConfig::default()
    });
    session.enable_service_mode();
    let readings = session.routine_readings("fuel_pump_test", true).unwrap();
    assert_eq!(readings.rpm.map(|r| r.raw), Some(0));
    assert_eq!(readings.battery.map(|r| r.raw), Some(204));

    let response = session
        .run_routine("fuel_pump_test", true, Ok(()))
        .expect("actuator test runs");
    assert_eq!(response[0], 0x70); // positive response to 0x30
}

#[test]
fn tps_reset_blocked_on_low_battery() {
    let mut session = connect_sim(SimConfig {
        engine_running: false,
        battery_raw: 179, // 11.2 V
        ..SimConfig::default()
    });
    session.enable_service_mode();
    let readings = session.routine_readings("tps_reset", true).unwrap();
    let measured = readings.battery.expect("battery-window routines read the battery").raw as f64 * 0.0625;
    assert!((measured - 11.2).abs() < 0.2);
    let low = SafetyViolation::BatteryOutOfRange {
        measured: format!("{measured:.1}"),
        min: "12.0".into(),
        max: "14.8".into(),
    };
    match session.run_routine("tps_reset", true, Err(low.clone())) {
        Err(AppError::Safety(v)) => assert_eq!(v, low),
        other => panic!("expected BatteryOutOfRange, got {other:?}"),
    }
}

#[test]
fn simulator_stays_silent_until_started() {
    let mut line = sim_line(SimConfig::default());
    // ReadEcuIdentification without StartCommunication: no answer.
    line.send(&[0x82, 0x10, 0xF1, 0x1A, 0x80, 0x1D]).unwrap();
    assert!(matches!(line.read_byte(1), Err(TransportError::Timeout)));
    // A frame for another ECU is ignored too.
    line.send(&[0x81, 0x11, 0xF1, 0x81, 0x04]).unwrap();
    assert!(matches!(line.read_byte(1), Err(TransportError::Timeout)));
    line.send(&[0x81, 0x10, 0xF1, 0x81, 0x03]).unwrap();
    let mut answer = Vec::new();
    while let Ok(b) = line.read_byte(1) {
        answer.push(b);
    }
    assert_eq!(answer, vec![0x83, 0xF1, 0x10, 0xC1, 0xEA, 0x8F, 0xBE]);
}

#[test]
fn finds_the_simulators_known_local_ids() {
    let discovery_options = DiscoveryOptions {
        local_id_first: 0x00,
        local_id_last: 0x08,
        live_check_gap_ms: 1,
        ..Default::default()
    };
    let report = run_discovery(
        sim_line(SimConfig::default()),
        &brutale_def(),
        &quick_connect_options(),
        &discovery_options,
        None::<motodiag::trace::VecSink>,
    )
    .expect("discovery run completes");

    let responsive: Vec<u8> = report.responsive_local_ids().iter().map(|p| p.local_id).collect();
    assert_eq!(responsive, vec![0x01, 0x02, 0x03, 0x04, 0x05, 0x06]);

    // Only rpm (0x01) wanders each poll in the simulator; the others are
    // held constant, so only rpm should be flagged live.
    let live: Vec<u8> = report
        .responsive_local_ids()
        .iter()
        .filter(|p| p.looks_live)
        .map(|p| p.local_id)
        .collect();
    assert_eq!(live, vec![0x01]);

    assert_eq!(report.local_identifiers.len(), 9); // 0x00..=0x08
    assert!(report.local_identifiers[0].outcome.result.is_err()); // 0x00 unsupported
}

#[test]
fn identification_and_dtc_probes_run() {
    let discovery_options = DiscoveryOptions {
        local_id_first: 0x01,
        local_id_last: 0x01,
        ..Default::default()
    };
    let report = run_discovery(
        sim_line(SimConfig::default()),
        &brutale_def(),
        &quick_connect_options(),
        &discovery_options,
        None::<motodiag::trace::VecSink>,
    )
    .unwrap();

    // The simulator answers 0x80 (and only 0x80) with its ident string.
    let hit = report.identification.iter().find(|p| p.option_byte == 0x80).unwrap();
    assert_eq!(hit.outcome.result.as_ref().unwrap()[2..], *b"IAW 5SM SIM v0.1");

    // At least one DTC variant should succeed (the one matching the
    // definition's own read_request shape).
    assert!(report.dtc.iter().any(|p| p.outcome.result.is_ok()));
}

#[derive(Clone, Default)]
struct SharedWriter(Arc<Mutex<Vec<TraceEvent>>>);

impl EventWriter for SharedWriter {
    fn write_event(&mut self, event: &TraceEvent) {
        self.0.lock().unwrap().push(event.clone());
    }
}

#[test]
fn wire_trace_sink_captures_the_whole_run() {
    let discovery_options = DiscoveryOptions {
        local_id_first: 0x01,
        local_id_last: 0x01,
        identification_options: vec![0x80],
        dtc_requests: vec![],
        live_check_gap_ms: 1,
    };
    let writer = SharedWriter::default();
    run_discovery(
        sim_line(SimConfig::default()),
        &brutale_def(),
        &quick_connect_options(),
        &discovery_options,
        Some(WriterSink::new(writer.clone())),
    )
    .expect("discovery with a trace sink attached still succeeds");

    let events = writer.0.lock().unwrap();
    // Init handshake + identification probe + one local-id probe, at
    // minimum: enough to prove the whole run, not just individual requests,
    // flowed through the tracer.
    assert!(events.len() > 4, "expected multiple traced events, got {}", events.len());
}

#[test]
fn summary_of_a_simulated_run_is_readable() {
    let discovery_options = DiscoveryOptions {
        local_id_first: 0x01,
        local_id_last: 0x02,
        identification_options: vec![0x80],
        dtc_requests: vec![vec![0x18, 0x02, 0xFF, 0x00]],
        live_check_gap_ms: 1,
    };
    let report = run_discovery(
        sim_line(SimConfig::default()),
        &brutale_def(),
        &quick_connect_options(),
        &discovery_options,
        None::<motodiag::trace::VecSink>,
    )
    .unwrap();
    let summary = report.summary();
    assert!(summary.contains("ReadEcuIdentification"));
    assert!(summary.contains("0x01"));
}

#[test]
fn healthy_simulated_connection_reports_identity() {
    let diagnosis = probe_connection(sim_line(SimConfig::default()), &brutale_def(), &quick_connect_options());
    assert_eq!(diagnosis.failure_point, FailurePoint::Connected);
    assert!(diagnosis.finding.contains("IAW 5SM SIM v0.1"));
}

#[test]
fn recorded_session_replays_identically() {
    let writer = SharedWriter::default();
    {
        let traced = motodiag::trace::TracingTransport::new(
            sim_line(SimConfig::default()),
            WriterSink::new(writer.clone()),
        );
        let mut session = DiagSession::connect(traced, brutale_def(), quick_connect_options())
            .expect("connect while recording");
        assert_eq!(session.identity().text, "IAW 5SM SIM v0.1");
        let dtcs = session.read_dtcs().expect("read DTCs while recording");
        assert_eq!(dtcs.len(), 2);
        let rpm = session.read_channel("rpm").expect("read rpm while recording");
        assert!(rpm.raw > 0);
    }

    let events = writer.0.lock().unwrap().clone();
    assert!(!events.is_empty(), "recording should have captured events");
    let replay = motodiag::replay::ReplayTransport::from_events(events);

    let mut replayed_session = DiagSession::connect(replay, brutale_def(), quick_connect_options())
        .expect("connect via replay");
    assert_eq!(replayed_session.identity().text, "IAW 5SM SIM v0.1");
    let dtcs = replayed_session.read_dtcs().expect("read DTCs via replay");
    assert_eq!(dtcs.len(), 2);
    assert_eq!(dtcs[0].code, 0x0115);
    let rpm = replayed_session.read_channel("rpm").expect("read rpm via replay");
    assert!(rpm.raw > 0);
}

/// Record a simulated session through a tracing transport and hand back
/// the wire events.
fn record_sim_session() -> Vec<TraceEvent> {
    let writer = SharedWriter::default();
    let traced = motodiag::trace::TracingTransport::new(
        sim_line(SimConfig::default()),
        WriterSink::new(writer.clone()),
    );
    let mut session = DiagSession::connect(traced, brutale_def(), quick_connect_options())
        .expect("connect while recording");
    session.read_dtcs().expect("read DTCs");
    session.read_channel("rpm").expect("read rpm");
    session.read_channel("batt").expect("read batt");
    let events = writer.0.lock().unwrap().clone();
    events
}

#[test]
fn recorded_sim_session_analyzes_end_to_end() {
    let events = record_sim_session();
    assert!(!events.is_empty());

    let report = motodiag::trace_report::analyze(&brutale_def(), &events);
    assert!(report.init_seen, "fast-init should be visible");
    assert_eq!(report.identity.as_deref(), Some("IAW 5SM SIM v0.1"));
    assert_eq!(report.dtc_reads, 1);
    assert_eq!(report.dtc_last_count, Some(2));
    let rpm = report.channels.iter().find(|c| c.key == "rpm").expect("rpm decoded from trace");
    assert!(rpm.last_raw > 0, "rpm should decode to a live value");
    assert!(report.channels.iter().any(|c| c.key == "batt"));
    assert_eq!(report.negative_responses, 0);
    assert!(report.exchange_count >= 4); // start-comm, ident, dtc, 2 channels
}

#[test]
fn analyzing_against_the_wrong_definition_reports_unknowns() {
    let events = record_sim_session();
    let mut other = brutale_def();
    other.ecu.id = "ducati-iaw-59m".into();
    other.channels = vec![channel("rpm", 0x0A, 2)];
    let report = motodiag::trace_report::analyze(&other, &events);
    // The report is keyed to the definition it ran with and decodes no
    // channel that definition describes differently.
    assert_eq!(report.definition_id, "ducati-iaw-59m");
    assert!(report.event_count > 0);
    assert!(report.channels.is_empty());
}

fn bytes_event(dir: TraceDirection, bytes: Vec<u8>) -> TraceEvent {
    TraceEvent {
        t_ms: 0,
        dir,
        kind: EventKind::Bytes { hex: HexBytes(bytes) },
    }
}

#[test]
fn hand_built_trace_rows_describe_each_exchange() {
    let tester = vec![0x81, 0x10, 0xF1, 0x3E, 0xC0];
    let mut keepalive_rx = tester.clone();
    keepalive_rx.extend([0x81, 0xF1, 0x10, 0x7E, 0x00]);
    let batt = vec![0x82, 0x10, 0xF1, 0x21, 0x05, 0xA9];
    let mut batt_rx = batt.clone();
    batt_rx.extend([0x83, 0xF1, 0x10, 0x7F, 0x21, 0x12, 0x36]);
    let events = vec![
        TraceEvent { t_ms: 0, dir: TraceDirection::Tx, kind: EventKind::FiveBaudAddress { address: 0x33 } },
        bytes_event(TraceDirection::Tx, tester),
        bytes_event(TraceDirection::Rx, keepalive_rx),
        bytes_event(TraceDirection::Tx, batt),
        bytes_event(TraceDirection::Rx, batt_rx),
        bytes_event(TraceDirection::Tx, vec![0x82, 0x10, 0xF1, 0x21, 0x01, 0xA5]),
    ];
    let report = motodiag::trace_report::analyze(&brutale_def(), &events);
    assert!(report.init_seen);
    assert_eq!(report.event_count, 6);
    assert_eq!(report.exchange_count, 3);
    assert_eq!(report.negative_responses, 1);
    assert_eq!(report.tester_present, 1);
    assert_eq!(report.unparsed_rx_bytes, 0);
    assert!(!report.rows_truncated);
    let rows: Vec<(String, String, bool, String, Option<i64>)> = report
        .rows
        .iter()
        .map(|r| (r.kind.clone(), r.request_hex.clone(), r.ok, r.detail.clone(), r.channel_raw))
        .collect();
    assert_eq!(
        rows,
        vec![
            ("init".to_string(), "5-baud address 0x33".to_string(), true, "slow init wake-up".to_string(), None),
            (
                "tester present".to_string(),
                "81 10 F1 3E C0".to_string(),
                true,
                "keep-alive acknowledged".to_string(),
                None
            ),
            (
                "channel batt".to_string(),
                "82 10 F1 21 05 A9".to_string(),
                false,
                "negative response, NRC 0x12".to_string(),
                None
            ),
            (
                "channel rpm".to_string(),
                "82 10 F1 21 01 A5".to_string(),
                false,
                "no response captured in the trace".to_string(),
                None
            ),
        ]
    );
}
