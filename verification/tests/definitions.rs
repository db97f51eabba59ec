use motodiag::catalog::{
    validate_source, BikeCatalog, CatalogBike, ChannelOverride, DtcNote, ExhaustMod, EpromMod,
    ModGuidance, ModRequires, ProcedureNote, SpecAdjustment,
};
use motodiag::registry::{DefsError, Registry};
use motodiag::schema::{
    default_ident_skip, default_tester_address, AccessGuide, AccessZone, BodyStyle, BusKind,
    CanBusConfig, Channel, ChargingCheck, DtcConfig, EcuDefinition, EcuInfo, Identification,
    InitConfig, InitMethod, PreconditionNeeds, RiskLevel, Routine,
};
use motodiag::timing::TimingOverrides;
use motodiag::validate::is_allowed_sid;

fn base_def(id: &str) -> EcuDefinition {
    EcuDefinition {
        ecu: EcuInfo {
            id: id.into(),
            name: "X".into(),
            manufacturer: "Y".into(),
            models: vec![],
            bus: BusKind::KLine,
            body_style: BodyStyle::Naked,
            verified: false,
            notes: None,
        },
        init: Some(InitConfig {
            method: InitMethod::Fast,
            ecu_address: 0x10,
            tester_address: default_tester_address(),
            baud: 10400,
            separate_length_byte: false,
        }),
        can: None,
        timing: TimingOverrides::default(),
        identification: Identification::default(),
        channels: vec![],
        dtc: DtcConfig::default(),
        routines: vec![],
        charging: None,
        connector_access: None,
        vacuum_access: None,
    }
}

fn routine(key: &str, request: Vec<u8>) -> Routine {
    Routine {
        key: key.into(),
        name: key.into(),
        description: String::new(),
        procedure: vec![],
        risk: RiskLevel::Medium,
        request,
        preconditions: PreconditionNeeds::default(),
        tools: vec![],
        source: None,
        source_url: None,
        verified: false,
    }
}

fn channel(key: &str, request: Vec<u8>, length: usize) -> Channel {
    Channel {
        key: key.into(),
        name: key.into(),
        unit: String::new(),
        request,
        offset: 2,
        length,
        signed: false,
        verified: false,
    }
}

#[test]
fn k_line_bus_requires_init_and_forbids_can() {
    let mut missing_init = base_def("x");
    missing_init.init = None;
    assert!(missing_init.validate().unwrap_err().contains("[init]"));

    let mut both = base_def("x");
    both.can = Some(CanBusConfig {
        tx_id: 0x7E0,
        rx_id: 0x7E8,
        extended_ids: false,
    });
    assert!(both.validate().unwrap_err().contains("[can]"));
}

#[test]
fn can_bus_requires_can_and_forbids_init() {
    let mut missing_can = base_def("x");
    missing_can.ecu.bus = BusKind::Can;
    missing_can.init = None;
    assert!(missing_can.validate().unwrap_err().contains("[can]"));

    let mut valid = missing_can.clone();
    valid.can = Some(CanBusConfig {
        tx_id: 0x7E0,
        rx_id: 0x7E8,
        extended_ids: false,
    });
    assert!(valid.validate().is_ok());
}

#[test]
fn rejects_memory_service_sids() {
    let mut def = base_def("bad");
    def.routines = vec![routine("evil", vec![0x23, 0x00, 0x00])];
    let err = def.validate().unwrap_err();
    assert!(err.contains("0x23"));
    assert_eq!(
        err,
        "'evil' uses service 0x23, which is not in the allowed set (memory/flash services are intentionally unsupported)"
    );
}

#[test]
fn spec_and_procedure_are_optional() {
    let mut def = base_def("x");
    def.routines = vec![routine("r", vec![0x3E])];
    def.validate().unwrap();
    assert!(def.routines[0].procedure.is_empty());
}

#[test]
fn routine_citation_parses_and_validates() {
    let mut def = base_def("x");
    let mut r = routine("tps_reset", vec![0x31, 0x01]);
    r.procedure = vec!["Step one".into()];
    r.source = Some("revlimiter.it".into());
    r.source_url = Some("https://www.revlimiter.it/forum/viewtopic.php?t=1".into());
    def.routines = vec![r];
    def.validate().unwrap();

    let mut http = def.clone();
    http.routines[0].source_url = Some("http://www.revlimiter.it/forum/viewtopic.php?t=1".into());
    assert!(http.validate().unwrap_err().contains("https"));

    let mut unpaired = def.clone();
    unpaired.routines[0].source = None;
    assert!(unpaired.validate().unwrap_err().contains("go together"));
}

fn guide() -> AccessGuide {
    AccessGuide {
        zone: AccessZone::UnderTankRight,
        summary: "3-pin connector under the tank, right side.".into(),
        steps: vec!["Key OFF".into(), "Prop the tank per the manual".into()],
        tools: vec!["FTDI KKL cable".into()],
        verify_note: Some("Varies by model year.".into()),
        source: Some("mvagusta.net".into()),
        source_url: Some("https://www.mvagusta.net/threads/1/".into()),
    }
}

#[test]
fn access_guide_parses_and_validates() {
    let mut def = base_def("x");
    def.ecu.body_style = BodyStyle::Faired;
    def.connector_access = Some(guide());
    def.validate().unwrap();
    assert_eq!(def.connector_access.as_ref().unwrap().zone.as_str(), "under-tank-right");

    let mut http = def.clone();
    http.connector_access.as_mut().unwrap().source_url = Some("http://x.com/".into());
    assert!(http.validate().unwrap_err().contains("https"));

    let mut unpaired = def.clone();
    unpaired.connector_access.as_mut().unwrap().source = None;
    assert!(unpaired.validate().unwrap_err().contains("go together"));

    let mut blank = def.clone();
    blank.connector_access.as_mut().unwrap().steps[0] = "  ".into();
    assert!(blank.validate().unwrap_err().contains("empty step"));
}

#[test]
fn definition_rules_report_the_first_problem() {
    let mut def = base_def("x");
    def.channels = vec![
        channel("rpm", vec![0x21, 0x01], 2),
        channel("rpm", vec![0x21, 0x02], 3),
    ];
    assert_eq!(def.validate().unwrap_err(), "duplicate channel key 'rpm'");
    def.channels[1].key = "tps".into();
    assert_eq!(
        def.validate().unwrap_err(),
        "channel 'tps' length must be 1, 2 or 4 bytes"
    );
    def.channels[1].length = 2;
    def.channels[1].request = vec![];
    assert_eq!(def.validate().unwrap_err(), "channel 'tps' has an empty request");
    def.channels[1].request = vec![0x21, 0x02];
    def.routines = vec![routine("a", vec![0x31]), routine("a", vec![0x31])];
    assert_eq!(def.validate().unwrap_err(), "duplicate routine key 'a'");
    def.routines.pop();
    def.identification.request = vec![0x3D, 0x00];
    assert!(def.validate().unwrap_err().starts_with("'identification' uses service 0x3D"));
    def.identification = Identification::default();
    def.dtc.clear_request = vec![];
    assert_eq!(def.validate().unwrap_err(), "'dtc.clear_request' has an empty request");
    def.dtc = DtcConfig::default();
    def.validate().unwrap();

    def.charging = Some(ChargingCheck {
        thresholds_ordered: true,
        rpm_band_valid: true,
        source: "ducatimonster.org".into(),
        source_url: "https://www.ducatimonster.org/t/1".into(),
    });
    assert_eq!(
        def.validate().unwrap_err(),
        "[charging] requires a 'batt' channel — the guided test reads it live"
    );
    def.channels.push(channel("batt", vec![0x21, 0x05], 1));
    def.channels[0].key = "engine_speed".into();
    assert_eq!(
        def.validate().unwrap_err(),
        "[charging] requires a 'rpm' channel — the guided test reads it live"
    );
    def.channels[0].key = "rpm".into();
    def.validate().unwrap();
    def.charging.as_mut().unwrap().thresholds_ordered = false;
    assert_eq!(
        def.validate().unwrap_err(),
        "[charging] needs rest_min_v < charging_min_v < charging_max_v"
    );
}

#[test]
fn allowed_services_exclude_memory_and_security() {
    for sid in [0x10, 0x14, 0x18, 0x19, 0x1A, 0x21, 0x22, 0x2F, 0x30, 0x31, 0x32, 0x33, 0x3E] {
        assert!(is_allowed_sid(sid), "{sid:02X}");
    }
    for sid in [0x23, 0x27, 0x2E, 0x34, 0x35, 0x36, 0x3D, 0x00, 0xFF] {
        assert!(!is_allowed_sid(sid), "{sid:02X}");
    }
}

#[test]
fn schema_defaults() {
    assert_eq!(default_tester_address(), 0xF1);
    assert_eq!(default_ident_skip(), 2);
    let i = Identification::default();
    assert_eq!(i.request, vec![0x1A, 0x80]);
    let d = DtcConfig::default();
    assert_eq!(d.read_request, vec![0x18, 0x02, 0xFF, 0x00]);
    assert_eq!(d.clear_request, vec![0x14, 0xFF, 0x00]);
}

#[test]
fn channel_raw_value_reads_big_endian_and_sign() {
    let ect = channel("ect", vec![0x21, 0x02], 1);
    assert_eq!(ect.raw_value(&[0x61, 0x02, 130]), Some(130));
    let rpm = channel("rpm", vec![0x21, 0x01], 2);
    assert_eq!(rpm.raw_value(&[0x61, 0x01, 0x2E, 0xE0]), Some(12000));
    assert_eq!(rpm.raw_value(&[0x61, 0x01, 0x2E]), None);
    let mut signed = channel("trim", vec![0x21, 0x07], 2);
    signed.signed = true;
    assert_eq!(signed.raw_value(&[0x61, 0x07, 0xFF, 0xFE]), Some(-2));
    assert_eq!(signed.raw_value(&[0x61, 0x07, 0x00, 0x05]), Some(5));
}

fn registry() -> Registry {
    let mut reg = Registry::new();
    let mut def = base_def("test-ecu");
    def.channels = vec![Channel {
        unit: "rpm".into(),
        name: "Engine speed".into(),
        ..channel("rpm", vec![0x21, 0x01], 2)
    }];
    let mut r = routine("co_trim", vec![0x31, 0x01]);
    r.risk = RiskLevel::High;
    def.routines = vec![r];
    reg.add(def).expect("test definition loads");
    reg
}

#[test]
fn registry_refuses_duplicates_and_invalid_definitions() {
    let mut reg = registry();
    assert_eq!(reg.len(), 1);
    assert!(!reg.is_empty());
    assert!(matches!(reg.add(base_def("test-ecu")), Err(DefsError::DuplicateId(id)) if id == "test-ecu"));
    let mut bad = base_def("bad");
    bad.routines = vec![routine("evil", vec![0x23])];
    match reg.add(bad) {
        Err(DefsError::Invalid { id, reason }) => {
            assert_eq!(id, "bad");
            assert!(reason.contains("0x23"));
        }
        other => panic!("unexpected {other:?}"),
    }
    reg.add(base_def("a-first")).unwrap();
    reg.add(base_def("z-last")).unwrap();
    let ids: Vec<&str> = reg.iter().iter().map(|d| d.ecu.id.as_str()).collect();
    assert_eq!(ids, vec!["a-first", "test-ecu", "z-last"]);
    assert_eq!(reg.get("test-ecu").unwrap().ecu.id, "test-ecu");
    assert!(reg.get("nope").is_none());
    assert_eq!(
        DefsError::DuplicateId("x".into()).message(),
        "duplicate ECU definition id: x"
    );
}

fn bike(model: &str, from: u16, to: Option<u16>, def: Option<&str>, gap: Option<&str>) -> CatalogBike {
    CatalogBike {
        brand: "MV Agusta".into(),
        model: model.into(),
        variants: vec![],
        year_from: from,
        year_to: to,
        definition_id: def.map(|s| s.to_string()),
        gap_note: gap.map(|s| s.to_string()),
    }
}

#[test]
fn catalog_parses_and_validates() {
    let mut b = bike("Brutale 910", 2005, Some(2008), Some("test-ecu"), None);
    b.variants = vec!["910R".into()];
    let catalog = BikeCatalog {
        bikes: vec![
            b,
            bike(
                "F4 750",
                1999,
                Some(2002),
                None,
                Some("Uses the Marelli 1.6M, which MotoDiag can't talk to yet."),
            ),
        ],
    };
    catalog.validate(&registry()).expect("validates");
    assert_eq!(catalog.bikes.len(), 2);
    assert!(catalog.bikes[1].definition_id.is_none());
}

#[test]
fn catalog_rejects_unknown_definition() {
    let catalog = BikeCatalog {
        bikes: vec![bike("Brutale 910", 2005, None, Some("nope"), None)],
    };
    let err = catalog.validate(&registry()).unwrap_err().message();
    assert!(err.contains("unknown definition_id"), "{err}");
    assert_eq!(err, "invalid definition MV Agusta Brutale 910: unknown definition_id \"nope\"");
}

#[test]
fn catalog_rejects_bike_with_neither_definition_nor_gap_note() {
    let catalog = BikeCatalog {
        bikes: vec![bike("Mystery", 2005, None, None, None)],
    };
    assert!(catalog.validate(&registry()).is_err());
}

#[test]
fn catalog_rejects_inverted_years() {
    let catalog = BikeCatalog {
        bikes: vec![bike("Brutale 910", 2008, Some(2005), Some("test-ecu"), None)],
    };
    let err = catalog.validate(&registry()).unwrap_err().message();
    assert!(err.contains("year_from"), "{err}");
    assert!(err.ends_with("year_from 2008 is after year_to 2005"), "{err}");
}

fn valid_guidance() -> ModGuidance {
    let open = ModRequires {
        exhaust: Some(vec![ExhaustMod::SlipOnOpen, ExhaustMod::FullSystem]),
        eprom: Some(vec![EpromMod::Stock]),
        air_filter: None,
    };
    ModGuidance {
        adjustments: vec![SpecAdjustment {
            definition_id: "test-ecu".into(),
            requires: open.clone(),
            channel_overrides: vec![ChannelOverride {
                channel: "rpm".into(),
                has_min: true,
                has_max: true,
                has_target: false,
                condition: "warm idle, open exhaust on stock EPROM — community reference, unverified".into(),
                note: Some("Open pipes on the stock map tend to idle slightly high.".into()),
                source: "mvagusta.net".into(),
                source_url: "https://www.mvagusta.net/threads/example.1/".into(),
            }],
        }],
        procedure_notes: vec![ProcedureNote {
            definition_id: "test-ecu".into(),
            routine: "co_trim".into(),
            requires: ModRequires {
                eprom: None,
                ..open.clone()
            },
            note: "With an open exhaust the stock CO target reads lean at the silencer.".into(),
            source: "mvagusta.net".into(),
            source_url: "https://www.mvagusta.net/threads/example.2/".into(),
        }],
        dtc_notes: vec![DtcNote {
            definition_id: "test-ecu".into(),
            code: 0x0171,
            requires: open,
            cause: "Lean mixture from an open exhaust on the stock EPROM map".into(),
            check: "Expected with open pipes on the stock map; a dedicated EPROM resolves it".into(),
            source: "mvagusta.net".into(),
            source_url: "https://www.mvagusta.net/threads/example.3/".into(),
        }],
    }
}

#[test]
fn guidance_parses_and_validates() {
    let guidance = valid_guidance();
    guidance.validate(&registry()).expect("validates");
    assert_eq!(guidance.adjustments.len(), 1);
    assert_eq!(guidance.procedure_notes.len(), 1);
    assert_eq!(guidance.dtc_notes.len(), 1);
}

#[test]
fn guidance_requires_sources_structurally() {
    let mut g = valid_guidance();
    g.adjustments[0].channel_overrides[0].source = "  ".into();
    let err = g.validate(&registry()).unwrap_err().message();
    assert!(err.contains("empty source"), "{err}");

    let mut g = valid_guidance();
    g.procedure_notes[0].source_url = "http://www.mvagusta.net/threads/example.2/".into();
    let err = g.validate(&registry()).unwrap_err().message();
    assert!(err.contains("https"), "{err}");
}

#[test]
fn guidance_rejects_unknown_channel_and_routine() {
    let mut g = valid_guidance();
    g.adjustments[0].channel_overrides[0].channel = "boost".into();
    let err = g.validate(&registry()).unwrap_err().message();
    assert!(err.contains("unknown channel"), "{err}");

    let mut g = valid_guidance();
    g.procedure_notes[0].routine = "map_write".into();
    let err = g.validate(&registry()).unwrap_err().message();
    assert!(err.contains("unknown routine"), "{err}");
}

#[test]
fn guidance_rejects_override_without_bounds_or_empty_condition() {
    let mut g = valid_guidance();
    g.adjustments[0].channel_overrides[0].has_min = false;
    g.adjustments[0].channel_overrides[0].has_max = false;
    assert!(g.validate(&registry()).is_err());

    let mut g = valid_guidance();
    g.adjustments[0].channel_overrides[0].condition = "  ".into();
    assert!(g.validate(&registry()).is_err());
}

#[test]
fn guidance_dtc_note_needs_cause_and_check() {
    let mut g = valid_guidance();
    g.dtc_notes[0].check = String::new();
    match g.validate(&registry()) {
        Err(DefsError::Invalid { id, reason }) => {
            assert_eq!(id, "test-ecu");
            assert_eq!(reason, "DTC note for code 0x0171 needs both a cause and a check");
        }
        other => panic!("unexpected {other:?}"),
    }
    let mut g = valid_guidance();
    g.dtc_notes[0].definition_id = "gone".into();
    match g.validate(&registry()) {
        Err(DefsError::Invalid { id, reason }) => {
            assert_eq!(id, "gone");
            assert_eq!(reason, "unknown definition_id \"gone\"");
        }
        other => panic!("unexpected {other:?}"),
    }
}

#[test]
fn source_rules() {
    assert!(validate_source("site", "https://x").is_ok());
    assert_eq!(
        validate_source(" ", "https://x").unwrap_err(),
        "empty source — every community claim needs a named source"
    );
    assert_eq!(
        validate_source("site", "ftp://x").unwrap_err(),
        "source_url \"ftp://x\" must be an https:// URL"
    );
}
