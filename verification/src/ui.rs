//! What the desktop UI is handed: connection, routine and access-guide
//! summaries, and the staged connection troubleshooter's steps.

use vstd::prelude::*;
use crate::schema::{zone_name, AccessGuide};
use crate::serial::{PortDetails, FTDI_VID};
use crate::text::{decimal, hex_min, push_decimal, push_hex_min, str_eq};
use crate::troubleshoot::{Diagnosis, FailurePoint};

verus! {

#[derive(Debug, Clone, PartialEq, Eq)]
pub struct RoutineInfo {
    pub key: String,
    pub name: String,
    pub description: String,
    /// Full step-by-step procedure; empty when only `description` exists.
    pub procedure: Vec<String>,
    pub risk: String,
    pub verified: bool,
    pub preconditions: Vec<String>,
    /// What to have ready before running.
    pub tools: Vec<String>,
}

/// A "how do I get to it?" guide; `zone` is the name the UI's diagram keys on.
#[derive(Debug, Clone, PartialEq, Eq)]
pub struct AccessGuideInfo {
    pub zone: String,
    pub summary: String,
    pub steps: Vec<String>,
    pub tools: Vec<String>,
    pub verify_note: Option<String>,
    pub source: Option<String>,
    pub source_url: Option<String>,
}

#[derive(Debug, Clone, PartialEq, Eq)]
pub struct ConnectionInfo {
    pub definition_id: String,
    pub definition_name: String,
    pub identity_text: String,
    pub service_mode: bool,
    pub csv_log_path: Option<String>,
    pub simulated: bool,
}

#[derive(Debug, Clone, PartialEq, Eq)]
pub struct WireTraceInfo {
    pub path: String,
    pub event_count: usize,
}

#[derive(Debug, Clone, PartialEq, Eq)]
pub struct VacuumInfo {
    pub port: String,
    pub channels: usize,
    pub simulated: bool,
}

fn copy_strings(v: &Vec<String>) -> (r: Vec<String>)
    ensures
        r@ == v@,
{
    let mut r: Vec<String> = Vec::new();
    let mut i: usize = 0;
    while i < v.len()
        invariant
            i <= v@.len(),
            r@ =~= v@.take(i as int),
        decreases v@.len() - i,
    {
        r.push(v[i].clone());
        i = i + 1;
        assert(r@ =~= v@.take(i as int));
    }
    assert(v@.take(v@.len() as int) =~= v@);
    r
}

fn copy_opt(o: &Option<String>) -> (r: Option<String>)
    ensures
        r == *o,
{
    match o {
        Some(s) => Some(s.clone()),
        None => None,
    }
}

/// The UI form of an access guide.
pub fn access_guide_info(g: &AccessGuide) -> (i: AccessGuideInfo)
    ensures
        i.zone@ == zone_name(g.zone),
        i.summary == g.summary,
        i.steps@ == g.steps@,
        i.tools@ == g.tools@,
        i.verify_note == g.verify_note,
        i.source == g.source,
        i.source_url == g.source_url,
{
    AccessGuideInfo {
        zone: String::from_str(g.zone.as_str()),
        summary: g.summary.clone(),
        steps: copy_strings(&g.steps),
        tools: copy_strings(&g.tools),
        verify_note: copy_opt(&g.verify_note),
        source: copy_opt(&g.source),
        source_url: copy_opt(&g.source_url),
    }
}

/// One stage of the connection troubleshooter.
#[derive(Debug, Clone, PartialEq, Eq)]
pub struct TroubleshootStep {
    pub name: String,
    /// "passed" | "failed" | "skipped"
    pub status: String,
    pub detail: String,
    pub suggestion: Option<String>,
}

impl TroubleshootStep {
    pub fn passed(name: &str, detail: String) -> (s: Self)
        ensures
            s.name@ == name@,
            s.status@ == "passed"@,
            s.detail == detail,
            s.suggestion is None,
    {
        TroubleshootStep {
            name: String::from_str(name),
            status: String::from_str("passed"),
            detail,
            suggestion: None,
        }
    }

    pub fn failed(name: &str, detail: String, suggestion: String) -> (s: Self)
        ensures
            s.name@ == name@,
            s.status@ == "failed"@,
            s.detail == detail,
            s.suggestion == Some(suggestion),
    {
        TroubleshootStep {
            name: String::from_str(name),
            status: String::from_str("failed"),
            detail,
            suggestion: Some(suggestion),
        }
    }

    pub fn skipped(name: &str, detail: String) -> (s: Self)
        ensures
            s.name@ == name@,
            s.status@ == "skipped"@,
            s.detail == detail,
            s.suggestion is None,
    {
        TroubleshootStep {
            name: String::from_str(name),
            status: String::from_str("skipped"),
            detail,
            suggestion: None,
        }
    }
}

/// The port called `name` among the detected ones, if any.
pub open spec fn port_index_from(ports: Seq<PortDetails>, name: Seq<char>, i: int) -> Option<int>
    decreases ports.len() - i,
{
    if i < 0 || i >= ports.len() {
        None
    } else if ports[i].name@ == name {
        Some(i)
    } else {
        port_index_from(ports, name, i + 1)
    }
}

/// `{:04X}` of a vendor ID, or "not USB".
pub open spec fn vendor_text(d: PortDetails) -> Seq<char> {
    match d.usb {
        Some(u) => hex_min(u.vid as nat, 4),
        None => "not USB"@,
    }
}

pub open spec fn product_text(d: PortDetails, fallback: Seq<char>) -> Seq<char> {
    match d.usb {
        Some(u) => match u.product {
            Some(p) => p@,
            None => fallback,
        },
        None => fallback,
    }
}

/// Ports joined by ", ".
pub open spec fn joined_names(ports: Seq<PortDetails>) -> Seq<char>
    decreases ports.len(),
{
    if ports.len() == 0 {
        Seq::empty()
    } else if ports.len() == 1 {
        ports[0].name@
    } else {
        joined_names(ports.drop_last()) + ", "@ + ports.last().name@
    }
}

/// The cable stage as the troubleshooter reports it.
pub open spec fn cable_outcome(port: Seq<char>, simulated: bool, ports: Seq<PortDetails>, steps: Seq<
    TroubleshootStep,
>, go_on: bool) -> bool {
    if simulated {
        &&& go_on
        &&& steps.len() == 1
        &&& steps[0].name@ == "Interface cable"@
        &&& steps[0].status@ == "passed"@
        &&& steps[0].detail@ == "Using the built-in simulator — no cable involved."@
        &&& steps[0].suggestion is None
    } else {
        match port_index_from(ports, port, 0) {
            Some(k) => {
                let d = ports[k];
                &&& go_on
                &&& steps.len() == 1
                &&& steps[0].name@ == "Interface cable"@
                &&& steps[0].status@ == "passed"@
                &&& if d.usb matches Some(u) && u.vid == FTDI_VID {
                    &&& steps[0].detail@ == port + " is an FTDI device ("@ + product_text(
                        d,
                        "unnamed"@,
                    ) + ") — the right chip family for K-line."@
                    &&& steps[0].suggestion is None
                } else {
                    &&& steps[0].detail@ == port + " found ("@ + product_text(d, ""@)
                        + ", vendor "@ + vendor_text(d) + ")."@
                    &&& steps[0].suggestion matches Some(m) && m@ == "This is not an FTDI device (vendor "@
                        + vendor_text(d) + ", FTDI is 0403). CH340-class clones often fail at K-line init timing — if the handshake step below fails, a genuine FTDI KKL cable is the first thing to try."@
                }
            },
            None => {
                &&& !go_on
                &&& steps.len() == 3
                &&& steps[0].name@ == "Interface cable"@
                &&& steps[0].status@ == "failed"@
                &&& steps[0].detail@ == port + " is not present on this system."@
                &&& steps[0].suggestion matches Some(m) && m@ == (if ports.len() == 0 {
                    "No serial ports found at all. Plug the cable in, then hit Refresh. On macOS an FTDI cable should appear as /dev/cu.usbserial-XXXX with no driver install needed."@
                } else {
                    "Available ports: "@ + joined_names(ports)
                        + ". Pick one of those, or re-plug the cable."@
                })
                &&& steps[1].status@ == "skipped"@ && steps[1].name@ == "Open serial port"@
                &&& steps[2].status@ == "skipped"@ && steps[2].name@ == "Bus & ECU handshake"@
            },
        }
    }
}

fn find_port(ports: &Vec<PortDetails>, port: &str) -> (r: Option<usize>)
    ensures
        r matches Some(k) ==> port_index_from(ports@, port@, 0) == Some(k as int) && k < ports@.len(),
        r is None ==> port_index_from(ports@, port@, 0) is None,
{
    let mut i: usize = 0;
    while i < ports.len()
        invariant
            i <= ports@.len(),
            port_index_from(ports@, port@, 0) == port_index_from(ports@, port@, i as int),
        decreases ports@.len() - i,
    {
        if str_eq(ports[i].name.as_str(), port) {
            return Some(i);
        }
        i = i + 1;
    }
    None
}

fn push_product(s: &mut String, d: &PortDetails, fallback: &str)
    ensures
        final(s)@ == old(s)@ + product_text(*d, fallback@),
{
    match &d.usb {
        Some(u) => match &u.product {
            Some(p) => s.append(p.as_str()),
            None => s.append(fallback),
        },
        None => s.append(fallback),
    }
}

fn push_vendor(s: &mut String, d: &PortDetails)
    ensures
        final(s)@ == old(s)@ + vendor_text(*d),
{
    match &d.usb {
        Some(u) => push_hex_min(s, u.vid as u64, 4),
        None => s.append("not USB"),
    }
}

/// The cable stage: the simulator needs none; a real port must be present,
/// and an FTDI one is the right chip family. The flag says whether the
/// later stages can run.
pub fn cable_step(port: &str, simulated: bool, ports: &Vec<PortDetails>) -> (r: (
    Vec<TroubleshootStep>,
    bool,
))
    ensures
        cable_outcome(port@, simulated, ports@, r.0@, r.1),
{
    let mut steps: Vec<TroubleshootStep> = Vec::new();
    if simulated {
        steps.push(
            TroubleshootStep::passed(
                "Interface cable",
                String::from_str("Using the built-in simulator — no cable involved."),
            ),
        );
        return (steps, true);
    }
    match find_port(ports, port) {
        Some(k) => {
            let d = &ports[k];
            if d.is_ftdi() {
                let mut detail = String::from_str(port);
                detail.append(" is an FTDI device (");
                push_product(&mut detail, d, "unnamed");
                detail.append(") — the right chip family for K-line.");
                steps.push(TroubleshootStep::passed("Interface cable", detail));
            } else {
                let mut detail = String::from_str(port);
                detail.append(" found (");
                push_product(&mut detail, d, "");
                detail.append(", vendor ");
                push_vendor(&mut detail, d);
                detail.append(").");
                let mut suggestion = String::from_str("This is not an FTDI device (vendor ");
                push_vendor(&mut suggestion, d);
                suggestion.append(
                    ", FTDI is 0403). CH340-class clones often fail at K-line init timing — if the handshake step below fails, a genuine FTDI KKL cable is the first thing to try.",
                );
                steps.push(
                    TroubleshootStep {
                        name: String::from_str("Interface cable"),
                        status: String::from_str("passed"),
                        detail,
                        suggestion: Some(suggestion),
                    },
                );
            }
            (steps, true)
        },
        None => {
            let mut detail = String::from_str(port);
            detail.append(" is not present on this system.");
            let suggestion = if ports.len() == 0 {
                String::from_str(
                    "No serial ports found at all. Plug the cable in, then hit Refresh. On macOS an FTDI cable should appear as /dev/cu.usbserial-XXXX with no driver install needed.",
                )
            } else {
                let mut m = String::from_str("Available ports: ");
                let mut i: usize = 0;
                while i < ports.len()
                    invariant
                        i <= ports@.len(),
                        m@ == "Available ports: "@ + joined_names(ports@.take(i as int)),
                    decreases ports@.len() - i,
                {
                    proof {
                        assert(ports@.take(i + 1).drop_last() =~= ports@.take(i as int));
                    }
                    if i > 0 {
                        m.append(", ");
                    }
                    m.append(ports[i].name.as_str());
                    i = i + 1;
                    assert(m@ =~= "Available ports: "@ + joined_names(ports@.take(i as int)));
                }
                assert(ports@.take(i as int) =~= ports@);
                m.append(". Pick one of those, or re-plug the cable.");
                m
            };
            steps.push(TroubleshootStep::failed("Interface cable", detail, suggestion));
            steps.push(
                TroubleshootStep::skipped("Open serial port", String::from_str("No cable to open.")),
            );
            steps.push(
                TroubleshootStep::skipped(
                    "Bus & ECU handshake",
                    String::from_str("No cable to test."),
                ),
            );
            (steps, false)
        },
    }
}

/// The port stage as the troubleshooter reports it: one passed "Open
/// serial port" step, or a failed one with a suggestion followed by the
/// skipped handshake.
pub open spec fn port_outcome(port: Seq<char>, baud: u32, simulated: bool, opened: Result<(), String>, steps: Seq<
    TroubleshootStep,
>, go_on: bool) -> bool {
    if simulated || opened is Ok {
        &&& go_on
        &&& steps.len() == 1
        &&& steps[0].name@ == "Open serial port"@
        &&& steps[0].status@ == "passed"@
        &&& steps[0].suggestion is None
        &&& steps[0].detail@ == if simulated {
            "Simulator link created."@
        } else {
            port + " opened at "@ + decimal(baud as nat) + " baud."@
        }
    } else {
        &&& !go_on
        &&& steps.len() == 2
        &&& steps[0].name@ == "Open serial port"@
        &&& steps[0].status@ == "failed"@
        &&& steps[0].detail@ == "Could not open "@ + port + ": "@ + opened->Err_0@
        &&& steps[0].suggestion matches Some(m) && m@
            == "Another program may be holding the port (a previous session, a different diagnostic tool). Close other tools, unplug/replug the cable, and try again."@
        &&& steps[1].name@ == "Bus & ECU handshake"@
        &&& steps[1].status@ == "skipped"@
        &&& steps[1].detail@ == "Port could not be opened."@
    }
}

/// The port stage, given whether opening the port worked (and its error
/// text if not). The flag says whether the handshake stage can run.
pub fn open_port_step(port: &str, baud: u32, simulated: bool, opened: &Result<(), String>) -> (r: (
    Vec<TroubleshootStep>,
    bool,
))
    ensures
        port_outcome(port@, baud, simulated, *opened, r.0@, r.1),
{
    let mut steps: Vec<TroubleshootStep> = Vec::new();
    if simulated {
        steps.push(
            TroubleshootStep::passed("Open serial port", String::from_str("Simulator link created.")),
        );
        return (steps, true);
    }
    match opened {
        Ok(()) => {
            let mut detail = String::from_str(port);
            detail.append(" opened at ");
            push_decimal(&mut detail, baud as u64);
            detail.append(" baud.");
            steps.push(TroubleshootStep::passed("Open serial port", detail));
            (steps, true)
        },
        Err(e) => {
            let mut detail = String::from_str("Could not open ");
            detail.append(port);
            detail.append(": ");
            detail.append(e.as_str());
            steps.push(
                TroubleshootStep::failed(
                    "Open serial port",
                    detail,
                    String::from_str(
                        "Another program may be holding the port (a previous session, a different diagnostic tool). Close other tools, unplug/replug the cable, and try again.",
                    ),
                ),
            );
            steps.push(
                TroubleshootStep::skipped(
                    "Bus & ECU handshake",
                    String::from_str("Port could not be opened."),
                ),
            );
            (steps, false)
        },
    }
}

/// The handshake stage as the troubleshooter reports it: passed when the
/// probe connected, failed with the diagnosis' suggestion otherwise.
pub open spec fn handshake_outcome(d: Diagnosis, s: TroubleshootStep) -> bool {
    &&& s.name@ == "Bus & ECU handshake"@
    &&& s.detail == d.finding
    &&& d.failure_point == FailurePoint::Connected ==> s.status@ == "passed"@ && s.suggestion is None
    &&& d.failure_point != FailurePoint::Connected ==> s.status@ == "failed"@ && s.suggestion
        == Some(d.suggestion)
}

/// The handshake stage from the connection probe's diagnosis.
pub fn handshake_step(d: Diagnosis) -> (s: TroubleshootStep)
    ensures
        handshake_outcome(d, s),
{
    match d.failure_point {
        FailurePoint::Connected => TroubleshootStep::passed("Bus & ECU handshake", d.finding),
        _ => TroubleshootStep::failed("Bus & ECU handshake", d.finding, d.suggestion),
    }
}

/// The report of a troubleshooting run: the cable stage, then the port
/// stage when the cable stage let it run, then the handshake when the port
/// stage did.
pub open spec fn report_steps(
    cable: Seq<TroubleshootStep>,
    cable_go_on: bool,
    port: Option<(Seq<TroubleshootStep>, bool)>,
    handshake: Option<TroubleshootStep>,
) -> Seq<TroubleshootStep> {
    if !cable_go_on {
        cable
    } else {
        match port {
            None => cable,
            Some((p, port_go_on)) => cable + p + if port_go_on {
                match handshake {
                    Some(h) => seq![h],
                    None => Seq::empty(),
                }
            } else {
                Seq::empty()
            },
        }
    }
}

/// Put a troubleshooting run's stages together into its report; a stage
/// the one before it did not let run is left out.
pub fn troubleshoot_report(
    cable: (Vec<TroubleshootStep>, bool),
    port: Option<(Vec<TroubleshootStep>, bool)>,
    handshake: Option<TroubleshootStep>,
) -> (steps: Vec<TroubleshootStep>)
    ensures
        steps@ == report_steps(
            cable.0@,
            cable.1,
            match port {
                Some((p, g)) => Some((p@, g)),
                None => None,
            },
            handshake,
        ),
{
    let (mut steps, cable_go_on) = cable;
    if !cable_go_on {
        return steps;
    }
    match port {
        None => steps,
        Some((mut p, port_go_on)) => {
            let ghost before = steps@;
            let ghost pv = p@;
            steps.append(&mut p);
            assert(steps@ =~= before + pv);
            if port_go_on {
                match handshake {
                    Some(h) => {
                        steps.push(h);
                    },
                    None => {},
                }
            }
            proof {
                if port_go_on && handshake is Some {
                    assert(steps@ =~= before + pv + seq![handshake->Some_0]);
                } else {
                    assert(steps@ =~= before + pv + Seq::<TroubleshootStep>::empty());
                }
            }
            steps
        },
    }
}

/// A stage's status is one of the three the troubleshooter reports.
pub open spec fn known_status(st: TroubleshootStep) -> bool {
    st.status@ == "passed"@ || st.status@ == "failed"@ || st.status@ == "skipped"@
}

/// Law: a troubleshooting run whose stages come from `cable_step`,
/// `open_port_step` and `handshake_step` reports exactly three steps, named
/// "Interface cable", "Open serial port" and "Bus & ECU handshake" in that
/// order, each passed, failed or skipped; a failed step carries a
/// suggestion, and every step after a failed or skipped one is skipped.
pub proof fn lemma_report_shape(
    port: Seq<char>,
    simulated: bool,
    ports: Seq<PortDetails>,
    cable: Seq<TroubleshootStep>,
    cable_go_on: bool,
    baud: u32,
    opened: Result<(), String>,
    port_steps: Seq<TroubleshootStep>,
    port_go_on: bool,
    d: Diagnosis,
    h: TroubleshootStep,
)
    requires
        cable_outcome(port, simulated, ports, cable, cable_go_on),
        port_outcome(port, baud, simulated, opened, port_steps, port_go_on),
        handshake_outcome(d, h),
    ensures
        ({
            let steps = report_steps(cable, cable_go_on, Some((port_steps, port_go_on)), Some(h));
            &&& steps.len() == 3
            &&& steps[0].name@ == "Interface cable"@
            &&& steps[1].name@ == "Open serial port"@
            &&& steps[2].name@ == "Bus & ECU handshake"@
            &&& forall|i: int| 0 <= i < 3 ==> known_status(#[trigger] steps[i])
            &&& forall|i: int| 0 <= i < 3 && steps[i].status@ == "failed"@ ==> (#[trigger] steps[i]).suggestion is Some
            &&& forall|i: int, j: int|
                0 <= i < j < 3 && ((#[trigger] steps[i]).status@ == "failed"@ || steps[i].status@ == "skipped"@)
                    ==> (#[trigger] steps[j]).status@ == "skipped"@
        }),
{
    reveal_strlit("passed");
    reveal_strlit("failed");
    reveal_strlit("skipped");
    assert("passed"@[0] != "failed"@[0] && "passed"@[0] != "skipped"@[0] && "failed"@[0] != "skipped"@[0]);
    let steps = report_steps(cable, cable_go_on, Some((port_steps, port_go_on)), Some(h));
    if cable_go_on {
        assert(cable.len() == 1 && cable[0].status@ == "passed"@);
        if port_go_on {
            assert(steps =~= cable + port_steps + seq![h]);
            assert(steps[0] == cable[0] && steps[1] == port_steps[0] && steps[2] == h);
        } else {
            assert(steps =~= cable + port_steps + Seq::<TroubleshootStep>::empty());
            assert(steps[0] == cable[0] && steps[1] == port_steps[0] && steps[2] == port_steps[1]);
        }
    }
}

} // verus!
