//! Connection troubleshooting: turn init failures into diagnoses.
//!
//! "I can't connect" is the most common failure owners report with K-line
//! tools. This module classifies where a connection attempt died (cable
//! missing, port busy, no bus echo, silent ECU, garbled response) and pairs
//! each cause with the concrete next step to take. It is a pure mapping
//! over the errors the transport and protocol layers produce; `NoEcho` is
//! kept apart from `Timeout` so wiring and ECU problems stay distinguishable.

use vstd::prelude::*;
use crate::error::{app_message, AppError};
use crate::kwp::KwpError;
use crate::schema::EcuDefinition;
use crate::framing::appended;
use crate::kwp_session::{request_done, KwpSession};
use crate::session::{
    codec_for, ident_bytes, identity_text, init_kwp_session, init_succeeded, printable, utf8_lossy,
    ConnectOptions,
};
use crate::timing::spec_with_overrides;
use crate::transport::{transport_message, KLineTransport, TransportError};

verus! {

/// Where a connection attempt failed, in bus-layer order.
#[derive(Debug, Clone, Copy, PartialEq, Eq)]
pub enum FailurePoint {
    /// The serial port could not be opened at all.
    PortOpen,
    /// Our own transmission never echoed back from the K-line.
    BusEcho,
    /// The wake-up + StartCommunication got no reply.
    EcuSilent,
    /// Something replied, but not intelligibly.
    GarbledResponse,
    /// The ECU replied with an explicit refusal.
    EcuRefused,
    /// Connected and identified successfully (no failure).
    Connected,
}

#[derive(Debug, Clone, PartialEq, Eq)]
pub struct Diagnosis {
    pub failure_point: FailurePoint,
    /// What happened, in plain language.
    pub finding: String,
    /// What the user should do about it.
    pub suggestion: String,
    /// The underlying error text, for bug reports and the curious.
    pub raw_error: Option<String>,
}

pub open spec fn transport_failure_point(e: TransportError) -> FailurePoint {
    match e {
        TransportError::NoEcho { .. } => FailurePoint::BusEcho,
        TransportError::EchoMismatch { .. } => FailurePoint::BusEcho,
        TransportError::Timeout => FailurePoint::EcuSilent,
        _ => FailurePoint::PortOpen,
    }
}

pub open spec fn transport_finding(e: TransportError) -> Seq<char> {
    match e {
        TransportError::NoEcho { .. } => "Bytes were transmitted but never echoed back from the K-line."@,
        TransportError::EchoMismatch { .. } => "The bus echo came back corrupted."@,
        TransportError::Timeout => "The wake-up went out on the bus, but the ECU never answered."@,
        TransportError::Io(m) => "Serial port I/O failed: "@ + m@,
        _ => "Transport error: "@ + transport_message(e),
    }
}

pub open spec fn transport_suggestion(e: TransportError) -> Seq<char> {
    match e {
        TransportError::NoEcho { .. } => "On a single-wire K-line your own transmission always loops back when \
            the wiring is right — no echo means the cable's K-line pin isn't \
            reaching the bus. Check: K-line wired to the correct connector pin \
            (OBD pin 7 on a KKL cable), connector seated, and that the cable is a \
            genuine FTDI KKL (CH340 clones often fail here)."@,
        TransportError::EchoMismatch { .. } => "Something else is driving the K-line or the baud rate is wrong. Make \
            sure no other device/tool is connected to the diagnostic bus, the \
            battery isn't sagging, and the definition's baud matches the ECU \
            (10400 for Marelli IAW)."@,
        TransportError::Timeout => "The cable and K-line wiring look fine (our bytes echoed back), so the \
            ECU end is the problem. Check: ignition ON, kill switch to RUN, the \
            connector's +12V pin actually live (some diagnostic connectors are \
            only powered with ignition on), and the ECU address / init method in \
            the definition (fast vs 5-baud slow init)."@,
        TransportError::Io(_) => "The port disappeared or refused access mid-session. Check the USB \
            cable is still plugged in, and that no other program grabbed the \
            port. On macOS, prefer the /dev/cu.* device over /dev/tty.*."@,
        _ => "Reconnect the interface and try again."@,
    }
}

pub open spec fn error_failure_point(e: AppError) -> FailurePoint {
    match e {
        AppError::Kwp(KwpError::Transport(t)) => transport_failure_point(t),
        AppError::Kwp(KwpError::BadChecksum { .. }) => FailurePoint::GarbledResponse,
        AppError::Kwp(KwpError::MalformedFrame(_)) => FailurePoint::GarbledResponse,
        AppError::Kwp(KwpError::UnexpectedService { .. }) => FailurePoint::GarbledResponse,
        AppError::Kwp(KwpError::NegativeResponse { .. }) => FailurePoint::EcuRefused,
        AppError::Kwp(KwpError::InitFailed(_)) => FailurePoint::GarbledResponse,
        _ => FailurePoint::PortOpen,
    }
}

/// Law: a transport failure is blamed on the bus echo exactly when our own
/// bytes did not come back intact (no echo, or a different one), and on a
/// silent ECU exactly when the wait for an answer timed out.
pub proof fn lemma_transport_blame(t: TransportError)
    ensures
        (error_failure_point(AppError::Kwp(KwpError::Transport(t))) == FailurePoint::BusEcho) <==> (t is NoEcho
            || t is EchoMismatch),
        (error_failure_point(AppError::Kwp(KwpError::Transport(t))) == FailurePoint::EcuSilent) <==> t is Timeout,
{
}

/// Law: where any error is blamed. An explicit refusal blames the ECU's
/// refusal; a reply that was garbled, malformed, for another service or a
/// failed handshake blames the response; a failure before anything reached
/// the bus (or of the port itself) blames opening the port; and no error
/// ever reads as a successful connection.
pub proof fn lemma_error_blame(e: AppError)
    ensures
        (error_failure_point(e) == FailurePoint::EcuRefused) <==> e matches AppError::Kwp(
            KwpError::NegativeResponse { .. },
        ),
        (error_failure_point(e) == FailurePoint::GarbledResponse) <==> (e matches AppError::Kwp(
            KwpError::BadChecksum { .. },
        ) || e matches AppError::Kwp(KwpError::MalformedFrame(_)) || e matches AppError::Kwp(
            KwpError::UnexpectedService { .. },
        ) || e matches AppError::Kwp(KwpError::InitFailed(_))),
        !(e is Kwp) ==> error_failure_point(e) == FailurePoint::PortOpen,
        e matches AppError::Kwp(KwpError::Transport(t)) && (t is Io || t is Closed || t is Unsupported)
            ==> error_failure_point(e) == FailurePoint::PortOpen,
        error_failure_point(e) != FailurePoint::Connected,
{
}

pub open spec fn garbled_suggestion() -> Seq<char> {
    "Usually a baud-rate or protocol mismatch. Check the definition's baud \
        (Marelli IAW is 10400) and that you selected the right ECU definition \
        for this bike. Electrical noise from a running engine can also corrupt \
        frames — try with the engine off, key on."@
}

pub open spec fn error_finding(e: AppError) -> Seq<char> {
    match e {
        AppError::Kwp(KwpError::Transport(t)) => transport_finding(t),
        AppError::Kwp(KwpError::BadChecksum { .. }) => "Something on the bus replied, but the response was garbled."@,
        AppError::Kwp(KwpError::MalformedFrame(_)) => "Something on the bus replied, but the response was garbled."@,
        AppError::Kwp(KwpError::UnexpectedService { .. }) => "Something on the bus replied, but the response was garbled."@,
        AppError::Kwp(KwpError::NegativeResponse { .. }) => "The ECU is alive and talking, but refused the request."@,
        AppError::Kwp(KwpError::InitFailed(detail)) => "The ECU answered the wake-up, but not as expected: "@
            + detail@,
        _ => "Connection failed before reaching the bus: "@ + app_message(e),
    }
}

pub open spec fn error_suggestion(e: AppError) -> Seq<char> {
    match e {
        AppError::Kwp(KwpError::Transport(t)) => transport_suggestion(t),
        AppError::Kwp(KwpError::BadChecksum { .. }) => garbled_suggestion(),
        AppError::Kwp(KwpError::MalformedFrame(_)) => garbled_suggestion(),
        AppError::Kwp(KwpError::UnexpectedService { .. }) => garbled_suggestion(),
        AppError::Kwp(KwpError::NegativeResponse { .. }) => "Good news: wiring and protocol are fine. The ECU rejected this \
            particular service — the definition may need a different diagnostic \
            session type or request bytes. Run motodiag-discover to map what this \
            ECU actually accepts."@,
        AppError::Kwp(KwpError::InitFailed(_)) => "The bus works but the init handshake didn't complete. Try the other \
            init method (fast vs 5-baud) in the definition, and double-check the \
            ECU address byte."@,
        _ => "Check that the selected port exists and no other program (another \
            diagnostic tool, a stale process) is holding it open."@,
    }
}

fn diagnose_transport(error: &TransportError, raw: Option<String>) -> (d: Diagnosis)
    ensures
        d.failure_point == transport_failure_point(*error),
        d.finding@ == transport_finding(*error),
        d.suggestion@ == transport_suggestion(*error),
        d.raw_error == raw,
{
    match error {
        TransportError::NoEcho { .. } => Diagnosis {
            failure_point: FailurePoint::BusEcho,
            finding: String::from_str("Bytes were transmitted but never echoed back from the K-line."),
            suggestion: String::from_str(
                "On a single-wire K-line your own transmission always loops back when \
                the wiring is right — no echo means the cable's K-line pin isn't \
                reaching the bus. Check: K-line wired to the correct connector pin \
                (OBD pin 7 on a KKL cable), connector seated, and that the cable is a \
                genuine FTDI KKL (CH340 clones often fail here).",
            ),
            raw_error: raw,
        },
        TransportError::EchoMismatch { .. } => Diagnosis {
            failure_point: FailurePoint::BusEcho,
            finding: String::from_str("The bus echo came back corrupted."),
            suggestion: String::from_str(
                "Something else is driving the K-line or the baud rate is wrong. Make \
                sure no other device/tool is connected to the diagnostic bus, the \
                battery isn't sagging, and the definition's baud matches the ECU \
                (10400 for Marelli IAW).",
            ),
            raw_error: raw,
        },
        TransportError::Timeout => Diagnosis {
            failure_point: FailurePoint::EcuSilent,
            finding: String::from_str("The wake-up went out on the bus, but the ECU never answered."),
            suggestion: String::from_str(
                "The cable and K-line wiring look fine (our bytes echoed back), so the \
                ECU end is the problem. Check: ignition ON, kill switch to RUN, the \
                connector's +12V pin actually live (some diagnostic connectors are \
                only powered with ignition on), and the ECU address / init method in \
                the definition (fast vs 5-baud slow init).",
            ),
            raw_error: raw,
        },
        TransportError::Io(m) => {
            let mut finding = String::from_str("Serial port I/O failed: ");
            finding.append(m.as_str());
            Diagnosis {
                failure_point: FailurePoint::PortOpen,
                finding,
                suggestion: String::from_str(
                    "The port disappeared or refused access mid-session. Check the USB \
                    cable is still plugged in, and that no other program grabbed the \
                    port. On macOS, prefer the /dev/cu.* device over /dev/tty.*.",
                ),
                raw_error: raw,
            }
        },
        TransportError::Closed | TransportError::Unsupported(_) => {
            let mut finding = String::from_str("Transport error: ");
            let text = error.message();
            finding.append(text.as_str());
            Diagnosis {
                failure_point: FailurePoint::PortOpen,
                finding,
                suggestion: String::from_str("Reconnect the interface and try again."),
                raw_error: raw,
            }
        },
    }
}

fn garbled(raw: Option<String>) -> (d: Diagnosis)
    ensures
        d.failure_point == FailurePoint::GarbledResponse,
        d.finding@ == "Something on the bus replied, but the response was garbled."@,
        d.suggestion@ == garbled_suggestion(),
        d.raw_error == raw,
{
    Diagnosis {
        failure_point: FailurePoint::GarbledResponse,
        finding: String::from_str("Something on the bus replied, but the response was garbled."),
        suggestion: String::from_str(
            "Usually a baud-rate or protocol mismatch. Check the definition's baud \
            (Marelli IAW is 10400) and that you selected the right ECU definition \
            for this bike. Electrical noise from a running engine can also corrupt \
            frames — try with the engine off, key on.",
        ),
        raw_error: raw,
    }
}

/// Map an error from the connect path to a plain-language diagnosis. The
/// error's own text always travels along as `raw_error`.
pub fn diagnose_error(error: &AppError) -> (d: Diagnosis)
    ensures
        d.failure_point == error_failure_point(*error),
        *error matches AppError::Kwp(KwpError::Transport(t)) ==> ((d.failure_point == FailurePoint::BusEcho)
            <==> (t is NoEcho || t is EchoMismatch)) && ((d.failure_point == FailurePoint::EcuSilent)
            <==> t is Timeout),
        d.finding@ == error_finding(*error),
        d.suggestion@ == error_suggestion(*error),
        d.raw_error matches Some(r) && r@ == app_message(*error),
{
    let raw = Some(error.message());
    match error {
        AppError::Kwp(KwpError::Transport(t)) => {
            proof {
                lemma_transport_blame(*t);
            }
            diagnose_transport(t, raw)
        },
        AppError::Kwp(KwpError::BadChecksum { .. }) => garbled(raw),
        AppError::Kwp(KwpError::MalformedFrame(_)) => garbled(raw),
        AppError::Kwp(KwpError::UnexpectedService { .. }) => garbled(raw),
        AppError::Kwp(KwpError::NegativeResponse { .. }) => Diagnosis {
            failure_point: FailurePoint::EcuRefused,
            finding: String::from_str("The ECU is alive and talking, but refused the request."),
            suggestion: String::from_str(
                "Good news: wiring and protocol are fine. The ECU rejected this \
                particular service — the definition may need a different diagnostic \
                session type or request bytes. Run motodiag-discover to map what this \
                ECU actually accepts.",
            ),
            raw_error: raw,
        },
        AppError::Kwp(KwpError::InitFailed(detail)) => {
            let mut finding = String::from_str("The ECU answered the wake-up, but not as expected: ");
            finding.append(detail.as_str());
            Diagnosis {
                failure_point: FailurePoint::GarbledResponse,
                finding,
                suggestion: String::from_str(
                    "The bus works but the init handshake didn't complete. Try the other \
                    init method (fast vs 5-baud) in the definition, and double-check the \
                    ECU address byte.",
                ),
                raw_error: raw,
            }
        },
        _ => {
            let mut finding = String::from_str("Connection failed before reaching the bus: ");
            let text = error.message();
            finding.append(text.as_str());
            Diagnosis {
                failure_point: FailurePoint::PortOpen,
                finding,
                suggestion: String::from_str(
                    "Check that the selected port exists and no other program (another \
                    diagnostic tool, a stale process) is holding it open.",
                ),
                raw_error: raw,
            }
        },
    }
}

/// `d` is the diagnosis of the error `e`.
pub open spec fn diagnosis_of(e: AppError, d: Diagnosis) -> bool {
    &&& d.failure_point == error_failure_point(e)
    &&& d.finding@ == error_finding(e)
    &&& d.suggestion@ == error_suggestion(e)
    &&& d.raw_error matches Some(r) && r@ == app_message(e)
}

/// The finding of a healthy connection, given the identification response.
pub open spec fn connected_finding(resp: Seq<u8>, skip: usize) -> Seq<char> {
    "Connected. ECU identifies as: "@ + printable(utf8_lossy(ident_bytes(resp, skip)))
}

/// Attempt a connection and diagnose the outcome. On success the diagnosis
/// is `Connected` and its finding carries the ECU identity; otherwise it is
/// the diagnosis of the error that stopped the attempt.
pub fn probe_connection<T: KLineTransport>(
    transport: T,
    def: &EcuDefinition,
    options: &ConnectOptions,
) -> (d: Diagnosis)
    requires
        def.identification.request@.len() <= 255,
    ensures
        def.init is None ==> diagnosis_of(AppError::NotKLine(def.ecu.id), d),
        d.failure_point == FailurePoint::Connected ==> {
            &&& d.raw_error is None
            &&& d.suggestion@ == "Nothing to fix — you're talking to the ECU."@
            &&& def.init matches Some(init) && exists|
                k0: KwpSession<T>,
                k1: KwpSession<T>,
                kr: Result<Vec<u8>, KwpError>,
            |
                #[trigger] request_done(k0, k1, def.identification.request@, kr)
                    && k0.spec_codec() == codec_for(init)
                    && k0.spec_timing() == spec_with_overrides(def.timing)
                    && init_succeeded(
                    init,
                    appended(transport.received(), k0.spec_transport().received()),
                    appended(transport.sent(), k0.spec_transport().sent()),
                ) && (kr matches Ok(resp) && d.finding@ == connected_finding(
                    resp@,
                    def.identification.skip_bytes,
                ))
        },
        d.failure_point != FailurePoint::Connected ==> exists|e: AppError| #[trigger]
            diagnosis_of(e, d),
{
    let mut kwp = match init_kwp_session(transport, def, options) {
        Ok(k) => k,
        Err(e) => {
            let d = diagnose_error(&e);
            assert(diagnosis_of(e, d));
            return d;
        },
    };
    let ghost k0 = kwp;
    let res = kwp.request(def.identification.request.as_slice());
    let ghost kr = res;
    match res {
        Ok(response) => {
            let skip = if def.identification.skip_bytes <= response.len() {
                def.identification.skip_bytes
            } else {
                response.len()
            };
            let mut raw: Vec<u8> = Vec::new();
            let mut i: usize = skip;
            while i < response.len()
                invariant
                    skip <= i <= response@.len(),
                    raw@ =~= response@.subrange(skip as int, i as int),
                decreases response@.len() - i,
            {
                raw.push(response[i]);
                i = i + 1;
            }
            assert(raw@ =~= ident_bytes(response@, def.identification.skip_bytes));
            let text = identity_text(raw.as_slice());
            let mut finding = String::from_str("Connected. ECU identifies as: ");
            finding.append(text.as_str());
            let d = Diagnosis {
                failure_point: FailurePoint::Connected,
                finding,
                suggestion: String::from_str("Nothing to fix — you're talking to the ECU."),
                raw_error: None,
            };
            proof {
                let init = def.init->Some_0;
                assert(request_done(k0, kwp, def.identification.request@, kr)
                    && k0.spec_codec() == codec_for(init)
                    && (kr matches Ok(resp) && d.finding@ == connected_finding(
                    resp@,
                    def.identification.skip_bytes,
                )));
            }
            d
        },
        Err(e) => {
            let err = AppError::Kwp(e);
            let d = diagnose_error(&err);
            assert(diagnosis_of(err, d));
            d
        },
    }
}

} // verus!
