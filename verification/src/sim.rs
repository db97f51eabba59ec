//! A simulated Magneti Marelli-style KWP2000 ECU: request payload in,
//! optional response payload out. Wire adapters run it behind the ECU end
//! of a mock link.
//!
//! The engine state is kept as the raw sensor values the ECU reports, in the
//! scalings of the Brutale 910 definition (rpm in 1/4 rpm, throttle in
//! 0.0015259 %, temperatures in °C + 40, battery in 1/16 V, MAP in mbar).

use crate::services::{
    positive_response, spec_positive_response, CLEAR_DIAGNOSTIC_INFORMATION, INPUT_OUTPUT_CONTROL_BY_LOCAL_ID,
    NEGATIVE_RESPONSE, READ_DATA_BY_LOCAL_ID, READ_DTC_BY_STATUS, READ_ECU_IDENTIFICATION,
    START_COMMUNICATION, START_DIAGNOSTIC_SESSION, START_ROUTINE_BY_LOCAL_ID, TESTER_PRESENT,
};
use crate::framing::{parse_buffer, spec_encode, spec_parse, FrameCodec, ParseStatus, SpecParse};
use crate::mock::{EcuLink, LineEvent};
use crate::transport::{KLineTransport, TransportError};
use std::collections::VecDeque;
use vstd::prelude::*;
use vstd::utf8::encode_utf8;

verus! {

/// What the simulated ECU pretends to be.
#[derive(Debug)]
pub struct SimConfig {
    pub ecu_address: u8,
    pub tester_address: u8,
    /// Identification string returned for ReadEcuIdentification.
    pub ident: String,
    /// Key bytes announced in the StartCommunication response.
    pub key_bytes: (u8, u8),
    /// Stored fault codes (code, status).
    pub dtcs: Vec<(u16, u8)>,
    /// Require a wake-up (break or fresh StartCommunication) before serving
    /// other requests, like a real ECU would.
    pub require_init: bool,
    /// Simulated engine state: idling (~1250 rpm) or off (0 rpm).
    pub engine_running: bool,
    /// Simulated battery voltage, in 1/16 V.
    pub battery_raw: u8,
}

/// 12.8 V in 1/16 V.
pub const DEFAULT_BATTERY_RAW: u8 = 204;

impl Default for SimConfig {
    fn default() -> (c: Self)
        ensures
            c.ecu_address == 0x10,
            c.tester_address == 0xF1,
            c.ident@ == "IAW 5SM SIM v0.1"@,
            c.key_bytes == (0xEAu8, 0x8Fu8),
            c.dtcs@ == seq![(0x0115u16, 0x60u8), (0x0120u16, 0x20u8)],
            c.require_init,
            c.engine_running,
            c.battery_raw == DEFAULT_BATTERY_RAW,
    {
        SimConfig {
            ecu_address: 0x10,
            tester_address: 0xF1,
            ident: String::from_str("IAW 5SM SIM v0.1"),
            key_bytes: (0xEA, 0x8F),
            dtcs: vec![(0x0115, 0x60), (0x0120, 0x20)],
            require_init: true,
            engine_running: true,
            battery_raw: DEFAULT_BATTERY_RAW,
        }
    }
}

/// Idle rpm, in 1/4 rpm.
pub const IDLE_RPM_RAW: u16 = 5000;
/// 2 % throttle in 0.0015259 % steps.
pub const IDLE_TPS_RAW: u16 = 1310;
/// 84 °C coolant, offset by 40.
pub const IDLE_COOLANT_RAW: u8 = 124;
/// 27 °C intake air, offset by 40.
pub const IDLE_INTAKE_RAW: u8 = 67;
/// 1005 mbar manifold pressure.
pub const IDLE_MAP_RAW: u16 = 1005;

pub struct Simulator {
    config: SimConfig,
    initialized: bool,
    dtcs: Vec<(u16, u8)>,
    /// Routine/actuator requests served so far (for test assertions).
    pub routine_log: Vec<Vec<u8>>,
    rpm_raw: u16,
    tps_raw: u16,
    coolant_raw: u8,
    intake_raw: u8,
    battery_raw: u8,
    map_raw: u16,
}

/// The rpm after one step of idle wander: a 37 rpm step, wrapping in the
/// 300 rpm band above 1150 rpm (all in 1/4 rpm). The remainder keeps the
/// sign of its dividend, so a speed below the band climbs back into it.
pub open spec fn wandered_rpm(rpm_raw: u16) -> u16 {
    if rpm_raw >= 4452 {
        (4600 + (rpm_raw - 4452) % 1200) as u16
    } else {
        (4600 - (4452 - rpm_raw) % 1200) as u16
    }
}

/// The bytes of a stored-code list: code high, code low, status for each.
pub open spec fn dtc_list_bytes(dtcs: Seq<(u16, u8)>) -> Seq<u8>
    decreases dtcs.len(),
{
    if dtcs.len() == 0 {
        Seq::empty()
    } else {
        dtc_list_bytes(dtcs.drop_last()) + seq![
            (dtcs.last().0 >> 8u16) as u8,
            dtcs.last().0 as u8,
            dtcs.last().1,
        ]
    }
}

/// Big-endian bytes of a 16-bit value.
pub open spec fn be16(v: u16) -> Seq<u8> {
    seq![(v >> 8u16) as u8, v as u8]
}

fn copy_pairs(v: &Vec<(u16, u8)>) -> (out: Vec<(u16, u8)>)
    ensures
        out@ == v@,
{
    let mut out: Vec<(u16, u8)> = Vec::new();
    let mut i: usize = 0;
    while i < v.len()
        invariant
            i <= v@.len(),
            out@ =~= v@.take(i as int),
        decreases v@.len() - i,
    {
        out.push(v[i]);
        i = i + 1;
    }
    assert(v@.take(v@.len() as int) =~= v@);
    out
}

/// Append `src[start..]` to `out`.
fn append_from(out: &mut Vec<u8>, src: &[u8], start: usize)
    requires
        start <= src@.len(),
    ensures
        final(out)@ == old(out)@ + src@.subrange(start as int, src@.len() as int),
{
    let mut i: usize = start;
    while i < src.len()
        invariant
            start <= i <= src@.len(),
            out@ =~= old(out)@ + src@.subrange(start as int, i as int),
        decreases src@.len() - i,
    {
        out.push(src[i]);
        i = i + 1;
    }
}

impl Simulator {
    pub closed spec fn spec_config(&self) -> SimConfig {
        self.config
    }

    pub closed spec fn spec_initialized(&self) -> bool {
        self.initialized
    }

    pub closed spec fn spec_dtcs(&self) -> Seq<(u16, u8)> {
        self.dtcs@
    }

    pub closed spec fn spec_rpm_raw(&self) -> u16 {
        self.rpm_raw
    }

    pub closed spec fn spec_routine_log(&self) -> Seq<Seq<u8>> {
        self.routine_log@.map_values(|v: Vec<u8>| v@)
    }

    /// The engine rpm after the next live-data read: a running engine
    /// wanders around idle, a stopped one stays put.
    pub open spec fn next_rpm_raw(&self) -> u16 {
        if self.spec_config().engine_running {
            wandered_rpm(self.spec_rpm_raw())
        } else {
            self.spec_rpm_raw()
        }
    }

    /// The request is past the wake-up gate: it is not StartCommunication,
    /// and the ECU either needs no init or has had one.
    pub open spec fn serves(&self, p: Seq<u8>) -> bool {
        &&& p.len() > 0
        &&& p[0] != START_COMMUNICATION
        &&& !(self.spec_config().require_init && !self.spec_initialized())
    }

    /// Requests the simulator cannot answer without failing: a bare
    /// StartDiagnosticSession with no session type, once it is serving.
    pub open spec fn chokes_on(&self, p: Seq<u8>) -> bool {
        self.serves(p) && p =~= seq![START_DIAGNOSTIC_SESSION]
    }

    /// The answer to request payload `p`; `None` means the ECU stays silent.
    pub open spec fn answer(&self, p: Seq<u8>) -> Option<Seq<u8>> {
        let cfg = self.spec_config();
        if p.len() == 0 {
            None
        } else if p[0] == START_COMMUNICATION {
            Some(seq![spec_positive_response(START_COMMUNICATION), cfg.key_bytes.0, cfg.key_bytes.1])
        } else if !self.serves(p) {
            None
        } else if p.len() == 1 && p[0] == TESTER_PRESENT {
            Some(seq![spec_positive_response(TESTER_PRESENT)])
        } else if p[0] == READ_ECU_IDENTIFICATION && p.len() >= 2 {
            Some(seq![spec_positive_response(READ_ECU_IDENTIFICATION), p[1]] + encode_utf8(cfg.ident@))
        } else if p[0] == READ_DTC_BY_STATUS {
            Some(seq![spec_positive_response(READ_DTC_BY_STATUS), self.spec_dtcs().len() as u8]
                + dtc_list_bytes(self.spec_dtcs()))
        } else if p[0] == CLEAR_DIAGNOSTIC_INFORMATION {
            Some(seq![spec_positive_response(CLEAR_DIAGNOSTIC_INFORMATION)] + p.subrange(1, p.len() as int))
        } else if p[0] == READ_DATA_BY_LOCAL_ID && p.len() == 2 {
            match self.spec_live_bytes(self.next_rpm_raw(), p[1]) {
                Some(d) => Some(seq![spec_positive_response(READ_DATA_BY_LOCAL_ID), p[1]] + d),
                None => None,
            }
        } else if p[0] == START_ROUTINE_BY_LOCAL_ID || p[0] == INPUT_OUTPUT_CONTROL_BY_LOCAL_ID {
            Some(seq![spec_positive_response(p[0])] + p.subrange(1, p.len() as int))
        } else if p[0] == START_DIAGNOSTIC_SESSION {
            Some(seq![spec_positive_response(START_DIAGNOSTIC_SESSION), p[1]])
        } else {
            Some(seq![NEGATIVE_RESPONSE, p[0], 0x11u8])
        }
    }

    /// The sensor bytes that live-data local identifier `id` reports, with
    /// the engine at `rpm_raw`.
    pub closed spec fn spec_live_bytes(&self, rpm_raw: u16, id: u8) -> Option<Seq<u8>> {
        if id == 0x01 {
            Some(be16(rpm_raw))
        } else if id == 0x02 {
            Some(be16(self.tps_raw))
        } else if id == 0x03 {
            Some(seq![self.coolant_raw])
        } else if id == 0x04 {
            Some(seq![self.intake_raw])
        } else if id == 0x05 {
            Some(seq![self.battery_raw])
        } else if id == 0x06 {
            Some(be16(self.map_raw))
        } else {
            None
        }
    }

    pub fn new(config: SimConfig) -> (s: Self)
        ensures
            s.spec_config() == config,
            !s.spec_initialized(),
            s.spec_dtcs() == config.dtcs@,
            s.spec_routine_log().len() == 0,
            s.spec_rpm_raw() == (if config.engine_running { IDLE_RPM_RAW } else { 0 }),
    {
        let dtcs = copy_pairs(&config.dtcs);
        let rpm_raw = if config.engine_running { IDLE_RPM_RAW } else { 0 };
        let battery_raw = config.battery_raw;
        Simulator {
            config,
            initialized: false,
            dtcs,
            routine_log: Vec::new(),
            rpm_raw,
            tps_raw: IDLE_TPS_RAW,
            coolant_raw: IDLE_COOLANT_RAW,
            intake_raw: IDLE_INTAKE_RAW,
            battery_raw,
            map_raw: IDLE_MAP_RAW,
        }
    }

    /// A break pulse resets protocol state; the ECU then waits for
    /// StartCommunication.
    pub fn wake(&mut self)
        ensures
            !final(self).spec_initialized(),
            final(self).spec_config() == old(self).spec_config(),
            final(self).spec_dtcs() == old(self).spec_dtcs(),
            final(self).spec_routine_log() == old(self).spec_routine_log(),
            final(self).spec_rpm_raw() == old(self).spec_rpm_raw(),
    {
        self.initialized = false;
    }

    pub fn dtc_count(&self) -> (n: usize)
        ensures
            n == self.spec_dtcs().len(),
    {
        self.dtcs.len()
    }

    /// Synthetic sensor bytes for a live-data local identifier. Each read
    /// lets a running engine's rpm wander a little, so dashboards visibly
    /// update.
    fn live_data(&mut self, local_id: u8) -> (r: Option<Vec<u8>>)
        ensures
            final(self).spec_rpm_raw() == old(self).next_rpm_raw(),
            final(self).spec_config() == old(self).spec_config(),
            final(self).spec_initialized() == old(self).spec_initialized(),
            final(self).spec_dtcs() == old(self).spec_dtcs(),
            final(self).spec_routine_log() == old(self).spec_routine_log(),
            final(self).tps_raw == old(self).tps_raw,
            final(self).coolant_raw == old(self).coolant_raw,
            final(self).intake_raw == old(self).intake_raw,
            final(self).battery_raw == old(self).battery_raw,
            final(self).map_raw == old(self).map_raw,
            match r {
                Some(v) => old(self).spec_live_bytes(old(self).next_rpm_raw(), local_id) == Some(v@),
                None => old(self).spec_live_bytes(old(self).next_rpm_raw(), local_id) is None,
            },
    {
        if self.config.engine_running {
            self.rpm_raw = if self.rpm_raw >= 4452 {
                4600 + (self.rpm_raw - 4452) % 1200
            } else {
                4600 - (4452 - self.rpm_raw) % 1200
            };
        }
        if local_id == 0x01 {
            Some(vec![(self.rpm_raw >> 8) as u8, self.rpm_raw as u8])
        } else if local_id == 0x02 {
            Some(vec![(self.tps_raw >> 8) as u8, self.tps_raw as u8])
        } else if local_id == 0x03 {
            Some(vec![self.coolant_raw])
        } else if local_id == 0x04 {
            Some(vec![self.intake_raw])
        } else if local_id == 0x05 {
            Some(vec![self.battery_raw])
        } else if local_id == 0x06 {
            Some(vec![(self.map_raw >> 8) as u8, self.map_raw as u8])
        } else {
            None
        }
    }

    /// Whether `handle_request` can take `payload` in the current state.
    pub fn accepts(&self, payload: &[u8]) -> (r: bool)
        ensures
            r == !self.chokes_on(payload@),
    {
        let serving = payload.len() > 0 && payload[0] != START_COMMUNICATION && !(
        self.config.require_init && !self.initialized);
        let bare_session = payload.len() == 1 && payload[0] == START_DIAGNOSTIC_SESSION;
        proof {
            if bare_session {
                assert(payload@ =~= seq![START_DIAGNOSTIC_SESSION]);
            }
        }
        !(serving && bare_session)
    }

    /// Handle one request payload addressed to us; returns the response
    /// payload, or `None` for stay-silent situations.
    pub fn handle_request(&mut self, payload: &[u8]) -> (r: Option<Vec<u8>>)
        requires
            !old(self).chokes_on(payload@),
        ensures
            match r {
                Some(v) => old(self).answer(payload@) == Some(v@),
                None => old(self).answer(payload@) is None,
            },
            final(self).spec_config() == old(self).spec_config(),
            final(self).spec_initialized() == (old(self).spec_initialized() || (payload@.len() > 0
                && payload@[0] == START_COMMUNICATION)),
            final(self).spec_dtcs() == (if old(self).serves(payload@) && payload@[0]
                == CLEAR_DIAGNOSTIC_INFORMATION {
                Seq::empty()
            } else {
                old(self).spec_dtcs()
            }),
            final(self).spec_routine_log() == (if old(self).serves(payload@) && (payload@[0]
                == START_ROUTINE_BY_LOCAL_ID || payload@[0] == INPUT_OUTPUT_CONTROL_BY_LOCAL_ID) {
                old(self).spec_routine_log().push(payload@)
            } else {
                old(self).spec_routine_log()
            }),
            final(self).spec_rpm_raw() == (if old(self).serves(payload@) && payload@[0]
                == READ_DATA_BY_LOCAL_ID && payload@.len() == 2 {
                old(self).next_rpm_raw()
            } else {
                old(self).spec_rpm_raw()
            }),
    {
        if payload.len() == 0 {
            return None;
        }
        let request_sid = payload[0];
        if request_sid == START_COMMUNICATION {
            self.initialized = true;
            let (kb1, kb2) = self.config.key_bytes;
            return Some(vec![positive_response(request_sid), kb1, kb2]);
        }
        if self.config.require_init && !self.initialized {
            // A real ECU that isn't in a diagnostic session just stays quiet.
            return None;
        }
        if payload.len() == 1 && request_sid == TESTER_PRESENT {
            Some(vec![positive_response(request_sid)])
        } else if request_sid == READ_ECU_IDENTIFICATION && payload.len() >= 2 {
            let mut out = vec![positive_response(request_sid), payload[1]];
            let bytes = self.config.ident.as_str().as_bytes();
            append_from(&mut out, bytes, 0);
            Some(out)
        } else if request_sid == READ_DTC_BY_STATUS {
            let mut out = vec![positive_response(request_sid), self.dtcs.len() as u8];
            let mut i: usize = 0;
            while i < self.dtcs.len()
                invariant
                    i <= self.dtcs@.len(),
                    out@ =~= seq![spec_positive_response(READ_DTC_BY_STATUS), self.dtcs@.len() as u8]
                        + dtc_list_bytes(self.dtcs@.take(i as int)),
                decreases self.dtcs@.len() - i,
            {
                let (code, status) = self.dtcs[i];
                proof {
                    assert(self.dtcs@.take(i + 1).drop_last() =~= self.dtcs@.take(i as int));
                }
                out.push((code >> 8) as u8);
                out.push(code as u8);
                out.push(status);
                i = i + 1;
            }
            proof {
                assert(self.dtcs@.take(self.dtcs@.len() as int) =~= self.dtcs@);
            }
            Some(out)
        } else if request_sid == CLEAR_DIAGNOSTIC_INFORMATION {
            self.dtcs = Vec::new();
            let mut out = vec![positive_response(request_sid)];
            append_from(&mut out, payload, 1);
            Some(out)
        } else if request_sid == READ_DATA_BY_LOCAL_ID && payload.len() == 2 {
            let local_id = payload[1];
            match self.live_data(local_id) {
                Some(data) => {
                    let mut out = vec![positive_response(request_sid), local_id];
                    append_from(&mut out, data.as_slice(), 0);
                    Some(out)
                },
                None => None,
            }
        } else if request_sid == START_ROUTINE_BY_LOCAL_ID || request_sid
            == INPUT_OUTPUT_CONTROL_BY_LOCAL_ID {
            let mut logged: Vec<u8> = Vec::new();
            append_from(&mut logged, payload, 0);
            assert(logged@ =~= payload@);
            self.routine_log.push(logged);
            proof {
                assert(self.spec_routine_log() =~= old(self).spec_routine_log().push(payload@));
            }
            let mut out = vec![positive_response(request_sid)];
            append_from(&mut out, payload, 1);
            Some(out)
        } else if request_sid == START_DIAGNOSTIC_SESSION {
            Some(vec![positive_response(request_sid), payload[1]])
        } else {
            // Service not supported.
            Some(vec![NEGATIVE_RESPONSE, request_sid, 0x11])
        }
    }
}

/// A K-line whose ECU end is served inline by a simulator: each request
/// frame the tester completes is answered at once, and the answer waits to
/// be read. A request the simulator cannot take, or an answer too long for
/// one frame, takes the simulated ECU off the line for good.
pub struct SimulatedLine {
    sim: Simulator,
    buf: Vec<u8>,
    pending: VecDeque<u8>,
    closed: bool,
    sent_log: Ghost<Seq<u8>>,
    recv_log: Ghost<Seq<u8>>,
    err_log: Ghost<Seq<TransportError>>,
}

/// How the simulated ECU takes one more byte of a request: `buf` holds the
/// bytes of the frame in progress, `Some(payload)` is a completed request
/// frame addressed to `ecu`.
pub open spec fn completed_request(buf: Seq<u8>, ecu: u8) -> Option<Seq<u8>> {
    match spec_parse(buf) {
        SpecParse::Complete { target, payload, .. } => if target is None || target == Some(ecu) {
            Some(payload)
        } else {
            None
        },
        _ => None,
    }
}

/// `after` is what serving request `p` makes of the simulator `before`
/// (see `Simulator::handle_request`).
pub open spec fn after_request(before: Simulator, after: Simulator, p: Seq<u8>) -> bool {
    &&& after.spec_config() == before.spec_config()
    &&& after.spec_initialized() == (before.spec_initialized() || (p.len() > 0 && p[0]
        == START_COMMUNICATION))
    &&& after.spec_dtcs() == (if before.serves(p) && p[0] == CLEAR_DIAGNOSTIC_INFORMATION {
        Seq::empty()
    } else {
        before.spec_dtcs()
    })
    &&& after.spec_routine_log() == (if before.serves(p) && (p[0] == START_ROUTINE_BY_LOCAL_ID
        || p[0] == INPUT_OUTPUT_CONTROL_BY_LOCAL_ID) {
        before.spec_routine_log().push(p)
    } else {
        before.spec_routine_log()
    })
    &&& after.spec_rpm_raw() == (if before.serves(p) && p[0] == READ_DATA_BY_LOCAL_ID && p.len()
        == 2 {
        before.next_rpm_raw()
    } else {
        before.spec_rpm_raw()
    })
}

/// How the simulated ECU frames its answers: addressed to the tester, from
/// itself.
pub open spec fn reply_codec(sim: Simulator) -> FrameCodec {
    FrameCodec {
        addressing: Some((sim.spec_config().tester_address, sim.spec_config().ecu_address)),
        separate_length_byte: false,
    }
}

/// What the simulated ECU does with one line event.
pub enum LineReply {
    /// Nothing to send.
    Quiet,
    /// These bytes go back on the line.
    Answer(Vec<u8>),
    /// The ECU cannot go on: a request it cannot take, or an answer too
    /// long for one frame.
    Halt,
}

/// Serve one request payload: a request the ECU cannot take halts it;
/// otherwise it is handled, and its answer, if any, comes back framed for
/// the tester (an answer too long for one frame halts the ECU).
pub fn serve_request(sim: &mut Simulator, payload: &[u8]) -> (r: LineReply)
    ensures
        old(sim).chokes_on(payload@) ==> r is Halt && *final(sim) == *old(sim),
        !old(sim).chokes_on(payload@) ==> {
            &&& after_request(*old(sim), *final(sim), payload@)
            &&& match old(sim).answer(payload@) {
                Some(a) => if a.len() <= 255 {
                    r matches LineReply::Answer(v) && v@ == spec_encode(reply_codec(*old(sim)), a)
                } else {
                    r is Halt
                },
                None => r is Quiet,
            }
        },
{
    if !sim.accepts(payload) {
        return LineReply::Halt;
    }
    match sim.handle_request(payload) {
        Some(answer) => {
            if answer.len() > 255 {
                return LineReply::Halt;
            }
            let codec = FrameCodec::physical(sim.config.tester_address, sim.config.ecu_address);
            LineReply::Answer(codec.encode(answer.as_slice()))
        },
        None => LineReply::Quiet,
    }
}

/// The buffer of a frame in progress after one more byte: kept while
/// incomplete, dropped when it cannot be a frame, the frame's bytes taken
/// off when complete.
pub open spec fn buffer_after(buf: Seq<u8>) -> Seq<u8> {
    match spec_parse(buf) {
        SpecParse::Incomplete => buf,
        SpecParse::Invalid => Seq::empty(),
        SpecParse::Complete { consumed, .. } => buf.subrange(consumed as int, buf.len() as int),
    }
}

/// Take one line event into the simulated ECU: a break wakes it and drops
/// the frame in progress, a speed change drops the frame in progress, a
/// 5-baud address changes nothing, and a byte grows the frame in progress;
/// a completed frame addressed to this ECU (or to no one) is served.
pub fn take_line_event(sim: &mut Simulator, buf: &mut Vec<u8>, event: LineEvent) -> (r: LineReply)
    ensures
        final(sim).spec_config() == old(sim).spec_config(),
        match event {
            LineEvent::Break(_) => {
                &&& r is Quiet
                &&& final(buf)@.len() == 0
                &&& !final(sim).spec_initialized()
                &&& final(sim).spec_config() == old(sim).spec_config()
                &&& final(sim).spec_dtcs() == old(sim).spec_dtcs()
                &&& final(sim).spec_routine_log() == old(sim).spec_routine_log()
                &&& final(sim).spec_rpm_raw() == old(sim).spec_rpm_raw()
            },
            LineEvent::BaudChange(_) => r is Quiet && final(buf)@.len() == 0 && *final(sim) == *old(sim),
            LineEvent::FiveBaudAddress(_) => r is Quiet && final(buf)@ == old(buf)@ && *final(sim) == *old(sim),
            LineEvent::Byte(b) => {
                let grown = old(buf)@.push(b);
                &&& final(buf)@ == buffer_after(grown)
                &&& match completed_request(grown, old(sim).spec_config().ecu_address) {
                    Some(p) => if old(sim).chokes_on(p) {
                        r is Halt && *final(sim) == *old(sim)
                    } else {
                        &&& after_request(*old(sim), *final(sim), p)
                        &&& match old(sim).answer(p) {
                            Some(a) => if a.len() <= 255 {
                                r matches LineReply::Answer(v) && v@ == spec_encode(reply_codec(*old(sim)), a)
                            } else {
                                r is Halt
                            },
                            None => r is Quiet,
                        }
                    },
                    None => r is Quiet && *final(sim) == *old(sim),
                }
            },
        },
{
    match event {
        LineEvent::Break(_) => {
            sim.wake();
            *buf = Vec::new();
            LineReply::Quiet
        },
        LineEvent::BaudChange(_) => {
            *buf = Vec::new();
            LineReply::Quiet
        },
        LineEvent::FiveBaudAddress(_) => LineReply::Quiet,
        LineEvent::Byte(b) => {
            buf.push(b);
            match parse_buffer(buf.as_slice()) {
                ParseStatus::Incomplete => LineReply::Quiet,
                ParseStatus::Invalid(_) => {
                    *buf = Vec::new();
                    LineReply::Quiet
                },
                ParseStatus::Complete { frame, consumed } => {
                    *buf = tail_from(buf, consumed);
                    let addressed = match frame.target {
                        None => true,
                        Some(t) => t == sim.config.ecu_address,
                    };
                    if !addressed {
                        return LineReply::Quiet;
                    }
                    serve_request(sim, frame.payload.as_slice())
                },
            }
        },
    }
}

/// Run a simulator behind the ECU end of a mock link until the link closes
/// (or the simulator halts); idle waits of 200 ms are not an end. Returns
/// the simulator so its state can be inspected.
pub fn run_on_link(sim: Simulator, link: EcuLink) -> (s: Simulator)
    ensures
        s.spec_config() == sim.spec_config(),
{
    let mut cur = sim;
    let mut buf: Vec<u8> = Vec::new();
    let mut budget: u64 = u64::MAX;
    while budget > 0
        invariant
            cur.spec_config() == sim.spec_config(),
        decreases budget,
    {
        budget = budget - 1;
        match link.recv_event(200) {
            Ok(event) => match take_line_event(&mut cur, &mut buf, event) {
                LineReply::Quiet => {},
                LineReply::Answer(bytes) => {
                    if link.send_bytes(bytes.as_slice()).is_err() {
                        return cur;
                    }
                },
                LineReply::Halt => {
                    return cur;
                },
            },
            Err(TransportError::Timeout) => {},
            Err(_) => {
                return cur;
            },
        }
    }
    cur
}

/// `src[start..]` as a new vector.
fn tail_from(src: &Vec<u8>, start: usize) -> (out: Vec<u8>)
    requires
        start <= src@.len(),
    ensures
        out@ == src@.subrange(start as int, src@.len() as int),
{
    let mut out: Vec<u8> = Vec::new();
    append_from(&mut out, src.as_slice(), start);
    out
}

impl SimulatedLine {
    /// How the simulated ECU frames its answers: addressed to the tester,
    /// from itself.
    pub open spec fn answer_codec(&self) -> FrameCodec {
        FrameCodec {
            addressing: Some((
                self.spec_simulator().spec_config().tester_address,
                self.spec_simulator().spec_config().ecu_address,
            )),
            separate_length_byte: false,
        }
    }

    pub closed spec fn spec_simulator(&self) -> Simulator {
        self.sim
    }

    /// Answer bytes waiting to be read by the tester.
    pub closed spec fn spec_pending(&self) -> Seq<u8> {
        self.pending@
    }

    /// Bytes of a request frame the simulated ECU has started to receive.
    pub closed spec fn spec_partial(&self) -> Seq<u8> {
        self.buf@
    }

    /// The simulated ECU has left the line.
    pub closed spec fn spec_closed(&self) -> bool {
        self.closed
    }

    pub fn new(sim: Simulator) -> (line: Self)
        ensures
            line.spec_simulator() == sim,
            line.spec_pending().len() == 0,
            line.spec_partial().len() == 0,
            !line.spec_closed(),
            line.sent().len() == 0,
            line.received().len() == 0,
    {
        SimulatedLine {
            sim,
            buf: Vec::new(),
            pending: VecDeque::new(),
            closed: false,
            sent_log: Ghost(Seq::empty()),
            recv_log: Ghost(Seq::empty()),
            err_log: Ghost(Seq::empty()),
        }
    }

    /// Give up with `e`, noting it among the errors.
    fn fail<A>(&mut self, e: TransportError) -> (r: Result<A, TransportError>)
        ensures
            r == Err::<A, TransportError>(e),
            final(self).err_log@ == old(self).err_log@.push(e),
            final(self).sim == old(self).sim,
            final(self).buf == old(self).buf,
            final(self).pending == old(self).pending,
            final(self).closed == old(self).closed,
            final(self).sent_log == old(self).sent_log,
            final(self).recv_log == old(self).recv_log,
    {
        self.err_log = Ghost(self.err_log@.push(e));
        Err(e)
    }

    /// The simulator behind the line.
    pub fn simulator(&self) -> (s: &Simulator)
        ensures
            *s == self.spec_simulator(),
    {
        &self.sim
    }

    /// One byte from the tester reaches the simulated ECU.
    fn feed(&mut self, b: u8)
        requires
            !old(self).spec_closed(),
        ensures
            final(self).sent_log == old(self).sent_log,
            final(self).recv_log == old(self).recv_log,
            final(self).err_log == old(self).err_log,
            ({
                let buf = old(self).spec_partial().push(b);
                let ecu = old(self).spec_simulator().spec_config().ecu_address;
                match completed_request(buf, ecu) {
                    Some(p) => if old(self).spec_simulator().chokes_on(p) {
                        final(self).spec_closed()
                    } else {
                        match old(self).spec_simulator().answer(p) {
                            Some(a) => if a.len() <= 255 {
                                &&& !final(self).spec_closed()
                                &&& final(self).spec_pending() == old(self).spec_pending()
                                    + spec_encode(old(self).answer_codec(), a)
                            } else {
                                final(self).spec_closed()
                            },
                            None => !final(self).spec_closed() && final(self).spec_pending()
                                == old(self).spec_pending(),
                        }
                    },
                    None => !final(self).spec_closed() && final(self).spec_pending()
                        == old(self).spec_pending(),
                }
            }),
    {
        match take_line_event(&mut self.sim, &mut self.buf, LineEvent::Byte(b)) {
            LineReply::Quiet => {},
            LineReply::Halt => {
                self.closed = true;
            },
            LineReply::Answer(encoded) => {
                let ghost before = self.pending@;
                let ghost mid = *self;
                let mut i: usize = 0;
                while i < encoded.len()
                    invariant
                        i <= encoded@.len(),
                        self.pending@ =~= before + encoded@.take(i as int),
                        self.sim == mid.sim,
                        self.buf == mid.buf,
                        self.closed == mid.closed,
                        self.sent_log == mid.sent_log,
                        self.recv_log == mid.recv_log,
                        self.err_log == mid.err_log,
                    decreases encoded@.len() - i,
                {
                    self.pending.push_back(encoded[i]);
                    i = i + 1;
                }
                assert(encoded@.take(encoded@.len() as int) =~= encoded@);
            },
        }
    }
}

impl KLineTransport for SimulatedLine {
    closed spec fn sent(&self) -> Seq<u8> {
        self.sent_log@
    }

    closed spec fn received(&self) -> Seq<u8> {
        self.recv_log@
    }

    closed spec fn errors(&self) -> Seq<TransportError> {
        self.err_log@
    }

    /// Each byte reaches the simulated ECU in turn (see `feed`); a line the
    /// ECU has left refuses the send.
    fn send(&mut self, bytes: &[u8]) -> (r: Result<(), TransportError>)
        ensures
            old(self).spec_closed() && bytes@.len() > 0 ==> r == Err::<(), TransportError>(
                TransportError::Closed,
            ),
            r is Err ==> r == Err::<(), TransportError>(TransportError::Closed),
    {
        let mut i: usize = 0;
        while i < bytes.len()
            invariant
                i <= bytes@.len(),
                old(self).closed ==> i == 0 && self.closed,
                self.sent_log@ == old(self).sent_log@,
                self.recv_log@ == old(self).recv_log@,
                self.err_log@ == old(self).err_log@,
            decreases bytes@.len() - i,
        {
            if self.closed {
                return self.fail(TransportError::Closed);
            }
            self.feed(bytes[i]);
            i = i + 1;
        }
        self.sent_log = Ghost(self.sent_log@ + bytes@);
        Ok(())
    }

    /// The next answer byte, if one is waiting.
    fn read_byte(&mut self, timeout_ms: u64) -> (r: Result<u8, TransportError>)
        ensures
            old(self).spec_pending().len() > 0 ==> r == Ok::<u8, TransportError>(
                old(self).spec_pending()[0],
            ) && final(self).spec_pending() == old(self).spec_pending().drop_first(),
            old(self).spec_pending().len() == 0 ==> r == Err::<u8, TransportError>(
                if old(self).spec_closed() {
                    TransportError::Closed
                } else {
                    TransportError::Timeout
                },
            ),
            final(self).spec_closed() == old(self).spec_closed(),
    {
        match self.pending.pop_front() {
            Some(b) => {
                self.recv_log = Ghost(self.recv_log@.push(b));
                Ok(b)
            },
            None => if self.closed {
                self.fail(TransportError::Closed)
            } else {
                self.fail(TransportError::Timeout)
            },
        }
    }

    /// A break wakes the simulated ECU and discards any partial request.
    fn send_break(&mut self, duration_ms: u64) -> (r: Result<(), TransportError>)
        ensures
            r == if old(self).spec_closed() {
                Err::<(), TransportError>(TransportError::Closed)
            } else {
                Ok::<(), TransportError>(())
            },
            final(self).spec_closed() == old(self).spec_closed(),
            final(self).spec_pending() == old(self).spec_pending(),
            old(self).spec_closed() ==> final(self).spec_simulator() == old(self).spec_simulator()
                && final(self).spec_partial() == old(self).spec_partial(),
            !old(self).spec_closed() ==> {
                &&& final(self).spec_partial().len() == 0
                &&& !final(self).spec_simulator().spec_initialized()
                &&& final(self).spec_simulator().spec_config() == old(self).spec_simulator().spec_config()
                &&& final(self).spec_simulator().spec_dtcs() == old(self).spec_simulator().spec_dtcs()
                &&& final(self).spec_simulator().spec_routine_log() == old(self).spec_simulator().spec_routine_log()
                &&& final(self).spec_simulator().spec_rpm_raw() == old(self).spec_simulator().spec_rpm_raw()
            },
    {
        if self.closed {
            return self.fail(TransportError::Closed);
        }
        self.sim.wake();
        self.buf = Vec::new();
        Ok(())
    }

    /// A speed change discards any partial request; the simulated ECU keeps
    /// its state.
    fn set_baud(&mut self, baud: u32) -> (r: Result<(), TransportError>)
        ensures
            r == if old(self).spec_closed() {
                Err::<(), TransportError>(TransportError::Closed)
            } else {
                Ok::<(), TransportError>(())
            },
            final(self).spec_closed() == old(self).spec_closed(),
            final(self).spec_pending() == old(self).spec_pending(),
            final(self).spec_simulator() == old(self).spec_simulator(),
            old(self).spec_closed() ==> final(self).spec_partial() == old(self).spec_partial(),
            !old(self).spec_closed() ==> final(self).spec_partial().len() == 0,
    {
        if self.closed {
            return self.fail(TransportError::Closed);
        }
        self.buf = Vec::new();
        Ok(())
    }

    fn flush_input(&mut self) -> (r: Result<(), TransportError>)
        ensures
            final(self).spec_pending().len() == 0,
            final(self).spec_closed() == old(self).spec_closed(),
    {
        self.pending.clear();
        Ok(())
    }

    fn pause(&mut self, duration_ms: u64) {
    }
}

} // verus!
