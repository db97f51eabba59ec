//! Wire-trace analysis: turn a recorded session into a readable report
//! against an ECU definition.
//!
//! An owner records a session on their bike, shares the trace file, and
//! anyone can run it against a definition to see what decoded (identity,
//! live-data channels, DTC reads) and what didn't. The analysis is static:
//! nothing is replayed onto a bus. Tx events are complete frames, so
//! requests parse directly; Rx bytes accumulate between requests and are
//! parsed with the same frame parser. A single-wire K-line echoes the
//! tester's own request, so an Rx frame identical to it is skipped.

use vstd::prelude::*;
use vstd::slice::slice_subrange;
use crate::dtc::{dtc_count, parse_read_dtc_response};
use crate::framing::{parse_buffer, spec_parse, Frame, ParseStatus, SpecParse};
use crate::schema::{channel_decodable, spec_raw_value, Channel, EcuDefinition};
use crate::session::{identity_text, printable, utf8_lossy};
use crate::text::{bytes_eq, decimal, hex2, push_decimal, push_hex2, str_eq};
use crate::trace::{EventKind, TraceDirection, TraceEvent};

verus! {

/// First line of a shareable trace file.
#[derive(Debug, Clone, PartialEq, Eq)]
pub struct TraceMetadata {
    /// "motodiag-trace/1"
    pub format: String,
    pub definition_id: String,
    pub recorded_at_ms: u64,
    pub simulated: bool,
}

#[derive(Debug, Clone, PartialEq, Eq)]
pub struct TraceReportRow {
    /// What the request was ("identification", "channel rpm", "read DTCs",
    /// "tester present", "init", ...).
    pub kind: String,
    pub request_hex: String,
    pub ok: bool,
    /// What came back, in words. For a decoded live-data channel it is left
    /// empty and `channel_raw` holds the raw integer; scaling it into
    /// engineering units for display belongs to whoever holds the
    /// definition's scale and offset.
    pub detail: String,
    pub channel_raw: Option<i64>,
}

/// A live-data channel seen in the trace.
#[derive(Debug, Clone, PartialEq, Eq)]
pub struct ChannelStat {
    pub key: String,
    pub name: String,
    pub unit: String,
    pub samples: u32,
    /// The raw integer of the last sample.
    pub last_raw: i64,
}

#[derive(Debug, Clone, PartialEq, Eq)]
pub struct TraceReport {
    pub definition_id: String,
    pub event_count: usize,
    pub exchange_count: u32,
    pub init_seen: bool,
    pub identity: Option<String>,
    pub channels: Vec<ChannelStat>,
    pub dtc_reads: u32,
    pub dtc_last_count: Option<usize>,
    pub tester_present: u32,
    pub negative_responses: u32,
    pub unparsed_rx_bytes: u32,
    /// The first exchanges, for the UI; `rows_truncated` says if more existed.
    pub rows: Vec<TraceReportRow>,
    pub rows_truncated: bool,
}

/// At most this many rows are kept.
pub const MAX_ROWS: usize = 60;

/// Bytes as space-separated uppercase hex pairs: "81 10 F1".
pub open spec fn hex_spaced(bytes: Seq<u8>) -> Seq<char>
    decreases bytes.len(),
{
    if bytes.len() == 0 {
        Seq::empty()
    } else if bytes.len() == 1 {
        hex2(bytes[0])
    } else {
        hex_spaced(bytes.drop_last()) + " "@ + hex2(bytes.last())
    }
}

/// Bytes as space-separated uppercase hex pairs.
pub fn hex(bytes: &[u8]) -> (s: String)
    ensures
        s@ == hex_spaced(bytes@),
{
    let mut s = String::new();
    let mut i: usize = 0;
    while i < bytes.len()
        invariant
            i <= bytes@.len(),
            s@ == hex_spaced(bytes@.take(i as int)),
        decreases bytes@.len() - i,
    {
        proof {
            assert(bytes@.take(i + 1).drop_last() =~= bytes@.take(i as int));
        }
        if i > 0 {
            s.append(" ");
        }
        push_hex2(&mut s, bytes[i]);
        i = i + 1;
        assert(s@ =~= hex_spaced(bytes@.take(i as int)));
    }
    assert(bytes@.take(bytes@.len() as int) =~= bytes@);
    s
}

/// What an Rx run holds: the frames in it (payload and raw bytes), less any
/// that repeats `echo` exactly, and how many bytes could not be framed.
/// Unframeable bytes are skipped one at a time; an incomplete tail counts
/// whole.
pub open spec fn rx_run(rx: Seq<u8>, echo: Option<Seq<u8>>) -> (Seq<(Seq<u8>, Seq<u8>)>, nat)
    decreases rx.len(),
{
    if rx.len() == 0 {
        (Seq::empty(), 0)
    } else {
        match spec_parse(rx) {
            SpecParse::Complete { payload, consumed, .. } => {
                if 0 < consumed <= rx.len() {
                    let rest = rx_run(rx.skip(consumed as int), echo);
                    let raw = rx.take(consumed as int);
                    if echo == Some(raw) {
                        rest
                    } else {
                        (seq![(payload, raw)] + rest.0, rest.1)
                    }
                } else {
                    (Seq::empty(), 0)
                }
            },
            SpecParse::Incomplete => (Seq::empty(), rx.len()),
            SpecParse::Invalid => {
                let rest = rx_run(rx.drop_first(), echo);
                (rest.0, rest.1 + 1)
            },
        }
    }
}

pub open spec fn frame_models(fs: Seq<Frame>) -> Seq<(Seq<u8>, Seq<u8>)> {
    Seq::new(fs.len(), |i: int| (fs[i].payload@, fs[i].raw@))
}

pub open spec fn sat_u32(n: nat) -> u32 {
    if n > u32::MAX {
        u32::MAX
    } else {
        n as u32
    }
}

proof fn lemma_complete_consumed(buf: Seq<u8>)
    ensures
        spec_parse(buf) matches SpecParse::Complete { consumed, .. } ==> 0 < consumed <= buf.len(),
{
}

/// Split an accumulated Rx run into frames, skipping the request echo.
/// Returns the frames and how many bytes could not be framed (kept to 32
/// bits).
fn parse_rx_run(rx: &[u8], request: Option<&Frame>) -> (r: (Vec<Frame>, u32))
    ensures
        ({
            let echo = match request {
                Some(f) => Some(f.raw@),
                None => None,
            };
            &&& frame_models(r.0@) == rx_run(rx@, echo).0
            &&& r.1 == sat_u32(rx_run(rx@, echo).1)
        }),
{
    let ghost echo = match request {
        Some(f) => Some(f.raw@),
        None => None,
    };
    let mut frames: Vec<Frame> = Vec::new();
    let mut unparsed: u32 = 0;
    let ghost mut counted: nat = 0;
    let mut start: usize = 0;
    assert(rx@.skip(0) =~= rx@);
    while start < rx.len()
        invariant
            start <= rx@.len(),
            frame_models(frames@) + rx_run(rx@.skip(start as int), echo).0 == rx_run(rx@, echo).0,
            counted + rx_run(rx@.skip(start as int), echo).1 == rx_run(rx@, echo).1,
            unparsed == sat_u32(counted),
            echo == (match request {
                Some(f) => Some(f.raw@),
                None => None,
            }),
        decreases rx@.len() - start,
    {
        let rest = slice_subrange(rx, start, rx.len());
        let ghost tail = rx@.skip(start as int);
        assert(rest@ =~= tail);
        proof {
            lemma_complete_consumed(tail);
        }
        match parse_buffer(rest) {
            ParseStatus::Complete { frame, consumed } => {
                assert(tail.skip(consumed as int) =~= rx@.skip(start + consumed));
                let is_echo = match request {
                    Some(req) => bytes_eq(req.raw.as_slice(), frame.raw.as_slice()),
                    None => false,
                };
                let ghost before = frames@;
                if !is_echo {
                    frames.push(frame);
                    proof {
                        assert(frame_models(frames@) =~= frame_models(before) + seq![
                            (frame.payload@, frame.raw@),
                        ]);
                    }
                }
                start = start + consumed;
            },
            ParseStatus::Incomplete => {
                let left = rx.len() - start;
                proof {
                    counted = counted + left as nat;
                }
                unparsed = if left as u64 > (u32::MAX - unparsed) as u64 {
                    u32::MAX
                } else {
                    unparsed + left as u32
                };
                assert(rx@.skip(rx@.len() as int) =~= Seq::<u8>::empty());
                start = rx.len();
            },
            ParseStatus::Invalid(_) => {
                assert(tail.drop_first() =~= rx@.skip(start + 1));
                proof {
                    counted = counted + 1;
                }
                unparsed = if unparsed == u32::MAX {
                    u32::MAX
                } else {
                    unparsed + 1
                };
                start = start + 1;
            },
        }
    }
    assert(rx@.skip(start as int) =~= Seq::<u8>::empty());
    (frames, unparsed)
}

/// What sort of request a payload is, against a definition.
#[derive(Debug, Clone, Copy, PartialEq, Eq)]
pub enum KindTag {
    Identification,
    ReadDtcs,
    ClearDtcs,
    /// The definition's channel at this index.
    Channel(usize),
    Routine,
    TesterPresent,
    StartCommunication,
    Unknown,
}

struct RequestKind {
    label: String,
    tag: KindTag,
}

/// The first channel from `i` on whose request is `payload`.
pub open spec fn channel_request_index(chs: Seq<Channel>, payload: Seq<u8>, i: int) -> Option<int>
    decreases chs.len() - i,
{
    if i < 0 || i >= chs.len() {
        None
    } else if chs[i].request@ == payload {
        Some(i)
    } else {
        channel_request_index(chs, payload, i + 1)
    }
}

/// The first routine from `i` on whose request is `payload`.
pub open spec fn routine_request_index(rs: Seq<crate::schema::Routine>, payload: Seq<u8>, i: int) -> Option<int>
    decreases rs.len() - i,
{
    if i < 0 || i >= rs.len() {
        None
    } else if rs[i].request@ == payload {
        Some(i)
    } else {
        routine_request_index(rs, payload, i + 1)
    }
}

/// The first channel from `i` on whose key is `key`.
pub open spec fn key_index(chs: Seq<Channel>, key: Seq<char>, i: int) -> Option<int>
    decreases chs.len() - i,
{
    if i < 0 || i >= chs.len() {
        None
    } else if chs[i].key@ == key {
        Some(i)
    } else {
        key_index(chs, key, i + 1)
    }
}

/// The channel a response to channel `k`'s request is decoded with: the
/// first channel carrying `k`'s key.
pub open spec fn key_channel(chs: Seq<Channel>, k: int) -> Channel {
    match key_index(chs, chs[k].key@, 0) {
        Some(j) => chs[j],
        None => chs[k],
    }
}

/// The request payload of a transmitted event that holds a whole frame.
pub open spec fn tx_request(e: TraceEvent) -> Option<Seq<u8>> {
    if e.dir == TraceDirection::Tx {
        match e.kind {
            EventKind::Bytes { hex } => match spec_parse(hex.0@) {
                SpecParse::Complete { payload, .. } => Some(payload),
                _ => None,
            },
            _ => None,
        }
    } else {
        None
    }
}

/// A request the definition reads as a channel names a channel whose
/// answer can be decoded.
pub open spec fn request_decodable(def: EcuDefinition, p: Seq<u8>) -> bool {
    request_tag(def, p) matches KindTag::Channel(k) ==> channel_decodable(key_channel(def.channels@, k as int))
}

fn find_channel_key(chs: &Vec<Channel>, key: &str) -> (r: Option<usize>)
    ensures
        r matches Some(j) ==> key_index(chs@, key@, 0) == Some(j as int) && j < chs@.len(),
        r is None ==> key_index(chs@, key@, 0) is None,
{
    let mut i: usize = 0;
    while i < chs.len()
        invariant
            i <= chs@.len(),
            key_index(chs@, key@, 0) == key_index(chs@, key@, i as int),
        decreases chs@.len() - i,
    {
        if str_eq(chs[i].key.as_str(), key) {
            return Some(i);
        }
        i = i + 1;
    }
    None
}

proof fn lemma_channel_request_index(chs: Seq<Channel>, payload: Seq<u8>, i: int)
    requires
        0 <= i,
    ensures
        channel_request_index(chs, payload, i) matches Some(k) ==> i <= k < chs.len()
            && chs[k].request@ == payload,
    decreases chs.len() - i,
{
    if i < chs.len() && chs[i].request@ != payload {
        lemma_channel_request_index(chs, payload, i + 1);
    }
}

proof fn lemma_routine_request_index(rs: Seq<crate::schema::Routine>, payload: Seq<u8>, i: int)
    requires
        0 <= i,
    ensures
        routine_request_index(rs, payload, i) matches Some(k) ==> i <= k < rs.len()
            && rs[k].request@ == payload,
    decreases rs.len() - i,
{
    if i < rs.len() && rs[i].request@ != payload {
        lemma_routine_request_index(rs, payload, i + 1);
    }
}

/// The kind of request a payload is: one the definition names, a
/// keep-alive, StartCommunication, or unknown.
pub open spec fn request_tag(def: EcuDefinition, p: Seq<u8>) -> KindTag {
    if p == def.identification.request@ {
        KindTag::Identification
    } else if p == def.dtc.read_request@ {
        KindTag::ReadDtcs
    } else if p == def.dtc.clear_request@ {
        KindTag::ClearDtcs
    } else if channel_request_index(def.channels@, p, 0) is Some {
        KindTag::Channel(channel_request_index(def.channels@, p, 0)->0 as usize)
    } else if routine_request_index(def.routines@, p, 0) is Some {
        KindTag::Routine
    } else if p.len() > 0 && p[0] == 0x3E {
        KindTag::TesterPresent
    } else if p.len() > 0 && p[0] == 0x81 {
        KindTag::StartCommunication
    } else {
        KindTag::Unknown
    }
}

/// The label a report row gives a request.
pub open spec fn request_label(def: EcuDefinition, p: Seq<u8>) -> Seq<char> {
    match request_tag(def, p) {
        KindTag::Identification => "identification"@,
        KindTag::ReadDtcs => "read DTCs"@,
        KindTag::ClearDtcs => "clear DTCs"@,
        KindTag::Channel(k) => "channel "@ + def.channels@[k as int].key@,
        KindTag::Routine => "routine "@ + def.routines@[routine_request_index(
            def.routines@,
            p,
            0,
        )->0].key@,
        KindTag::TesterPresent => "tester present"@,
        KindTag::StartCommunication => "start communication"@,
        KindTag::Unknown => "unknown request (SID 0x"@ + hex2(
            if p.len() > 0 {
                p[0]
            } else {
                0
            },
        ) + ")"@,
    }
}

fn find_channel_request(chs: &Vec<Channel>, payload: &[u8]) -> (r: Option<usize>)
    ensures
        r matches Some(k) ==> channel_request_index(chs@, payload@, 0) == Some(k as int)
            && k < chs@.len(),
        r is None ==> channel_request_index(chs@, payload@, 0) is None,
{
    let mut i: usize = 0;
    while i < chs.len()
        invariant
            i <= chs@.len(),
            channel_request_index(chs@, payload@, 0) == channel_request_index(chs@, payload@, i as int),
        decreases chs@.len() - i,
    {
        if bytes_eq(chs[i].request.as_slice(), payload) {
            return Some(i);
        }
        i = i + 1;
    }
    None
}

fn find_routine_request(rs: &Vec<crate::schema::Routine>, payload: &[u8]) -> (r: Option<usize>)
    ensures
        r matches Some(k) ==> routine_request_index(rs@, payload@, 0) == Some(k as int)
            && k < rs@.len(),
        r is None ==> routine_request_index(rs@, payload@, 0) is None,
{
    let mut i: usize = 0;
    while i < rs.len()
        invariant
            i <= rs@.len(),
            routine_request_index(rs@, payload@, 0) == routine_request_index(rs@, payload@, i as int),
        decreases rs@.len() - i,
    {
        if bytes_eq(rs[i].request.as_slice(), payload) {
            return Some(i);
        }
        i = i + 1;
    }
    None
}

fn classify(def: &EcuDefinition, payload: &[u8]) -> (k: RequestKind)
    ensures
        k.label@ == request_label(*def, payload@),
        k.tag == request_tag(*def, payload@),
{
    if bytes_eq(payload, def.identification.request.as_slice()) {
        return RequestKind { label: String::from_str("identification"), tag: KindTag::Identification };
    }
    if bytes_eq(payload, def.dtc.read_request.as_slice()) {
        return RequestKind { label: String::from_str("read DTCs"), tag: KindTag::ReadDtcs };
    }
    if bytes_eq(payload, def.dtc.clear_request.as_slice()) {
        return RequestKind { label: String::from_str("clear DTCs"), tag: KindTag::ClearDtcs };
    }
    if let Some(k) = find_channel_request(&def.channels, payload) {
        let mut label = String::from_str("channel ");
        label.append(def.channels[k].key.as_str());
        return RequestKind { label, tag: KindTag::Channel(k) };
    }
    if let Some(k) = find_routine_request(&def.routines, payload) {
        let mut label = String::from_str("routine ");
        label.append(def.routines[k].key.as_str());
        return RequestKind { label, tag: KindTag::Routine };
    }
    if payload.len() > 0 && payload[0] == 0x3E {
        return RequestKind { label: String::from_str("tester present"), tag: KindTag::TesterPresent };
    }
    if payload.len() > 0 && payload[0] == 0x81 {
        return RequestKind {
            label: String::from_str("start communication"),
            tag: KindTag::StartCommunication,
        };
    }
    let sid = if payload.len() > 0 {
        payload[0]
    } else {
        0
    };
    let mut label = String::from_str("unknown request (SID 0x");
    push_hex2(&mut label, sid);
    label.append(")");
    RequestKind { label, tag: KindTag::Unknown }
}

/// The report fields that only `finish_exchange` and the event loop move.
pub open spec fn same_frame_of_report(a: TraceReport, b: TraceReport) -> bool {
    &&& a.definition_id == b.definition_id
    &&& a.event_count == b.event_count
    &&& a.exchange_count == b.exchange_count
    &&& a.negative_responses == b.negative_responses
    &&& a.unparsed_rx_bytes == b.unparsed_rx_bytes
    &&& a.init_seen == b.init_seen
    &&& a.rows == b.rows
    &&& a.rows_truncated == b.rows_truncated
}

fn sat_inc(n: u32) -> (r: u32)
    ensures
        r == sat_u32((n + 1) as nat),
{
    if n == u32::MAX {
        u32::MAX
    } else {
        n + 1
    }
}

fn sat_add(a: u32, b: u32) -> (r: u32)
    ensures
        r == sat_u32((a + b) as nat),
{
    if b > u32::MAX - a {
        u32::MAX
    } else {
        a + b
    }
}

proof fn lemma_sat_inc(a: nat)
    ensures
        sat_u32((sat_u32(a) + 1) as nat) == sat_u32(a + 1),
{
}

proof fn lemma_sat_add(a: nat, b: nat)
    ensures
        sat_u32((sat_u32(a) + sat_u32(b)) as nat) == sat_u32(a + b),
{
}

/// The open exchange as the analysis holds it.
pub open spec fn open_of(pending: Option<Frame>, raw_tx: Option<Vec<u8>>, rx: Seq<u8>, started: bool) -> OpenExchange {
    OpenExchange {
        request: match pending {
            Some(fr) => Some((fr.payload@, fr.raw@)),
            None => None,
        },
        raw_tx: match raw_tx {
            Some(v) => Some(v@),
            None => None,
        },
        rx,
        started,
    }
}

fn copy_vec(v: &Vec<u8>) -> (out: Vec<u8>)
    ensures
        out@ == v@,
{
    let mut out: Vec<u8> = Vec::new();
    let mut i: usize = 0;
    while i < v.len()
        invariant
            i <= v@.len(),
            out@ =~= v@.take(i as int),
        decreases v@.len() - i,
    {
        out.push(v[i]);
        i = i + 1;
    }
    assert(v@.take(v@.len() as int) =~= v@);
    out
}

/// The report fields a response can change, other than the channels.
pub open spec fn same_figures(a: TraceReport, b: TraceReport) -> bool {
    &&& a.identity == b.identity
    &&& a.dtc_reads == b.dtc_reads
    &&& a.dtc_last_count == b.dtc_last_count
    &&& a.tester_present == b.tester_present
}

/// Record a channel sample in the report's per-channel statistics.
fn record_sample(report: &mut TraceReport, ch: &Channel, raw: i64)
    ensures
        same_frame_of_report(*old(report), *final(report)),
        same_figures(*old(report), *final(report)),
        final(report).channels@.map_values(|c: ChannelStat| c@) == recorded_stats(
            old(report).channels@.map_values(|c: ChannelStat| c@),
            *ch,
            raw,
        ),
{
    let ghost before = report.channels@.map_values(|c: ChannelStat| c@);
    let mut i: usize = 0;
    while i < report.channels.len()
        invariant
            i <= report.channels@.len(),
            *report == *old(report),
            before == report.channels@.map_values(|c: ChannelStat| c@),
            stat_index(before, ch.key@, 0) == stat_index(before, ch.key@, i as int),
        decreases report.channels@.len() - i,
    {
        if str_eq(report.channels[i].key.as_str(), ch.key.as_str()) {
            let stat = ChannelStat {
                key: report.channels[i].key.clone(),
                name: report.channels[i].name.clone(),
                unit: report.channels[i].unit.clone(),
                samples: sat_inc(report.channels[i].samples),
                last_raw: raw,
            };
            assert(before[i as int] == report.channels@[i as int]@);
            report.channels.set(i, stat);
            assert(report.channels@.map_values(|c: ChannelStat| c@) =~= before.update(i as int, stat@));
            return;
        }
        assert(before[i as int] == report.channels@[i as int]@);
        i = i + 1;
    }
    let stat = ChannelStat {
        key: ch.key.clone(),
        name: ch.name.clone(),
        unit: ch.unit.clone(),
        samples: 1,
        last_raw: raw,
    };
    report.channels.push(stat);
    assert(report.channels@.map_values(|c: ChannelStat| c@) =~= before.push(stat@));
}

/// Describe a positive response to a classified request, updating the
/// report's identity, channel, DTC and keep-alive statistics.
fn describe_response(
    def: &EcuDefinition,
    kind: &RequestKind,
    resp: &Frame,
    report: &mut TraceReport,
    Ghost(f): Ghost<Findings>,
) -> (r: (bool, String, Option<i64>))
    requires
        kind.tag matches KindTag::Channel(k) ==> k < def.channels@.len() && channel_decodable(
            key_channel(def.channels@, k as int),
        ),
        report_shows(*old(report), f),
    ensures
        same_frame_of_report(*old(report), *final(report)),
        report_shows(*final(report), after_response(*def, f, kind.tag, resp.payload@)),
        r.0 == response_row(*def, kind.tag, resp.payload@).0,
        r.1@ == response_row(*def, kind.tag, resp.payload@).1,
        r.2 == response_row(*def, kind.tag, resp.payload@).2,
        final(report).rows == old(report).rows,
        final(report).rows_truncated == old(report).rows_truncated,
{
    match kind.tag {
        KindTag::Channel(k) => {
            let j = match find_channel_key(&def.channels, def.channels[k].key.as_str()) {
                Some(j) => j,
                None => k,
            };
            let channel = &def.channels[j];
            match channel.raw_value(resp.payload.as_slice()) {
                Some(raw) => {
                    record_sample(report, channel, raw);
                    (true, String::new(), Some(raw))
                },
                None => (false, String::from_str("response too short to decode"), None),
            }
        },
        KindTag::Identification => {
            let n = resp.payload.len();
            let skip = if def.identification.skip_bytes <= n {
                def.identification.skip_bytes
            } else {
                n
            };
            let raw = slice_subrange(resp.payload.as_slice(), skip, n);
            let text = identity_text(raw);
            let mut detail = String::from_str("ECU identifies as: ");
            detail.append(text.as_str());
            report.identity = Some(text);
            (true, detail, None)
        },
        KindTag::ReadDtcs => {
            let dtcs = parse_read_dtc_response(resp.payload.as_slice(), def);
            proof {
                lemma_sat_inc(f.dtc_reads);
            }
            report.dtc_reads = sat_inc(report.dtc_reads);
            report.dtc_last_count = Some(dtcs.len());
            let mut detail = String::new();
            push_decimal(&mut detail, dtcs.len() as u64);
            detail.append(" stored fault code(s)");
            (true, detail, None)
        },
        KindTag::TesterPresent => {
            proof {
                lemma_sat_inc(f.keepalives);
            }
            report.tester_present = sat_inc(report.tester_present);
            (true, String::from_str("keep-alive acknowledged"), None)
        },
        _ => {
            let mut detail = String::from_str("response: ");
            let h = hex(resp.payload.as_slice());
            detail.append(h.as_str());
            (true, detail, None)
        },
    }
}

/// Add a row unless the list is full (then mark it truncated). Only the
/// first keep-alive gets a row; the counter keeps the rest.
fn push_row(report: &mut TraceReport, row: TraceReportRow, keepalive: bool)
    requires
        old(report).rows@.len() <= MAX_ROWS,
        old(report).rows_truncated ==> old(report).rows@.len() == MAX_ROWS,
    ensures
        final(report).rows@.len() <= MAX_ROWS,
        final(report).rows_truncated ==> final(report).rows@.len() == MAX_ROWS,
        old(report).rows_truncated ==> final(report).rows_truncated,
        final(report).definition_id == old(report).definition_id,
        final(report).event_count == old(report).event_count,
        final(report).exchange_count == old(report).exchange_count,
        final(report).negative_responses == old(report).negative_responses,
        final(report).init_seen == old(report).init_seen,
        final(report).unparsed_rx_bytes == old(report).unparsed_rx_bytes,
        final(report).channels == old(report).channels,
        same_figures(*old(report), *final(report)),
        final(report).rows@.map_values(|r: TraceReportRow| r@) == (if keepalive && old(report).tester_present > 1 {
            old(report).rows@.map_values(|r: TraceReportRow| r@)
        } else if old(report).rows@.len() < MAX_ROWS {
            old(report).rows@.map_values(|r: TraceReportRow| r@).push(row@)
        } else {
            old(report).rows@.map_values(|r: TraceReportRow| r@)
        }),
        final(report).rows_truncated == (if keepalive && old(report).tester_present > 1 {
            old(report).rows_truncated
        } else if old(report).rows@.len() < MAX_ROWS {
            old(report).rows_truncated
        } else {
            true
        }),
{
    if keepalive && report.tester_present > 1 {
        return;
    }
    if report.rows.len() < MAX_ROWS {
        let ghost before = report.rows@.map_values(|r: TraceReportRow| r@);
        let ghost v = row@;
        report.rows.push(row);
        assert(report.rows@.map_values(|r: TraceReportRow| r@) =~= before.push(v));
    } else {
        report.rows_truncated = true;
    }
}

/// A transmitted frame: a request the analysis pairs with a response.
pub open spec fn is_framed_tx(e: TraceEvent) -> bool {
    &&& e.dir == TraceDirection::Tx
    &&& e.kind matches EventKind::Bytes { hex } && spec_parse(hex.0@) is Complete
}

/// How many events are transmitted frames.
pub open spec fn framed_tx_count(events: Seq<TraceEvent>) -> nat
    decreases events.len(),
{
    if events.len() == 0 {
        0
    } else {
        framed_tx_count(events.drop_last()) + if is_framed_tx(events.last()) {
            1nat
        } else {
            0nat
        }
    }
}

/// A break, baud change or 5-baud address: evidence of bus init.
pub open spec fn is_line_event(e: TraceEvent) -> bool {
    e.kind is Break || e.kind is Baud || e.kind is FiveBaudAddress
}

pub open spec fn has_line_event(events: Seq<TraceEvent>) -> bool {
    exists|i: int| 0 <= i < events.len() && is_line_event(#[trigger] events[i])
}

/// A channel statistic as plain values.
pub struct ChannelStatV {
    pub key: Seq<char>,
    pub name: Seq<char>,
    pub unit: Seq<char>,
    pub samples: u32,
    pub last_raw: i64,
}

impl View for ChannelStat {
    type V = ChannelStatV;

    open spec fn view(&self) -> ChannelStatV {
        ChannelStatV {
            key: self.key@,
            name: self.name@,
            unit: self.unit@,
            samples: self.samples,
            last_raw: self.last_raw,
        }
    }
}

/// A report row as plain values.
pub struct RowV {
    pub kind: Seq<char>,
    pub request_hex: Seq<char>,
    pub ok: bool,
    pub detail: Seq<char>,
    pub channel_raw: Option<i64>,
}

impl View for TraceReportRow {
    type V = RowV;

    open spec fn view(&self) -> RowV {
        RowV {
            kind: self.kind@,
            request_hex: self.request_hex@,
            ok: self.ok,
            detail: self.detail@,
            channel_raw: self.channel_raw,
        }
    }
}

/// What the analysis has found so far, with exact (unsaturated) counts.
pub struct Findings {
    pub init_seen: bool,
    pub exchanges: nat,
    pub negative: nat,
    pub unparsed: nat,
    pub keepalives: nat,
    pub dtc_reads: nat,
    pub dtc_last_count: Option<nat>,
    pub identity: Option<Seq<char>>,
    pub channels: Seq<ChannelStatV>,
    pub rows: Seq<RowV>,
    pub truncated: bool,
}

/// A row is kept while there is room; the list is marked truncated when
/// one no longer fits. Only the first acknowledged keep-alive gets a row.
pub open spec fn with_row(f: Findings, row: RowV, keepalive: bool) -> Findings {
    if keepalive && sat_u32(f.keepalives) > 1 {
        f
    } else if f.rows.len() < MAX_ROWS {
        Findings { rows: f.rows.push(row), ..f }
    } else {
        Findings { truncated: true, ..f }
    }
}

/// What a row says of a positive response `resp` to a request of sort
/// `tag`: whether it was read, in words, and a channel's raw value.
pub open spec fn response_row(def: EcuDefinition, tag: KindTag, resp: Seq<u8>) -> (bool, Seq<char>, Option<i64>) {
    match tag {
        KindTag::Channel(k) => match spec_raw_value(key_channel(def.channels@, k as int), resp) {
            Some(raw) => (true, Seq::empty(), Some(raw)),
            None => (false, "response too short to decode"@, None),
        },
        KindTag::Identification => {
            let skip = if def.identification.skip_bytes <= resp.len() {
                def.identification.skip_bytes as int
            } else {
                resp.len() as int
            };
            (true, "ECU identifies as: "@ + printable(utf8_lossy(resp.subrange(skip, resp.len() as int))), None)
        },
        KindTag::ReadDtcs => (true, decimal(dtc_count(resp)) + " stored fault code(s)"@, None),
        KindTag::TesterPresent => (true, "keep-alive acknowledged"@, None),
        _ => (true, "response: "@ + hex_spaced(resp), None),
    }
}

/// The row of the init handshake.
pub open spec fn init_row(raw_tx: Option<Seq<u8>>) -> RowV {
    RowV {
        kind: "init handshake"@,
        request_hex: match raw_tx {
            Some(b) => hex_spaced(b),
            None => Seq::empty(),
        },
        ok: true,
        detail: "pre-session bytes (wake-up / key bytes)"@,
        channel_raw: None,
    }
}

/// The row of a 5-baud init.
pub open spec fn five_baud_row(address: u8) -> RowV {
    RowV {
        kind: "init"@,
        request_hex: "5-baud address 0x"@ + hex2(address),
        ok: true,
        detail: "slow init wake-up"@,
        channel_raw: None,
    }
}

/// The exchange still open while a trace is read: the request frame
/// (payload, raw bytes) if one was sent, unframed transmitted bytes, the
/// bytes received since, and whether any request frame was seen yet.
pub struct OpenExchange {
    pub request: Option<(Seq<u8>, Seq<u8>)>,
    pub raw_tx: Option<Seq<u8>>,
    pub rx: Seq<u8>,
    pub started: bool,
}

/// The first statistic from `i` on for channel `key`.
pub open spec fn stat_index(chs: Seq<ChannelStatV>, key: Seq<char>, i: int) -> Option<int>
    decreases chs.len() - i,
{
    if i < 0 || i >= chs.len() {
        None
    } else if chs[i].key == key {
        Some(i)
    } else {
        stat_index(chs, key, i + 1)
    }
}

/// The statistics after a sample `raw` of channel `ch`: its entry counts
/// one more sample (saturating) and keeps the value; a first sample adds
/// an entry.
pub open spec fn recorded_stats(chs: Seq<ChannelStatV>, ch: Channel, raw: i64) -> Seq<ChannelStatV> {
    match stat_index(chs, ch.key@, 0) {
        Some(i) => chs.update(
            i,
            ChannelStatV {
                key: chs[i].key,
                name: chs[i].name,
                unit: chs[i].unit,
                samples: sat_u32((chs[i].samples + 1) as nat),
                last_raw: raw,
            },
        ),
        None => chs.push(ChannelStatV { key: ch.key@, name: ch.name@, unit: ch.unit@, samples: 1, last_raw: raw }),
    }
}

proof fn lemma_stat_index_found(chs: Seq<ChannelStatV>, key: Seq<char>, i: int)
    requires
        0 <= i,
    ensures
        stat_index(chs, key, i) matches Some(k) ==> i <= k < chs.len() && chs[k].key == key && forall|j: int|
            i <= j < k ==> (#[trigger] chs[j]).key != key,
        stat_index(chs, key, i) is None ==> forall|j: int| i <= j < chs.len() ==> (#[trigger] chs[j]).key != key,
    decreases chs.len() - i,
{
    if i < chs.len() {
        lemma_stat_index_found(chs, key, i + 1);
    }
}

proof fn lemma_stat_index_at(chs: Seq<ChannelStatV>, key: Seq<char>, i: int, k: int)
    requires
        0 <= i <= k < chs.len(),
        chs[k].key == key,
        forall|j: int| i <= j < k ==> (#[trigger] chs[j]).key != key,
    ensures
        stat_index(chs, key, i) == Some(k),
    decreases k - i,
{
    if i < k {
        lemma_stat_index_at(chs, key, i + 1, k);
    }
}

/// Law: a decoded sample becomes its channel's latest value. Afterwards the
/// statistic found for the channel's key holds exactly this raw value and
/// one more sample (the first sample starts the count at one, and the count
/// stops at the top of `u32`); the statistic of every other key is found
/// where it was, unchanged.
pub proof fn lemma_sample_is_latest(chs: Seq<ChannelStatV>, ch: Channel, raw: i64)
    ensures
        ({
            let after = recorded_stats(chs, ch, raw);
            &&& stat_index(after, ch.key@, 0) matches Some(i) && after[i].last_raw == raw && match stat_index(
                chs,
                ch.key@,
                0,
            ) {
                Some(j) => i == j && (chs[j].samples < u32::MAX ==> after[i].samples == chs[j].samples + 1)
                    && (chs[j].samples == u32::MAX ==> after[i].samples == u32::MAX),
                None => i == chs.len() && after[i].samples == 1,
            }
            &&& forall|key: Seq<char>|
                key != ch.key@ ==> #[trigger] stat_index(after, key, 0) == stat_index(chs, key, 0)
                    && (stat_index(chs, key, 0) matches Some(m) ==> after[m] == chs[m])
        }),
{
    let key = ch.key@;
    let after = recorded_stats(chs, ch, raw);
    lemma_stat_index_found(chs, key, 0);
    match stat_index(chs, key, 0) {
        Some(j) => {
            lemma_stat_index_at(after, key, 0, j);
        },
        None => {
            lemma_stat_index_at(after, key, 0, chs.len() as int);
        },
    }
    let i = stat_index(after, key, 0)->Some_0;
    assert forall|k2: Seq<char>| k2 != key implies #[trigger] stat_index(after, k2, 0) == stat_index(chs, k2, 0)
        && (stat_index(chs, k2, 0) matches Some(m) ==> after[m] == chs[m]) by {
        lemma_stat_index_found(chs, k2, 0);
        lemma_stat_index_found(after, k2, 0);
        match stat_index(chs, k2, 0) {
            Some(m) => {
                assert(m != i);
                assert(after[m] == chs[m]);
                assert forall|j: int| 0 <= j < m implies (#[trigger] after[j]).key != k2 by {
                    if j != i {
                        assert(after[j] == chs[j]);
                    }
                }
                lemma_stat_index_at(after, k2, 0, m);
            },
            None => {
                if stat_index(after, k2, 0) is Some {
                    let m = stat_index(after, k2, 0)->Some_0;
                    if m != i && m < chs.len() {
                        assert(after[m] == chs[m]);
                    }
                }
            },
        }
    }
}

/// What a positive response `resp` to a request of sort `tag` adds.
pub open spec fn after_response(def: EcuDefinition, f: Findings, tag: KindTag, resp: Seq<u8>) -> Findings {
    match tag {
        KindTag::Channel(k) => match spec_raw_value(key_channel(def.channels@, k as int), resp) {
            Some(raw) => Findings { channels: recorded_stats(f.channels, key_channel(def.channels@, k as int), raw), ..f },
            None => f,
        },
        KindTag::Identification => {
            let skip = if def.identification.skip_bytes <= resp.len() {
                def.identification.skip_bytes as int
            } else {
                resp.len() as int
            };
            Findings { identity: Some(printable(utf8_lossy(resp.subrange(skip, resp.len() as int)))), ..f }
        },
        KindTag::ReadDtcs => Findings {
            dtc_reads: f.dtc_reads + 1,
            dtc_last_count: Some(dtc_count(resp)),
            ..f
        },
        KindTag::TesterPresent => Findings { keepalives: f.keepalives + 1, ..f },
        _ => f,
    }
}

/// What closing an open exchange adds: a request frame counts as an
/// exchange, its first response frame (the echo of the request skipped) is
/// refused (0x7F) or read; traffic before the first request frame is the
/// init handshake; unframeable received bytes are counted.
pub open spec fn after_close(def: EcuDefinition, f: Findings, o: OpenExchange) -> Findings {
    if o.request is None && o.raw_tx is None && o.rx.len() == 0 {
        f
    } else {
        match o.request {
            None => if !o.started {
                with_row(Findings { init_seen: true, ..f }, init_row(o.raw_tx), false)
            } else {
                Findings { unparsed: f.unparsed + rx_run(o.rx, None).1, ..f }
            },
            Some((payload, raw)) => {
                let run = rx_run(o.rx, Some(raw));
                let f1 = Findings { exchanges: f.exchanges + 1, unparsed: f.unparsed + run.1, ..f };
                let tag = request_tag(def, payload);
                let keepalive = tag == KindTag::TesterPresent;
                let kind = request_label(def, payload);
                let request_hex = hex_spaced(raw);
                if run.0.len() == 0 {
                    with_row(
                        f1,
                        RowV { kind, request_hex, ok: false, detail: "no response captured in the trace"@, channel_raw: None },
                        keepalive,
                    )
                } else if run.0[0].0.len() > 0 && run.0[0].0[0] == 0x7F {
                    let resp = run.0[0].0;
                    let nrc: u8 = if resp.len() > 2 { resp[2] } else { 0 };
                    with_row(
                        Findings { negative: f1.negative + 1, ..f1 },
                        RowV { kind, request_hex, ok: false, detail: "negative response, NRC 0x"@ + hex2(nrc), channel_raw: None },
                        keepalive,
                    )
                } else {
                    let (ok, detail, channel_raw) = response_row(def, tag, run.0[0].0);
                    with_row(
                        after_response(def, f1, tag, run.0[0].0),
                        RowV { kind, request_hex, ok, detail, channel_raw },
                        keepalive,
                    )
                }
            },
        }
    }
}

/// Law: closing an exchange whose request is channel `k`'s and whose first
/// answer is a positive response that decodes to `v` leaves `v` as that
/// channel's latest value, whatever was recorded before.
pub proof fn lemma_exchange_sample(
    def: EcuDefinition,
    f: Findings,
    o: OpenExchange,
    payload: Seq<u8>,
    raw_tx: Seq<u8>,
    k: usize,
    v: i64,
)
    requires
        o.request == Some((payload, raw_tx)),
        request_tag(def, payload) == KindTag::Channel(k),
        rx_run(o.rx, Some(raw_tx)).0.len() > 0,
        !(rx_run(o.rx, Some(raw_tx)).0[0].0.len() > 0 && rx_run(o.rx, Some(raw_tx)).0[0].0[0] == 0x7F),
        spec_raw_value(key_channel(def.channels@, k as int), rx_run(o.rx, Some(raw_tx)).0[0].0) == Some(v),
    ensures
        stat_index(after_close(def, f, o).channels, key_channel(def.channels@, k as int).key@, 0) matches Some(
            i,
        ) && after_close(def, f, o).channels[i].last_raw == v,
{
    let ch = key_channel(def.channels@, k as int);
    let run = rx_run(o.rx, Some(raw_tx));
    let f1 = Findings { exchanges: f.exchanges + 1, unparsed: f.unparsed + run.1, ..f };
    lemma_sample_is_latest(f.channels, ch, v);
    assert(after_response(def, f1, KindTag::Channel(k), run.0[0].0).channels == recorded_stats(f.channels, ch, v));
}

/// Law: each positive answer counts once and the latest one wins: a DTC
/// read leaves its own code count as the last one seen and counts one more
/// read, an identification answer replaces any earlier identity, a
/// keep-alive counts one more; no answer touches what another sort of
/// request recorded.
pub proof fn lemma_latest_answer_wins(def: EcuDefinition, f: Findings, tag: KindTag, resp: Seq<u8>)
    ensures
        tag == KindTag::ReadDtcs ==> after_response(def, f, tag, resp).dtc_last_count == Some(dtc_count(resp))
            && after_response(def, f, tag, resp).dtc_reads == f.dtc_reads + 1,
        tag != KindTag::ReadDtcs ==> after_response(def, f, tag, resp).dtc_last_count == f.dtc_last_count
            && after_response(def, f, tag, resp).dtc_reads == f.dtc_reads,
        tag == KindTag::Identification ==> after_response(def, f, tag, resp).identity == Some(
            printable(utf8_lossy(crate::session::ident_bytes(resp, def.identification.skip_bytes))),
        ),
        tag != KindTag::Identification ==> after_response(def, f, tag, resp).identity == f.identity,
        tag == KindTag::TesterPresent ==> after_response(def, f, tag, resp).keepalives == f.keepalives + 1,
        tag != KindTag::TesterPresent ==> after_response(def, f, tag, resp).keepalives == f.keepalives,
        !(tag is Channel) ==> after_response(def, f, tag, resp).channels == f.channels,
        after_response(def, f, tag, resp).exchanges == f.exchanges,
        after_response(def, f, tag, resp).negative == f.negative,
        after_response(def, f, tag, resp).rows == f.rows,
{
    if def.identification.skip_bytes <= resp.len() {
        assert(resp.subrange(def.identification.skip_bytes as int, resp.len() as int) =~= resp.skip(
            def.identification.skip_bytes as int,
        ));
    } else {
        assert(resp.subrange(resp.len() as int, resp.len() as int) =~= Seq::<u8>::empty());
    }
}

/// Law: closing any other exchange (no request, not a channel's request,
/// no answer, a refusal, or an answer too short for the channel) leaves
/// every channel statistic as it was.
pub proof fn lemma_exchange_without_sample(def: EcuDefinition, f: Findings, o: OpenExchange)
    requires
        match o.request {
            None => true,
            Some((payload, raw_tx)) => match request_tag(def, payload) {
                KindTag::Channel(k) => {
                    let run = rx_run(o.rx, Some(raw_tx));
                    ||| run.0.len() == 0
                    ||| run.0[0].0.len() > 0 && run.0[0].0[0] == 0x7F
                    ||| spec_raw_value(key_channel(def.channels@, k as int), run.0[0].0) is None
                },
                _ => true,
            },
        },
    ensures
        after_close(def, f, o).channels == f.channels,
{
}

pub open spec fn no_findings() -> Findings {
    Findings {
        init_seen: false,
        exchanges: 0,
        negative: 0,
        unparsed: 0,
        keepalives: 0,
        dtc_reads: 0,
        dtc_last_count: None,
        identity: None,
        channels: Seq::empty(),
        rows: Seq::empty(),
        truncated: false,
    }
}

/// One event of a trace read: a transmission closes the open exchange (a
/// framed one opens the next; StartCommunication marks the init), received
/// bytes gather in the open exchange, and line events close it and mark the
/// init (a 5-baud address with a row of its own).
pub open spec fn scan_step(def: EcuDefinition, f: Findings, o: OpenExchange, e: TraceEvent) -> (Findings, OpenExchange) {
    match e.kind {
        EventKind::Bytes { hex } => if e.dir == TraceDirection::Tx {
            let f2 = after_close(def, f, o);
            match spec_parse(hex.0@) {
                SpecParse::Complete { payload, consumed, .. } => (
                    Findings { init_seen: f2.init_seen || (payload.len() > 0 && payload[0] == 0x81), ..f2 },
                    OpenExchange {
                        request: Some((payload, hex.0@.take(consumed as int))),
                        raw_tx: None,
                        rx: Seq::empty(),
                        started: true,
                    },
                ),
                _ => (f2, OpenExchange { request: None, raw_tx: Some(hex.0@), rx: Seq::empty(), started: o.started }),
            }
        } else {
            (f, OpenExchange { rx: o.rx + hex.0@, ..o })
        },
        EventKind::FiveBaudAddress { address } => (
            with_row(Findings { init_seen: true, ..after_close(def, f, o) }, five_baud_row(address), false),
            OpenExchange { request: None, raw_tx: None, rx: Seq::empty(), started: o.started },
        ),
        _ => (
            Findings { init_seen: true, ..after_close(def, f, o) },
            OpenExchange { request: None, raw_tx: None, rx: Seq::empty(), started: o.started },
        ),
    }
}

/// Reading a trace event by event from nothing found and no exchange open.
pub open spec fn scan(def: EcuDefinition, events: Seq<TraceEvent>) -> (Findings, OpenExchange)
    decreases events.len(),
{
    if events.len() == 0 {
        (no_findings(), OpenExchange { request: None, raw_tx: None, rx: Seq::empty(), started: false })
    } else {
        let (f, o) = scan(def, events.drop_last());
        scan_step(def, f, o, events.last())
    }
}

proof fn lemma_after_close_counts(def: EcuDefinition, f: Findings, o: OpenExchange)
    ensures
        after_close(def, f, o).exchanges == f.exchanges + if o.request is Some {
            1nat
        } else {
            0nat
        },
        f.init_seen ==> after_close(def, f, o).init_seen,
{
}

proof fn lemma_scan_counts(def: EcuDefinition, events: Seq<TraceEvent>)
    ensures
        scan(def, events).0.exchanges + (if scan(def, events).1.request is Some {
            1nat
        } else {
            0nat
        }) == framed_tx_count(events),
        has_line_event(events) ==> scan(def, events).0.init_seen,
    decreases events.len(),
{
    if events.len() > 0 {
        let prev = events.drop_last();
        lemma_scan_counts(def, prev);
        let (f, o) = scan(def, prev);
        lemma_after_close_counts(def, f, o);
        if has_line_event(events) && !is_line_event(events.last()) {
            let w = choose|w: int| 0 <= w < events.len() && is_line_event(#[trigger] events[w]);
            assert(prev[w] == events[w]);
        }
    }
}

/// Everything the analysis of `events` finds.
pub open spec fn findings(def: EcuDefinition, events: Seq<TraceEvent>) -> Findings {
    after_close(def, scan(def, events).0, scan(def, events).1)
}

/// A report agrees with findings: the counts are the findings' counts
/// saturated to 32 bits, and the identity, DTC and channel figures are
/// theirs.
pub open spec fn report_shows(r: TraceReport, f: Findings) -> bool {
    &&& r.init_seen == f.init_seen
    &&& r.exchange_count == sat_u32(f.exchanges)
    &&& r.negative_responses == sat_u32(f.negative)
    &&& r.unparsed_rx_bytes == sat_u32(f.unparsed)
    &&& r.tester_present == sat_u32(f.keepalives)
    &&& r.dtc_reads == sat_u32(f.dtc_reads)
    &&& (match f.dtc_last_count {
        Some(n) => r.dtc_last_count matches Some(c) && c == n,
        None => r.dtc_last_count is None,
    })
    &&& (match f.identity {
        Some(t) => r.identity matches Some(s) && s@ == t,
        None => r.identity is None,
    })
    &&& r.channels@.map_values(|c: ChannelStat| c@) == f.channels
    &&& r.rows@.map_values(|row: TraceReportRow| row@) == f.rows
    &&& r.rows_truncated == f.truncated
}

/// Rows stay within their cap, truncation only once full, and refused
/// exchanges are among the exchanges.
pub open spec fn report_ok(r: TraceReport) -> bool {
    &&& r.rows@.len() <= MAX_ROWS
    &&& r.rows_truncated ==> r.rows@.len() == MAX_ROWS
    &&& r.negative_responses <= r.exchange_count
}

/// Close the exchange in progress: pair the pending request with the Rx
/// bytes gathered since, classify it, and add its row. Traffic with no
/// framed request before the first framed one is the init handshake.
fn finish_exchange(
    def: &EcuDefinition,
    report: &mut TraceReport,
    pending: &mut Option<Frame>,
    pending_raw_tx: &mut Option<Vec<u8>>,
    rx_buf: &mut Vec<u8>,
    framed_started: bool,
    Ghost(f): Ghost<Findings>,
)
    requires
        *old(pending) matches Some(fr) ==> request_decodable(*def, fr.payload@),
        report_ok(*old(report)),
        report_shows(*old(report), f),
    ensures
        report_shows(
            *final(report),
            after_close(*def, f, open_of(*old(pending), *old(pending_raw_tx), old(rx_buf)@, framed_started)),
        ),
        report_ok(*final(report)),
        final(report).definition_id == old(report).definition_id,
        final(report).event_count == old(report).event_count,
        old(report).init_seen ==> final(report).init_seen,
        final(report).exchange_count == sat_u32(
            (old(report).exchange_count + if *old(pending) is Some {
                1nat
            } else {
                0nat
            }) as nat,
        ),
        *final(pending) is None,
        *final(pending_raw_tx) is None,
        final(rx_buf)@.len() == 0,
{
    if pending.is_none() && pending_raw_tx.is_none() && rx_buf.len() == 0 {
        return;
    }
    let request = pending.take();
    let raw_tx = pending_raw_tx.take();
    let (frames, unparsed) = parse_rx_run(rx_buf.as_slice(), request.as_ref());
    rx_buf.clear();
    match request {
        None => {
            if !framed_started {
                report.init_seen = true;
                let request_hex = match &raw_tx {
                    Some(bytes) => hex(bytes.as_slice()),
                    None => String::new(),
                };
                push_row(
                    report,
                    TraceReportRow {
                        kind: String::from_str("init handshake"),
                        request_hex,
                        ok: true,
                        detail: String::from_str("pre-session bytes (wake-up / key bytes)"),
                        channel_raw: None,
                    },
                    false,
                );
            } else {
                proof {
                    lemma_sat_add(f.unparsed, rx_run(old(rx_buf)@, None).1);
                }
                report.unparsed_rx_bytes = sat_add(report.unparsed_rx_bytes, unparsed);
            }
        },
        Some(request) => {
            let ghost run = rx_run(old(rx_buf)@, Some(request.raw@));
            proof {
                lemma_sat_inc(f.exchanges);
                lemma_sat_add(f.unparsed, run.1);
            }
            report.exchange_count = sat_inc(report.exchange_count);
            report.unparsed_rx_bytes = sat_add(report.unparsed_rx_bytes, unparsed);
            let ghost f1 = Findings { exchanges: f.exchanges + 1, unparsed: f.unparsed + run.1, ..f };
            assert(frame_models(frames@) == run.0);
            if frames.len() > 0 {
                assert(frames@[0].payload@ == run.0[0].0);
            }
            let kind = classify(def, request.payload.as_slice());
            proof {
                lemma_channel_request_index(def.channels@, request.payload@, 0);
            }
            let ghost mut fx = f1;
            let (ok, detail, channel_raw) = if frames.len() == 0 {
                (false, String::from_str("no response captured in the trace"), None)
            } else if frames[0].payload.len() > 0 && frames[0].payload[0] == 0x7F {
                proof {
                    fx = Findings { negative: f1.negative + 1, ..f1 };
                }
                proof {
                    lemma_sat_inc(f1.negative);
                }
                report.negative_responses = sat_inc(report.negative_responses);
                let nrc = if frames[0].payload.len() > 2 {
                    frames[0].payload[2]
                } else {
                    0
                };
                let mut detail = String::from_str("negative response, NRC 0x");
                push_hex2(&mut detail, nrc);
                (false, detail, None)
            } else {
                proof {
                    fx = after_response(*def, f1, kind.tag, frames@[0].payload@);
                }
                describe_response(def, &kind, &frames[0], report, Ghost(f1))
            };
            assert(report_shows(*report, fx));
            let keepalive = match kind.tag {
                KindTag::TesterPresent => true,
                _ => false,
            };
            let request_hex = hex(request.raw.as_slice());
            let row = TraceReportRow { kind: kind.label, request_hex, ok, detail, channel_raw };
            let ghost rv = row@;
            push_row(report, row, keepalive);
            assert(report_shows(*report, with_row(fx, rv, keepalive)));
        },
    }
}

/// Take one event of a trace into the report and the open exchange.
fn take_event(
    def: &EcuDefinition,
    report: &mut TraceReport,
    pending: &mut Option<Frame>,
    pending_raw_tx: &mut Option<Vec<u8>>,
    rx_buf: &mut Vec<u8>,
    framed_started: &mut bool,
    event: &TraceEvent,
    Ghost(f): Ghost<Findings>,
)
    requires
        tx_request(*event) matches Some(p) ==> request_decodable(*def, p),
        *old(pending) matches Some(fr) ==> request_decodable(*def, fr.payload@),
        report_ok(*old(report)),
        report_shows(*old(report), f),
    ensures
        *final(pending) matches Some(fr) ==> request_decodable(*def, fr.payload@),
        report_ok(*final(report)),
        final(report).definition_id == old(report).definition_id,
        final(report).event_count == old(report).event_count,
        report_shows(
            *final(report),
            scan_step(*def, f, open_of(*old(pending), *old(pending_raw_tx), old(rx_buf)@, *old(framed_started)), *event).0,
        ),
        open_of(*final(pending), *final(pending_raw_tx), final(rx_buf)@, *final(framed_started)) == scan_step(
            *def,
            f,
            open_of(*old(pending), *old(pending_raw_tx), old(rx_buf)@, *old(framed_started)),
            *event,
        ).1,
{
    let ghost o = open_of(*pending, *pending_raw_tx, rx_buf@, *framed_started);
    match &event.kind {
        EventKind::Bytes { hex: bytes } => {
            match event.dir {
                TraceDirection::Tx => {
                    finish_exchange(def, report, pending, pending_raw_tx, rx_buf, *framed_started, Ghost(f));
                    match parse_buffer(bytes.0.as_slice()) {
                        ParseStatus::Complete { frame, .. } => {
                            if frame.payload.len() > 0 && frame.payload[0] == 0x81 {
                                report.init_seen = true;
                            }
                            *framed_started = true;
                            *pending = Some(frame);
                        },
                        _ => {
                            *pending_raw_tx = Some(copy_vec(&bytes.0));
                        },
                    }
                    assert(rx_buf@ =~= Seq::<u8>::empty());
                },
                TraceDirection::Rx => {
                    let ghost rx_before = rx_buf@;
                    let mut k: usize = 0;
                    while k < bytes.0.len()
                        invariant
                            k <= bytes.0@.len(),
                            rx_buf@ =~= rx_before + bytes.0@.take(k as int),
                        decreases bytes.0@.len() - k,
                    {
                        rx_buf.push(bytes.0[k]);
                        k = k + 1;
                    }
                    assert(bytes.0@.take(bytes.0@.len() as int) =~= bytes.0@);
                },
            }
        },
        EventKind::Break { .. } | EventKind::Baud { .. } => {
            finish_exchange(def, report, pending, pending_raw_tx, rx_buf, *framed_started, Ghost(f));
            report.init_seen = true;
            assert(rx_buf@ =~= Seq::<u8>::empty());
        },
        EventKind::FiveBaudAddress { address } => {
            finish_exchange(def, report, pending, pending_raw_tx, rx_buf, *framed_started, Ghost(f));
            report.init_seen = true;
            let ghost f2 = Findings { init_seen: true, ..after_close(*def, f, o) };
            assert(report_shows(*report, f2));
            let mut request_hex = String::from_str("5-baud address 0x");
            push_hex2(&mut request_hex, *address);
            let row = TraceReportRow {
                kind: String::from_str("init"),
                request_hex,
                ok: true,
                detail: String::from_str("slow init wake-up"),
                channel_raw: None,
            };
            assert(row@ == five_baud_row(*address));
            push_row(report, row, false);
            assert(rx_buf@ =~= Seq::<u8>::empty());
        },
    }
}

fn decodable(ch: &Channel) -> (b: bool)
    ensures
        b == channel_decodable(*ch),
{
    ch.offset <= usize::MAX - ch.length && (!ch.signed || (1 <= ch.length && ch.length <= 7))
}

/// Whether every channel the trace requests can be decoded: what
/// `analyze` needs of a definition and a trace.
pub fn trace_decodable(def: &EcuDefinition, events: &[TraceEvent]) -> (b: bool)
    ensures
        b == forall|i: int|
            0 <= i < events@.len() ==> (tx_request(#[trigger] events@[i]) matches Some(p) ==> request_decodable(
                *def,
                p,
            )),
{
    let mut i: usize = 0;
    while i < events.len()
        invariant
            i <= events@.len(),
            forall|k: int|
                0 <= k < i ==> (tx_request(#[trigger] events@[k]) matches Some(p) ==> request_decodable(
                    *def,
                    p,
                )),
        decreases events@.len() - i,
    {
        let e = &events[i];
        match (&e.dir, &e.kind) {
            (TraceDirection::Tx, EventKind::Bytes { hex: bytes }) => match parse_buffer(bytes.0.as_slice()) {
                ParseStatus::Complete { frame, .. } => {
                    let kind = classify(def, frame.payload.as_slice());
                    match kind.tag {
                        KindTag::Channel(k) => {
                            proof {
                                lemma_channel_request_index(def.channels@, frame.payload@, 0);
                            }
                            let j = match find_channel_key(&def.channels, def.channels[k].key.as_str()) {
                                Some(j) => j,
                                None => k,
                            };
                            if !decodable(&def.channels[j]) {
                                return false;
                            }
                        },
                        _ => {},
                    }
                },
                _ => {},
            },
            _ => {},
        }
        i = i + 1;
    }
    true
}

/// Analyze a recorded trace against a definition.
///
/// Every transmitted frame opens an exchange that closes at the next
/// transmission, line event or the end of the trace; its row says what the
/// request was and what came back. Line events (breaks, baud changes,
/// 5-baud addresses) mark the init as seen.
pub fn analyze(def: &EcuDefinition, events: &[TraceEvent]) -> (r: TraceReport)
    requires
        forall|i: int|
            0 <= i < events@.len() ==> (tx_request(#[trigger] events@[i]) matches Some(p) ==> request_decodable(
                *def,
                p,
            )),
    ensures
        r.definition_id == def.ecu.id,
        r.event_count == events@.len(),
        r.exchange_count == sat_u32(framed_tx_count(events@)),
        has_line_event(events@) ==> r.init_seen,
        report_ok(r),
        report_shows(r, findings(*def, events@)),
{
    let mut report = TraceReport {
        definition_id: def.ecu.id.clone(),
        event_count: events.len(),
        exchange_count: 0,
        init_seen: false,
        identity: None,
        channels: Vec::new(),
        dtc_reads: 0,
        dtc_last_count: None,
        tester_present: 0,
        negative_responses: 0,
        unparsed_rx_bytes: 0,
        rows: Vec::new(),
        rows_truncated: false,
    };
    let mut pending: Option<Frame> = None;
    let mut pending_raw_tx: Option<Vec<u8>> = None;
    let mut rx_buf: Vec<u8> = Vec::new();
    let mut framed_started = false;
    assert(report.channels@.map_values(|c: ChannelStat| c@) =~= Seq::<ChannelStatV>::empty());
    assert(report.rows@.map_values(|row: TraceReportRow| row@) =~= Seq::<RowV>::empty());
    assert(rx_buf@ =~= Seq::<u8>::empty());
    let mut i: usize = 0;
    assert(events@.take(0) =~= Seq::<TraceEvent>::empty());
    while i < events.len()
        invariant
            i <= events@.len(),
            forall|k: int|
                0 <= k < events@.len() ==> (tx_request(#[trigger] events@[k]) matches Some(p)
                    ==> request_decodable(*def, p)),
            pending matches Some(fr) ==> request_decodable(*def, fr.payload@),
            report.definition_id == def.ecu.id,
            report.event_count == events@.len(),
            report_ok(report),
            report_shows(report, scan(*def, events@.take(i as int)).0),
            open_of(pending, pending_raw_tx, rx_buf@, framed_started) == scan(*def, events@.take(i as int)).1,
        decreases events@.len() - i,
    {
        proof {
            assert(events@.take(i + 1).drop_last() =~= events@.take(i as int));
            assert(events@.take(i + 1).last() == events@[i as int]);
        }
        take_event(
            def,
            &mut report,
            &mut pending,
            &mut pending_raw_tx,
            &mut rx_buf,
            &mut framed_started,
            &events[i],
            Ghost(scan(*def, events@.take(i as int)).0),
        );
        i = i + 1;
    }
    assert(events@.take(i as int) =~= events@);
    finish_exchange(
        def,
        &mut report,
        &mut pending,
        &mut pending_raw_tx,
        &mut rx_buf,
        framed_started,
        Ghost(scan(*def, events@).0),
    );
    proof {
        lemma_scan_counts(*def, events@);
        lemma_after_close_counts(*def, scan(*def, events@).0, scan(*def, events@).1);
    }
    report
}

} // verus!
