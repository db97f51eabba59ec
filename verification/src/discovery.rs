//! Protocol discovery: ask the ECU directly instead of reverse-engineering
//! another tool's traffic.
//!
//! Definitions for unconfirmed ECUs ship with placeholder local
//! identifiers, DTC formats and identification option bytes. This module
//! scans the ECU's request space and records everything, so one run gives
//! both a readable report and, through a trace sink, a replayable fixture.

use vstd::prelude::*;
use crate::error::AppError;
use crate::kwp::{kwp_message, KwpError};
use crate::kwp_session::KwpSession;
use crate::schema::EcuDefinition;
use crate::services::{READ_DATA_BY_LOCAL_ID, READ_DTC_BY_STATUS, READ_ECU_IDENTIFICATION};
use crate::session::{init_kwp_session, positive_to, ConnectOptions};
use crate::text::{bytes_eq, debug_hex, decimal, hex2, push_debug_hex, push_decimal, push_hex2};
use crate::trace::{TraceSink, TracingTransport};
use crate::transport::KLineTransport;

verus! {

#[derive(Debug, PartialEq, Eq)]
pub struct ProbeOutcome {
    /// `Ok` with the positive-response payload, or why the probe didn't get
    /// one (negative response code, timeout, ...).
    pub result: Result<Vec<u8>, String>,
}

impl Clone for ProbeOutcome {
    fn clone(&self) -> (c: Self)
        ensures
            self.result matches Ok(b) ==> c.result matches Ok(d) && d@ == b@,
            self.result matches Err(m) ==> c.result matches Err(n) && n == m,
    {
        match &self.result {
            Ok(bytes) => ProbeOutcome { result: Ok(bytes.clone()) },
            Err(reason) => ProbeOutcome { result: Err(reason.clone()) },
        }
    }
}

#[derive(Debug, Clone, PartialEq, Eq)]
pub struct LocalIdProbe {
    pub local_id: u8,
    pub outcome: ProbeOutcome,
    /// True if a second read returned different bytes: a strong hint this
    /// local ID is a live sensor rather than static configuration data.
    pub looks_live: bool,
}

#[derive(Debug, Clone, PartialEq, Eq)]
pub struct IdentificationProbe {
    pub option_byte: u8,
    pub outcome: ProbeOutcome,
}

#[derive(Debug, Clone, PartialEq, Eq)]
pub struct DtcProbe {
    pub request: Vec<u8>,
    pub outcome: ProbeOutcome,
}

#[derive(Debug, Clone, PartialEq, Eq, Default)]
pub struct DiscoveryReport {
    pub identification: Vec<IdentificationProbe>,
    pub dtc: Vec<DtcProbe>,
    pub local_identifiers: Vec<LocalIdProbe>,
}

/// The probes that got a positive response, in order.
pub open spec fn responsive(ps: Seq<LocalIdProbe>) -> Seq<LocalIdProbe>
    decreases ps.len(),
{
    if ps.len() == 0 {
        Seq::empty()
    } else if ps.last().outcome.result is Ok {
        responsive(ps.drop_last()).push(ps.last())
    } else {
        responsive(ps.drop_last())
    }
}

/// The texts `f` gives each item, one after another.
pub open spec fn concat_map<A>(items: Seq<A>, f: spec_fn(A) -> Seq<char>) -> Seq<char>
    decreases items.len(),
{
    if items.len() == 0 {
        Seq::empty()
    } else {
        concat_map(items.drop_last(), f) + f(items.last())
    }
}

/// A probe result as the summary shows it: the bytes, or why there were none.
pub open spec fn outcome_text(o: ProbeOutcome) -> Seq<char> {
    match o.result {
        Ok(bytes) => debug_hex(bytes@),
        Err(reason) => reason@,
    }
}

pub open spec fn identification_line(p: IdentificationProbe) -> Seq<char> {
    "  0x"@ + hex2(p.option_byte) + ": "@ + outcome_text(p.outcome) + "\n"@
}

pub open spec fn dtc_line(p: DtcProbe) -> Seq<char> {
    "  "@ + debug_hex(p.request@) + ": "@ + outcome_text(p.outcome) + "\n"@
}

pub open spec fn local_id_line(p: LocalIdProbe) -> Seq<char> {
    "  0x"@ + hex2(p.local_id) + ": "@ + outcome_text(p.outcome) + (if p.looks_live {
        " (changed between polls — likely live)"@
    } else {
        Seq::empty()
    }) + "\n"@
}

/// The plain-text summary of a report.
pub open spec fn spec_summary(r: DiscoveryReport) -> Seq<char> {
    let live = responsive(r.local_identifiers@);
    "== ReadEcuIdentification option bytes ==\n"@ + concat_map(
        r.identification@,
        |p: IdentificationProbe| identification_line(p),
    ) + "== ReadDTCByStatus variants ==\n"@ + concat_map(r.dtc@, |p: DtcProbe| dtc_line(p))
        + "== ReadDataByLocalIdentifier: "@ + decimal(live.len()) + " of "@ + decimal(
        r.local_identifiers@.len(),
    ) + " IDs responded ==\n"@ + concat_map(live, |p: LocalIdProbe| local_id_line(p))
}

fn push_outcome(s: &mut String, o: &ProbeOutcome)
    ensures
        final(s)@ == old(s)@ + outcome_text(*o),
{
    match &o.result {
        Ok(bytes) => push_debug_hex(s, bytes.as_slice()),
        Err(reason) => s.append(reason.as_str()),
    }
}

impl DiscoveryReport {
    /// Local IDs that got a positive response: the ones worth turning into
    /// channel entries in the definition file.
    pub fn responsive_local_ids(&self) -> (r: Vec<&LocalIdProbe>)
        ensures
            r@.len() == responsive(self.local_identifiers@).len(),
            forall|i: int| 0 <= i < r@.len() ==> *r@[i] == responsive(self.local_identifiers@)[i],
    {
        let mut r: Vec<&LocalIdProbe> = Vec::new();
        let mut i: usize = 0;
        while i < self.local_identifiers.len()
            invariant
                i <= self.local_identifiers@.len(),
                r@.len() == responsive(self.local_identifiers@.take(i as int)).len(),
                forall|j: int|
                    0 <= j < r@.len() ==> *r@[j] == responsive(self.local_identifiers@.take(i as int))[j],
            decreases self.local_identifiers@.len() - i,
        {
            let p = &self.local_identifiers[i];
            proof {
                assert(self.local_identifiers@.take(i + 1).drop_last() =~= self.local_identifiers@.take(i as int));
            }
            if p.outcome.result.is_ok() {
                r.push(p);
            }
            i = i + 1;
        }
        assert(self.local_identifiers@.take(i as int) =~= self.local_identifiers@);
        r
    }

    /// A plain-text summary for a terminal, or to save beside the wire
    /// trace fixture.
    pub fn summary(&self) -> (s: String)
        requires
            self.local_identifiers@.len() <= u64::MAX,
        ensures
            s@ == spec_summary(*self),
    {
        let mut out = String::from_str("== ReadEcuIdentification option bytes ==\n");
        let ghost h1 = out@;
        let mut i: usize = 0;
        while i < self.identification.len()
            invariant
                i <= self.identification@.len(),
                out@ == h1 + concat_map(
                    self.identification@.take(i as int),
                    |p: IdentificationProbe| identification_line(p),
                ),
            decreases self.identification@.len() - i,
        {
            proof {
                assert(self.identification@.take(i + 1).drop_last() =~= self.identification@.take(i as int));
            }
            let p = &self.identification[i];
            out.append("  0x");
            push_hex2(&mut out, p.option_byte);
            out.append(": ");
            push_outcome(&mut out, &p.outcome);
            out.append("\n");
            i = i + 1;
            assert(out@ =~= h1 + concat_map(
                self.identification@.take(i as int),
                |p: IdentificationProbe| identification_line(p),
            ));
        }
        assert(self.identification@.take(i as int) =~= self.identification@);
        out.append("== ReadDTCByStatus variants ==\n");
        let ghost h2 = out@;
        let mut i: usize = 0;
        while i < self.dtc.len()
            invariant
                i <= self.dtc@.len(),
                out@ == h2 + concat_map(self.dtc@.take(i as int), |p: DtcProbe| dtc_line(p)),
            decreases self.dtc@.len() - i,
        {
            proof {
                assert(self.dtc@.take(i + 1).drop_last() =~= self.dtc@.take(i as int));
            }
            let p = &self.dtc[i];
            out.append("  ");
            push_debug_hex(&mut out, p.request.as_slice());
            out.append(": ");
            push_outcome(&mut out, &p.outcome);
            out.append("\n");
            i = i + 1;
            assert(out@ =~= h2 + concat_map(self.dtc@.take(i as int), |p: DtcProbe| dtc_line(p)));
        }
        assert(self.dtc@.take(i as int) =~= self.dtc@);
        let live = self.responsive_local_ids();
        let ghost lv = responsive(self.local_identifiers@);
        proof {
            lemma_responsive_len(self.local_identifiers@);
        }
        out.append("== ReadDataByLocalIdentifier: ");
        push_decimal(&mut out, live.len() as u64);
        out.append(" of ");
        push_decimal(&mut out, self.local_identifiers.len() as u64);
        out.append(" IDs responded ==\n");
        let ghost h3 = out@;
        let mut i: usize = 0;
        while i < live.len()
            invariant
                i <= live@.len(),
                live@.len() == lv.len(),
                forall|j: int| 0 <= j < live@.len() ==> *live@[j] == lv[j],
                out@ == h3 + concat_map(lv.take(i as int), |p: LocalIdProbe| local_id_line(p)),
            decreases live@.len() - i,
        {
            proof {
                assert(lv.take(i + 1).drop_last() =~= lv.take(i as int));
            }
            let p = live[i];
            out.append("  0x");
            push_hex2(&mut out, p.local_id);
            out.append(": ");
            push_outcome(&mut out, &p.outcome);
            if p.looks_live {
                out.append(" (changed between polls — likely live)");
            }
            out.append("\n");
            i = i + 1;
            assert(out@ =~= h3 + concat_map(lv.take(i as int), |p: LocalIdProbe| local_id_line(p)));
        }
        assert(lv.take(i as int) =~= lv);
        out
    }
}

proof fn lemma_responsive_len(ps: Seq<LocalIdProbe>)
    ensures
        responsive(ps).len() <= ps.len(),
    decreases ps.len(),
{
    if ps.len() > 0 {
        lemma_responsive_len(ps.drop_last());
    }
}

/// What the summary shows for a request that failed: the error in words.
pub open spec fn probe_of(result: Result<Vec<u8>, KwpError>, o: ProbeOutcome) -> bool {
    match result {
        Ok(bytes) => o.result == Ok::<Vec<u8>, String>(bytes),
        Err(e) => o.result matches Err(m) && m@ == kwp_message(e),
    }
}

/// A request's outcome as a probe records it.
pub fn probe(result: Result<Vec<u8>, KwpError>) -> (o: ProbeOutcome)
    ensures
        probe_of(result, o),
{
    match result {
        Ok(bytes) => ProbeOutcome { result: Ok(bytes) },
        Err(e) => ProbeOutcome { result: Err(e.message()) },
    }
}

#[derive(Debug, Clone, PartialEq, Eq)]
pub struct DiscoveryOptions {
    /// Inclusive range of local identifiers to probe, first to last; empty
    /// when first > last. Defaults to the full byte range.
    pub local_id_first: u8,
    pub local_id_last: u8,
    /// ReadEcuIdentification option bytes to try.
    pub identification_options: Vec<u8>,
    /// ReadDTCByStatus request payloads to try (SID 0x18 + parameters).
    pub dtc_requests: Vec<Vec<u8>>,
    /// How long to let the bus rest between the two live-data polls used to
    /// guess whether a local ID is a live sensor.
    pub live_check_gap_ms: u64,
}

impl Default for DiscoveryOptions {
    fn default() -> (o: Self)
        ensures
            o.local_id_first == 0,
            o.local_id_last == 0xFF,
            o.identification_options@ == seq![0x80u8, 0x86u8, 0x87u8, 0x88u8, 0x89u8, 0x8Au8],
            o.dtc_requests@.len() == 3,
            o.dtc_requests@[0]@ == seq![READ_DTC_BY_STATUS, 0x02u8, 0xFFu8, 0x00u8],
            o.dtc_requests@[1]@ == seq![READ_DTC_BY_STATUS, 0x00u8, 0xFFu8, 0x00u8],
            o.dtc_requests@[2]@ == seq![READ_DTC_BY_STATUS, 0x02u8, 0x00u8, 0x00u8],
            o.live_check_gap_ms == 200,
    {
        DiscoveryOptions {
            local_id_first: 0x00,
            local_id_last: 0xFF,
            identification_options: vec![0x80, 0x86, 0x87, 0x88, 0x89, 0x8A],
            dtc_requests: vec![
                vec![READ_DTC_BY_STATUS, 0x02, 0xFF, 0x00],
                vec![READ_DTC_BY_STATUS, 0x00, 0xFF, 0x00],
                vec![READ_DTC_BY_STATUS, 0x02, 0x00, 0x00],
            ],
            live_check_gap_ms: 200,
        }
    }
}

/// The local identifiers a range covers, in order.
pub open spec fn local_ids(first: u8, last: u8) -> Seq<u8> {
    if first > last {
        Seq::empty()
    } else {
        Seq::new((last - first + 1) as nat, |i: int| (first + i) as u8)
    }
}

/// What a discovery run reports, given its options: one probe per option
/// byte, DTC request and local identifier, in order, each a positive
/// response to its own request when it succeeded.
pub open spec fn report_matches(r: DiscoveryReport, o: DiscoveryOptions) -> bool {
    &&& r.identification@.len() == o.identification_options@.len()
    &&& forall|i: int|
        0 <= i < r.identification@.len() ==> {
            let p = #[trigger] r.identification@[i];
            &&& p.option_byte == o.identification_options@[i]
            &&& p.outcome.result matches Ok(b) ==> positive_to(
                seq![READ_ECU_IDENTIFICATION, p.option_byte],
                b@,
            )
        }
    &&& r.dtc@.len() == o.dtc_requests@.len()
    &&& forall|i: int|
        0 <= i < r.dtc@.len() ==> {
            let p = #[trigger] r.dtc@[i];
            &&& p.request@ == o.dtc_requests@[i]@
            &&& p.outcome.result matches Ok(b) ==> positive_to(p.request@, b@)
        }
    &&& r.local_identifiers@.len() == local_ids(o.local_id_first, o.local_id_last).len()
    &&& forall|i: int|
        0 <= i < r.local_identifiers@.len() ==> {
            let p = #[trigger] r.local_identifiers@[i];
            &&& p.local_id == local_ids(o.local_id_first, o.local_id_last)[i]
            &&& p.outcome.result matches Ok(b) ==> positive_to(
                seq![READ_DATA_BY_LOCAL_ID, p.local_id],
                b@,
            )
            &&& p.looks_live ==> p.outcome.result is Ok
        }
}

fn discover<T: KLineTransport>(kwp: &mut KwpSession<T>, options: &DiscoveryOptions) -> (r: DiscoveryReport)
    requires
        forall|i: int| 0 <= i < options.dtc_requests@.len() ==> (#[trigger] options.dtc_requests@[i])@.len() <= 255,
    ensures
        report_matches(r, *options),
{
    let mut report = DiscoveryReport { identification: Vec::new(), dtc: Vec::new(), local_identifiers: Vec::new() };
    let mut i: usize = 0;
    while i < options.identification_options.len()
        invariant
            i <= options.identification_options@.len(),
            report.identification@.len() == i,
            report.dtc@.len() == 0,
            report.local_identifiers@.len() == 0,
            forall|j: int|
                0 <= j < i ==> {
                    let p = #[trigger] report.identification@[j];
                    &&& p.option_byte == options.identification_options@[j]
                    &&& p.outcome.result matches Ok(b) ==> positive_to(
                        seq![READ_ECU_IDENTIFICATION, p.option_byte],
                        b@,
                    )
                },
        decreases options.identification_options@.len() - i,
    {
        let option_byte = options.identification_options[i];
        let _ = kwp.transport_mut().flush_input();
        let req = vec![READ_ECU_IDENTIFICATION, option_byte];
        let result = kwp.request(req.as_slice());
        assert(req@ =~= seq![READ_ECU_IDENTIFICATION, option_byte]);
        let outcome = probe(result);
        report.identification.push(IdentificationProbe { option_byte, outcome });
        i = i + 1;
    }
    let mut i: usize = 0;
    while i < options.dtc_requests.len()
        invariant
            i <= options.dtc_requests@.len(),
            forall|j: int| 0 <= j < options.dtc_requests@.len() ==> (#[trigger] options.dtc_requests@[j])@.len() <= 255,
            report.identification@.len() == options.identification_options@.len(),
            forall|j: int|
                0 <= j < report.identification@.len() ==> {
                    let p = #[trigger] report.identification@[j];
                    &&& p.option_byte == options.identification_options@[j]
                    &&& p.outcome.result matches Ok(b) ==> positive_to(
                        seq![READ_ECU_IDENTIFICATION, p.option_byte],
                        b@,
                    )
                },
            report.dtc@.len() == i,
            report.local_identifiers@.len() == 0,
            forall|j: int|
                0 <= j < i ==> {
                    let p = #[trigger] report.dtc@[j];
                    &&& p.request@ == options.dtc_requests@[j]@
                    &&& p.outcome.result matches Ok(b) ==> positive_to(p.request@, b@)
                },
        decreases options.dtc_requests@.len() - i,
    {
        let _ = kwp.transport_mut().flush_input();
        let request = options.dtc_requests[i].clone();
        assert(request@.len() <= 255);
        let result = kwp.request(request.as_slice());
        let outcome = probe(result);
        report.dtc.push(DtcProbe { request, outcome });
        i = i + 1;
    }
    let first = options.local_id_first;
    let last = options.local_id_last;
    if first <= last {
        let mut next: u16 = first as u16;
        while next <= last as u16
            invariant
                first <= next <= last as u16 + 1,
                report.identification@.len() == options.identification_options@.len(),
                forall|j: int|
                    0 <= j < report.identification@.len() ==> {
                        let p = #[trigger] report.identification@[j];
                        &&& p.option_byte == options.identification_options@[j]
                        &&& p.outcome.result matches Ok(b) ==> positive_to(
                            seq![READ_ECU_IDENTIFICATION, p.option_byte],
                            b@,
                        )
                    },
                report.dtc@.len() == options.dtc_requests@.len(),
                forall|j: int|
                    0 <= j < report.dtc@.len() ==> {
                        let p = #[trigger] report.dtc@[j];
                        &&& p.request@ == options.dtc_requests@[j]@
                        &&& p.outcome.result matches Ok(b) ==> positive_to(p.request@, b@)
                    },
                options.local_id_first == first,
                options.local_id_last == last,
                report.local_identifiers@.len() == next - first,
                forall|j: int|
                    0 <= j < report.local_identifiers@.len() ==> {
                        let p = #[trigger] report.local_identifiers@[j];
                        &&& p.local_id == first + j
                        &&& p.outcome.result matches Ok(b) ==> positive_to(
                            seq![READ_DATA_BY_LOCAL_ID, p.local_id],
                            b@,
                        )
                        &&& p.looks_live ==> p.outcome.result is Ok
                    },
            decreases last as u16 + 1 - next,
        {
            let id = next as u8;
            let _ = kwp.transport_mut().flush_input();
            let req = vec![READ_DATA_BY_LOCAL_ID, id];
            assert(req@ =~= seq![READ_DATA_BY_LOCAL_ID, id]);
            let first_result = kwp.request(req.as_slice());
            let looks_live = match &first_result {
                Ok(a) => {
                    kwp.transport_mut().pause(options.live_check_gap_ms);
                    let _ = kwp.transport_mut().flush_input();
                    let second = kwp.request(req.as_slice());
                    match &second {
                        Ok(b) => !bytes_eq(a.as_slice(), b.as_slice()),
                        Err(_) => false,
                    }
                },
                Err(_) => false,
            };
            let outcome = probe(first_result);
            report.local_identifiers.push(LocalIdProbe { local_id: id, outcome, looks_live });
            next = next + 1;
        }
    }
    proof {
        assert forall|i: int| 0 <= i < report.local_identifiers@.len() implies (
        #[trigger] report.local_identifiers@[i]).local_id == local_ids(options.local_id_first, options.local_id_last)[i] by {}
    }
    report
}

/// Connect to `def`'s ECU and probe it. With a trace sink, every request
/// and response of the run, the init handshake included, is recorded
/// through a tracing transport, so the run doubles as a wire-trace fixture.
pub fn run_discovery<T: KLineTransport, S: TraceSink>(
    transport: T,
    def: &EcuDefinition,
    connect_options: &ConnectOptions,
    discovery_options: &DiscoveryOptions,
    trace_sink: Option<S>,
) -> (r: Result<DiscoveryReport, AppError>)
    requires
        forall|i: int|
            0 <= i < discovery_options.dtc_requests@.len() ==> (
            #[trigger] discovery_options.dtc_requests@[i])@.len() <= 255,
    ensures
        def.init is None ==> r == Err::<DiscoveryReport, AppError>(AppError::NotKLine(def.ecu.id)),
        r matches Ok(report) ==> report_matches(report, *discovery_options),
        r is Err ==> r matches Err(AppError::Kwp(_)) || r matches Err(AppError::NotKLine(_)),
{
    match trace_sink {
        Some(sink) => {
            let traced = TracingTransport::new(transport, sink);
            let mut kwp = match init_kwp_session(traced, def, connect_options) {
                Ok(k) => k,
                Err(e) => {
                    return Err(e);
                },
            };
            Ok(discover(&mut kwp, discovery_options))
        },
        None => {
            let mut kwp = match init_kwp_session(transport, def, connect_options) {
                Ok(k) => k,
                Err(e) => {
                    return Err(e);
                },
            };
            Ok(discover(&mut kwp, discovery_options))
        },
    }
}

} // verus!
