//! The diagnostic session: transport + ECU definition → operations.
//!
//! Sessions start read-only. Anything that changes ECU state (clearing
//! codes, running routines) needs service mode switched on for the session
//! plus a confirmation for the operation, and a refused operation puts
//! nothing on the bus.

use vstd::prelude::*;
use crate::channel::now_ms;
use crate::dtc::{dtc_at, dtc_count, parse_read_dtc_response, Dtc};
use crate::error::{AppError, SafetyViolation};
use crate::framing::{appended, spec_encode, spec_parse, FrameCodec, SpecParse};
use crate::init::{fast_init, is_start_comm_positive, slow_init_5baud, FastInitConfig, SlowInitConfig};
use crate::kwp::KwpError;
use crate::kwp_session::{request_done, request_outcome, KwpSession, TraceHook};
use crate::schema::{channel_decodable, spec_raw_value, Channel, EcuDefinition, InitConfig, InitMethod, Routine};
use crate::services::{spec_classify, ResponseClass, TESTER_PRESENT};
use crate::text::{str_chars, str_eq};
use crate::timing::{spec_with_overrides, TimingParams};
use crate::transport::KLineTransport;

verus! {

#[derive(Debug, Clone, PartialEq, Eq)]
pub struct EcuIdentity {
    /// Raw identification payload (after SID and option bytes).
    pub raw: Vec<u8>,
    /// Printable interpretation of the raw bytes.
    pub text: String,
}

/// What `String::from_utf8_lossy` makes of some bytes: UTF-8 decoding with
/// each invalid sequence replaced by U+FFFD.
pub uninterp spec fn utf8_lossy(bytes: Seq<u8>) -> Seq<char>;

/// Calls `String::from_utf8_lossy`.
#[verifier::external_body]
pub(crate) fn decode_utf8_lossy(bytes: &[u8]) -> (s: String)
    ensures
        s@ == utf8_lossy(bytes@),
{
    String::from_utf8_lossy(bytes).into_owned()
}

/// A control character (Unicode general category Cc), what
/// `char::is_control` tests.
pub open spec fn is_control(c: char) -> bool {
    (c as u32) <= 0x1F || (0x7F <= (c as u32) && (c as u32) <= 0x9F)
}

/// Text with each control character shown as a middle dot.
pub open spec fn printable(s: Seq<char>) -> Seq<char> {
    Seq::new(s.len(), |i: int| if is_control(s[i]) { '·' } else { s[i] })
}

/// Replaces each control character with a middle dot.
pub fn printable_text(s: &str) -> (t: String)
    ensures
        t@ == printable(s@),
{
    let chars = str_chars(s);
    let mut t = String::new();
    let mut i: usize = 0;
    while i < chars.len()
        invariant
            i <= chars@.len(),
            chars@ == s@,
            t@ =~= printable(s@.take(i as int)),
        decreases chars@.len() - i,
    {
        let c = chars[i];
        let u = c as u32;
        let shown = if u <= 0x1F || (0x7F <= u && u <= 0x9F) {
            '·'
        } else {
            c
        };
        crate::text::push_char(&mut t, shown);
        i = i + 1;
        assert(t@ =~= printable(s@.take(i as int)));
    }
    assert(s@.take(s@.len() as int) =~= s@);
    t
}

/// The printable interpretation of raw identification bytes.
pub fn identity_text(raw: &[u8]) -> (t: String)
    ensures
        t@ == printable(utf8_lossy(raw@)),
{
    let decoded = decode_utf8_lossy(raw);
    printable_text(decoded.as_str())
}

/// Knobs for connecting; tests shrink the wake-up delays so suites stay fast.
pub struct ConnectOptions {
    pub fast_init: Option<FastInitConfig>,
    pub slow_init: Option<SlowInitConfig>,
    pub trace: Option<Box<dyn TraceHook>>,
}

impl Default for ConnectOptions {
    fn default() -> (o: Self)
        ensures
            o.fast_init is None,
            o.slow_init is None,
            o.trace is None,
    {
        ConnectOptions { fast_init: None, slow_init: None, trace: None }
    }
}

/// The codec a K-line init table asks for: physical addressing from the
/// ECU address to the tester address.
pub open spec fn codec_for(init: InitConfig) -> FrameCodec {
    FrameCodec {
        addressing: Some((init.ecu_address, init.tester_address)),
        separate_length_byte: init.separate_length_byte,
    }
}

/// The bytes read during init were a successful handshake for `init`.
pub open spec fn init_succeeded(init: InitConfig, consumed: Seq<u8>, sent: Seq<u8>) -> bool {
    match init.method {
        InitMethod::Fast => {
            &&& spec_parse(consumed) matches SpecParse::Complete { payload, .. }
                && is_start_comm_positive(payload)
            &&& sent == spec_encode(codec_for(init), seq![crate::services::START_COMMUNICATION])
        },
        InitMethod::Slow5Baud => {
            &&& consumed.len() == 4
            &&& consumed[0] == 0x55
            &&& sent == seq![!consumed[2]]
            &&& consumed[3] == !init.ecu_address
        },
    }
}

/// The timing a definition asks for: the ISO defaults with its overrides.
pub fn timing_from_def(def: &EcuDefinition) -> (t: TimingParams)
    ensures
        t == spec_with_overrides(def.timing),
{
    TimingParams::with_overrides(&def.timing)
}

/// Run the K-line init sequence a definition asks for and return a live
/// session, ready for requests. A definition without an `[init]` table (a
/// CAN definition) is refused before anything touches the bus.
pub fn init_kwp_session<T: KLineTransport>(
    transport: T,
    def: &EcuDefinition,
    options: &ConnectOptions,
) -> (r: Result<KwpSession<T>, AppError>)
    ensures
        def.init is None ==> r == Err::<KwpSession<T>, AppError>(AppError::NotKLine(def.ecu.id)),
        def.init is Some ==> (r is Ok || r matches Err(AppError::Kwp(_))),
        r matches Ok(s) ==> {
            &&& def.init matches Some(init) && s.spec_codec() == codec_for(init)
                && init_succeeded(
                init,
                appended(transport.received(), s.spec_transport().received()),
                appended(transport.sent(), s.spec_transport().sent()),
            )
            &&& s.spec_timing() == spec_with_overrides(def.timing)
            &&& s.spec_max_pending() == 10
            &&& !s.spec_has_trace_hook()
            &&& s.spec_traced().len() == 0
        },
{
    let init = match &def.init {
        Some(init) => *init,
        None => {
            return Err(AppError::NotKLine(def.ecu.id.clone()));
        },
    };
    let codec = FrameCodec {
        addressing: Some((init.ecu_address, init.tester_address)),
        separate_length_byte: init.separate_length_byte,
    };
    let timing = timing_from_def(def);
    let mut transport = transport;
    let ghost t0 = transport;
    match init.method {
        InitMethod::Fast => {
            let cfg = match options.fast_init {
                Some(c) => c,
                None => FastInitConfig::default(),
            };
            match fast_init(&mut transport, &codec, &timing, &cfg) {
                Ok(_) => {},
                Err(e) => {
                    return Err(AppError::Kwp(e));
                },
            }
            proof {
                let consumed = appended(t0.received(), transport.received());
                if consumed.len() == 0 {
                    assert(spec_parse(consumed) is Incomplete);
                }
                assert(transport.sent() == t0.sent() + spec_encode(codec, seq![crate::services::START_COMMUNICATION]));
                assert(appended(t0.sent(), transport.sent()) =~= spec_encode(codec, seq![crate::services::START_COMMUNICATION]));
            }
        },
        InitMethod::Slow5Baud => {
            let cfg = match options.slow_init {
                Some(c) => c,
                None => SlowInitConfig::default(),
            };
            match slow_init_5baud(&mut transport, init.ecu_address, &timing, &cfg) {
                Ok(_) => {},
                Err(e) => {
                    return Err(AppError::Kwp(e));
                },
            }
        },
    }
    Ok(KwpSession::new(transport, codec, timing))
}

/// A channel can be requested in one KWP frame and decoded without
/// overflow.
pub open spec fn channel_ready(ch: Channel) -> bool {
    &&& ch.request@.len() <= 255
    &&& channel_decodable(ch)
}

/// The channel `key` names, if any, is ready to be read.
pub open spec fn keyed_channel_ready(def: EcuDefinition, key: Seq<char>) -> bool {
    channel_index_from(def.channels@, key, 0) matches Some(i) ==> channel_ready(def.channels@[i])
}

/// The routine `key` names, if any, has a request that fits one KWP frame.
pub open spec fn keyed_routine_ready(def: EcuDefinition, key: Seq<char>) -> bool {
    routine_index_from(def.routines@, key, 0) matches Some(i) ==> def.routines@[i].request@.len() <= 255
}

/// A live-data reading before scaling to engineering units.
#[derive(Debug, Clone, PartialEq, Eq)]
pub struct RawReading {
    pub key: String,
    pub name: String,
    pub unit: String,
    /// The channel's raw integer (see `Channel::raw_value`).
    pub raw: i64,
    pub timestamp_ms: u64,
}

/// The raw readings a routine's preconditions are checked against; `None`
/// when not needed, or not measurable (which fails closed).
#[derive(Debug, Clone, PartialEq, Eq)]
pub struct RoutineReadings {
    pub rpm: Option<RawReading>,
    pub battery: Option<RawReading>,
}

/// `resp` is a positive response to `request`.
pub open spec fn positive_to(request: Seq<u8>, resp: Seq<u8>) -> bool {
    request.len() > 0 && spec_classify(request[0], resp) == ResponseClass::Positive
}

/// The identification data in a response: what follows the first `skip`
/// bytes (nothing when the response is shorter).
pub open spec fn ident_bytes(resp: Seq<u8>, skip: usize) -> Seq<u8> {
    if skip <= resp.len() {
        resp.skip(skip as int)
    } else {
        Seq::empty()
    }
}

/// `dtcs` is what the positive response `resp` lists.
pub open spec fn dtcs_in(resp: Seq<u8>, def: EcuDefinition, dtcs: Seq<Dtc>) -> bool {
    &&& dtcs.len() == dtc_count(resp)
    &&& forall|k: int| 0 <= k < dtcs.len() ==> dtc_at(#[trigger] dtcs[k], resp, def.dtc.table@, k)
}

/// `dtcs` is what some positive response to the definition's DTC read
/// request lists.
pub open spec fn dtcs_read(def: EcuDefinition, dtcs: Seq<Dtc>) -> bool {
    exists|resp: Seq<u8>|
        positive_to(def.dtc.read_request@, resp) && #[trigger] dtcs_in(resp, def, dtcs)
}

/// The index of the first channel from `i` on called `key`.
pub open spec fn channel_index_from(chs: Seq<Channel>, key: Seq<char>, i: int) -> Option<int>
    decreases chs.len() - i,
{
    if i < 0 || i >= chs.len() {
        None
    } else if chs[i].key@ == key {
        Some(i)
    } else {
        channel_index_from(chs, key, i + 1)
    }
}

/// The index of the first routine from `i` on called `key`.
pub open spec fn routine_index_from(rs: Seq<Routine>, key: Seq<char>, i: int) -> Option<int>
    decreases rs.len() - i,
{
    if i < 0 || i >= rs.len() {
        None
    } else if rs[i].key@ == key {
        Some(i)
    } else {
        routine_index_from(rs, key, i + 1)
    }
}

proof fn lemma_index_from_found(chs: Seq<Channel>, key: Seq<char>, i: int)
    requires
        0 <= i,
        channel_index_from(chs, key, i) matches Some(k),
    ensures
        channel_index_from(chs, key, i) matches Some(k) && i <= k < chs.len() && chs[k].key@ == key,
    decreases chs.len() - i,
{
    if chs[i].key@ != key {
        lemma_index_from_found(chs, key, i + 1);
    }
}

proof fn lemma_routine_index_found(rs: Seq<Routine>, key: Seq<char>, i: int)
    requires
        0 <= i,
        routine_index_from(rs, key, i) matches Some(k),
    ensures
        routine_index_from(rs, key, i) matches Some(k) && i <= k < rs.len() && rs[k].key@ == key,
    decreases rs.len() - i,
{
    if rs[i].key@ != key {
        lemma_routine_index_found(rs, key, i + 1);
    }
}

/// `rd` is a reading of `ch` taken from some positive response.
pub open spec fn reading_of(ch: Channel, rd: RawReading) -> bool {
    &&& rd.key == ch.key
    &&& rd.name == ch.name
    &&& rd.unit == ch.unit
    &&& exists|resp: Seq<u8>|
        positive_to(ch.request@, resp) && #[trigger] spec_raw_value(ch, resp) == Some(rd.raw)
}

/// What a channel read returns for the outcome `kr` of its request: the
/// channel's raw value in a positive reply, a malformed-frame error when the
/// reply is too short for it, or the exchange's own error.
pub open spec fn reading_from(ch: Channel, kr: Result<Vec<u8>, KwpError>, r: Result<RawReading, AppError>) -> bool {
    match kr {
        Ok(resp) => match spec_raw_value(ch, resp@) {
            Some(raw) => r matches Ok(rd) && rd.key == ch.key && rd.name == ch.name && rd.unit == ch.unit
                && rd.raw == raw,
            None => r matches Err(AppError::Kwp(KwpError::MalformedFrame(_))),
        },
        Err(e) => r == Err::<RawReading, AppError>(AppError::Kwp(e)),
    }
}

/// One read of channel `ch` took the session from `before` to `after`: its
/// request went through one KWP exchange and `r` is what that exchange's
/// outcome gives for the channel. An empty request is refused before
/// anything is sent.
pub open spec fn channel_read<T: KLineTransport>(
    before: KwpSession<T>,
    after: KwpSession<T>,
    ch: Channel,
    r: Result<RawReading, AppError>,
) -> bool {
    if ch.request@.len() == 0 {
        after == before && r matches Err(AppError::Kwp(KwpError::MalformedFrame(_)))
    } else {
        exists|kr: Result<Vec<u8>, KwpError>|
            #[trigger] request_done(before, after, ch.request@, kr) && reading_from(ch, kr, r)
    }
}

/// `states` are the sessions before and after each read of a poll over
/// `chs`, in order, and `rs` the results of those reads.
pub open spec fn polled_in_order<T: KLineTransport>(
    states: Seq<KwpSession<T>>,
    chs: Seq<Channel>,
    rs: Seq<Result<RawReading, AppError>>,
) -> bool {
    &&& states.len() == chs.len() + 1
    &&& rs.len() == chs.len()
    &&& forall|i: int| 0 <= i < chs.len() ==> #[trigger] channel_read(states[i], states[i + 1], chs[i], rs[i])
}

fn channel_position(chs: &Vec<Channel>, key: &str) -> (r: Option<usize>)
    ensures
        r matches Some(i) ==> channel_index_from(chs@, key@, 0) == Some(i as int) && i
            < chs@.len(),
        r is None ==> channel_index_from(chs@, key@, 0) is None,
{
    let mut i: usize = 0;
    while i < chs.len()
        invariant
            i <= chs@.len(),
            channel_index_from(chs@, key@, 0) == channel_index_from(chs@, key@, i as int),
        decreases chs@.len() - i,
    {
        if str_eq(chs[i].key.as_str(), key) {
            return Some(i);
        }
        i = i + 1;
    }
    None
}

fn routine_position(rs: &Vec<Routine>, key: &str) -> (r: Option<usize>)
    ensures
        r matches Some(i) ==> routine_index_from(rs@, key@, 0) == Some(i as int) && i
            < rs@.len(),
        r is None ==> routine_index_from(rs@, key@, 0) is None,
{
    let mut i: usize = 0;
    while i < rs.len()
        invariant
            i <= rs@.len(),
            routine_index_from(rs@, key@, 0) == routine_index_from(rs@, key@, i as int),
        decreases rs@.len() - i,
    {
        if str_eq(rs[i].key.as_str(), key) {
            return Some(i);
        }
        i = i + 1;
    }
    None
}

/// The session is left exactly as it was: nothing went on the bus.
pub open spec fn untouched<T: KLineTransport>(before: DiagSession<T>, after: DiagSession<T>) -> bool {
    after == before
}

pub struct DiagSession<T: KLineTransport> {
    kwp: KwpSession<T>,
    def: EcuDefinition,
    identity: EcuIdentity,
    service_mode: bool,
}

impl<T: KLineTransport> DiagSession<T> {
    pub closed spec fn spec_kwp(self) -> KwpSession<T> {
        self.kwp
    }

    pub closed spec fn spec_def(self) -> EcuDefinition {
        self.def
    }

    pub closed spec fn spec_identity(self) -> EcuIdentity {
        self.identity
    }

    pub closed spec fn spec_service_mode(self) -> bool {
        self.service_mode
    }

    /// Initialize the bus per the definition and read the ECU identity. The
    /// session starts read-only.
    pub fn connect(transport: T, def: EcuDefinition, options: ConnectOptions) -> (r: Result<
        Self,
        AppError,
    >)
        requires
            def.identification.request@.len() <= 255,
        ensures
            def.init is None ==> r == Err::<Self, AppError>(AppError::NotKLine(def.ecu.id)),
            r matches Ok(s) ==> {
                &&& !s.spec_service_mode()
                &&& s.spec_def() == def
                &&& s.spec_identity().text@ == printable(utf8_lossy(s.spec_identity().raw@))
                &&& def.init matches Some(init) && exists|k0: KwpSession<T>, kr: Result<Vec<u8>, KwpError>|
                    #[trigger] request_done(k0, s.spec_kwp(), def.identification.request@, kr)
                    && k0.spec_codec() == codec_for(init)
                    && k0.spec_timing() == spec_with_overrides(def.timing)
                    && k0.spec_max_pending() == 10
                    && k0.spec_has_trace_hook() == (options.trace is Some)
                    && k0.spec_traced().len() == 0
                    && init_succeeded(
                        init,
                        appended(transport.received(), k0.spec_transport().received()),
                        appended(transport.sent(), k0.spec_transport().sent()),
                    )
                    && (kr matches Ok(resp) && s.spec_identity().raw@ == ident_bytes(
                        resp@,
                        def.identification.skip_bytes,
                    ))
            },
            def.identification.request@.len() == 0 ==> r is Err,
    {
        let mut kwp = match init_kwp_session(transport, &def, &options) {
            Ok(k) => k,
            Err(e) => {
                return Err(e);
            },
        };
        match options.trace {
            Some(hook) => kwp.set_trace_hook(hook),
            None => {},
        }
        let ghost k0 = kwp;
        let res = kwp.request(def.identification.request.as_slice());
        let ghost kr = res;
        let response = match res {
            Ok(resp) => resp,
            Err(e) => {
                return Err(AppError::Kwp(e));
            },
        };
        let skip = if def.identification.skip_bytes <= response.len() {
            def.identification.skip_bytes
        } else {
            response.len()
        };
        let mut raw: Vec<u8> = Vec::new();
        let mut i: usize = skip;
        while i < response.len()
            invariant
                skip <= i <= response@.len(),
                raw@ =~= response@.subrange(skip as int, i as int),
            decreases response@.len() - i,
        {
            raw.push(response[i]);
            i = i + 1;
        }
        let text = identity_text(raw.as_slice());
        let identity = EcuIdentity { raw, text };
        proof {
            assert(raw@ =~= ident_bytes(response@, def.identification.skip_bytes));
        }
        let session = DiagSession { kwp, def, identity, service_mode: false };
        proof {
            let init = session.def.init->Some_0;
            assert(request_done(k0, session.spec_kwp(), session.def.identification.request@, kr)
                && k0.spec_codec() == codec_for(init)
                && k0.spec_has_trace_hook() == (options.trace is Some)
                && (kr matches Ok(resp) && session.spec_identity().raw@ == ident_bytes(
                    resp@,
                    session.def.identification.skip_bytes,
                )));
        }
        Ok(session)
    }

    pub fn identity(&self) -> (i: &EcuIdentity)
        ensures
            *i == self.spec_identity(),
    {
        &self.identity
    }

    pub fn definition(&self) -> (d: &EcuDefinition)
        ensures
            *d == self.spec_def(),
    {
        &self.def
    }

    /// Read stored fault codes.
    pub fn read_dtcs(&mut self) -> (r: Result<Vec<Dtc>, AppError>)
        requires
            old(self).spec_def().dtc.read_request@.len() <= 255,
        ensures
            final(self).spec_def() == old(self).spec_def(),
            final(self).spec_service_mode() == old(self).spec_service_mode(),
            r matches Ok(dtcs) ==> dtcs_read(old(self).spec_def(), dtcs@),
            r is Err ==> r matches Err(AppError::Kwp(_)),
            old(self).spec_def().dtc.read_request@.len() == 0 ==> (r matches Err(AppError::Kwp(KwpError::MalformedFrame(_)))
                && untouched(*old(self), *final(self))),
            old(self).spec_def().dtc.read_request@.len() > 0 ==> exists|kr: Result<Vec<u8>, KwpError>|
                #[trigger] request_done(
                    old(self).spec_kwp(),
                    final(self).spec_kwp(),
                    old(self).spec_def().dtc.read_request@,
                    kr,
                ) && (r matches Err(AppError::Kwp(e)) ==> kr == Err::<Vec<u8>, KwpError>(e)) && (r matches Ok(
                    dtcs,
                ) ==> kr matches Ok(resp) && dtcs_in(resp@, old(self).spec_def(), dtcs@)),
    {
        let res = self.kwp.request(self.def.dtc.read_request.as_slice());
        let ghost kr = res;
        proof {
            if old(self).spec_def().dtc.read_request@.len() > 0 {
                assert(request_done(old(self).spec_kwp(), self.spec_kwp(), old(self).spec_def().dtc.read_request@, kr));
            }
        }
        let response = match res {
            Ok(resp) => resp,
            Err(e) => {
                return Err(AppError::Kwp(e));
            },
        };
        let dtcs = parse_read_dtc_response(response.as_slice(), &self.def);
        assert(self.def == old(self).def);
        assert(positive_to(old(self).spec_def().dtc.read_request@, response@));
        assert(dtcs_in(response@, old(self).spec_def(), dtcs@));
        assert(dtcs_read(old(self).spec_def(), dtcs@));
        Ok(dtcs)
    }

    fn read_channel_inner(&mut self, i: usize) -> (r: Result<RawReading, AppError>)
        requires
            i < old(self).spec_def().channels@.len(),
            channel_ready(old(self).spec_def().channels@[i as int]),
        ensures
            final(self).spec_def() == old(self).spec_def(),
            final(self).spec_service_mode() == old(self).spec_service_mode(),
            final(self).spec_identity() == old(self).spec_identity(),
            r matches Ok(rd) ==> reading_of(old(self).spec_def().channels@[i as int], rd),
            r is Err ==> r matches Err(AppError::Kwp(_)),
            channel_read(old(self).spec_kwp(), final(self).spec_kwp(), old(self).spec_def().channels@[i as int], r),
    {
        let res = self.kwp.request(self.def.channels[i].request.as_slice());
        let ghost kr = res;
        proof {
            if old(self).spec_def().channels@[i as int].request@.len() > 0 {
                assert(request_done(old(self).spec_kwp(), self.spec_kwp(), old(self).spec_def().channels@[i as int].request@, kr));
            }
        }
        let response = match res {
            Ok(resp) => resp,
            Err(e) => {
                return Err(AppError::Kwp(e));
            },
        };
        let channel = &self.def.channels[i];
        match channel.raw_value(response.as_slice()) {
            Some(raw) => {
                let rd = RawReading {
                    key: channel.key.clone(),
                    name: channel.name.clone(),
                    unit: channel.unit.clone(),
                    raw,
                    timestamp_ms: now_ms(),
                };
                assert(positive_to(channel.request@, response@));
                assert(spec_raw_value(*channel, response@) == Some(rd.raw));
                Ok(rd)
            },
            None => {
                let mut m = String::from_str("response too short for channel '");
                m.append(channel.key.as_str());
                m.append("'");
                Err(AppError::Kwp(KwpError::MalformedFrame(m)))
            },
        }
    }

    /// Read one live-data channel by key. An unknown key touches nothing.
    pub fn read_channel(&mut self, key: &str) -> (r: Result<RawReading, AppError>)
        requires
            keyed_channel_ready(old(self).spec_def(), key@),
        ensures
            final(self).spec_def() == old(self).spec_def(),
            final(self).spec_service_mode() == old(self).spec_service_mode(),
            final(self).spec_identity() == old(self).spec_identity(),
            channel_index_from(old(self).spec_def().channels@, key@, 0) is None ==> (r matches Err(
                AppError::UnknownChannel(k),
            ) && k@ == key@ && untouched(*old(self), *final(self))),
            channel_index_from(old(self).spec_def().channels@, key@, 0) matches Some(i) ==> (
            r matches Ok(rd) ==> reading_of(old(self).spec_def().channels@[i], rd)),
            channel_index_from(old(self).spec_def().channels@, key@, 0) matches Some(i) ==> channel_read(
                old(self).spec_kwp(),
                final(self).spec_kwp(),
                old(self).spec_def().channels@[i],
                r,
            ),
    {
        match channel_position(&self.def.channels, key) {
            None => Err(AppError::UnknownChannel(String::from_str(key))),
            Some(i) => {
                assert(channel_ready(self.def.channels@[i as int]));
                self.read_channel_inner(i)
            },
        }
    }

    /// Poll every defined channel once, in definition order.
    pub fn poll_all_channels(&mut self) -> (rs: Vec<Result<RawReading, AppError>>)
        requires
            forall|i: int| 0 <= i < old(self).spec_def().channels@.len() ==> #[trigger] channel_ready(old(self).spec_def().channels@[i]),
        ensures
            final(self).spec_def() == old(self).spec_def(),
            final(self).spec_service_mode() == old(self).spec_service_mode(),
            rs@.len() == old(self).spec_def().channels@.len(),
            forall|i: int|
                0 <= i < rs@.len() ==> (#[trigger] rs@[i] matches Ok(rd) ==> reading_of(
                    old(self).spec_def().channels@[i],
                    rd,
                )),
            exists|states: Seq<KwpSession<T>>|
                #[trigger] polled_in_order(states, old(self).spec_def().channels@, rs@) && states[0]
                    == old(self).spec_kwp() && states.last() == final(self).spec_kwp(),
    {
        let n = self.def.channels.len();
        let mut out: Vec<Result<RawReading, AppError>> = Vec::new();
        let mut i: usize = 0;
        let ghost mut states: Seq<KwpSession<T>> = seq![self.kwp];
        while i < n
            invariant
                i <= n,
                n == old(self).spec_def().channels@.len(),
                self.def == old(self).def,
                self.service_mode == old(self).service_mode,
                forall|j: int| 0 <= j < self.def.channels@.len() ==> #[trigger] channel_ready(self.def.channels@[j]),
                out@.len() == i,
                forall|j: int|
                    0 <= j < i ==> (#[trigger] out@[j] matches Ok(rd) ==> reading_of(
                        old(self).spec_def().channels@[j],
                        rd,
                    )),
                states.len() == i + 1,
                states[0] == old(self).spec_kwp(),
                states.last() == self.kwp,
                forall|j: int|
                    0 <= j < i ==> #[trigger] channel_read(states[j], states[j + 1], self.def.channels@[j], out@[j]),
            decreases n - i,
        {
            assert(channel_ready(self.def.channels@[i as int]));
            let ghost before = states;
            let r = self.read_channel_inner(i);
            proof {
                states = states.push(self.kwp);
                assert forall|j: int| 0 <= j < i + 1 implies #[trigger] channel_read(
                    states[j],
                    states[j + 1],
                    self.def.channels@[j],
                    out@.push(r)[j],
                ) by {
                    if j < i {
                        assert(states[j] == before[j] && states[j + 1] == before[j + 1]);
                        assert(out@.push(r)[j] == out@[j]);
                    }
                }
            }
            out.push(r);
            i = i + 1;
        }
        assert(polled_in_order(states, old(self).spec_def().channels@, out@));
        out
    }

    /// Keep the session alive during idle periods; call from the UI's tick.
    ///
    /// When the keep-alive is due a TesterPresent goes on the bus; otherwise
    /// nothing is sent. With a zero keep-alive budget it is always due.
    pub fn keepalive_if_due(&mut self) -> (r: Result<(), AppError>)
        ensures
            final(self).spec_def() == old(self).spec_def(),
            final(self).spec_service_mode() == old(self).spec_service_mode(),
            final(self).spec_identity() == old(self).spec_identity(),
            final(self).spec_kwp().spec_codec() == old(self).spec_kwp().spec_codec(),
            final(self).spec_kwp().spec_timing() == old(self).spec_kwp().spec_timing(),
            final(self).spec_kwp().spec_transport().sent() == old(self).spec_kwp().spec_transport().sent()
                || final(self).spec_kwp().spec_transport().sent() == old(self).spec_kwp().spec_transport().sent()
                + spec_encode(old(self).spec_kwp().spec_codec(), seq![TESTER_PRESENT]),
            old(self).spec_kwp().spec_timing().p3_max_ms / 2 == 0 && r is Ok
                ==> final(self).spec_kwp().spec_transport().sent() == old(self).spec_kwp().spec_transport().sent()
                + spec_encode(old(self).spec_kwp().spec_codec(), seq![TESTER_PRESENT]),
            r matches Err(e) ==> (e matches AppError::Kwp(k) && request_outcome(
                TESTER_PRESENT,
                Err::<Vec<u8>, KwpError>(k),
            )),
    {
        if self.kwp.keepalive_due() {
            match self.kwp.tester_present() {
                Ok(()) => {},
                Err(e) => {
                    return Err(AppError::Kwp(e));
                },
            }
        }
        Ok(())
    }

    pub fn service_mode(&self) -> (b: bool)
        ensures
            b == self.spec_service_mode(),
    {
        self.service_mode
    }

    /// Explicit opt-in to state-changing operations for this session.
    pub fn enable_service_mode(&mut self)
        ensures
            final(self).spec_service_mode(),
            final(self).spec_def() == old(self).spec_def(),
            final(self).spec_kwp() == old(self).spec_kwp(),
            final(self).spec_identity() == old(self).spec_identity(),
    {
        self.service_mode = true;
    }

    /// State-changing operations need service mode, then a confirmation.
    fn require_write_access(&self, confirmed: bool) -> (r: Result<(), AppError>)
        ensures
            !self.spec_service_mode() ==> r == Err::<(), AppError>(
                AppError::Safety(SafetyViolation::ServiceModeDisabled),
            ),
            self.spec_service_mode() && !confirmed ==> r == Err::<(), AppError>(
                AppError::Safety(SafetyViolation::ConfirmationRequired),
            ),
            self.spec_service_mode() && confirmed ==> r is Ok,
    {
        if !self.service_mode {
            return Err(AppError::Safety(SafetyViolation::ServiceModeDisabled));
        }
        if !confirmed {
            return Err(AppError::Safety(SafetyViolation::ConfirmationRequired));
        }
        Ok(())
    }

    /// Clear stored fault codes. Requires service mode and confirmation;
    /// a refusal leaves the session and the bus untouched.
    pub fn clear_dtcs(&mut self, confirmed: bool) -> (r: Result<(), AppError>)
        requires
            old(self).spec_def().dtc.clear_request@.len() <= 255,
        ensures
            final(self).spec_def() == old(self).spec_def(),
            final(self).spec_service_mode() == old(self).spec_service_mode(),
            !old(self).spec_service_mode() ==> r == Err::<(), AppError>(
                AppError::Safety(SafetyViolation::ServiceModeDisabled),
            ) && untouched(*old(self), *final(self)),
            old(self).spec_service_mode() && !confirmed ==> r == Err::<(), AppError>(
                AppError::Safety(SafetyViolation::ConfirmationRequired),
            ) && untouched(*old(self), *final(self)),
            r is Ok ==> old(self).spec_service_mode() && confirmed
                && final(self).spec_kwp().spec_transport().sent()
                == old(self).spec_kwp().spec_transport().sent() + spec_encode(
                old(self).spec_kwp().spec_codec(),
                old(self).spec_def().dtc.clear_request@,
            ),
            old(self).spec_service_mode() && confirmed && old(self).spec_def().dtc.clear_request@.len() > 0
                ==> exists|kr: Result<Vec<u8>, KwpError>|
                #[trigger] request_done(
                    old(self).spec_kwp(),
                    final(self).spec_kwp(),
                    old(self).spec_def().dtc.clear_request@,
                    kr,
                ) && (kr is Err <==> r is Err) && (r matches Err(AppError::Kwp(e)) ==> kr
                    == Err::<Vec<u8>, KwpError>(e)),
            old(self).spec_service_mode() && confirmed && old(self).spec_def().dtc.clear_request@.len() == 0
                ==> (r matches Err(AppError::Kwp(KwpError::MalformedFrame(_))) && untouched(*old(self), *final(self))),
    {
        match self.require_write_access(confirmed) {
            Ok(()) => {},
            Err(e) => {
                return Err(e);
            },
        }
        let ghost kwp0 = self.kwp;
        let res = self.kwp.request(self.def.dtc.clear_request.as_slice());
        let ghost kr = res;
        proof {
            if old(self).spec_def().dtc.clear_request@.len() > 0 {
                assert(kwp0 == old(self).spec_kwp());
                assert(request_done(old(self).spec_kwp(), self.spec_kwp(), old(self).spec_def().dtc.clear_request@, kr));
            }
        }
        match res {
            Ok(_) => Ok(()),
            Err(e) => Err(AppError::Kwp(e)),
        }
    }

    /// The measurements a routine's preconditions are checked against,
    /// read after the write-access checks and before the routine runs.
    /// A reading that fails is `None`, which the check treats as unknown.
    pub fn routine_readings(&mut self, key: &str, confirmed: bool) -> (r: Result<
        RoutineReadings,
        AppError,
    >)
        requires
            keyed_channel_ready(old(self).spec_def(), "rpm"@),
            keyed_channel_ready(old(self).spec_def(), "batt"@),
        ensures
            final(self).spec_def() == old(self).spec_def(),
            final(self).spec_service_mode() == old(self).spec_service_mode(),
            !old(self).spec_service_mode() ==> r == Err::<RoutineReadings, AppError>(
                AppError::Safety(SafetyViolation::ServiceModeDisabled),
            ) && untouched(*old(self), *final(self)),
            old(self).spec_service_mode() && !confirmed ==> r == Err::<RoutineReadings, AppError>(
                AppError::Safety(SafetyViolation::ConfirmationRequired),
            ) && untouched(*old(self), *final(self)),
            old(self).spec_service_mode() && confirmed && routine_index_from(
                old(self).spec_def().routines@,
                key@,
                0,
            ) is None ==> (r matches Err(AppError::UnknownRoutine(k)) && k@ == key@ && untouched(
                *old(self),
                *final(self),
            )),
            r matches Ok(rd) ==> {
                &&& routine_index_from(old(self).spec_def().routines@, key@, 0) matches Some(i)
                    && {
                    let needs = old(self).spec_def().routines@[i].preconditions;
                    &&& !needs.engine_must_be_off ==> rd.rpm is None
                    &&& !needs.battery_window ==> rd.battery is None
                }
                &&& rd.rpm matches Some(x) ==> channel_index_from(
                    old(self).spec_def().channels@,
                    "rpm"@,
                    0,
                ) matches Some(c) && reading_of(old(self).spec_def().channels@[c], x)
                &&& rd.battery matches Some(x) ==> channel_index_from(
                    old(self).spec_def().channels@,
                    "batt"@,
                    0,
                ) matches Some(c) && reading_of(old(self).spec_def().channels@[c], x)
            },
    {
        match self.require_write_access(confirmed) {
            Ok(()) => {},
            Err(e) => {
                return Err(e);
            },
        }
        let i = match routine_position(&self.def.routines, key) {
            Some(i) => i,
            None => {
                return Err(AppError::UnknownRoutine(String::from_str(key)));
            },
        };
        let needs = self.def.routines[i].preconditions;
        let rpm = if needs.engine_must_be_off {
            match self.read_channel("rpm") {
                Ok(x) => Some(x),
                Err(_) => None,
            }
        } else {
            None
        };
        let battery = if needs.battery_window {
            match self.read_channel("batt") {
                Ok(x) => Some(x),
                Err(_) => None,
            }
        } else {
            None
        };
        Ok(RoutineReadings { rpm, battery })
    }

    /// Run a service routine once its preconditions have been judged
    /// against `routine_readings`. Requires service mode and confirmation;
    /// a refusal, an unknown routine or failed preconditions leave the
    /// session and the bus untouched.
    pub fn run_routine(
        &mut self,
        key: &str,
        confirmed: bool,
        preconditions: Result<(), SafetyViolation>,
    ) -> (r: Result<Vec<u8>, AppError>)
        requires
            keyed_routine_ready(old(self).spec_def(), key@),
        ensures
            final(self).spec_def() == old(self).spec_def(),
            final(self).spec_service_mode() == old(self).spec_service_mode(),
            !old(self).spec_service_mode() ==> r == Err::<Vec<u8>, AppError>(
                AppError::Safety(SafetyViolation::ServiceModeDisabled),
            ) && untouched(*old(self), *final(self)),
            old(self).spec_service_mode() && !confirmed ==> r == Err::<Vec<u8>, AppError>(
                AppError::Safety(SafetyViolation::ConfirmationRequired),
            ) && untouched(*old(self), *final(self)),
            old(self).spec_service_mode() && confirmed && routine_index_from(
                old(self).spec_def().routines@,
                key@,
                0,
            ) is None ==> (r matches Err(AppError::UnknownRoutine(k)) && k@ == key@ && untouched(
                *old(self),
                *final(self),
            )),
            old(self).spec_service_mode() && confirmed && routine_index_from(
                old(self).spec_def().routines@,
                key@,
                0,
            ) is Some && preconditions is Err ==> r == Err::<Vec<u8>, AppError>(
                AppError::Safety(preconditions->Err_0),
            ) && untouched(*old(self), *final(self)),
            r matches Ok(resp) ==> {
                &&& old(self).spec_service_mode() && confirmed && preconditions is Ok
                &&& routine_index_from(old(self).spec_def().routines@, key@, 0) matches Some(i)
                    && {
                    let req = old(self).spec_def().routines@[i].request@;
                    &&& positive_to(req, resp@)
                    &&& final(self).spec_kwp().spec_transport().sent()
                        == old(self).spec_kwp().spec_transport().sent() + spec_encode(
                        old(self).spec_kwp().spec_codec(),
                        req,
                    )
                }
            },
            (old(self).spec_service_mode() && confirmed && preconditions is Ok) ==> (routine_index_from(
                old(self).spec_def().routines@,
                key@,
                0,
            ) matches Some(i) ==> old(self).spec_def().routines@[i].request@.len() > 0 ==> exists|
                kr: Result<Vec<u8>, KwpError>,
            |
                #[trigger] request_done(
                    old(self).spec_kwp(),
                    final(self).spec_kwp(),
                    old(self).spec_def().routines@[i].request@,
                    kr,
                ) && (kr is Err <==> r is Err) && (r matches Err(AppError::Kwp(e)) ==> kr
                    == Err::<Vec<u8>, KwpError>(e)) && (r matches Ok(resp) ==> kr matches Ok(p) && p@
                    == resp@)),
    {
        match self.require_write_access(confirmed) {
            Ok(()) => {},
            Err(e) => {
                return Err(e);
            },
        }
        let i = match routine_position(&self.def.routines, key) {
            Some(i) => i,
            None => {
                return Err(AppError::UnknownRoutine(String::from_str(key)));
            },
        };
        match preconditions {
            Ok(()) => {},
            Err(v) => {
                return Err(AppError::Safety(v));
            },
        }
        assert(self.def.routines@[i as int].request@.len() <= 255);
        let ghost kwp0 = self.kwp;
        let res = self.kwp.request(self.def.routines[i].request.as_slice());
        let ghost kr = res;
        proof {
            if old(self).spec_def().routines@[i as int].request@.len() > 0 {
                assert(kwp0 == old(self).spec_kwp());
                assert(request_done(old(self).spec_kwp(), self.spec_kwp(), old(self).spec_def().routines@[i as int].request@, kr));
            }
        }
        match res {
            Ok(resp) => Ok(resp),
            Err(e) => Err(AppError::Kwp(e)),
        }
    }
}

} // verus!
