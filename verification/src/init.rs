//! Bus initialization: KWP2000 fast init (ISO 14230-2) and ISO 9141-style
//! 5-baud slow init. Which one an ECU wants comes from its definition file.

use vstd::prelude::*;
use crate::framing::{appended, extends, read_frame, spec_encode, spec_parse, FrameCodec, SpecParse};
use crate::kwp::KwpError;
use crate::services::{positive_response, spec_positive_response, NEGATIVE_RESPONSE, START_COMMUNICATION};
use crate::text::{debug_hex, hex2, push_debug_hex, push_hex2};
use crate::timing::TimingParams;
use crate::transport::KLineTransport;

verus! {

/// Result of a successful initialization.
#[derive(Debug, Clone, PartialEq, Eq)]
pub struct InitOutcome {
    /// Key bytes announced by the ECU (define header/timing capabilities).
    pub key_bytes: Option<(u8, u8)>,
    /// Raw positive response payload (fast init) or the handshake bytes
    /// (slow init), for the trace log.
    pub raw_response: Vec<u8>,
}

#[derive(Debug, Clone, Copy, PartialEq, Eq)]
pub struct FastInitConfig {
    /// Bus must be idle this long before the wake-up pattern (ISO W5, 300 ms).
    pub idle_before_ms: u64,
    /// Wake-up pattern: line low then high, 25 ms each per the standard.
    pub low_time_ms: u64,
    pub high_time_ms: u64,
}

impl Default for FastInitConfig {
    fn default() -> (c: Self)
        ensures
            c.idle_before_ms == 300,
            c.low_time_ms == 25,
            c.high_time_ms == 25,
    {
        FastInitConfig { idle_before_ms: 300, low_time_ms: 25, high_time_ms: 25 }
    }
}

#[derive(Debug, Clone, Copy, PartialEq, Eq)]
pub struct SlowInitConfig {
    /// Bit time for the 5-baud address transmission (200 ms at 5 baud).
    pub bit_time_ms: u64,
    /// How long to wait for the 0x55 synchronization byte.
    pub sync_timeout_ms: u64,
}

impl Default for SlowInitConfig {
    fn default() -> (c: Self)
        ensures
            c.bit_time_ms == 200,
            c.sync_timeout_ms == 1500,
    {
        SlowInitConfig { bit_time_ms: 200, sync_timeout_ms: 1500 }
    }
}

/// The reply payload is a positive StartCommunication response.
pub open spec fn is_start_comm_positive(payload: Seq<u8>) -> bool {
    payload.len() > 0 && payload[0] == spec_positive_response(START_COMMUNICATION)
}

/// The key bytes announced after the positive-response SID, when present.
pub open spec fn spec_key_bytes(payload: Seq<u8>) -> Option<(u8, u8)> {
    if payload.len() >= 3 {
        Some((payload[1], payload[2]))
    } else {
        None
    }
}

/// Why a StartCommunication reply that is not positive fails the init.
pub open spec fn start_comm_failure(payload: Seq<u8>) -> Seq<char> {
    if payload.len() > 0 && payload[0] == NEGATIVE_RESPONSE {
        "StartCommunication rejected: "@ + debug_hex(payload)
    } else {
        "unexpected StartCommunication response: "@ + debug_hex(payload)
    }
}

/// What fast init returns, given the bytes it read after its request.
pub open spec fn fast_init_outcome(r: Result<InitOutcome, KwpError>, consumed: Seq<u8>) -> bool {
    match spec_parse(consumed) {
        SpecParse::Complete { payload, .. } => match r {
            Ok(o) => {
                &&& is_start_comm_positive(payload)
                &&& o.key_bytes == spec_key_bytes(payload)
                &&& o.raw_response@ == payload
            },
            Err(KwpError::InitFailed(m)) => !is_start_comm_positive(payload) && m@
                == start_comm_failure(payload),
            _ => false,
        },
        _ => r matches Err(e) && (e is Transport || e is BadChecksum || e is MalformedFrame),
    }
}

/// Judge a complete StartCommunication reply.
fn start_comm_reply(payload: Vec<u8>) -> (r: Result<InitOutcome, KwpError>)
    ensures
        r matches Ok(o) ==> is_start_comm_positive(payload@) && o.key_bytes == spec_key_bytes(
            payload@,
        ) && o.raw_response@ == payload@,
        r matches Err(e) ==> !is_start_comm_positive(payload@) && (e matches KwpError::InitFailed(m)
            && m@ == start_comm_failure(payload@)),
        r is Ok || r is Err,
        is_start_comm_positive(payload@) ==> r is Ok,
{
    if payload.len() > 0 && payload[0] == positive_response(START_COMMUNICATION) {
        let key_bytes = if payload.len() >= 3 {
            Some((payload[1], payload[2]))
        } else {
            None
        };
        Ok(InitOutcome { key_bytes, raw_response: payload })
    } else {
        let mut m = if payload.len() > 0 && payload[0] == NEGATIVE_RESPONSE {
            String::from_str("StartCommunication rejected: ")
        } else {
            String::from_str("unexpected StartCommunication response: ")
        };
        push_debug_hex(&mut m, payload.as_slice());
        Err(KwpError::InitFailed(m))
    }
}

/// KWP2000 fast init: flush, idle, wake-up pulse (break low, then high),
/// then StartCommunication; the reply decides.
///
/// The only bytes transmitted are the encoded StartCommunication request,
/// and once any reply byte has been read it has been sent. When the bytes
/// read form a complete frame, its payload decides: a positive response
/// succeeds with its key bytes, anything else is `InitFailed`. Otherwise the
/// transport or framing error is returned.
pub fn fast_init<T: KLineTransport>(
    transport: &mut T,
    codec: &FrameCodec,
    timing: &TimingParams,
    cfg: &FastInitConfig,
) -> (r: Result<InitOutcome, KwpError>)
    ensures
        extends(old(transport).received(), final(transport).received()),
        final(transport).sent() == old(transport).sent() || final(transport).sent()
            == old(transport).sent() + spec_encode(*codec, seq![START_COMMUNICATION]),
        appended(old(transport).received(), final(transport).received()).len() > 0
            ==> final(transport).sent() == old(transport).sent() + spec_encode(
            *codec,
            seq![START_COMMUNICATION],
        ),
        fast_init_outcome(r, appended(old(transport).received(), final(transport).received())),
{
    proof {
        let rx0 = old(transport).received();
        assert(appended(rx0, rx0) =~= Seq::<u8>::empty());
        assert(rx0.subrange(0, rx0.len() as int) =~= rx0);
    }
    if let Err(e) = transport.flush_input() {
        return Err(KwpError::Transport(e));
    }
    transport.pause(cfg.idle_before_ms);
    if let Err(e) = transport.send_break(cfg.low_time_ms) {
        return Err(KwpError::Transport(e));
    }
    transport.pause(cfg.high_time_ms);
    let request = vec![START_COMMUNICATION];
    let encoded = codec.encode(request.as_slice());
    assert(request@ =~= seq![START_COMMUNICATION]);
    if let Err(e) = transport.send(encoded.as_slice()) {
        return Err(KwpError::Transport(e));
    }
    let frame = match read_frame(transport, timing.first_byte_deadline(), timing.inter_byte_deadline()) {
        Ok(f) => f,
        Err(e) => {
            return Err(e);
        },
    };
    start_comm_reply(frame.payload)
}

/// "expected sync byte 0x55, got 0x{sync:02X}".
pub open spec fn sync_failure(sync: u8) -> Seq<char> {
    "expected sync byte 0x55, got 0x"@ + hex2(sync)
}

/// "expected inverted address 0x{!address:02X}, got 0x{ack:02X}".
pub open spec fn ack_failure(address: u8, ack: u8) -> Seq<char> {
    "expected inverted address 0x"@ + hex2(!address) + ", got 0x"@ + hex2(ack)
}

/// What slow init returns, given the bytes it read (`consumed`) and the
/// bytes it transmitted (`sent`) after the address.
///
/// The ECU answers 0x55, two key bytes, and, after the tester sends the
/// second key byte inverted, the inverted address.
pub open spec fn slow_init_outcome(
    address: u8,
    r: Result<InitOutcome, KwpError>,
    consumed: Seq<u8>,
    sent: Seq<u8>,
) -> bool {
    match r {
        Ok(o) => {
            &&& consumed.len() == 4
            &&& consumed[0] == 0x55
            &&& sent == seq![!consumed[2]]
            &&& consumed[3] == !address
            &&& o.key_bytes == Some((consumed[1], consumed[2]))
            &&& o.raw_response@ == consumed
        },
        Err(KwpError::InitFailed(m)) => {
            ||| {
                &&& consumed.len() == 1
                &&& consumed[0] != 0x55
                &&& sent.len() == 0
                &&& m@ == sync_failure(consumed[0])
            }
            ||| {
                &&& consumed.len() == 4
                &&& consumed[0] == 0x55
                &&& sent == seq![!consumed[2]]
                &&& consumed[3] != !address
                &&& m@ == ack_failure(address, consumed[3])
            }
        },
        Err(KwpError::Transport(_)) => {
            &&& consumed.len() < 4
            &&& consumed.len() > 0 ==> consumed[0] == 0x55
            &&& consumed.len() < 3 ==> sent.len() == 0
            &&& consumed.len() == 3 ==> sent.len() == 0 || sent == seq![!consumed[2]]
        },
        _ => false,
    }
}

/// ISO 9141 / KWP2000 5-baud slow init.
///
/// The target address is bit-banged at 5 baud (start bit, 8 data bits LSB
/// first, stop bit, `bit_time_ms` each) by holding the line low via break
/// for 0-bits. The ECU answers with 0x55 sync at the working baud rate, two
/// key bytes, and expects the inverted second key byte back, which it
/// acknowledges with the inverted address.
pub fn slow_init_5baud<T: KLineTransport>(
    transport: &mut T,
    address: u8,
    timing: &TimingParams,
    cfg: &SlowInitConfig,
) -> (r: Result<InitOutcome, KwpError>)
    ensures
        extends(old(transport).received(), final(transport).received()),
        extends(old(transport).sent(), final(transport).sent()),
        slow_init_outcome(
            address,
            r,
            appended(old(transport).received(), final(transport).received()),
            appended(old(transport).sent(), final(transport).sent()),
        ),
{
    let ghost rx0 = transport.received();
    let ghost tx0 = transport.sent();
    proof {
        assert(appended(rx0, rx0) =~= Seq::<u8>::empty());
        assert(appended(tx0, tx0) =~= Seq::<u8>::empty());
        assert(rx0.subrange(0, rx0.len() as int) =~= rx0);
        assert(tx0.subrange(0, tx0.len() as int) =~= tx0);
    }
    if let Err(e) = transport.flush_input() {
        return Err(KwpError::Transport(e));
    }
    // Start bit (dominant/low).
    if let Err(e) = transport.send_break(cfg.bit_time_ms) {
        return Err(KwpError::Transport(e));
    }
    // Data bits, LSB first: 0 = low (break), 1 = high (idle).
    let mut i: u32 = 0;
    while i < 8
        invariant
            i <= 8,
            transport.sent() == tx0,
            transport.received() == rx0,
            tx0 == old(transport).sent(),
            rx0 == old(transport).received(),
            rx0.subrange(0, rx0.len() as int) == rx0,
            tx0.subrange(0, tx0.len() as int) == tx0,
            appended(rx0, rx0) == Seq::<u8>::empty(),
            appended(tx0, tx0) == Seq::<u8>::empty(),
        decreases 8 - i,
    {
        if (address >> i) & 1 == 0 {
            if let Err(e) = transport.send_break(cfg.bit_time_ms) {
                return Err(KwpError::Transport(e));
            }
        } else {
            transport.pause(cfg.bit_time_ms);
        }
        i = i + 1;
    }
    // Stop bit (recessive/high).
    transport.pause(cfg.bit_time_ms);

    let sync = match transport.read_byte(cfg.sync_timeout_ms) {
        Ok(b) => b,
        Err(e) => {
            return Err(KwpError::Transport(e));
        },
    };
    assert(appended(rx0, transport.received()) =~= seq![sync]);
    assert(transport.received().subrange(0, rx0.len() as int) =~= rx0);
    if sync != 0x55 {
        let mut m = String::from_str("expected sync byte 0x55, got 0x");
        push_hex2(&mut m, sync);
        return Err(KwpError::InitFailed(m));
    }
    let kb1 = match transport.read_byte(timing.inter_byte_deadline()) {
        Ok(b) => b,
        Err(e) => {
            return Err(KwpError::Transport(e));
        },
    };
    assert(appended(rx0, transport.received()) =~= seq![sync, kb1]);
    assert(transport.received().subrange(0, rx0.len() as int) =~= rx0);
    let kb2 = match transport.read_byte(timing.inter_byte_deadline()) {
        Ok(b) => b,
        Err(e) => {
            return Err(KwpError::Transport(e));
        },
    };
    assert(appended(rx0, transport.received()) =~= seq![sync, kb1, kb2]);
    assert(transport.received().subrange(0, rx0.len() as int) =~= rx0);

    // Acknowledge: send inverted KB2, expect inverted address back.
    let ack = vec![!kb2];
    if let Err(e) = transport.send(ack.as_slice()) {
        return Err(KwpError::Transport(e));
    }
    assert(appended(tx0, transport.sent()) =~= seq![!kb2]);
    assert(transport.sent().subrange(0, tx0.len() as int) =~= tx0);
    let addr_ack = match transport.read_byte(timing.first_byte_deadline()) {
        Ok(b) => b,
        Err(e) => {
            return Err(KwpError::Transport(e));
        },
    };
    assert(appended(rx0, transport.received()) =~= seq![sync, kb1, kb2, addr_ack]);
    assert(transport.received().subrange(0, rx0.len() as int) =~= rx0);
    if addr_ack != !address {
        let mut m = String::from_str("expected inverted address 0x");
        push_hex2(&mut m, !address);
        m.append(", got 0x");
        push_hex2(&mut m, addr_ack);
        return Err(KwpError::InitFailed(m));
    }
    let raw_response = vec![sync, kb1, kb2, addr_ack];
    Ok(InitOutcome { key_bytes: Some((kb1, kb2)), raw_response })
}

} // verus!
