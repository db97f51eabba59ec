//! ECU definitions as the verified rules read them.
//!
//! Everything model-specific (init method, addresses, timing overrides,
//! live-data channels, DTC tables, service routines and their safety
//! preconditions) comes from definition files. Floating-point figures (a
//! channel's scale and offset, its expected range, charging thresholds,
//! battery limits) stay with the file loader; what the rules need of them
//! arrives here as plain values.

use vstd::prelude::*;
use crate::timing::TimingOverrides;

verus! {

#[derive(Debug, Clone, PartialEq, Eq)]
pub struct EcuInfo {
    /// Stable identifier, e.g. "mv-5sm-brutale-910".
    pub id: String,
    /// Human-readable name shown in the UI.
    pub name: String,
    pub manufacturer: String,
    /// Bike models this definition applies to.
    pub models: Vec<String>,
    pub bus: BusKind,
    /// Body shape of this definition's bikes: picks which schematic
    /// silhouette the access-guide diagrams draw.
    pub body_style: BodyStyle,
    /// True once the definition has been exercised against a real ECU.
    pub verified: bool,
    pub notes: Option<String>,
}

#[derive(Debug, Clone, Copy, PartialEq, Eq)]
pub enum BodyStyle {
    Naked,
    Faired,
}

impl Default for BodyStyle {
    fn default() -> (b: Self)
        ensures
            b == BodyStyle::Naked,
    {
        BodyStyle::Naked
    }
}

impl BodyStyle {
    /// The name definition files use for this style.
    pub fn as_str(&self) -> (s: &'static str)
        ensures
            s@ == (match *self {
                BodyStyle::Naked => "naked"@,
                BodyStyle::Faired => "faired"@,
            }),
    {
        match self {
            BodyStyle::Naked => "naked",
            BodyStyle::Faired => "faired",
        }
    }
}

#[derive(Debug, Clone, Copy, PartialEq, Eq)]
pub enum BusKind {
    KLine,
    Can,
}

#[derive(Debug, Clone, Copy, PartialEq, Eq)]
pub enum InitMethod {
    Fast,
    Slow5Baud,
}

#[derive(Debug, Clone, Copy, PartialEq, Eq)]
pub struct InitConfig {
    pub method: InitMethod,
    /// KWP physical address of the ECU (header target byte).
    pub ecu_address: u8,
    /// Tester address (header source byte), conventionally 0xF1.
    pub tester_address: u8,
    pub baud: u32,
    /// Some ECUs want the length in a separate byte instead of packed into
    /// the format byte.
    pub separate_length_byte: bool,
}

/// The tester address a definition gets when it names none.
pub fn default_tester_address() -> (a: u8)
    ensures
        a == 0xF1,
{
    0xF1
}

/// CAN/UDS bus addressing. Payloads over 7 bytes are segmented by ISO-TP.
#[derive(Debug, Clone, Copy, PartialEq, Eq)]
pub struct CanBusConfig {
    /// CAN ID the tester transmits requests on.
    pub tx_id: u32,
    /// CAN ID the ECU responds on.
    pub rx_id: u32,
    pub extended_ids: bool,
}

#[derive(Debug, Clone, PartialEq, Eq)]
pub struct Identification {
    /// ReadEcuIdentification request payload.
    pub request: Vec<u8>,
    /// Byte offset into the positive response payload where the ident
    /// text/data begins (skips SID and option bytes).
    pub skip_bytes: usize,
}

/// The identification skip a definition gets when it names none.
pub fn default_ident_skip() -> (n: usize)
    ensures
        n == 2,
{
    2
}

impl Default for Identification {
    /// ReadEcuIdentification with option 0x80 ("all of it"), skipping the
    /// SID and option bytes.
    fn default() -> (i: Self)
        ensures
            i.request@ == seq![0x1Au8, 0x80u8],
            i.skip_bytes == 2,
    {
        Identification { request: vec![0x1A, 0x80], skip_bytes: default_ident_skip() }
    }
}

/// One live-data value: how to request it and where its raw integer sits
/// in the response.
#[derive(Debug, Clone, PartialEq, Eq)]
pub struct Channel {
    pub key: String,
    pub name: String,
    pub unit: String,
    /// Request payload, e.g. `[0x21, 0x01]` (ReadDataByLocalIdentifier).
    pub request: Vec<u8>,
    /// Byte offset into the positive response payload.
    pub offset: usize,
    /// 1, 2 or 4 bytes, big-endian.
    pub length: usize,
    pub signed: bool,
    pub verified: bool,
}

/// Big-endian value of a byte string.
pub open spec fn be_value(bytes: Seq<u8>) -> nat
    decreases bytes.len(),
{
    if bytes.len() == 0 {
        0
    } else {
        be_value(bytes.drop_last()) * 256 + bytes.last() as nat
    }
}

pub open spec fn pow256(n: nat) -> nat
    decreases n,
{
    if n == 0 {
        1
    } else {
        256 * pow256((n - 1) as nat)
    }
}

/// The last eight bytes of a byte string (all of it when shorter).
pub open spec fn last8(bytes: Seq<u8>) -> Seq<u8> {
    if bytes.len() > 8 {
        bytes.skip(bytes.len() - 8)
    } else {
        bytes
    }
}

/// The raw integer a channel reads from `payload`: its bytes big-endian in
/// 64 bits (so only the last eight count), and for a signed channel read as
/// two's complement of its width. `None` when the payload is too short.
pub open spec fn spec_raw_value(ch: Channel, payload: Seq<u8>) -> Option<i64> {
    if ch.offset + ch.length > payload.len() {
        None
    } else {
        let bytes = payload.subrange(ch.offset as int, ch.offset + ch.length);
        let v = be_value(bytes);
        if ch.signed && v >= pow256(ch.length as nat) / 2 {
            Some((v - pow256(ch.length as nat)) as i64)
        } else {
            Some(be_value(last8(bytes)) as u64 as i64)
        }
    }
}

proof fn lemma_pow256_pos(n: nat)
    ensures
        pow256(n) >= 1,
    decreases n,
{
    if n > 0 {
        lemma_pow256_pos((n - 1) as nat);
    }
}

proof fn lemma_be_bound(bytes: Seq<u8>)
    ensures
        be_value(bytes) < pow256(bytes.len()),
    decreases bytes.len(),
{
    if bytes.len() > 0 {
        lemma_be_bound(bytes.drop_last());
        let p = pow256(bytes.drop_last().len());
        let v = be_value(bytes.drop_last());
        assert(v * 256 + 255 < p * 256) by (nonlinear_arith)
            requires
                v < p,
        ;
    }
}

proof fn lemma_pow256_7()
    ensures
        pow256(7) == 0x100_0000_0000_0000,
{
    reveal_with_fuel(pow256, 8);
}

proof fn lemma_pow256_8()
    ensures
        pow256(8) == 0x1_0000_0000_0000_0000,
{
    reveal_with_fuel(pow256, 9);
}

proof fn lemma_pow256_mono(a: nat, b: nat)
    requires
        a <= b,
    ensures
        pow256(a) <= pow256(b),
    decreases b,
{
    if a < b {
        lemma_pow256_mono(a, (b - 1) as nat);
        lemma_pow256_pos((b - 1) as nat);
    }
}

/// A channel whose bytes can be read out and sign-extended without
/// overflow: its byte range fits in memory indices, and a signed value
/// spans 1 to 7 bytes.
pub open spec fn channel_decodable(ch: Channel) -> bool {
    &&& ch.offset + ch.length <= usize::MAX
    &&& ch.signed ==> 1 <= ch.length <= 7
}

impl Channel {
    /// The raw integer of this channel in a positive response payload
    /// (scaling to engineering units is the caller's).
    pub fn raw_value(&self, payload: &[u8]) -> (r: Option<i64>)
        requires
            self.offset + self.length <= usize::MAX,
            self.signed ==> 1 <= self.length <= 7,
        ensures
            r == spec_raw_value(*self, payload@),
    {
        let end = self.offset + self.length;
        if end > payload.len() {
            return None;
        }
        let ghost bytes = payload@.subrange(self.offset as int, end as int);
        let start: usize = if self.length > 8 {
            end - 8
        } else {
            self.offset
        };
        let ghost tail = payload@.subrange(start as int, end as int);
        assert(tail =~= last8(bytes));
        proof {
            lemma_pow256_mono((end - start) as nat, 8);
        }
        let mut acc: u64 = 0;
        let mut i: usize = start;
        while i < end
            invariant
                start <= i <= end,
                end - start <= 8,
                end <= payload@.len(),
                tail == payload@.subrange(start as int, end as int),
                acc as nat == be_value(tail.take(i - start)),
                acc < pow256((i - start) as nat),
                pow256((end - start) as nat) <= pow256(8),
            decreases end - i,
        {
            let b = payload[i];
            proof {
                assert(tail.take(i + 1 - start).drop_last() =~= tail.take(i - start));
                assert(tail.take(i + 1 - start).last() == b);
                lemma_pow256_mono((i + 1 - start) as nat, (end - start) as nat);
                lemma_pow256_8();
                let p = pow256((i - start) as nat);
                assert(acc * 256 + b < p * 256) by (nonlinear_arith)
                    requires
                        acc < p,
                        b < 256,
                ;
            }
            acc = acc * 256 + b as u64;
            i = i + 1;
        }
        assert(tail.take(end - start) =~= tail);
        if self.signed {
            assert(tail =~= bytes);
            proof {
                lemma_be_bound(bytes);
                lemma_pow256_mono(self.length as nat, 7);
                lemma_pow256_7();
            }
            let mut full: u64 = 1;
            let mut k: usize = 0;
            while k < self.length
                invariant
                    k <= self.length <= 7,
                    full == pow256(k as nat),
                    pow256(self.length as nat) <= 0x100_0000_0000_0000,
                decreases self.length - k,
            {
                proof {
                    lemma_pow256_mono((k + 1) as nat, self.length as nat);
                }
                full = full * 256;
                k = k + 1;
            }
            let half = full / 2;
            if acc >= half {
                return Some(acc as i64 - full as i64);
            }
        }
        Some(acc as i64)
    }
}

#[derive(Debug, Clone, PartialEq, Eq)]
pub struct DtcConfig {
    /// ReadDTCByStatus request payload.
    pub read_request: Vec<u8>,
    /// ClearDiagnosticInformation request payload.
    pub clear_request: Vec<u8>,
    /// Known code meanings for this ECU.
    pub table: Vec<DtcEntry>,
}

impl Default for DtcConfig {
    /// ReadDTCByStatus for all identified codes of the whole group, and
    /// ClearDiagnosticInformation of the whole group; no known codes.
    fn default() -> (c: Self)
        ensures
            c.read_request@ == seq![0x18u8, 0x02u8, 0xFFu8, 0x00u8],
            c.clear_request@ == seq![0x14u8, 0xFFu8, 0x00u8],
            c.table@.len() == 0,
    {
        DtcConfig {
            read_request: vec![0x18, 0x02, 0xFF, 0x00],
            clear_request: vec![0x14, 0xFF, 0x00],
            table: Vec::new(),
        }
    }
}

#[derive(Debug, Clone, PartialEq, Eq)]
pub struct DtcEntry {
    pub code: u16,
    pub description: String,
    /// Likely culprits, most common first.
    pub causes: Vec<String>,
    /// What to physically check or do, in order.
    pub checks: Vec<String>,
}

#[derive(Debug, Clone, Copy, PartialEq, Eq)]
pub enum RiskLevel {
    /// Reads or momentary actuator tests.
    Low,
    /// Persists state on the ECU (adaptation resets, trims).
    Medium,
    /// Could leave the bike unrideable if interrupted.
    High,
}

/// Which measurements a routine's preconditions need before it may run.
#[derive(Debug, Clone, Copy, PartialEq, Eq, Default)]
pub struct PreconditionNeeds {
    /// The engine must be verified off (an RPM reading is needed).
    pub engine_must_be_off: bool,
    /// A battery-voltage window is set (a battery reading is needed).
    pub battery_window: bool,
}

#[derive(Debug, Clone, PartialEq, Eq)]
pub struct Routine {
    pub key: String,
    pub name: String,
    pub description: String,
    /// Step-by-step procedure; empty means only `description` exists.
    pub procedure: Vec<String>,
    pub risk: RiskLevel,
    /// Request payload sent when the routine runs.
    pub request: Vec<u8>,
    pub preconditions: PreconditionNeeds,
    /// What to have ready before running this routine.
    pub tools: Vec<String>,
    /// Citation for a community-sourced procedure (site + https URL, paired).
    pub source: Option<String>,
    pub source_url: Option<String>,
    pub verified: bool,
}

#[derive(Debug, Clone, Copy, PartialEq, Eq)]
pub enum AccessZone {
    UnderSeat,
    UnderTankLeft,
    UnderTankRight,
    UnderTankCenter,
    TailSection,
    DashArea,
    SidePanelLeft,
    SidePanelRight,
}

pub open spec fn zone_name(z: AccessZone) -> Seq<char> {
    match z {
        AccessZone::UnderSeat => "under-seat"@,
        AccessZone::UnderTankLeft => "under-tank-left"@,
        AccessZone::UnderTankRight => "under-tank-right"@,
        AccessZone::UnderTankCenter => "under-tank-center"@,
        AccessZone::TailSection => "tail-section"@,
        AccessZone::DashArea => "dash-area"@,
        AccessZone::SidePanelLeft => "side-panel-left"@,
        AccessZone::SidePanelRight => "side-panel-right"@,
    }
}

impl AccessZone {
    /// The name definition files use for this zone.
    pub fn as_str(&self) -> (s: &'static str)
        ensures
            s@ == zone_name(*self),
    {
        match self {
            AccessZone::UnderSeat => "under-seat",
            AccessZone::UnderTankLeft => "under-tank-left",
            AccessZone::UnderTankRight => "under-tank-right",
            AccessZone::UnderTankCenter => "under-tank-center",
            AccessZone::TailSection => "tail-section",
            AccessZone::DashArea => "dash-area",
            AccessZone::SidePanelLeft => "side-panel-left",
            AccessZone::SidePanelRight => "side-panel-right",
        }
    }
}

/// "How do I get to it?": where a port physically is on the bike, what
/// tools the job needs, and the steps to reach it.
#[derive(Debug, Clone, PartialEq, Eq)]
pub struct AccessGuide {
    pub zone: AccessZone,
    /// One-sentence answer ("3-pin connector under the tank, right side").
    pub summary: String,
    /// Ordered steps to physically reach the port.
    pub steps: Vec<String>,
    /// What to have ready before starting.
    pub tools: Vec<String>,
    /// Caveat shown with the guide.
    pub verify_note: Option<String>,
    /// Citation (site + https URL), both or neither.
    pub source: Option<String>,
    pub source_url: Option<String>,
}

/// The guided charging-system check, as its rules read it: whether its
/// voltage thresholds and RPM band are well ordered, and its citation.
#[derive(Debug, Clone, PartialEq, Eq)]
pub struct ChargingCheck {
    /// rest_min_v < charging_min_v < charging_max_v.
    pub thresholds_ordered: bool,
    /// 0 < check_rpm_min < check_rpm_max.
    pub rpm_band_valid: bool,
    pub source: String,
    pub source_url: String,
}

#[derive(Debug, Clone, PartialEq, Eq)]
pub struct EcuDefinition {
    pub ecu: EcuInfo,
    /// K-line/KWP2000 bus config: required on a K-line bus, absent on CAN.
    pub init: Option<InitConfig>,
    /// CAN/UDS bus config: required on a CAN bus, absent on K-line.
    pub can: Option<CanBusConfig>,
    pub timing: TimingOverrides,
    pub identification: Identification,
    pub channels: Vec<Channel>,
    pub dtc: DtcConfig,
    pub routines: Vec<Routine>,
    pub charging: Option<ChargingCheck>,
    pub connector_access: Option<AccessGuide>,
    pub vacuum_access: Option<AccessGuide>,
}

} // verus!
