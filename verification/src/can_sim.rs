//! A simulated CAN/UDS ECU, the CAN-side counterpart to the K-line
//! simulator. The request/response mapping is fixed here rather than loaded
//! from a definition file, as a protocol-level device under test should be.
//!
//! Live values are kept as the raw bytes the ECU reports: rpm in 1/4 rpm,
//! battery in 1/16 V.

use crate::services::spec_positive_response;
use crate::uds::{
    positive_response, CLEAR_DIAGNOSTIC_INFORMATION, DIAGNOSTIC_SESSION_CONTROL,
    INPUT_OUTPUT_CONTROL_BY_IDENTIFIER, NEGATIVE_RESPONSE, READ_DATA_BY_IDENTIFIER,
    READ_DTC_INFORMATION, TESTER_PRESENT,
};
use crate::can::{CanBusEcuEnd, CanError};
use crate::iso_tp::{self, IsoTpError};
use vstd::prelude::*;

verus! {

pub struct CanSimConfig {
    /// CAN ID the tester transmits requests on (what this simulator listens
    /// for).
    pub tester_tx_id: u32,
    /// CAN ID this simulator transmits responses on.
    pub ecu_tx_id: u32,
    /// Bytes returned for the identification DID (0xF190).
    pub ident: Vec<u8>,
    /// Stored fault codes: (3-byte UDS DTC masked into a u32, status byte).
    pub dtcs: Vec<(u32, u8)>,
    /// Engine speed reported for DID 0xF10C, in 1/4 rpm.
    pub rpm_raw: u16,
    /// Battery voltage reported for DID 0xF10D, in 1/16 V.
    pub battery_raw: u8,
}

impl Default for CanSimConfig {
    fn default() -> (c: Self)
        ensures
            c.tester_tx_id == 0x7E0,
            c.ecu_tx_id == 0x7E8,
            c.ident@ == seq![0x4Du8, 0x43, 0x33, 0x2D, 0x53, 0x49, 0x4D, 0x2D, 0x30, 0x30, 0x30, 0x31],
            c.dtcs@ == seq![(0x000335u32, 0x28u8)],
            c.rpm_raw == 5000,
            c.battery_raw == 204,
    {
        CanSimConfig {
            tester_tx_id: 0x7E0,
            ecu_tx_id: 0x7E8,
            // "MC3-SIM-0001"
            ident: vec![0x4D, 0x43, 0x33, 0x2D, 0x53, 0x49, 0x4D, 0x2D, 0x30, 0x30, 0x30, 0x31],
            dtcs: vec![(0x000335, 0x28)],
            rpm_raw: 5000,
            battery_raw: 204,
        }
    }
}

pub struct CanSimulator {
    config: CanSimConfig,
    dtcs: Vec<(u32, u8)>,
    /// IOControl requests served so far (for test assertions).
    pub routine_log: Vec<Vec<u8>>,
}

/// The bytes of a stored-code list: the three DTC bytes, high first, then
/// the status, for each code.
pub open spec fn uds_dtc_list_bytes(dtcs: Seq<(u32, u8)>) -> Seq<u8>
    decreases dtcs.len(),
{
    if dtcs.len() == 0 {
        Seq::empty()
    } else {
        uds_dtc_list_bytes(dtcs.drop_last()) + seq![
            (dtcs.last().0 >> 16u32) as u8,
            (dtcs.last().0 >> 8u32) as u8,
            dtcs.last().0 as u8,
            dtcs.last().1,
        ]
    }
}

fn copy_codes(v: &Vec<(u32, u8)>) -> (out: Vec<(u32, u8)>)
    ensures
        out@ == v@,
{
    let mut out: Vec<(u32, u8)> = Vec::new();
    let mut i: usize = 0;
    while i < v.len()
        invariant
            i <= v@.len(),
            out@ =~= v@.take(i as int),
        decreases v@.len() - i,
    {
        out.push(v[i]);
        i = i + 1;
    }
    assert(v@.take(v@.len() as int) =~= v@);
    out
}

/// Append `src[start..]` to `out`.
fn append_from(out: &mut Vec<u8>, src: &[u8], start: usize)
    requires
        start <= src@.len(),
    ensures
        final(out)@ == old(out)@ + src@.subrange(start as int, src@.len() as int),
{
    let mut i: usize = start;
    while i < src.len()
        invariant
            start <= i <= src@.len(),
            out@ =~= old(out)@ + src@.subrange(start as int, i as int),
        decreases src@.len() - i,
    {
        out.push(src[i]);
        i = i + 1;
    }
}

impl CanSimulator {
    pub closed spec fn spec_config(&self) -> CanSimConfig {
        self.config
    }

    pub closed spec fn spec_dtcs(&self) -> Seq<(u32, u8)> {
        self.dtcs@
    }

    pub closed spec fn spec_routine_log(&self) -> Seq<Seq<u8>> {
        self.routine_log@.map_values(|v: Vec<u8>| v@)
    }

    /// The data of identifier `did`, if the simulator knows it.
    pub open spec fn did_data(&self, did: u16) -> Option<Seq<u8>> {
        let cfg = self.spec_config();
        if did == 0xF190 {
            Some(cfg.ident@)
        } else if did == 0xF10C {
            Some(seq![(cfg.rpm_raw >> 8u16) as u8, cfg.rpm_raw as u8])
        } else if did == 0xF10D {
            Some(seq![cfg.battery_raw])
        } else {
            None
        }
    }

    /// The answer to request payload `p`; `None` means the ECU stays silent.
    pub open spec fn answer(&self, p: Seq<u8>) -> Option<Seq<u8>> {
        if p.len() == 0 {
            None
        } else if p.len() == 1 && p[0] == TESTER_PRESENT {
            Some(seq![spec_positive_response(TESTER_PRESENT)])
        } else if p.len() == 2 && p[0] == DIAGNOSTIC_SESSION_CONTROL {
            Some(seq![spec_positive_response(DIAGNOSTIC_SESSION_CONTROL), p[1]])
        } else if p.len() == 3 && p[0] == READ_DATA_BY_IDENTIFIER {
            match self.did_data((p[1] as int * 256 + p[2] as int) as u16) {
                Some(d) => Some(seq![spec_positive_response(READ_DATA_BY_IDENTIFIER), p[1], p[2]] + d),
                None => None,
            }
        } else if p.len() == 3 && p[0] == READ_DTC_INFORMATION && p[1] == 0x02 {
            Some(seq![spec_positive_response(READ_DTC_INFORMATION), 0x02u8, 0xFFu8]
                + uds_dtc_list_bytes(self.spec_dtcs()))
        } else if p[0] == CLEAR_DIAGNOSTIC_INFORMATION {
            Some(seq![spec_positive_response(CLEAR_DIAGNOSTIC_INFORMATION)] + p.subrange(1, p.len() as int))
        } else if p[0] == INPUT_OUTPUT_CONTROL_BY_IDENTIFIER {
            Some(seq![spec_positive_response(INPUT_OUTPUT_CONTROL_BY_IDENTIFIER)] + p.subrange(1, p.len() as int))
        } else {
            Some(seq![NEGATIVE_RESPONSE, p[0], 0x11u8])
        }
    }

    pub fn new(config: CanSimConfig) -> (s: Self)
        ensures
            s.spec_config() == config,
            s.spec_dtcs() == config.dtcs@,
            s.spec_routine_log().len() == 0,
    {
        let dtcs = copy_codes(&config.dtcs);
        CanSimulator { config, dtcs, routine_log: Vec::new() }
    }

    pub fn dtc_count(&self) -> (n: usize)
        ensures
            n == self.spec_dtcs().len(),
    {
        self.dtcs.len()
    }

    fn read_data_by_identifier(&self, did: u16) -> (r: Option<Vec<u8>>)
        ensures
            match r {
                Some(v) => self.did_data(did) == Some(v@),
                None => self.did_data(did) is None,
            },
    {
        if did == 0xF190 {
            let mut v: Vec<u8> = Vec::new();
            append_from(&mut v, self.config.ident.as_slice(), 0);
            assert(v@ =~= self.config.ident@);
            Some(v)
        } else if did == 0xF10C {
            Some(vec![(self.config.rpm_raw >> 8) as u8, self.config.rpm_raw as u8])
        } else if did == 0xF10D {
            Some(vec![self.config.battery_raw])
        } else {
            None
        }
    }

    /// Handle one UDS request payload; returns the response payload, or
    /// `None` for stay-silent situations (UDS has no equivalent of KWP's
    /// "not yet initialized": a session-less request just gets a normal
    /// negative response instead).
    pub fn handle_request(&mut self, payload: &[u8]) -> (r: Option<Vec<u8>>)
        ensures
            match r {
                Some(v) => old(self).answer(payload@) == Some(v@),
                None => old(self).answer(payload@) is None,
            },
            final(self).spec_config() == old(self).spec_config(),
            final(self).spec_dtcs() == (if payload@.len() > 0 && payload@[0]
                == CLEAR_DIAGNOSTIC_INFORMATION {
                Seq::empty()
            } else {
                old(self).spec_dtcs()
            }),
            final(self).spec_routine_log() == (if payload@.len() > 0 && payload@[0]
                == INPUT_OUTPUT_CONTROL_BY_IDENTIFIER {
                old(self).spec_routine_log().push(payload@)
            } else {
                old(self).spec_routine_log()
            }),
    {
        if payload.len() == 0 {
            return None;
        }
        let request_sid = payload[0];
        if payload.len() == 1 && request_sid == TESTER_PRESENT {
            Some(vec![positive_response(request_sid)])
        } else if payload.len() == 2 && request_sid == DIAGNOSTIC_SESSION_CONTROL {
            Some(vec![positive_response(request_sid), payload[1]])
        } else if payload.len() == 3 && request_sid == READ_DATA_BY_IDENTIFIER {
            let did: u16 = (payload[1] as u16) * 256 + (payload[2] as u16);
            match self.read_data_by_identifier(did) {
                Some(data) => {
                    let mut out = vec![positive_response(request_sid), payload[1], payload[2]];
                    append_from(&mut out, data.as_slice(), 0);
                    Some(out)
                },
                None => None,
            }
        } else if payload.len() == 3 && request_sid == READ_DTC_INFORMATION && payload[1] == 0x02 {
            let mut out = vec![positive_response(request_sid), 0x02, 0xFF];
            let mut i: usize = 0;
            while i < self.dtcs.len()
                invariant
                    i <= self.dtcs@.len(),
                    out@ =~= seq![spec_positive_response(READ_DTC_INFORMATION), 0x02u8, 0xFFu8]
                        + uds_dtc_list_bytes(self.dtcs@.take(i as int)),
                decreases self.dtcs@.len() - i,
            {
                let (code, status) = self.dtcs[i];
                proof {
                    assert(self.dtcs@.take(i + 1).drop_last() =~= self.dtcs@.take(i as int));
                }
                out.push((code >> 16) as u8);
                out.push((code >> 8) as u8);
                out.push(code as u8);
                out.push(status);
                i = i + 1;
            }
            proof {
                assert(self.dtcs@.take(self.dtcs@.len() as int) =~= self.dtcs@);
            }
            Some(out)
        } else if request_sid == CLEAR_DIAGNOSTIC_INFORMATION {
            self.dtcs = Vec::new();
            let mut out = vec![positive_response(request_sid)];
            append_from(&mut out, payload, 1);
            Some(out)
        } else if request_sid == INPUT_OUTPUT_CONTROL_BY_IDENTIFIER {
            let mut logged: Vec<u8> = Vec::new();
            append_from(&mut logged, payload, 0);
            assert(logged@ =~= payload@);
            self.routine_log.push(logged);
            proof {
                assert(self.spec_routine_log() =~= old(self).spec_routine_log().push(payload@));
            }
            let mut out = vec![positive_response(request_sid)];
            append_from(&mut out, payload, 1);
            Some(out)
        } else {
            // Service not supported.
            Some(vec![NEGATIVE_RESPONSE, request_sid, 0x11])
        }
    }
}

/// Run a CAN simulator behind the ECU end of a CAN bus until the bus
/// closes (or an answer cannot be carried); receive timeouts are idle waits,
/// not an end. Returns the simulator so its state can be inspected.
pub fn run_on_can_bus(sim: CanSimulator, ecu_end: CanBusEcuEnd) -> (s: CanSimulator)
    ensures
        s.spec_config() == sim.spec_config(),
{
    let mut cur = sim;
    let mut ecu_end = ecu_end;
    let mut budget: u64 = u64::MAX;
    while budget > 0
        invariant
            cur.spec_config() == sim.spec_config(),
        decreases budget,
    {
        budget = budget - 1;
        let ecu_tx_id = cur.config.ecu_tx_id;
        let tester_tx_id = cur.config.tester_tx_id;
        match iso_tp::receive(&mut ecu_end, ecu_tx_id, tester_tx_id, 500) {
            Ok(request) => match cur.handle_request(request.as_slice()) {
                Some(response) => {
                    // ISO-TP carries at most 4095 bytes: a longer answer
                    // ends the simulator.
                    if response.len() > 0x0FFF {
                        return cur;
                    }
                    if iso_tp::send(&mut ecu_end, ecu_tx_id, tester_tx_id, response.as_slice(), 500).is_err() {
                        return cur;
                    }
                },
                None => {},
            },
            Err(IsoTpError::Can(CanError::Timeout)) => {},
            Err(_) => {
                return cur;
            },
        }
    }
    cur
}

} // verus!
