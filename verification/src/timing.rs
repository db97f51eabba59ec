//! ISO 14230-2 timing parameters (P1-P4), in milliseconds.
//!
//! Defaults follow the standard's normal timing set; ECU definitions may
//! override any of them. Receive deadlines are padded for USB-serial latency;
//! transmit gaps are never shortened.

use vstd::prelude::*;

verus! {

#[derive(Debug, Clone, Copy, PartialEq, Eq)]
pub struct TimingParams {
    /// P1 max: inter-byte time within an ECU response.
    pub p1_max_ms: u64,
    /// P2 min/max: gap between the end of a request and the start of the reply.
    pub p2_min_ms: u64,
    pub p2_max_ms: u64,
    /// P3 min/max: gap between the end of a reply and the next request.
    /// `p3_max_ms` is also the keep-alive budget.
    pub p3_min_ms: u64,
    pub p3_max_ms: u64,
    /// P4 min: inter-byte time within a tester request.
    pub p4_min_ms: u64,
}

/// Timing overrides in milliseconds; anything unset keeps the ISO default.
#[derive(Debug, Clone, Copy, PartialEq, Eq, Default)]
pub struct TimingOverrides {
    pub p1_max_ms: Option<u64>,
    pub p2_min_ms: Option<u64>,
    pub p2_max_ms: Option<u64>,
    pub p3_min_ms: Option<u64>,
    pub p3_max_ms: Option<u64>,
    pub p4_min_ms: Option<u64>,
}

pub open spec fn spec_default_timing() -> TimingParams {
    TimingParams {
        p1_max_ms: 20,
        p2_min_ms: 25,
        p2_max_ms: 50,
        p3_min_ms: 55,
        p3_max_ms: 5000,
        p4_min_ms: 5,
    }
}

pub open spec fn sat_add(a: u64, b: u64) -> u64 {
    if a + b > u64::MAX { u64::MAX } else { (a + b) as u64 }
}

pub open spec fn override_or(v: Option<u64>, default: u64) -> u64 {
    match v {
        Some(ms) => ms,
        None => default,
    }
}

/// The ISO defaults with each set override applied.
pub open spec fn spec_with_overrides(o: TimingOverrides) -> TimingParams {
    TimingParams {
        p1_max_ms: override_or(o.p1_max_ms, 20),
        p2_min_ms: override_or(o.p2_min_ms, 25),
        p2_max_ms: override_or(o.p2_max_ms, 50),
        p3_min_ms: override_or(o.p3_min_ms, 55),
        p3_max_ms: override_or(o.p3_max_ms, 5000),
        p4_min_ms: override_or(o.p4_min_ms, 5),
    }
}

impl Default for TimingParams {
    fn default() -> (t: Self)
        ensures
            t == spec_default_timing(),
    {
        TimingParams {
            p1_max_ms: 20,
            p2_min_ms: 25,
            p2_max_ms: 50,
            p3_min_ms: 55,
            p3_max_ms: 5000,
            p4_min_ms: 5,
        }
    }
}

impl TimingParams {
    /// Deadline for the first byte of a response: P2 max plus 150 ms of
    /// USB-serial slack.
    pub fn first_byte_deadline(&self) -> (ms: u64)
        ensures
            ms == sat_add(self.p2_max_ms, 150),
    {
        self.p2_max_ms.saturating_add(150)
    }

    /// Deadline for bytes within a response: P1 max plus 50 ms of slack.
    pub fn inter_byte_deadline(&self) -> (ms: u64)
        ensures
            ms == sat_add(self.p1_max_ms, 50),
    {
        self.p1_max_ms.saturating_add(50)
    }

    /// Send a TesterPresent once the bus has been idle this long: half of
    /// P3 max.
    pub fn keepalive_after(&self) -> (ms: u64)
        ensures
            ms == self.p3_max_ms / 2,
    {
        self.p3_max_ms / 2
    }

    /// The ISO defaults with each set override applied.
    pub fn with_overrides(o: &TimingOverrides) -> (t: Self)
        ensures
            t == spec_with_overrides(*o),
    {
        let mut t = TimingParams::default();
        if let Some(ms) = o.p1_max_ms {
            t.p1_max_ms = ms;
        }
        if let Some(ms) = o.p2_min_ms {
            t.p2_min_ms = ms;
        }
        if let Some(ms) = o.p2_max_ms {
            t.p2_max_ms = ms;
        }
        if let Some(ms) = o.p3_min_ms {
            t.p3_min_ms = ms;
        }
        if let Some(ms) = o.p3_max_ms {
            t.p3_max_ms = ms;
        }
        if let Some(ms) = o.p4_min_ms {
            t.p4_min_ms = ms;
        }
        t
    }
}

} // verus!
