//! UDS (ISO 14229) service identifiers in scope. UDS shares the 0x7F
//! negative-response convention and the negative response codes with
//! KWP2000 (see `services`).

use vstd::prelude::*;

verus! {

pub const DIAGNOSTIC_SESSION_CONTROL: u8 = 0x10;
pub const CLEAR_DIAGNOSTIC_INFORMATION: u8 = 0x14;
pub const READ_DTC_INFORMATION: u8 = 0x19;
pub const READ_DATA_BY_IDENTIFIER: u8 = 0x22;
pub const INPUT_OUTPUT_CONTROL_BY_IDENTIFIER: u8 = 0x2F;
pub const ROUTINE_CONTROL: u8 = 0x31;
pub const TESTER_PRESENT: u8 = 0x3E;
pub const NEGATIVE_RESPONSE: u8 = 0x7F;

/// RoutineControl (0x31) sub-functions.
pub const ROUTINE_CONTROL_START: u8 = 0x01;
pub const ROUTINE_CONTROL_STOP: u8 = 0x02;
pub const ROUTINE_CONTROL_REQUEST_RESULTS: u8 = 0x03;

/// A positive response echoes the SID + 0x40, as on KWP2000. SecurityAccess
/// (0x27), WriteDataByIdentifier (0x2E) and the memory/transfer services are
/// deliberately absent.
pub fn positive_response(request_sid: u8) -> (r: u8)
    ensures
        r == crate::services::spec_positive_response(request_sid),
{
    crate::services::positive_response(request_sid)
}

} // verus!
