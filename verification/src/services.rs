//! KWP2000 service identifiers and negative-response classification.

use vstd::prelude::*;
use crate::text::{hex2, push_hex2};

verus! {

pub const START_COMMUNICATION: u8 = 0x81;
pub const STOP_COMMUNICATION: u8 = 0x82;
pub const START_DIAGNOSTIC_SESSION: u8 = 0x10;
pub const ECU_RESET: u8 = 0x11;
pub const CLEAR_DIAGNOSTIC_INFORMATION: u8 = 0x14;
pub const READ_DTC_BY_STATUS: u8 = 0x18;
pub const READ_ECU_IDENTIFICATION: u8 = 0x1A;
pub const READ_DATA_BY_LOCAL_ID: u8 = 0x21;
pub const INPUT_OUTPUT_CONTROL_BY_LOCAL_ID: u8 = 0x30;
pub const START_ROUTINE_BY_LOCAL_ID: u8 = 0x31;
pub const STOP_ROUTINE_BY_LOCAL_ID: u8 = 0x32;
pub const REQUEST_ROUTINE_RESULTS_BY_LOCAL_ID: u8 = 0x33;
pub const TESTER_PRESENT: u8 = 0x3E;
pub const NEGATIVE_RESPONSE: u8 = 0x7F;

/// The positive-response SID for a request SID: the request SID with bit 6 set.
pub open spec fn spec_positive_response(request_sid: u8) -> u8 {
    request_sid | 0x40
}

/// A positive response echoes the SID + 0x40. Memory and download services
/// (0x23, 0x34-0x36, 0x3D) are deliberately absent from this module.
pub fn positive_response(request_sid: u8) -> (r: u8)
    ensures
        r == spec_positive_response(request_sid),
{
    request_sid | 0x40
}

/// Law: for every request SID below 0x3F (all KWP and UDS request services
/// except StartCommunication and friends), the positive response is the SID
/// plus 0x40, and it is never the negative-response marker.
pub proof fn lemma_positive_response_adds_0x40(sid: u8)
    requires
        sid < 0x3F,
    ensures
        spec_positive_response(sid) == sid + 0x40,
        spec_positive_response(sid) != NEGATIVE_RESPONSE,
{
    assert(sid < 0x40 ==> sid | 0x40 == sid + 0x40) by (bit_vector);
}

#[derive(Debug, Clone, Copy, PartialEq, Eq)]
pub enum NegativeResponseCode {
    GeneralReject,
    ServiceNotSupported,
    SubFunctionNotSupported,
    BusyRepeatRequest,
    ConditionsNotCorrect,
    RoutineNotComplete,
    RequestOutOfRange,
    SecurityAccessDenied,
    /// ECU needs more time; the tester must keep waiting.
    ResponsePending,
    Other(u8),
}

/// The code a response byte stands for.
pub open spec fn spec_nrc_from(code: u8) -> NegativeResponseCode {
    if code == 0x10 {
        NegativeResponseCode::GeneralReject
    } else if code == 0x11 {
        NegativeResponseCode::ServiceNotSupported
    } else if code == 0x12 {
        NegativeResponseCode::SubFunctionNotSupported
    } else if code == 0x21 {
        NegativeResponseCode::BusyRepeatRequest
    } else if code == 0x22 {
        NegativeResponseCode::ConditionsNotCorrect
    } else if code == 0x23 {
        NegativeResponseCode::RoutineNotComplete
    } else if code == 0x31 {
        NegativeResponseCode::RequestOutOfRange
    } else if code == 0x33 {
        NegativeResponseCode::SecurityAccessDenied
    } else if code == 0x78 {
        NegativeResponseCode::ResponsePending
    } else {
        NegativeResponseCode::Other(code)
    }
}

/// The byte a code is sent as.
pub open spec fn spec_nrc_byte(code: NegativeResponseCode) -> u8 {
    match code {
        NegativeResponseCode::GeneralReject => 0x10,
        NegativeResponseCode::ServiceNotSupported => 0x11,
        NegativeResponseCode::SubFunctionNotSupported => 0x12,
        NegativeResponseCode::BusyRepeatRequest => 0x21,
        NegativeResponseCode::ConditionsNotCorrect => 0x22,
        NegativeResponseCode::RoutineNotComplete => 0x23,
        NegativeResponseCode::RequestOutOfRange => 0x31,
        NegativeResponseCode::SecurityAccessDenied => 0x33,
        NegativeResponseCode::ResponsePending => 0x78,
        NegativeResponseCode::Other(c) => c,
    }
}

impl NegativeResponseCode {
    /// Classify a negative-response code byte.
    pub fn from_code(code: u8) -> (r: Self)
        ensures
            r == spec_nrc_from(code),
    {
        match code {
            0x10 => NegativeResponseCode::GeneralReject,
            0x11 => NegativeResponseCode::ServiceNotSupported,
            0x12 => NegativeResponseCode::SubFunctionNotSupported,
            0x21 => NegativeResponseCode::BusyRepeatRequest,
            0x22 => NegativeResponseCode::ConditionsNotCorrect,
            0x23 => NegativeResponseCode::RoutineNotComplete,
            0x31 => NegativeResponseCode::RequestOutOfRange,
            0x33 => NegativeResponseCode::SecurityAccessDenied,
            0x78 => NegativeResponseCode::ResponsePending,
            other => NegativeResponseCode::Other(other),
        }
    }

    pub fn as_u8(self) -> (r: u8)
        ensures
            r == spec_nrc_byte(self),
    {
        match self {
            NegativeResponseCode::GeneralReject => 0x10,
            NegativeResponseCode::ServiceNotSupported => 0x11,
            NegativeResponseCode::SubFunctionNotSupported => 0x12,
            NegativeResponseCode::BusyRepeatRequest => 0x21,
            NegativeResponseCode::ConditionsNotCorrect => 0x22,
            NegativeResponseCode::RoutineNotComplete => 0x23,
            NegativeResponseCode::RequestOutOfRange => 0x31,
            NegativeResponseCode::SecurityAccessDenied => 0x33,
            NegativeResponseCode::ResponsePending => 0x78,
            NegativeResponseCode::Other(code) => code,
        }
    }

    pub fn is_response_pending(self) -> (r: bool)
        ensures
            r == (self == NegativeResponseCode::ResponsePending),
    {
        match self {
            NegativeResponseCode::ResponsePending => true,
            _ => false,
        }
    }
}

/// The name of a known code, as its text starts.
pub open spec fn nrc_name(code: NegativeResponseCode) -> Seq<char> {
    match code {
        NegativeResponseCode::GeneralReject => "general reject"@,
        NegativeResponseCode::ServiceNotSupported => "service not supported"@,
        NegativeResponseCode::SubFunctionNotSupported => "sub-function not supported"@,
        NegativeResponseCode::BusyRepeatRequest => "busy, repeat request"@,
        NegativeResponseCode::ConditionsNotCorrect => "conditions not correct"@,
        NegativeResponseCode::RoutineNotComplete => "routine not complete"@,
        NegativeResponseCode::RequestOutOfRange => "request out of range"@,
        NegativeResponseCode::SecurityAccessDenied => "security access denied"@,
        NegativeResponseCode::ResponsePending => "response pending"@,
        NegativeResponseCode::Other(_) => Seq::empty(),
    }
}

/// "service not supported (0x11)", or "code 0x5A" for an unnamed code.
pub open spec fn nrc_text(code: NegativeResponseCode) -> Seq<char> {
    match code {
        NegativeResponseCode::Other(c) => "code 0x"@ + hex2(c),
        _ => nrc_name(code) + " (0x"@ + hex2(spec_nrc_byte(code)) + ")"@,
    }
}

impl NegativeResponseCode {
    /// The code in words, with its byte.
    pub fn text(&self) -> (s: String)
        ensures
            s@ == nrc_text(*self),
    {
        let name = match self {
            NegativeResponseCode::GeneralReject => "general reject",
            NegativeResponseCode::ServiceNotSupported => "service not supported",
            NegativeResponseCode::SubFunctionNotSupported => "sub-function not supported",
            NegativeResponseCode::BusyRepeatRequest => "busy, repeat request",
            NegativeResponseCode::ConditionsNotCorrect => "conditions not correct",
            NegativeResponseCode::RoutineNotComplete => "routine not complete",
            NegativeResponseCode::RequestOutOfRange => "request out of range",
            NegativeResponseCode::SecurityAccessDenied => "security access denied",
            NegativeResponseCode::ResponsePending => "response pending",
            NegativeResponseCode::Other(c) => {
                let mut s = String::from_str("code 0x");
                push_hex2(&mut s, *c);
                return s;
            },
        };
        let mut s = String::from_str(name);
        s.append(" (0x");
        push_hex2(&mut s, self.as_u8());
        s.append(")");
        s
    }
}

impl From<u8> for NegativeResponseCode {
    fn from(code: u8) -> (r: Self) {
        NegativeResponseCode::from_code(code)
    }
}

impl vstd::std_specs::convert::FromSpecImpl<u8> for NegativeResponseCode {
    open spec fn obeys_from_spec() -> bool {
        true
    }

    open spec fn from_spec(v: u8) -> Self {
        spec_nrc_from(v)
    }
}

/// Law: classifying a byte and writing the code back gives the same byte.
pub proof fn lemma_nrc_byte_roundtrip(code: u8)
    ensures
        spec_nrc_byte(spec_nrc_from(code)) == code,
{
}

/// Law: a code classified from its own byte is itself, unless it is an
/// `Other` that wraps one of the named codes' bytes.
pub proof fn lemma_nrc_code_roundtrip(code: NegativeResponseCode)
    requires
        code matches NegativeResponseCode::Other(c) ==> spec_nrc_from(c) is Other,
    ensures
        spec_nrc_from(spec_nrc_byte(code)) == code,
{
}

/// How a response payload answers a request.
#[derive(Debug, Clone, Copy, PartialEq, Eq)]
pub enum ResponseClass {
    /// Starts with the request SID + 0x40.
    Positive,
    /// A negative response saying the ECU needs more time.
    Pending,
    /// A negative response with any other code.
    Negative(NegativeResponseCode),
    /// Starts with some other byte.
    Unexpected(u8),
    /// No bytes at all.
    Empty,
}

pub open spec fn spec_classify(request_sid: u8, resp: Seq<u8>) -> ResponseClass {
    if resp.len() >= 3 && resp[0] == NEGATIVE_RESPONSE {
        if spec_nrc_from(resp[2]) == NegativeResponseCode::ResponsePending {
            ResponseClass::Pending
        } else {
            ResponseClass::Negative(spec_nrc_from(resp[2]))
        }
    } else if resp.len() == 0 {
        ResponseClass::Empty
    } else if resp[0] == spec_positive_response(request_sid) {
        ResponseClass::Positive
    } else {
        ResponseClass::Unexpected(resp[0])
    }
}

/// Law: an answer that is not a negative response (a 0x7F of at least
/// three bytes) is positive exactly when its first byte is the request SID
/// with bit 6 set; a non-empty one with any other first byte is an
/// unexpected service, whatever that byte is.
pub proof fn lemma_positive_only_on_echoed_sid(request_sid: u8, resp: Seq<u8>)
    requires
        !(resp.len() >= 3 && resp[0] == 0x7F),
    ensures
        (spec_classify(request_sid, resp) == ResponseClass::Positive) <==> (resp.len() > 0 && resp[0]
            == (request_sid | 0x40)),
        resp.len() > 0 && resp[0] != (request_sid | 0x40) ==> spec_classify(request_sid, resp)
            == ResponseClass::Unexpected(resp[0]),
        resp.len() == 0 ==> spec_classify(request_sid, resp) == ResponseClass::Empty,
{
}

/// Law: an answer of at least three bytes starting with 0x7F is a refusal
/// whatever the request was: it asks to keep waiting exactly when its third
/// byte is 0x78, and otherwise it is a negative response carrying the code
/// of its third byte.
pub proof fn lemma_refusal_by_third_byte(request_sid: u8, resp: Seq<u8>)
    requires
        resp.len() >= 3,
        resp[0] == 0x7F,
    ensures
        (spec_classify(request_sid, resp) == ResponseClass::Pending) <==> resp[2] == 0x78,
        resp[2] != 0x78 ==> (spec_classify(request_sid, resp) matches ResponseClass::Negative(code)
            && spec_nrc_byte(code) == resp[2]),
{
}

/// Classify a response payload to a request with SID `request_sid` (the
/// 0x7F negative-response convention is shared by KWP2000 and UDS).
pub fn classify_response(request_sid: u8, resp: &[u8]) -> (c: ResponseClass)
    ensures
        c == spec_classify(request_sid, resp@),
        !(resp@.len() >= 3 && resp@[0] == 0x7F) ==> ((c == ResponseClass::Positive) <==> (resp@.len() > 0
            && resp@[0] == (request_sid | 0x40))),
        !(resp@.len() >= 3 && resp@[0] == 0x7F) && resp@.len() > 0 && resp@[0] != (request_sid | 0x40)
            ==> c == ResponseClass::Unexpected(resp@[0]),
{
    proof {
        if !(resp@.len() >= 3 && resp@[0] == 0x7F) {
            lemma_positive_only_on_echoed_sid(request_sid, resp@);
        }
    }
    if resp.len() >= 3 && resp[0] == NEGATIVE_RESPONSE {
        let code = NegativeResponseCode::from_code(resp[2]);
        if code.is_response_pending() {
            ResponseClass::Pending
        } else {
            ResponseClass::Negative(code)
        }
    } else if resp.len() == 0 {
        ResponseClass::Empty
    } else if resp[0] == positive_response(request_sid) {
        ResponseClass::Positive
    } else {
        ResponseClass::Unexpected(resp[0])
    }
}

} // verus!
