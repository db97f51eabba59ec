//! KWP2000 protocol errors.

use vstd::prelude::*;
use crate::services::NegativeResponseCode;
use crate::services::nrc_text;
use crate::text::{hex2, push_hex2};
use crate::transport::{transport_message, TransportError};

verus! {

#[derive(Debug, Clone, PartialEq, Eq)]
pub enum KwpError {
    Transport(TransportError),
    BadChecksum { computed: u8, received: u8 },
    MalformedFrame(String),
    NegativeResponse { service: u8, code: NegativeResponseCode },
    UnexpectedService { expected: u8, got: u8 },
    InitFailed(String),
}

/// The error in words; transport errors read as themselves.
pub open spec fn kwp_message(e: KwpError) -> Seq<char> {
    match e {
        KwpError::Transport(t) => transport_message(t),
        KwpError::BadChecksum { computed, received } => "bad checksum: computed "@ + hex2(computed)
            + ", received "@ + hex2(received),
        KwpError::MalformedFrame(m) => "malformed frame: "@ + m@,
        KwpError::NegativeResponse { service, code } => "negative response to service "@ + hex2(
            service,
        ) + ": "@ + nrc_text(code),
        KwpError::UnexpectedService { expected, got } => "unexpected response: expected SID "@
            + hex2(expected) + ", got "@ + hex2(got),
        KwpError::InitFailed(m) => "initialization failed: "@ + m@,
    }
}

impl KwpError {
    /// The error in words, as logs and diagnoses show it.
    pub fn message(&self) -> (s: String)
        ensures
            s@ == kwp_message(*self),
    {
        match self {
            KwpError::Transport(t) => t.message(),
            KwpError::BadChecksum { computed, received } => {
                let mut s = String::from_str("bad checksum: computed ");
                push_hex2(&mut s, *computed);
                s.append(", received ");
                push_hex2(&mut s, *received);
                s
            },
            KwpError::MalformedFrame(m) => {
                let mut s = String::from_str("malformed frame: ");
                s.append(m.as_str());
                s
            },
            KwpError::NegativeResponse { service, code } => {
                let mut s = String::from_str("negative response to service ");
                push_hex2(&mut s, *service);
                s.append(": ");
                let t = code.text();
                s.append(t.as_str());
                s
            },
            KwpError::UnexpectedService { expected, got } => {
                let mut s = String::from_str("unexpected response: expected SID ");
                push_hex2(&mut s, *expected);
                s.append(", got ");
                push_hex2(&mut s, *got);
                s
            },
            KwpError::InitFailed(m) => {
                let mut s = String::from_str("initialization failed: ");
                s.append(m.as_str());
                s
            },
        }
    }
}

} // verus!
