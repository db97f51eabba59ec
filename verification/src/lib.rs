//! Verified core of a motorcycle ECU diagnostics stack: K-line KWP2000
//! framing and sessions, CAN ISO-TP segmentation and UDS sessions, adapter
//! line codecs (SLCAN, ELM327), wire tracing and replay, and the
//! definition-level safety rules.

pub mod adapter;
pub mod can;
pub mod can_sim;
pub mod catalog;
pub mod discovery;
pub mod dtc;
pub mod elm327;
pub mod error;
pub mod channel;
pub mod framing;
pub mod init;
pub mod iso_tp;
pub mod kwp;
pub mod kwp_session;
pub mod mock;
pub mod registry;
pub mod replay;
pub mod schema;
pub mod serial;
pub mod services;
pub mod session;
pub mod sim;
pub mod slcan;
pub mod text;
pub mod timing;
pub mod trace;
pub mod trace_report;
pub mod ui;
pub mod uds;
pub mod uds_session;
pub mod validate;
pub mod transport;
pub mod troubleshoot;

use vstd::prelude::*;

verus! {

} // verus!
