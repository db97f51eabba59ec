//! In-process message channels and monotonic time, as used by the simulated
//! buses and by session keep-alive bookkeeping.
//!
//! What arrives on a channel depends on the other thread, and what a clock
//! reads depends on when it is read, so nothing here promises a value.

use vstd::prelude::*;
use std::sync::mpsc::{Receiver, RecvTimeoutError, Sender};
use std::time::{Instant, SystemTime, UNIX_EPOCH};

verus! {

#[verifier::external_type_specification]
#[verifier::external_body]
#[verifier::reject_recursive_types(T)]
pub struct ExSender<T>(Sender<T>);

#[verifier::external_type_specification]
#[verifier::external_body]
#[verifier::reject_recursive_types(T)]
pub struct ExReceiver<T>(Receiver<T>);

#[verifier::external_type_specification]
#[verifier::external_body]
pub struct ExInstant(Instant);

#[verifier::external_type_specification]
#[verifier::external_body]
pub struct ExSystemTime(SystemTime);

/// Why a timed receive returned nothing.
#[derive(Debug, Clone, Copy, PartialEq, Eq)]
pub enum RecvFailure {
    Timeout,
    Disconnected,
}

/// Calls `std::sync::mpsc::channel`: a new connected sender/receiver pair.
#[verifier::external_body]
pub(crate) fn new_channel<T>() -> (Sender<T>, Receiver<T>) {
    std::sync::mpsc::channel()
}

/// Calls `Sender::send`; `Err` when the receiving side is gone.
#[verifier::external_body]
pub(crate) fn channel_send<T>(tx: &Sender<T>, value: T) -> Result<(), ()> {
    tx.send(value).map_err(|_| ())
}

/// Calls `Receiver::recv_timeout` with a timeout of `timeout_ms` milliseconds.
#[verifier::external_body]
pub(crate) fn channel_recv_timeout<T>(rx: &Receiver<T>, timeout_ms: u64) -> Result<T, RecvFailure> {
    match rx.recv_timeout(std::time::Duration::from_millis(timeout_ms)) {
        Ok(v) => Ok(v),
        Err(RecvTimeoutError::Timeout) => Err(RecvFailure::Timeout),
        Err(RecvTimeoutError::Disconnected) => Err(RecvFailure::Disconnected),
    }
}

/// Calls `Receiver::try_recv`; `Some` when a value was already waiting.
#[verifier::external_body]
pub(crate) fn channel_try_recv<T>(rx: &Receiver<T>) -> Option<T> {
    rx.try_recv().ok()
}

/// Calls `Instant::now`.
#[verifier::external_body]
pub(crate) fn instant_now() -> Instant {
    Instant::now()
}

/// Calls `Instant::elapsed`, in whole milliseconds.
#[verifier::external_body]
fn millis_since(since: &Instant) -> u128 {
    since.elapsed().as_millis()
}

/// Milliseconds since `since`, saturating at `u64::MAX`.
pub fn elapsed_ms(since: &Instant) -> (ms: u64) {
    let ms = millis_since(since);
    if ms > 0xFFFF_FFFF_FFFF_FFFF {
        0xFFFF_FFFF_FFFF_FFFF
    } else {
        ms as u64
    }
}

/// Calls `SystemTime::now`.
#[verifier::external_body]
fn system_now() -> SystemTime {
    SystemTime::now()
}

/// Calls `SystemTime::duration_since` with the Unix epoch, in whole
/// milliseconds; `None` when `t` reads before the epoch.
#[verifier::external_body]
fn millis_after_unix_epoch(t: &SystemTime) -> Option<u128> {
    match t.duration_since(UNIX_EPOCH) {
        Ok(d) => Some(d.as_millis()),
        Err(_) => None,
    }
}

/// Wall-clock milliseconds since the Unix epoch (0 when the clock reads
/// earlier), kept to 64 bits.
pub fn now_ms() -> u64 {
    let now = system_now();
    match millis_after_unix_epoch(&now) {
        Some(ms) => ms as u64,
        None => 0,
    }
}

} // verus!
