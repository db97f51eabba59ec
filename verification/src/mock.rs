//! In-memory duplex K-line used by tests and the ECU simulator.
//!
//! The tester-to-ECU direction carries [`LineEvent`]s rather than raw bytes,
//! so out-of-band bus conditions (break pulses, baud changes, 5-baud
//! addresses) reach the simulated ECU as they would on a real wire. The ECU
//! only ever answers with bytes.

use vstd::prelude::*;
use std::sync::mpsc::{Receiver, Sender};
use crate::channel::{
    channel_recv_timeout, channel_send, channel_try_recv, new_channel, RecvFailure,
};
use crate::transport::{noted, KLineTransport, TransportError};

verus! {

/// Something observable on the (simulated) K-line.
#[derive(Debug, Clone, Copy, PartialEq, Eq)]
pub enum LineEvent {
    Byte(u8),
    /// Bus held dominant for the given number of milliseconds.
    Break(u64),
    BaudChange(u32),
    /// A resolved 5-baud slow-init address (a passive listener cannot
    /// reconstruct the bit-banged waveform, since a "1" bit is silent).
    FiveBaudAddress(u8),
}

/// A flush drains at most this many already-buffered bytes.
pub const FLUSH_BUDGET: u64 = 0xFFFF_FFFF_FFFF_FFFF;

/// Tester-side endpoint.
pub struct MockKLine {
    tx: Sender<LineEvent>,
    rx: Receiver<u8>,
    sent_log: Ghost<Seq<u8>>,
    recv_log: Ghost<Seq<u8>>,
    line_log: Ghost<Seq<LineEvent>>,
    err_log: Ghost<Seq<TransportError>>,
}

/// The line events that carry `bytes`, one per byte.
pub open spec fn byte_events(bytes: Seq<u8>) -> Seq<LineEvent> {
    bytes.map_values(|b: u8| LineEvent::Byte(b))
}

/// ECU-side endpoint, used by the simulator to observe the bus and reply.
pub struct EcuLink {
    tx: Sender<u8>,
    rx: Receiver<LineEvent>,
}

/// Create a connected (tester, ecu) endpoint pair.
pub fn pair() -> (r: (MockKLine, EcuLink))
    ensures
        r.0.sent() == Seq::<u8>::empty(),
        r.0.received() == Seq::<u8>::empty(),
        r.0.spec_line_events() == Seq::<LineEvent>::empty(),
{
    let (t2e_tx, t2e_rx) = new_channel();
    let (e2t_tx, e2t_rx) = new_channel();
    (
        MockKLine {
            tx: t2e_tx,
            rx: e2t_rx,
            sent_log: Ghost(Seq::empty()),
            recv_log: Ghost(Seq::empty()),
            line_log: Ghost(Seq::empty()),
            err_log: Ghost(Seq::empty()),
        },
        EcuLink { tx: e2t_tx, rx: t2e_rx },
    )
}

fn recv_error(e: RecvFailure) -> (r: TransportError)
    ensures
        e is Timeout ==> r is Timeout,
        e is Disconnected ==> r is Closed,
{
    match e {
        RecvFailure::Timeout => TransportError::Timeout,
        RecvFailure::Disconnected => TransportError::Closed,
    }
}

impl MockKLine {
    /// Every line event handed over to the ECU side, oldest first.
    pub closed spec fn spec_line_events(&self) -> Seq<LineEvent> {
        self.line_log@
    }

    /// Hand one event to the ECU side; it fails only when that side is gone.
    fn send_event(&mut self, event: LineEvent) -> (r: Result<(), TransportError>)
        ensures
            r matches Err(e) ==> e is Closed,
            r is Ok ==> final(self).spec_line_events() == old(self).spec_line_events().push(event),
            r is Err ==> final(self).spec_line_events() == old(self).spec_line_events(),
            final(self).sent_log == old(self).sent_log,
            final(self).recv_log == old(self).recv_log,
            noted(old(self).err_log@, final(self).err_log@, r),
    {
        match channel_send(&self.tx, event) {
            Ok(()) => {
                self.line_log = Ghost(self.line_log@.push(event));
                Ok(())
            },
            Err(()) => {
                self.err_log = Ghost(self.err_log@.push(TransportError::Closed));
                Err(TransportError::Closed)
            },
        }
    }
}

impl KLineTransport for MockKLine {
    closed spec fn sent(&self) -> Seq<u8> {
        self.sent_log@
    }

    closed spec fn received(&self) -> Seq<u8> {
        self.recv_log@
    }

    closed spec fn errors(&self) -> Seq<TransportError> {
        self.err_log@
    }

    /// Each byte goes out as its own line event; nothing to send always
    /// succeeds, and the only failure is a closed link.
    fn send(&mut self, bytes: &[u8]) -> (r: Result<(), TransportError>)
        ensures
            bytes@.len() == 0 ==> r is Ok,
            r matches Err(e) ==> e is Closed,
            r is Ok ==> final(self).spec_line_events() == old(self).spec_line_events() + byte_events(bytes@),
            r is Err ==> exists|k: int|
                0 <= k < bytes@.len() && final(self).spec_line_events() == old(self).spec_line_events()
                    + byte_events(#[trigger] bytes@.take(k)),
    {
        let mut i: usize = 0;
        while i < bytes.len()
            invariant
                i <= bytes@.len(),
                self.sent_log@ == old(self).sent_log@,
                self.recv_log@ == old(self).recv_log@,
                self.line_log@ == old(self).line_log@ + byte_events(bytes@.take(i as int)),
                self.err_log@ == old(self).err_log@,
            decreases bytes@.len() - i,
        {
            match self.send_event(LineEvent::Byte(bytes[i])) {
                Ok(()) => {},
                Err(e) => {
                    return Err(e);
                },
            }
            proof {
                assert(byte_events(bytes@.take(i + 1)) =~= byte_events(bytes@.take(i as int)).push(
                    LineEvent::Byte(bytes@[i as int]),
                ));
            }
            i = i + 1;
        }
        assert(bytes@.take(bytes@.len() as int) =~= bytes@);
        self.sent_log = Ghost(self.sent_log@ + bytes@);
        Ok(())
    }

    fn read_byte(&mut self, timeout_ms: u64) -> (r: Result<u8, TransportError>)
        ensures
            r matches Err(e) ==> e is Timeout || e is Closed,
            final(self).spec_line_events() == old(self).spec_line_events(),
    {
        match channel_recv_timeout(&self.rx, timeout_ms) {
            Ok(b) => {
                self.recv_log = Ghost(self.recv_log@.push(b));
                Ok(b)
            },
            Err(e) => {
                let err = recv_error(e);
                self.err_log = Ghost(self.err_log@.push(err));
                Err(err)
            },
        }
    }

    /// No real-time sleep: simulated time keeps tests instant.
    fn send_break(&mut self, duration_ms: u64) -> (r: Result<(), TransportError>)
        ensures
            r matches Err(e) ==> e is Closed,
            r is Ok ==> final(self).spec_line_events() == old(self).spec_line_events().push(
                LineEvent::Break(duration_ms),
            ),
            r is Err ==> final(self).spec_line_events() == old(self).spec_line_events(),
    {
        self.send_event(LineEvent::Break(duration_ms))
    }

    fn set_baud(&mut self, baud: u32) -> (r: Result<(), TransportError>)
        ensures
            r matches Err(e) ==> e is Closed,
            r is Ok ==> final(self).spec_line_events() == old(self).spec_line_events().push(
                LineEvent::BaudChange(baud),
            ),
            r is Err ==> final(self).spec_line_events() == old(self).spec_line_events(),
    {
        self.send_event(LineEvent::BaudChange(baud))
    }

    /// Drains what is already waiting; it never fails.
    fn flush_input(&mut self) -> (r: Result<(), TransportError>)
        ensures
            r is Ok,
            final(self).spec_line_events() == old(self).spec_line_events(),
    {
        let mut drained: u64 = 0;
        while drained < FLUSH_BUDGET
            invariant
                self.sent_log@ == old(self).sent_log@,
                self.recv_log@ == old(self).recv_log@,
                self.line_log@ == old(self).line_log@,
                self.err_log@ == old(self).err_log@,
            decreases FLUSH_BUDGET - drained,
        {
            match channel_try_recv(&self.rx) {
                Some(_) => {
                    drained = drained + 1;
                },
                None => {
                    return Ok(());
                },
            }
        }
        Ok(())
    }

    /// Simulated time: nothing to wait for.
    fn pause(&mut self, duration_ms: u64)
        ensures
            final(self).spec_line_events() == old(self).spec_line_events(),
    {
    }

    /// Hands the ECU-side listener the resolved address directly.
    fn send_5baud_address(&mut self, address: u8, bit_time_ms: u64) -> (r: Result<(), TransportError>)
        ensures
            r matches Err(e) ==> e is Closed,
            r is Ok ==> final(self).spec_line_events() == old(self).spec_line_events().push(
                LineEvent::FiveBaudAddress(address),
            ),
            r is Err ==> final(self).spec_line_events() == old(self).spec_line_events(),
    {
        self.send_event(LineEvent::FiveBaudAddress(address))
    }
}

impl EcuLink {
    /// Wait up to `timeout_ms` for the next bus event.
    pub fn recv_event(&self, timeout_ms: u64) -> (r: Result<LineEvent, TransportError>)
        ensures
            r matches Err(e) ==> e is Timeout || e is Closed,
    {
        match channel_recv_timeout(&self.rx, timeout_ms) {
            Ok(ev) => Ok(ev),
            Err(e) => Err(recv_error(e)),
        }
    }

    /// Transmit bytes back to the tester, in order.
    pub fn send_bytes(&self, bytes: &[u8]) -> (r: Result<(), TransportError>)
        ensures
            bytes@.len() == 0 ==> r is Ok,
            r matches Err(e) ==> e is Closed,
    {
        let mut i: usize = 0;
        while i < bytes.len()
            invariant
                i <= bytes@.len(),
            decreases bytes@.len() - i,
        {
            match channel_send(&self.tx, bytes[i]) {
                Ok(()) => {},
                Err(()) => {
                    return Err(TransportError::Closed);
                },
            }
            i = i + 1;
        }
        Ok(())
    }
}

} // verus!
