//! K-line byte transports: the error type and the transport trait.
//!
//! K-line is a single-wire, half-duplex bus: every byte the tester transmits
//! is also echoed back. Echo consumption is a transport concern, so protocol
//! code never sees its own transmissions. Durations are whole milliseconds.

use vstd::prelude::*;
use crate::text::{debug_hex, push_debug_hex};

verus! {

#[derive(Debug, Clone, PartialEq, Eq)]
pub enum TransportError {
    /// I/O error, with the underlying error's message.
    Io(String),
    /// Timed out waiting for data.
    Timeout,
    /// Bytes were transmitted but never echoed back from the bus.
    NoEcho { sent: Vec<u8> },
    /// The bus echo came back different from what was sent.
    EchoMismatch { sent: Vec<u8>, echoed: Vec<u8> },
    /// The link is closed.
    Closed,
    /// Operation not supported by this transport.
    Unsupported(String),
}

/// The error in words.
pub open spec fn transport_message(e: TransportError) -> Seq<char> {
    match e {
        TransportError::Io(m) => "I/O error: "@ + m@,
        TransportError::Timeout => "timed out waiting for data"@,
        TransportError::NoEcho { sent } => "no bus echo for sent bytes "@ + debug_hex(sent@),
        TransportError::EchoMismatch { sent, echoed } => "bus echo mismatch: sent "@ + debug_hex(
            sent@,
        ) + ", read back "@ + debug_hex(echoed@),
        TransportError::Closed => "link closed"@,
        TransportError::Unsupported(what) => "operation not supported by this transport: "@
            + what@,
    }
}

impl TransportError {
    /// The error in words, as logs and diagnoses show it.
    pub fn message(&self) -> (s: String)
        ensures
            s@ == transport_message(*self),
    {
        match self {
            TransportError::Io(m) => {
                let mut s = String::from_str("I/O error: ");
                s.append(m.as_str());
                s
            },
            TransportError::Timeout => String::from_str("timed out waiting for data"),
            TransportError::NoEcho { sent } => {
                let mut s = String::from_str("no bus echo for sent bytes ");
                push_debug_hex(&mut s, sent.as_slice());
                s
            },
            TransportError::EchoMismatch { sent, echoed } => {
                let mut s = String::from_str("bus echo mismatch: sent ");
                push_debug_hex(&mut s, sent.as_slice());
                s.append(", read back ");
                push_debug_hex(&mut s, echoed.as_slice());
                s
            },
            TransportError::Closed => String::from_str("link closed"),
            TransportError::Unsupported(what) => {
                let mut s = String::from_str("operation not supported by this transport: ");
                s.append(what.as_str());
                s
            },
        }
    }
}

/// `after` is `before` with the error of `r` added, if it is one.
pub open spec fn noted<A>(before: Seq<TransportError>, after: Seq<TransportError>, r: Result<A, TransportError>) -> bool {
    match r {
        Ok(_) => after == before,
        Err(e) => after == before.push(e),
    }
}

/// A K-line-capable byte transport.
///
/// `sent()` is every byte handed to the bus by successful `send` calls, and
/// `received()` every byte delivered to the caller by `read_byte`, oldest
/// first. Line events (breaks, baud changes, 5-baud addresses, pauses) leave
/// both unchanged. `errors()` is every error an operation returned, oldest
/// first.
pub trait KLineTransport {
    spec fn sent(&self) -> Seq<u8>;

    spec fn received(&self) -> Seq<u8>;

    spec fn errors(&self) -> Seq<TransportError>;

    /// Transmit bytes. On real K-line hardware this also consumes and checks
    /// the bus echo.
    fn send(&mut self, bytes: &[u8]) -> (r: Result<(), TransportError>)
        ensures
            noted(old(self).errors(), final(self).errors(), r),
            r is Ok ==> final(self).sent() == old(self).sent() + bytes@,
            r is Err ==> final(self).sent() == old(self).sent(),
            final(self).received() == old(self).received(),
    ;

    /// Read a single byte, waiting at most `timeout_ms`.
    fn read_byte(&mut self, timeout_ms: u64) -> (r: Result<u8, TransportError>)
        ensures
            noted(old(self).errors(), final(self).errors(), r),
            r matches Ok(b) ==> final(self).received() == old(self).received().push(b),
            r is Err ==> final(self).received() == old(self).received(),
            final(self).sent() == old(self).sent(),
    ;

    /// Hold the bus dominant (low) for `duration_ms`, then release it.
    fn send_break(&mut self, duration_ms: u64) -> (r: Result<(), TransportError>)
        ensures
            noted(old(self).errors(), final(self).errors(), r),
            final(self).sent() == old(self).sent(),
            final(self).received() == old(self).received(),
    ;

    /// Change line speed.
    fn set_baud(&mut self, baud: u32) -> (r: Result<(), TransportError>)
        ensures
            noted(old(self).errors(), final(self).errors(), r),
            final(self).sent() == old(self).sent(),
            final(self).received() == old(self).received(),
    ;

    /// Discard anything already buffered on the receive side.
    fn flush_input(&mut self) -> (r: Result<(), TransportError>)
        ensures
            noted(old(self).errors(), final(self).errors(), r),
            final(self).sent() == old(self).sent(),
            final(self).received() == old(self).received(),
    ;

    /// Let `duration_ms` of bus time pass with the line idle. Real wires
    /// wait in wall-clock time; simulated links may return at once.
    fn pause(&mut self, duration_ms: u64)
        ensures
            final(self).errors() == old(self).errors(),
            final(self).sent() == old(self).sent(),
            final(self).received() == old(self).received(),
    ;

    /// Transmit `address` at 5 baud: start bit low, 8 data bits LSB first
    /// (0 = low via break, 1 = idle), stop bit high, `bit_time_ms` each.
    fn send_5baud_address(&mut self, address: u8, bit_time_ms: u64) -> (r: Result<
        (),
        TransportError,
    >)
        ensures
            noted(old(self).errors(), final(self).errors(), r),
            final(self).sent() == old(self).sent(),
            final(self).received() == old(self).received(),
    {
        self.send_break(bit_time_ms)?;
        let mut i: u32 = 0;
        while i < 8
            invariant
                i <= 8,
                self.sent() == old(self).sent(),
                self.received() == old(self).received(),
                self.errors() == old(self).errors(),
            decreases 8 - i,
        {
            if (address >> i) & 1 == 0 {
                self.send_break(bit_time_ms)?;
            } else {
                self.pause(bit_time_ms);
            }
            i = i + 1;
        }
        self.pause(bit_time_ms);
        Ok(())
    }

    /// Read exactly `n` bytes. `first_byte_timeout_ms` bounds the wait for
    /// the first byte, `inter_byte_timeout_ms` each later gap.
    fn read_exact(&mut self, n: usize, first_byte_timeout_ms: u64, inter_byte_timeout_ms: u64) -> (r:
        Result<Vec<u8>, TransportError>)
        ensures
            noted(old(self).errors(), final(self).errors(), r),
            r matches Ok(v) ==> v@.len() == n && final(self).received() == old(self).received()
                + v@,
            n == 0 ==> (r matches Ok(v) && v@.len() == 0),
            r is Err ==> {
                &&& final(self).received().len() < old(self).received().len() + n
                &&& final(self).received().subrange(0, old(self).received().len() as int)
                    == old(self).received()
            },
            final(self).sent() == old(self).sent(),
    {
        let mut out: Vec<u8> = Vec::new();
        let mut i: usize = 0;
        while i < n
            invariant
                i <= n,
                out@.len() == i,
                self.received() == old(self).received() + out@,
                self.sent() == old(self).sent(),
                self.errors() == old(self).errors(),
            decreases n - i,
        {
            let timeout = if i == 0 {
                first_byte_timeout_ms
            } else {
                inter_byte_timeout_ms
            };
            let b = match self.read_byte(timeout) {
                Ok(b) => b,
                Err(e) => {
                    assert(self.received().subrange(0, old(self).received().len() as int) =~= old(self).received());
                    return Err(e);
                },
            };
            out.push(b);
            i = i + 1;
        }
        Ok(out)
    }
}

} // verus!
