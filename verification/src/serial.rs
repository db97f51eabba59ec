//! K-line over a USB virtual COM port (FTDI KKL cable and friends): port
//! metadata and the bus-echo check.
//!
//! On a real single-wire K-line every transmitted byte comes back at the
//! receiver. A missing echo means the cable's K-line pin isn't reaching the
//! bus; a different echo means something else is driving the line. Both are
//! wiring diagnoses, kept apart from a silent ECU.

use vstd::prelude::*;
use crate::transport::{noted, KLineTransport, TransportError};

verus! {

/// FTDI's USB vendor ID: genuine FT232-class cables (the kind that work
/// reliably for K-line) enumerate under it.
pub const FTDI_VID: u16 = 0x0403;

#[derive(Debug, Clone, PartialEq, Eq)]
pub struct UsbDetails {
    pub vid: u16,
    pub pid: u16,
    pub product: Option<String>,
    pub manufacturer: Option<String>,
}

#[derive(Debug, Clone, PartialEq, Eq)]
pub struct PortDetails {
    pub name: String,
    /// Present when the OS reports this port as a USB device.
    pub usb: Option<UsbDetails>,
}

impl PortDetails {
    /// A USB device with FTDI's vendor ID.
    pub fn is_ftdi(&self) -> (b: bool)
        ensures
            b == (self.usb matches Some(u) && u.vid == FTDI_VID),
    {
        match &self.usb {
            Some(u) => u.vid == FTDI_VID,
            None => false,
        }
    }
}

/// What reading back the echo of `sent` amounts to.
pub open spec fn echo_outcome(sent: Seq<u8>, read: Result<Vec<u8>, TransportError>, r: Result<(), TransportError>) -> bool {
    match read {
        Err(TransportError::Timeout) => r matches Err(TransportError::NoEcho { sent: s }) && s@
            == sent,
        Err(e) => r == Err::<(), TransportError>(e),
        Ok(echoed) => if echoed@ == sent {
            r is Ok
        } else {
            r matches Err(TransportError::EchoMismatch { sent: s, echoed: e }) && s@ == sent
                && e@ == echoed@
        },
    }
}

fn copy_bytes(bytes: &[u8]) -> (v: Vec<u8>)
    ensures
        v@ == bytes@,
{
    let mut v: Vec<u8> = Vec::new();
    let mut i: usize = 0;
    while i < bytes.len()
        invariant
            i <= bytes@.len(),
            v@ =~= bytes@.take(i as int),
        decreases bytes@.len() - i,
    {
        v.push(bytes[i]);
        i = i + 1;
    }
    assert(bytes@.take(bytes@.len() as int) =~= bytes@);
    v
}

/// Judge the echo read back after transmitting `sent`: it must arrive, and
/// match. A timeout is a missing echo, not a silent ECU.
pub fn check_echo(sent: &[u8], read: Result<Vec<u8>, TransportError>) -> (r: Result<(), TransportError>)
    ensures
        echo_outcome(sent@, read, r),
{
    match read {
        Err(TransportError::Timeout) => Err(TransportError::NoEcho { sent: copy_bytes(sent) }),
        Err(e) => Err(e),
        Ok(echoed) => {
            if crate::text::bytes_eq(echoed.as_slice(), sent) {
                Ok(())
            } else {
                Err(TransportError::EchoMismatch { sent: copy_bytes(sent), echoed })
            }
        },
    }
}

/// The raw operations of an opened serial port, as the operating system
/// offers them. Nothing is promised of what the port does.
pub trait SerialPortIo {
    /// Write all of `bytes` and flush them to the wire.
    fn write_all(&mut self, bytes: &[u8]) -> Result<(), TransportError>;

    /// The next received byte, waiting at most `timeout_ms`.
    fn read_byte(&mut self, timeout_ms: u64) -> Result<u8, TransportError>;

    /// Hold the line in break (dominant) for `duration_ms`, then release it.
    fn hold_break(&mut self, duration_ms: u64) -> Result<(), TransportError>;

    fn set_baud(&mut self, baud: u32) -> Result<(), TransportError>;

    /// Discard whatever the port has buffered on the receive side.
    fn clear_input(&mut self) -> Result<(), TransportError>;

    /// Let `duration_ms` pass.
    fn sleep_ms(&mut self, duration_ms: u64);
}

/// An operation handed to the port other than a read.
pub enum PortCall {
    Write(Seq<u8>),
    Break(u64),
    Baud(u32),
    ClearInput,
    Sleep(u64),
}

/// How long the first echoed byte may take: USB latency batches arrivals.
pub const ECHO_FIRST_BYTE_MS: u64 = 200;
/// How long each further echoed byte may take.
pub const ECHO_INTER_BYTE_MS: u64 = 50;

/// K-line over a serial port. Real K-line hardware echoes every transmitted
/// byte; loopback-style rigs (pty pairs) do not. With `consume_echo`,
/// `send` reads the echo back and checks it.
pub struct SerialKLine<P: SerialPortIo> {
    port: P,
    consume_echo: bool,
    sent_log: Ghost<Seq<u8>>,
    recv_log: Ghost<Seq<u8>>,
    calls: Ghost<Seq<PortCall>>,
    err_log: Ghost<Seq<TransportError>>,
}

impl<P: SerialPortIo> SerialKLine<P> {
    /// A line over an opened port, checking echoes.
    pub fn new(port: P) -> (line: Self)
        ensures
            line.spec_consume_echo(),
            line.spec_port() == port,
            line.sent().len() == 0,
            line.received().len() == 0,
            line.spec_port_calls().len() == 0,
    {
        SerialKLine {
            port,
            consume_echo: true,
            sent_log: Ghost(Seq::empty()),
            recv_log: Ghost(Seq::empty()),
            calls: Ghost(Seq::empty()),
            err_log: Ghost(Seq::empty()),
        }
    }

    /// Every write, break, speed change, input clear and sleep handed to the
    /// port, oldest first (reads are not listed).
    pub closed spec fn spec_port_calls(&self) -> Seq<PortCall> {
        self.calls@
    }

    pub closed spec fn spec_consume_echo(&self) -> bool {
        self.consume_echo
    }

    /// Turn the echo check on (real K-line) or off (loopback rigs).
    pub fn set_consume_echo(&mut self, on: bool)
        ensures
            final(self).spec_consume_echo() == on,
            final(self).spec_port_calls() == old(self).spec_port_calls(),
            final(self).sent() == old(self).sent(),
            final(self).received() == old(self).received(),
    {
        self.consume_echo = on;
    }

    pub closed spec fn spec_port(&self) -> P {
        self.port
    }

    pub fn port(&self) -> (p: &P)
        ensures
            *p == self.spec_port(),
    {
        &self.port
    }

    fn note(&mut self, r: &Result<(), TransportError>)
        ensures
            noted(old(self).err_log@, final(self).err_log@, *r),
            final(self).sent_log == old(self).sent_log,
            final(self).recv_log == old(self).recv_log,
            final(self).calls == old(self).calls,
            final(self).consume_echo == old(self).consume_echo,
            final(self).port == old(self).port,
    {
        match r {
            Ok(()) => {},
            Err(e) => {
                proof {
                    self.err_log@ = self.err_log@.push(*e);
                }
            },
        }
    }

    /// Read the echo of `n` transmitted bytes straight from the port.
    fn read_echo(&mut self, n: usize) -> (r: Result<Vec<u8>, TransportError>)
        ensures
            r matches Ok(v) ==> v@.len() == n,
            n == 0 ==> r is Ok,
            final(self).consume_echo == old(self).consume_echo,
            final(self).sent_log == old(self).sent_log,
            final(self).recv_log == old(self).recv_log,
            final(self).calls == old(self).calls,
            final(self).err_log == old(self).err_log,
    {
        let mut out: Vec<u8> = Vec::new();
        let mut i: usize = 0;
        while i < n
            invariant
                i <= n,
                out@.len() == i,
                self.consume_echo == old(self).consume_echo,
                self.sent_log == old(self).sent_log,
                self.recv_log == old(self).recv_log,
                self.calls == old(self).calls,
                self.err_log == old(self).err_log,
            decreases n - i,
        {
            let timeout = if i == 0 {
                ECHO_FIRST_BYTE_MS
            } else {
                ECHO_INTER_BYTE_MS
            };
            match self.port.read_byte(timeout) {
                Ok(b) => out.push(b),
                Err(e) => {
                    return Err(e);
                },
            }
            i = i + 1;
        }
        Ok(out)
    }
}

impl<P: SerialPortIo> KLineTransport for SerialKLine<P> {
    closed spec fn sent(&self) -> Seq<u8> {
        self.sent_log@
    }

    closed spec fn received(&self) -> Seq<u8> {
        self.recv_log@
    }

    closed spec fn errors(&self) -> Seq<TransportError> {
        self.err_log@
    }

    /// Write the bytes; with `consume_echo`, the send succeeds only when the
    /// echo comes back, byte for byte: a missing echo is `NoEcho`, a
    /// different one `EchoMismatch`.
    fn send(&mut self, bytes: &[u8]) -> (r: Result<(), TransportError>)
        ensures
            final(self).spec_port_calls() == old(self).spec_port_calls().push(PortCall::Write(bytes@)),
            final(self).spec_consume_echo() == old(self).spec_consume_echo(),
    {
        self.calls = Ghost(self.calls@.push(PortCall::Write(bytes@)));
        match self.port.write_all(bytes) {
            Ok(()) => {},
            Err(e) => {
                self.err_log = Ghost(self.err_log@.push(e));
                return Err(e);
            },
        }
        if self.consume_echo {
            let read = self.read_echo(bytes.len());
            match check_echo(bytes, read) {
                Ok(()) => {},
                Err(e) => {
                    self.err_log = Ghost(self.err_log@.push(e));
                    return Err(e);
                },
            }
        }
        self.sent_log = Ghost(self.sent_log@ + bytes@);
        Ok(())
    }

    fn read_byte(&mut self, timeout_ms: u64) -> (r: Result<u8, TransportError>)
        ensures
            final(self).spec_port_calls() == old(self).spec_port_calls(),
            final(self).spec_consume_echo() == old(self).spec_consume_echo(),
    {
        match self.port.read_byte(timeout_ms) {
            Ok(b) => {
                self.recv_log = Ghost(self.recv_log@.push(b));
                Ok(b)
            },
            Err(e) => {
                self.err_log = Ghost(self.err_log@.push(e));
                Err(e)
            },
        }
    }

    fn send_break(&mut self, duration_ms: u64) -> (r: Result<(), TransportError>)
        ensures
            final(self).spec_port_calls() == old(self).spec_port_calls().push(PortCall::Break(duration_ms)),
            final(self).spec_consume_echo() == old(self).spec_consume_echo(),
    {
        self.calls = Ghost(self.calls@.push(PortCall::Break(duration_ms)));
        let r = self.port.hold_break(duration_ms);
        self.note(&r);
        r
    }

    fn set_baud(&mut self, baud: u32) -> (r: Result<(), TransportError>)
        ensures
            final(self).spec_port_calls() == old(self).spec_port_calls().push(PortCall::Baud(baud)),
            final(self).spec_consume_echo() == old(self).spec_consume_echo(),
    {
        self.calls = Ghost(self.calls@.push(PortCall::Baud(baud)));
        let r = self.port.set_baud(baud);
        self.note(&r);
        r
    }

    fn flush_input(&mut self) -> (r: Result<(), TransportError>)
        ensures
            final(self).spec_port_calls() == old(self).spec_port_calls().push(PortCall::ClearInput),
            final(self).spec_consume_echo() == old(self).spec_consume_echo(),
    {
        self.calls = Ghost(self.calls@.push(PortCall::ClearInput));
        let r = self.port.clear_input();
        self.note(&r);
        r
    }

    fn pause(&mut self, duration_ms: u64)
        ensures
            final(self).spec_port_calls() == old(self).spec_port_calls().push(PortCall::Sleep(duration_ms)),
            final(self).spec_consume_echo() == old(self).spec_consume_echo(),
    {
        self.calls = Ghost(self.calls@.push(PortCall::Sleep(duration_ms)));
        self.port.sleep_ms(duration_ms)
    }
}

} // verus!
