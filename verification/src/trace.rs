//! Byte-level wire tracing: a transport wrapper that records every send,
//! receive, break, baud change and 5-baud address to a sink, so a whole
//! session (init handshake included) can be replayed byte for byte.

use vstd::prelude::*;
use crate::channel::now_ms;
use crate::transport::{noted, KLineTransport, TransportError};

verus! {

#[derive(Debug, Clone, Copy, PartialEq, Eq)]
pub enum TraceDirection {
    Tx,
    Rx,
}

/// Bytes that trace files write as a readable hex string ("81 10 F1").
#[derive(Debug, Clone, PartialEq, Eq, Default)]
pub struct HexBytes(pub Vec<u8>);

#[derive(Debug, Clone, PartialEq, Eq)]
pub enum EventKind {
    Bytes { hex: HexBytes },
    Break { ms: u64 },
    Baud { baud: u32 },
    FiveBaudAddress { address: u8 },
}

#[derive(Debug, Clone, PartialEq, Eq)]
pub struct TraceEvent {
    pub t_ms: u64,
    pub dir: TraceDirection,
    pub kind: EventKind,
}

/// The event that records `bytes` moving in direction `dir`.
pub open spec fn is_bytes_event(e: TraceEvent, dir: TraceDirection, bytes: Seq<u8>) -> bool {
    &&& e.dir == dir
    &&& e.kind matches EventKind::Bytes { hex } && hex.0@ == bytes
}

/// Where traced events go: a file writer, an in-memory list, anything.
/// `recorded()` is every event handed over so far.
pub trait TraceSink {
    spec fn recorded(&self) -> Seq<TraceEvent>;

    fn record(&mut self, event: TraceEvent)
        ensures
            final(self).recorded() == old(self).recorded().push(event),
    ;
}

/// A sink that accumulates events in memory.
#[derive(Default)]
pub struct VecSink(pub Vec<TraceEvent>);

impl TraceSink for VecSink {
    open spec fn recorded(&self) -> Seq<TraceEvent> {
        self.0@
    }

    fn record(&mut self, event: TraceEvent) {
        self.0.push(event);
    }
}

/// Somewhere trace events go as they happen: a file, a socket, a shared
/// buffer. Nothing is promised of what a writer does with an event.
pub trait EventWriter {
    fn write_event(&mut self, event: &TraceEvent);
}

/// A sink that hands each event to a writer as it is recorded.
pub struct WriterSink<W: EventWriter> {
    writer: W,
    log: Ghost<Seq<TraceEvent>>,
}

impl<W: EventWriter> WriterSink<W> {
    pub fn new(writer: W) -> (s: Self)
        ensures
            s.recorded().len() == 0,
            s.spec_writer() == writer,
    {
        WriterSink { writer, log: Ghost(Seq::empty()) }
    }

    pub closed spec fn spec_writer(&self) -> W {
        self.writer
    }

    pub fn writer(&self) -> (w: &W)
        ensures
            *w == self.spec_writer(),
    {
        &self.writer
    }

    pub fn into_writer(self) -> (w: W)
        ensures
            w == self.spec_writer(),
    {
        self.writer
    }
}

impl<W: EventWriter> TraceSink for WriterSink<W> {
    closed spec fn recorded(&self) -> Seq<TraceEvent> {
        self.log@
    }

    fn record(&mut self, event: TraceEvent) {
        self.writer.write_event(&event);
        self.log = Ghost(self.log@.push(event));
    }
}

fn copy_bytes(bytes: &[u8]) -> (v: Vec<u8>)
    ensures
        v@ == bytes@,
{
    let mut v: Vec<u8> = Vec::new();
    let mut i: usize = 0;
    while i < bytes.len()
        invariant
            i <= bytes@.len(),
            v@ =~= bytes@.take(i as int),
        decreases bytes@.len() - i,
    {
        v.push(bytes[i]);
        i = i + 1;
    }
    assert(bytes@.take(bytes@.len() as int) =~= bytes@);
    v
}

/// Wraps a transport, recording each successful operation to a sink after
/// forwarding it. A failed operation never reached the bus and is not
/// recorded; `flush_input` and `pause` are not recorded either.
pub struct TracingTransport<T: KLineTransport, S: TraceSink> {
    inner: T,
    sink: S,
}

impl<T: KLineTransport, S: TraceSink> TracingTransport<T, S> {
    pub closed spec fn spec_inner(&self) -> T {
        self.inner
    }

    /// Every event recorded so far.
    pub closed spec fn spec_recorded(&self) -> Seq<TraceEvent> {
        self.sink.recorded()
    }

    pub fn new(inner: T, sink: S) -> (t: Self)
        ensures
            t.spec_inner() == inner,
            t.spec_recorded() == sink.recorded(),
    {
        TracingTransport { inner, sink }
    }

    /// The sink the events go to.
    pub fn sink(&self) -> (s: &S)
        ensures
            s.recorded() == self.spec_recorded(),
    {
        &self.sink
    }

    fn emit(&mut self, dir: TraceDirection, kind: EventKind)
        ensures
            final(self).spec_inner() == old(self).spec_inner(),
            final(self).spec_recorded().len() == old(self).spec_recorded().len() + 1,
            final(self).spec_recorded().drop_last() == old(self).spec_recorded(),
            final(self).spec_recorded().last().dir == dir,
            final(self).spec_recorded().last().kind == kind,
    {
        let t_ms = now_ms();
        self.sink.record(TraceEvent { t_ms, dir, kind });
        assert(self.sink.recorded().drop_last() =~= old(self).sink.recorded());
    }
}

/// One operation on the line, as a trace sees it.
pub enum WireOp {
    Send(Seq<u8>),
    Read(u8),
    Break(u64),
    Baud(u32),
    FiveBaud(u8),
}

/// `e` is the event a tracing transport writes for `op`.
pub open spec fn traced(op: WireOp, e: TraceEvent) -> bool {
    match op {
        WireOp::Send(bytes) => is_bytes_event(e, TraceDirection::Tx, bytes),
        WireOp::Read(b) => is_bytes_event(e, TraceDirection::Rx, seq![b]),
        WireOp::Break(ms) => e.dir == TraceDirection::Tx && e.kind == (EventKind::Break { ms }),
        WireOp::Baud(baud) => e.dir == TraceDirection::Tx && e.kind == (EventKind::Baud { baud }),
        WireOp::FiveBaud(address) => e.dir == TraceDirection::Tx && e.kind == (
        EventKind::FiveBaudAddress { address }),
    }
}

/// `after` is `before` with exactly one more event, the trace of `op`.
pub open spec fn appended_trace(before: Seq<TraceEvent>, after: Seq<TraceEvent>, op: WireOp) -> bool {
    &&& after.len() == before.len() + 1
    &&& after.drop_last() == before
    &&& traced(op, after.last())
}

impl<T: KLineTransport, S: TraceSink> KLineTransport for TracingTransport<T, S> {
    closed spec fn sent(&self) -> Seq<u8> {
        self.inner.sent()
    }

    closed spec fn received(&self) -> Seq<u8> {
        self.inner.received()
    }

    /// The wrapped transport's errors, passed on unchanged.
    closed spec fn errors(&self) -> Seq<TransportError> {
        self.inner.errors()
    }

    fn send(&mut self, bytes: &[u8]) -> (r: Result<(), TransportError>)
        ensures
            r is Ok ==> appended_trace(
                old(self).spec_recorded(),
                final(self).spec_recorded(),
                WireOp::Send(bytes@),
            ),
            r is Err ==> final(self).spec_recorded() == old(self).spec_recorded(),
            r is Ok ==> final(self).spec_inner().sent() == old(self).spec_inner().sent() + bytes@,
            r is Err ==> final(self).spec_inner().sent() == old(self).spec_inner().sent(),
            noted(old(self).spec_inner().errors(), final(self).spec_inner().errors(), r),
    {
        self.inner.send(bytes)?;
        self.emit(TraceDirection::Tx, EventKind::Bytes { hex: HexBytes(copy_bytes(bytes)) });
        Ok(())
    }

    fn read_byte(&mut self, timeout_ms: u64) -> (r: Result<u8, TransportError>)
        ensures
            r matches Ok(b) ==> appended_trace(
                old(self).spec_recorded(),
                final(self).spec_recorded(),
                WireOp::Read(b),
            ),
            r is Err ==> final(self).spec_recorded() == old(self).spec_recorded(),
            r matches Ok(b) ==> final(self).spec_inner().received() == old(self).spec_inner().received().push(b),
            r is Err ==> final(self).spec_inner().received() == old(self).spec_inner().received(),
            noted(old(self).spec_inner().errors(), final(self).spec_inner().errors(), r),
    {
        let byte = self.inner.read_byte(timeout_ms)?;
        let mut v: Vec<u8> = Vec::new();
        v.push(byte);
        self.emit(TraceDirection::Rx, EventKind::Bytes { hex: HexBytes(v) });
        Ok(byte)
    }

    fn send_break(&mut self, duration_ms: u64) -> (r: Result<(), TransportError>)
        ensures
            r is Ok ==> appended_trace(
                old(self).spec_recorded(),
                final(self).spec_recorded(),
                WireOp::Break(duration_ms),
            ),
            r is Err ==> final(self).spec_recorded() == old(self).spec_recorded(),
    {
        self.inner.send_break(duration_ms)?;
        self.emit(TraceDirection::Tx, EventKind::Break { ms: duration_ms });
        Ok(())
    }

    fn set_baud(&mut self, baud: u32) -> (r: Result<(), TransportError>)
        ensures
            r is Ok ==> appended_trace(
                old(self).spec_recorded(),
                final(self).spec_recorded(),
                WireOp::Baud(baud),
            ),
            r is Err ==> final(self).spec_recorded() == old(self).spec_recorded(),
    {
        self.inner.set_baud(baud)?;
        self.emit(TraceDirection::Tx, EventKind::Baud { baud });
        Ok(())
    }

    fn flush_input(&mut self) -> (r: Result<(), TransportError>)
        ensures
            final(self).spec_recorded() == old(self).spec_recorded(),
    {
        self.inner.flush_input()
    }

    fn pause(&mut self, duration_ms: u64)
        ensures
            final(self).spec_recorded() == old(self).spec_recorded(),
    {
        self.inner.pause(duration_ms)
    }

    fn send_5baud_address(&mut self, address: u8, bit_time_ms: u64) -> (r: Result<(), TransportError>)
        ensures
            r is Ok ==> appended_trace(
                old(self).spec_recorded(),
                final(self).spec_recorded(),
                WireOp::FiveBaud(address),
            ),
            r is Err ==> final(self).spec_recorded() == old(self).spec_recorded(),
    {
        self.inner.send_5baud_address(address, bit_time_ms)?;
        self.emit(TraceDirection::Tx, EventKind::FiveBaudAddress { address });
        Ok(())
    }
}

} // verus!
