//! Replays a recorded [`TraceEvent`] sequence as a transport, so a captured
//! session (real bike or simulator) can be re-run deterministically as a
//! regression test: no hardware, no timing, but the exact bytes the protocol
//! layer saw originally.

use vstd::prelude::*;
use std::collections::VecDeque;
use crate::text::{bytes_eq, debug_hex, decimal, hex2, push_debug_hex, push_decimal, push_hex2};
use crate::trace::{traced, EventKind, TraceDirection, TraceEvent, WireOp};
use crate::transport::{KLineTransport, TransportError};

verus! {

/// Whether replaying the recorded event `e` accepts the operation `op`.
/// A break or a baud change matches whatever duration or speed it had.
pub open spec fn replay_accepts(e: TraceEvent, op: WireOp) -> bool {
    match op {
        WireOp::Send(bytes) => {
            &&& e.dir == TraceDirection::Tx
            &&& e.kind matches EventKind::Bytes { hex } && hex.0@ == bytes
        },
        WireOp::Read(b) => {
            &&& e.dir == TraceDirection::Rx
            &&& e.kind matches EventKind::Bytes { hex } && hex.0@ == seq![b]
        },
        WireOp::Break(_) => e.dir == TraceDirection::Tx && e.kind is Break,
        WireOp::Baud(_) => e.dir == TraceDirection::Tx && e.kind is Baud,
        WireOp::FiveBaud(a) => {
            &&& e.dir == TraceDirection::Tx
            &&& e.kind matches EventKind::FiveBaudAddress { address } && address == a
        },
    }
}

/// The next recorded event exists and accepts `op`.
pub open spec fn next_accepts(remaining: Seq<TraceEvent>, op: WireOp) -> bool {
    remaining.len() > 0 && replay_accepts(remaining[0], op)
}

/// What is left after one event is taken (nothing is taken from nothing).
pub open spec fn after_pop(remaining: Seq<TraceEvent>) -> Seq<TraceEvent> {
    if remaining.len() > 0 {
        remaining.drop_first()
    } else {
        remaining
    }
}

/// `events` is the trace of `ops`, one event per operation, in order.
pub open spec fn is_trace_of(ops: Seq<WireOp>, events: Seq<TraceEvent>) -> bool {
    &&& ops.len() == events.len()
    &&& forall|i: int| 0 <= i < ops.len() ==> traced(#[trigger] ops[i], events[i])
}

pub struct ReplayTransport {
    events: VecDeque<TraceEvent>,
    sent_log: Ghost<Seq<u8>>,
    recv_log: Ghost<Seq<u8>>,
    err_log: Ghost<Seq<TransportError>>,
}

fn accepts_send(e: &TraceEvent, bytes: &[u8]) -> (r: bool)
    ensures
        r == replay_accepts(*e, WireOp::Send(bytes@)),
{
    match e.dir {
        TraceDirection::Tx => match &e.kind {
            EventKind::Bytes { hex } => bytes_eq(hex.0.as_slice(), bytes),
            _ => false,
        },
        TraceDirection::Rx => false,
    }
}

fn accepted_read(e: &TraceEvent) -> (r: Option<u8>)
    ensures
        forall|b: u8| replay_accepts(*e, WireOp::Read(b)) <==> r == Some(b),
{
    match e.dir {
        TraceDirection::Rx => match &e.kind {
            EventKind::Bytes { hex } => {
                if hex.0.len() == 1 {
                    let b = hex.0[0];
                    assert forall|x: u8| replay_accepts(*e, WireOp::Read(x)) <==> Some(b) == Some(
                        x,
                    ) by {
                        if hex.0@ == seq![x] {
                            assert(hex.0@[0] == x);
                        }
                        if x == b {
                            assert(hex.0@ =~= seq![x]);
                        }
                    }
                    Some(b)
                } else {
                    assert forall|x: u8| !replay_accepts(*e, WireOp::Read(x)) by {
                        if hex.0@ == seq![x] {
                            assert(hex.0@.len() == 1);
                        }
                    }
                    None
                }
            },
            _ => None,
        },
        TraceDirection::Tx => None,
    }
}

/// Describes an expected transmission as `{:02X?}` does: "tx [81, 10]".
fn describe_tx(bytes: &[u8]) -> (s: String)
    ensures
        s@ == "tx "@ + debug_hex(bytes@),
{
    let mut s = String::from_str("tx ");
    push_debug_hex(&mut s, bytes);
    s
}

/// Describes an expected 5-baud address: "5-baud address 0x10".
fn describe_five_baud(address: u8) -> (s: String)
    ensures
        s@ == "5-baud address 0x"@ + hex2(address),
{
    let mut s = String::from_str("5-baud address 0x");
    push_hex2(&mut s, address);
    s
}

/// How a mismatch message shows a recorded event (or the end of the
/// recording): its direction, then its bytes, break, speed or address.
pub open spec fn event_text(event: Option<TraceEvent>) -> Seq<char> {
    match event {
        None => "end of recording"@,
        Some(e) => (if e.dir == TraceDirection::Tx {
            "tx "@
        } else {
            "rx "@
        }) + match e.kind {
            EventKind::Bytes { hex } => debug_hex(hex.0@),
            EventKind::Break { ms } => "break "@ + decimal(ms as nat) + " ms"@,
            EventKind::Baud { baud } => "baud "@ + decimal(baud as nat),
            EventKind::FiveBaudAddress { address } => "5-baud address 0x"@ + hex2(address),
        },
    }
}

/// The text of a recorded event, as `event_text` gives it.
fn push_event_text(s: &mut String, event: Option<&TraceEvent>)
    ensures
        final(s)@ == old(s)@ + event_text(match event {
            Some(e) => Some(*e),
            None => None,
        }),
{
    match event {
        None => s.append("end of recording"),
        Some(e) => {
            match e.dir {
                TraceDirection::Tx => s.append("tx "),
                TraceDirection::Rx => s.append("rx "),
            }
            match &e.kind {
                EventKind::Bytes { hex } => push_debug_hex(s, hex.0.as_slice()),
                EventKind::Break { ms } => {
                    s.append("break ");
                    push_decimal(s, *ms);
                    s.append(" ms");
                },
                EventKind::Baud { baud } => {
                    s.append("baud ");
                    push_decimal(s, *baud as u64);
                },
                EventKind::FiveBaudAddress { address } => {
                    s.append("5-baud address 0x");
                    push_hex2(s, *address);
                },
            }
        },
    }
}

/// The error a replay gives when the next recorded event is not the
/// operation asked for: "replay mismatch: expected {what}, but recording
/// had {event}".
fn mismatch(what: &str, event: Option<&TraceEvent>) -> (e: TransportError)
    ensures
        e matches TransportError::Io(m) && m@ == "replay mismatch: expected "@ + what@
            + ", but recording had "@ + event_text(match event {
            Some(x) => Some(*x),
            None => None,
        }),
{
    let mut m = String::from_str("replay mismatch: expected ");
    m.append(what);
    m.append(", but recording had ");
    push_event_text(&mut m, event);
    TransportError::Io(m)
}

impl ReplayTransport {
    /// The recorded events not yet replayed, next first.
    pub closed spec fn remaining(&self) -> Seq<TraceEvent> {
        self.events@
    }

    pub fn from_events(events: Vec<TraceEvent>) -> (r: Self)
        ensures
            r.remaining() == events@,
            r.sent() == Seq::<u8>::empty(),
            r.received() == Seq::<u8>::empty(),
    {
        let ghost all = events@;
        let mut events = events;
        let mut queue: VecDeque<TraceEvent> = VecDeque::new();
        while events.len() > 0
            invariant
                events@ + queue@ == all,
            decreases events@.len(),
        {
            let ghost before = events@;
            let e = events.pop().unwrap();
            queue.push_front(e);
            assert(before =~= events@.push(e));
            assert(events@ + queue@ =~= all);
        }
        assert(queue@ =~= all);
        ReplayTransport {
            events: queue,
            sent_log: Ghost(Seq::empty()),
            recv_log: Ghost(Seq::empty()),
            err_log: Ghost(Seq::empty()),
        }
    }

    /// Give up with `e`, noting it among the errors.
    fn fail<A>(&mut self, e: TransportError) -> (r: Result<A, TransportError>)
        ensures
            r == Err::<A, TransportError>(e),
            final(self).err_log@ == old(self).err_log@.push(e),
            final(self).remaining() == old(self).remaining(),
            final(self).sent() == old(self).sent(),
            final(self).received() == old(self).received(),
    {
        self.err_log = Ghost(self.err_log@.push(e));
        Err(e)
    }

    /// Take the next event, or `None` once the recording is exhausted.
    fn next_event(&mut self) -> (e: Option<TraceEvent>)
        ensures
            final(self).remaining() == after_pop(old(self).remaining()),
            old(self).remaining().len() == 0 ==> e is None,
            old(self).remaining().len() > 0 ==> e == Some(old(self).remaining()[0]),
            final(self).sent() == old(self).sent(),
            final(self).received() == old(self).received(),
            final(self).err_log == old(self).err_log,
    {
        let e = self.events.pop_front();
        proof {
            if old(self).events@.len() > 0 {
                assert(self.events@ =~= old(self).events@.drop_first());
            }
        }
        e
    }
}

impl KLineTransport for ReplayTransport {
    closed spec fn sent(&self) -> Seq<u8> {
        self.sent_log@
    }

    closed spec fn received(&self) -> Seq<u8> {
        self.recv_log@
    }

    closed spec fn errors(&self) -> Seq<TransportError> {
        self.err_log@
    }

    /// Succeeds when the next event is the transmission of exactly `bytes`.
    fn send(&mut self, bytes: &[u8]) -> (r: Result<(), TransportError>)
        ensures
            final(self).remaining() == after_pop(old(self).remaining()),
            r is Ok <==> next_accepts(old(self).remaining(), WireOp::Send(bytes@)),
            r matches Err(e) ==> e is Io,
    {
        match self.next_event() {
            Some(e) => {
                if accepts_send(&e, bytes) {
                    self.sent_log = Ghost(self.sent_log@ + bytes@);
                    Ok(())
                } else {
                    self.fail(mismatch(describe_tx(bytes).as_str(), Some(&e)))
                }
            },
            None => self.fail(mismatch(describe_tx(bytes).as_str(), None)),
        }
    }

    /// Delivers the next event's byte when it is a single received byte; an
    /// exhausted recording times out.
    fn read_byte(&mut self, timeout_ms: u64) -> (r: Result<u8, TransportError>)
        ensures
            final(self).remaining() == after_pop(old(self).remaining()),
            old(self).remaining().len() == 0 ==> r == Err::<u8, TransportError>(
                TransportError::Timeout,
            ),
            forall|b: u8| next_accepts(old(self).remaining(), WireOp::Read(b)) ==> r == Ok::<u8, TransportError>(b),
            r matches Ok(b) ==> next_accepts(old(self).remaining(), WireOp::Read(b)),
            old(self).remaining().len() > 0 && r is Err ==> r matches Err(TransportError::Io(_)),
    {
        match self.next_event() {
            Some(e) => match accepted_read(&e) {
                Some(b) => {
                    self.recv_log = Ghost(self.recv_log@.push(b));
                    Ok(b)
                },
                None => self.fail(mismatch("a single rx byte", Some(&e))),
            },
            None => self.fail(TransportError::Timeout),
        }
    }

    /// Succeeds when the next event is a transmitted break, of any length.
    fn send_break(&mut self, duration_ms: u64) -> (r: Result<(), TransportError>)
        ensures
            final(self).remaining() == after_pop(old(self).remaining()),
            r is Ok <==> next_accepts(old(self).remaining(), WireOp::Break(duration_ms)),
            r matches Err(e) ==> e is Io,
    {
        let e = self.next_event();
        match &e {
            Some(ev) => match (ev.dir, &ev.kind) {
                (TraceDirection::Tx, EventKind::Break { .. }) => {
                    return Ok(());
                },
                _ => {},
            },
            None => {},
        }
        self.fail(mismatch("a break pulse", e.as_ref()))
    }

    /// Succeeds when the next event is a baud change, to any speed.
    fn set_baud(&mut self, baud: u32) -> (r: Result<(), TransportError>)
        ensures
            final(self).remaining() == after_pop(old(self).remaining()),
            r is Ok <==> next_accepts(old(self).remaining(), WireOp::Baud(baud)),
            r matches Err(e) ==> e is Io,
    {
        let e = self.next_event();
        match &e {
            Some(ev) => match (ev.dir, &ev.kind) {
                (TraceDirection::Tx, EventKind::Baud { .. }) => {
                    return Ok(());
                },
                _ => {},
            },
            None => {},
        }
        self.fail(mismatch("a baud change", e.as_ref()))
    }

    /// Flushes are not part of a recording: nothing to replay.
    fn flush_input(&mut self) -> (r: Result<(), TransportError>)
        ensures
            final(self).remaining() == old(self).remaining(),
            r is Ok,
    {
        Ok(())
    }

    /// Pauses are not part of a recording: nothing to replay.
    fn pause(&mut self, duration_ms: u64)
        ensures
            final(self).remaining() == old(self).remaining(),
    {
    }

    /// Succeeds when the next event is the 5-baud transmission of `address`.
    fn send_5baud_address(&mut self, address: u8, bit_time_ms: u64) -> (r: Result<(), TransportError>)
        ensures
            final(self).remaining() == after_pop(old(self).remaining()),
            r is Ok <==> next_accepts(old(self).remaining(), WireOp::FiveBaud(address)),
            r matches Err(e) ==> e is Io,
    {
        let e = self.next_event();
        match &e {
            Some(ev) => match (ev.dir, &ev.kind) {
                (TraceDirection::Tx, EventKind::FiveBaudAddress { address: recorded }) => {
                    if *recorded == address {
                        return Ok(());
                    }
                },
                _ => {},
            },
            None => {},
        }
        self.fail(mismatch(describe_five_baud(address).as_str(), e.as_ref()))
    }
}

/// Each operation a tracing transport records is accepted when the recording
/// is replayed: the event written for `op` is one that replaying `op` takes.
pub proof fn lemma_replay_accepts_traced(op: WireOp, e: TraceEvent)
    requires
        traced(op, e),
    ensures
        replay_accepts(e, op),
{
}

/// A whole recorded session replays: when `events` is the trace of `ops`,
/// replaying the operations in order accepts every one of them, and each
/// read delivers the byte that was originally received.
pub proof fn lemma_recorded_session_replays(ops: Seq<WireOp>, events: Seq<TraceEvent>)
    requires
        is_trace_of(ops, events),
    ensures
        forall|i: int| 0 <= i < ops.len() ==> next_accepts(#[trigger] events.skip(i), ops[i]),
{
    assert forall|i: int| 0 <= i < ops.len() implies next_accepts(#[trigger] events.skip(i), ops[i]) by {
        assert(traced(ops[i], events[i]));
        assert(events.skip(i)[0] == events[i]);
        lemma_replay_accepts_traced(ops[i], events[i]);
    }
}

/// Tracing keeps the recording a trace of the operations performed: one
/// more successful operation extends both by one.
pub proof fn lemma_trace_extends(
    ops: Seq<WireOp>,
    before: Seq<TraceEvent>,
    after: Seq<TraceEvent>,
    op: WireOp,
)
    requires
        is_trace_of(ops, before),
        crate::trace::appended_trace(before, after, op),
    ensures
        is_trace_of(ops.push(op), after),
{
    assert forall|i: int| 0 <= i < ops.push(op).len() implies traced(
        #[trigger] ops.push(op)[i],
        after[i],
    ) by {
        if i < ops.len() {
            assert(after[i] == after.drop_last()[i]);
        }
    }
}

} // verus!
