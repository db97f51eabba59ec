//! UDS session: request/response exchange over ISO-TP with the same
//! ResponsePending-tolerant loop as the KWP2000 session.

use vstd::prelude::*;
use std::time::Instant;
use crate::can::CanTransport;
use crate::channel::{elapsed_ms, instant_now};
use crate::can::CanFrameView;
use crate::framing::{appended, extends};
use crate::iso_tp::{
    self, fc_answer, fc_undecided, first_frame_at, is_prefix_of, rx_open, rx_run, spec_segments,
    IsoTpError, RxState,
};
use crate::services::{
    classify_response, positive_response, spec_classify, spec_positive_response,
    NegativeResponseCode, ResponseClass,
};
use crate::uds::TESTER_PRESENT;

verus! {

#[derive(Debug, Clone, PartialEq, Eq)]
pub enum UdsError {
    IsoTp(IsoTpError),
    NegativeResponse { service: u8, code: NegativeResponseCode },
    UnexpectedService { expected: u8, got: u8 },
    /// An empty payload (request or response).
    EmptyResponse,
}

pub struct UdsSession<T: CanTransport> {
    transport: T,
    tx_id: u32,
    rx_id: u32,
    timeout_ms: u64,
    last_exchange: Instant,
    /// Send TesterPresent when idle longer than this.
    pub keepalive_after_ms: u64,
    pub max_response_pending: u32,
}

pub open spec fn uds_outcome(request_sid: u8, r: Result<Vec<u8>, UdsError>) -> bool {
    match r {
        Ok(resp) => spec_classify(request_sid, resp@) == ResponseClass::Positive,
        Err(UdsError::NegativeResponse { service, code }) => service == request_sid,
        Err(UdsError::UnexpectedService { expected, got }) => {
            &&& expected == spec_positive_response(request_sid)
            &&& got != expected
        },
        _ => true,
    }
}

/// The first `k` from `j` on at which the receiver reading `frames` has
/// finished or failed a message.
pub open spec fn first_close(frames: Seq<CanFrameView>, rx_id: u32, j: nat) -> Option<nat>
    decreases frames.len() + 1 - j,
{
    if j > frames.len() {
        None
    } else if !rx_open(rx_run(frames.take(j as int), rx_id)) {
        Some(j)
    } else {
        first_close(frames, rx_id, j + 1)
    }
}

/// What a request with SID `sid` returns once `waits` ResponsePending
/// answers have come in, when `frames` is every frame received after that:
/// the first message the frames close decides, a ResponsePending answer
/// within the limit of `max` hands on to the rest, and nothing follows the
/// deciding message. Frames that close no message mean the transport
/// failed (or the frame budget ran out); a broken message is a protocol
/// error. A First Frame that carries the whole message still needs its
/// Flow Control answer sent, which can fail.
pub open spec fn uds_reply(
    sid: u8,
    max: nat,
    waits: nat,
    frames: Seq<CanFrameView>,
    rx_id: u32,
    r: Result<Vec<u8>, UdsError>,
) -> bool
    decreases frames.len(),
{
    match first_close(frames, rx_id, 0) {
        None => r matches Err(UdsError::IsoTp(e)) && (e is Can || e is Protocol),
        Some(k) => if 0 < k <= frames.len() {
            let rest = frames.subrange(k as int, frames.len() as int);
            match rx_run(frames.take(k as int), rx_id) {
                RxState::Done(d) => {
                    ||| (rest.len() == 0 && first_frame_at(frames, rx_id, k - 1)
                    && r matches Err(UdsError::IsoTp(IsoTpError::Can(_))))
                    ||| match spec_classify(sid, d) {
                    ResponseClass::Pending => if waits >= max {
                        rest.len() == 0 && r == Err::<Vec<u8>, UdsError>(
                            UdsError::NegativeResponse { service: sid, code: NegativeResponseCode::ResponsePending },
                        )
                    } else {
                        uds_reply(sid, max, waits + 1, rest, rx_id, r)
                    },
                    ResponseClass::Positive => rest.len() == 0 && (r matches Ok(v) && v@ == d),
                    ResponseClass::Negative(code) => rest.len() == 0 && r == Err::<Vec<u8>, UdsError>(
                        UdsError::NegativeResponse { service: sid, code },
                    ),
                    ResponseClass::Unexpected(got) => rest.len() == 0 && r == Err::<Vec<u8>, UdsError>(
                        UdsError::UnexpectedService { expected: spec_positive_response(sid), got },
                    ),
                    ResponseClass::Empty => rest.len() == 0 && r == Err::<Vec<u8>, UdsError>(UdsError::EmptyResponse),
                }
                },
                _ => rest.len() == 0 && (r matches Err(UdsError::IsoTp(IsoTpError::Protocol(_)))),
            }
        } else {
            false
        },
    }
}

/// Law: when the first complete message from the ECU starts with neither
/// the positive SID (request SID with bit 6 set) nor the negative marker,
/// the request is never answered with it: it fails with an unexpected
/// service naming the SID it expected and the one it got (or with the bus
/// error that cut the exchange short).
pub proof fn lemma_foreign_message_fails(
    sid: u8,
    max: nat,
    frames: Seq<CanFrameView>,
    rx_id: u32,
    k: nat,
    d: Seq<u8>,
    r: Result<Vec<u8>, UdsError>,
)
    requires
        first_close(frames, rx_id, 0) == Some(k),
        rx_run(frames.take(k as int), rx_id) == RxState::Done(d),
        d.len() > 0,
        d[0] != (sid | 0x40),
        d[0] != 0x7F,
        uds_reply(sid, max, 0, frames, rx_id, r),
    ensures
        r == Err::<Vec<u8>, UdsError>(UdsError::UnexpectedService { expected: sid | 0x40, got: d[0] })
            || r matches Err(UdsError::IsoTp(IsoTpError::Can(_))),
        !(r is Ok),
{
    crate::services::lemma_positive_only_on_echoed_sid(sid, d);
}

proof fn lemma_first_close_from(c: Seq<CanFrameView>, f: Seq<CanFrameView>, rx_id: u32, j: nat)
    requires
        j <= c.len(),
        forall|k: int| 0 <= k < c.len() ==> #[trigger] rx_open(rx_run(c.take(k), rx_id)),
    ensures
        !rx_open(rx_run(c, rx_id)) ==> first_close(c + f, rx_id, j) == Some(c.len()),
        rx_open(rx_run(c, rx_id)) ==> first_close(c, rx_id, j) is None,
    decreases c.len() - j,
{
    assert((c + f).take(j as int) =~= c.take(j as int));
    assert(c.take(c.len() as int) =~= c);
    if j < c.len() {
        assert(rx_open(rx_run(c.take(j as int), rx_id)));
        lemma_first_close_from(c, f, rx_id, j + 1);
    } else {
        if rx_open(rx_run(c, rx_id)) {
            assert(first_close(c, rx_id, j + 1) is None);
        }
    }
}

/// Everything a request with a non-empty `payload` does, from the session
/// `before` to `after`: either the request never got fully onto the bus
/// (the segmenting step failed, for a reason the frames or the transport
/// show), or all its segments went out and the reply is what `uds_reply`
/// reads from the frames received after them. A transport error is one the
/// transport reported.
pub open spec fn uds_request_done<T: CanTransport>(
    before: UdsSession<T>,
    after: UdsSession<T>,
    payload: Seq<u8>,
    r: Result<Vec<u8>, UdsError>,
) -> bool {
    let t0 = before.spec_transport();
    let t1 = after.spec_transport();
    let rx_id = before.spec_rx_id();
    let got = appended(t0.received_frames(), t1.received_frames());
    &&& extends(t0.received_frames(), t1.received_frames())
    &&& r matches Err(UdsError::IsoTp(IsoTpError::Can(e))) ==> t1.errors() == t0.errors().push(e)
    &&& !(r matches Err(UdsError::IsoTp(IsoTpError::Can(_)))) ==> t1.errors() == t0.errors()
    &&& {
        ||| {
            &&& r matches Err(UdsError::IsoTp(e))
            &&& r matches Err(UdsError::IsoTp(IsoTpError::Overflow)) ==> got.len() >= 1 && got.last().id
                == rx_id && fc_answer(got.last()) is Overflow
            &&& r matches Err(UdsError::IsoTp(IsoTpError::Protocol(_))) ==> got.len() >= 1 && (
            got.last().id == rx_id && fc_answer(got.last()) is Broken || fc_undecided(got.last(), rx_id))
        }
        ||| {
            &&& is_prefix_of(
                t0.sent_frames() + spec_segments(before.spec_tx_id(), payload),
                t1.sent_frames(),
            )
            &&& exists|k: int|
                0 <= k <= got.len() && #[trigger] uds_reply(
                    payload[0],
                    before.spec_max_pending() as nat,
                    0,
                    got.subrange(k, got.len() as int),
                    rx_id,
                    r,
                )
        }
    }
}

proof fn lemma_frames_chain(a: Seq<CanFrameView>, b: Seq<CanFrameView>, c: Seq<CanFrameView>)
    requires
        extends(a, b),
        extends(b, c),
    ensures
        extends(a, c),
        appended(a, c) == appended(a, b) + appended(b, c),
{
    assert(c.subrange(0, a.len() as int) =~= b.subrange(0, a.len() as int));
    assert(appended(a, c) =~= appended(a, b) + appended(b, c));
}

proof fn lemma_request_done<T: CanTransport>(
    before: UdsSession<T>,
    after: UdsSession<T>,
    payload: Seq<u8>,
    r: Result<Vec<u8>, UdsError>,
    head: Seq<CanFrameView>,
    tail: Seq<CanFrameView>,
)
    requires
        extends(before.spec_transport().received_frames(), after.spec_transport().received_frames()),
        appended(before.spec_transport().received_frames(), after.spec_transport().received_frames())
            == head + tail,
        is_prefix_of(
            before.spec_transport().sent_frames() + spec_segments(before.spec_tx_id(), payload),
            after.spec_transport().sent_frames(),
        ),
        uds_reply(payload[0], before.spec_max_pending() as nat, 0, tail, before.spec_rx_id(), r),
        r matches Err(UdsError::IsoTp(IsoTpError::Can(e))) ==> after.spec_transport().errors()
            == before.spec_transport().errors().push(e),
        !(r matches Err(UdsError::IsoTp(IsoTpError::Can(_)))) ==> after.spec_transport().errors()
            == before.spec_transport().errors(),
    ensures
        uds_request_done(before, after, payload, r),
{
    lemma_reply_witness(
        payload[0],
        before.spec_max_pending() as nat,
        appended(before.spec_transport().received_frames(), after.spec_transport().received_frames()),
        head,
        tail,
        before.spec_rx_id(),
        r,
    );
}

proof fn lemma_reply_witness(
    sid: u8,
    max: nat,
    got: Seq<CanFrameView>,
    head: Seq<CanFrameView>,
    tail: Seq<CanFrameView>,
    rx_id: u32,
    r: Result<Vec<u8>, UdsError>,
)
    requires
        got == head + tail,
        uds_reply(sid, max, 0, tail, rx_id, r),
    ensures
        exists|k: int| 0 <= k <= got.len() && #[trigger] uds_reply(sid, max, 0, got.subrange(k, got.len() as int), rx_id, r),
{
    assert(got.subrange(head.len() as int, got.len() as int) =~= tail);
}

impl<T: CanTransport> UdsSession<T> {
    pub closed spec fn spec_transport(&self) -> T {
        self.transport
    }

    pub closed spec fn spec_tx_id(&self) -> u32 {
        self.tx_id
    }

    pub closed spec fn spec_rx_id(&self) -> u32 {
        self.rx_id
    }

    pub closed spec fn spec_timeout_ms(&self) -> u64 {
        self.timeout_ms
    }

    pub closed spec fn spec_keepalive_after(&self) -> u64 {
        self.keepalive_after_ms
    }

    pub closed spec fn spec_max_pending(&self) -> u32 {
        self.max_response_pending
    }

    pub fn new(transport: T, tx_id: u32, rx_id: u32) -> (s: Self)
        ensures
            s.spec_transport() == transport,
            s.spec_tx_id() == tx_id,
            s.spec_rx_id() == rx_id,
            s.spec_timeout_ms() == 200,
            s.spec_keepalive_after() == 2000,
            s.spec_max_pending() == 10,
    {
        UdsSession {
            transport,
            tx_id,
            rx_id,
            timeout_ms: 200,
            last_exchange: instant_now(),
            keepalive_after_ms: 2000,
            max_response_pending: 10,
        }
    }

    /// Send a request payload (starting with the SID) as one ISO-TP message
    /// and return the positive response, waiting through at most
    /// `max_response_pending` ResponsePending answers.
    pub fn request(&mut self, payload: &[u8]) -> (r: Result<Vec<u8>, UdsError>)
        requires
            payload@.len() <= 0x0FFF,
        ensures
            final(self).spec_tx_id() == old(self).spec_tx_id(),
            final(self).spec_rx_id() == old(self).spec_rx_id(),
            final(self).spec_timeout_ms() == old(self).spec_timeout_ms(),
            final(self).spec_keepalive_after() == old(self).spec_keepalive_after(),
            final(self).spec_max_pending() == old(self).spec_max_pending(),
            payload@.len() == 0 ==> (r matches Err(UdsError::EmptyResponse) && *final(self) == *old(self)),
            payload@.len() > 0 ==> uds_outcome(payload@[0], r),
            payload@.len() > 0 ==> uds_request_done(*old(self), *final(self), payload@, r),
            payload@.len() > 0 && (r is Ok || r matches Err(UdsError::NegativeResponse { .. })
                || r matches Err(UdsError::UnexpectedService { .. })) ==> is_prefix_of(
                old(self).spec_transport().sent_frames() + spec_segments(old(self).spec_tx_id(), payload@),
                final(self).spec_transport().sent_frames(),
            ),
    {
        if payload.len() == 0 {
            return Err(UdsError::EmptyResponse);
        }
        let request_sid = payload[0];
        let ghost max = self.max_response_pending as nat;
        let ghost r0 = self.transport.received_frames();
        match iso_tp::send(&mut self.transport, self.tx_id, self.rx_id, payload, self.timeout_ms) {
            Ok(()) => {},
            Err(e) => return Err(UdsError::IsoTp(e)),
        }
        let ghost after_send = self.transport.sent_frames();
        let ghost n = after_send.len();
        let ghost rx0 = self.transport.received_frames();
        assert(self.transport.sent_frames().subrange(0, n as int) =~= after_send);
        proof {
            assert(rx0.subrange(0, rx0.len() as int) =~= rx0);
            assert forall|f: Seq<CanFrameView>, rr: Result<Vec<u8>, UdsError>|
                #[trigger] uds_reply(request_sid, max, 0, appended(rx0, self.transport.received_frames()) + f, self.rx_id, rr)
                    == uds_reply(request_sid, max, 0, f, self.rx_id, rr) by {
                assert(appended(rx0, self.transport.received_frames()) + f =~= f);
            }
        }

        let mut pending_waits: u32 = 0;
        loop
            invariant
                is_prefix_of(after_send, self.transport.sent_frames()),
                after_send == old(self).transport.sent_frames() + spec_segments(old(self).tx_id, payload@),
                n == after_send.len(),
                self.tx_id == old(self).tx_id,
                self.rx_id == old(self).rx_id,
                self.timeout_ms == old(self).timeout_ms,
                self.keepalive_after_ms == old(self).keepalive_after_ms,
                self.max_response_pending == old(self).max_response_pending,
                max == self.max_response_pending as nat,
                pending_waits <= self.max_response_pending,
                payload@.len() > 0,
                request_sid == payload@[0],
                r0 == old(self).transport.received_frames(),
                extends(r0, rx0),
                extends(rx0, self.transport.received_frames()),
                self.transport.errors() == old(self).transport.errors(),
                forall|f: Seq<CanFrameView>, rr: Result<Vec<u8>, UdsError>|
                    #[trigger] uds_reply(request_sid, max, 0, appended(rx0, self.transport.received_frames()) + f, self.rx_id, rr)
                        == uds_reply(request_sid, max, pending_waits as nat, f, self.rx_id, rr),
            decreases self.max_response_pending - pending_waits,
        {
            let ghost seen = appended(rx0, self.transport.received_frames());
            let ghost before = self.transport.received_frames();
            let got = iso_tp::receive(&mut self.transport, self.tx_id, self.rx_id, self.timeout_ms);
            let ghost c = appended(before, self.transport.received_frames());
            proof {
                lemma_frames_chain(rx0, before, self.transport.received_frames());
                lemma_frames_chain(r0, rx0, self.transport.received_frames());
                assert(seen + c =~= appended(rx0, self.transport.received_frames()));
                lemma_first_close_from(c, Seq::<CanFrameView>::empty(), self.rx_id, 0);
                assert(c + Seq::<CanFrameView>::empty() =~= c);
                assert(c.take(c.len() as int) =~= c);
                assert(c.subrange(c.len() as int, c.len() as int) =~= Seq::<CanFrameView>::empty());
            }
            proof {
                let s = self.transport.sent_frames();
                assert(s.subrange(0, n as int) =~= after_send);
            }
            let response = match got {
                Ok(v) => v,
                Err(e) => {
                    proof {
                        let rr = Err::<Vec<u8>, UdsError>(UdsError::IsoTp(e));
                        if rx_open(rx_run(c, self.rx_id)) {
                            assert(first_close(c, self.rx_id, 0) is None);
                        } else {
                            assert(first_close(c, self.rx_id, 0) == Some(c.len()));
                            assert(c.len() > 0) by {
                                if c.len() == 0 {
                                    assert(c =~= Seq::<CanFrameView>::empty());
                                }
                            }
                        }
                        assert(uds_reply(request_sid, max, pending_waits as nat, c, self.rx_id, rr));
                        assert(uds_reply(request_sid, max, 0, seen + c, self.rx_id, rr));
                        lemma_request_done(*old(self), *self, payload@, rr, appended(r0, rx0), seen + c);
                    }
                    return Err(UdsError::IsoTp(e));
                },
            };
            proof {
                let s = self.transport.sent_frames();
                assert(s.subrange(0, n as int) =~= after_send);
            }
            self.last_exchange = instant_now();

            match classify_response(request_sid, response.as_slice()) {
                ResponseClass::Pending => {
                    if pending_waits >= self.max_response_pending {
                        let err = UdsError::NegativeResponse {
                            service: request_sid,
                            code: NegativeResponseCode::ResponsePending,
                        };
                        proof {
                            let rr = Err::<Vec<u8>, UdsError>(err);
                            assert(uds_reply(request_sid, max, pending_waits as nat, c, self.rx_id, rr));
                            assert(uds_reply(request_sid, max, 0, seen + c, self.rx_id, rr));
                            lemma_request_done(*old(self), *self, payload@, rr, appended(r0, rx0), seen + c);
                        }
                        return Err(err);
                    }
                    proof {
                        assert forall|f: Seq<CanFrameView>, rr: Result<Vec<u8>, UdsError>|
                            #[trigger] uds_reply(request_sid, max, 0, appended(rx0, self.transport.received_frames()) + f, self.rx_id, rr)
                                == uds_reply(request_sid, max, (pending_waits + 1) as nat, f, self.rx_id, rr) by {
                            lemma_first_close_from(c, f, self.rx_id, 0);
                            assert((c + f).take(c.len() as int) =~= c);
                            assert((c + f).subrange(c.len() as int, (c + f).len() as int) =~= f);
                            assert(seen + c + f =~= seen + (c + f));
                            assert(uds_reply(request_sid, max, 0, seen + (c + f), self.rx_id, rr)
                                == uds_reply(request_sid, max, pending_waits as nat, c + f, self.rx_id, rr));
                            if f.len() == 0 {
                                assert(f.take(0) =~= f);
                                assert(first_close(f, self.rx_id, 1) is None);
                                assert(first_close(f, self.rx_id, 0) is None);
                            }
                        }
                    }
                    pending_waits = pending_waits + 1;
                },
                ResponseClass::Negative(code) => {
                    let err = UdsError::NegativeResponse { service: request_sid, code };
                    proof {
                        let rr = Err::<Vec<u8>, UdsError>(err);
                        assert(uds_reply(request_sid, max, pending_waits as nat, c, self.rx_id, rr));
                        assert(uds_reply(request_sid, max, 0, seen + c, self.rx_id, rr));
                        lemma_request_done(*old(self), *self, payload@, rr, appended(r0, rx0), seen + c);
                    }
                    return Err(err);
                },
                ResponseClass::Positive => {
                    proof {
                        let rr = Ok::<Vec<u8>, UdsError>(response);
                        assert(uds_reply(request_sid, max, pending_waits as nat, c, self.rx_id, rr));
                        assert(uds_reply(request_sid, max, 0, seen + c, self.rx_id, rr));
                        lemma_request_done(*old(self), *self, payload@, rr, appended(r0, rx0), seen + c);
                    }
                    return Ok(response);
                },
                ResponseClass::Unexpected(got) => {
                    let err = UdsError::UnexpectedService { expected: positive_response(request_sid), got };
                    proof {
                        let rr = Err::<Vec<u8>, UdsError>(err);
                        assert(uds_reply(request_sid, max, pending_waits as nat, c, self.rx_id, rr));
                        assert(uds_reply(request_sid, max, 0, seen + c, self.rx_id, rr));
                        lemma_request_done(*old(self), *self, payload@, rr, appended(r0, rx0), seen + c);
                    }
                    return Err(err);
                },
                ResponseClass::Empty => {
                    proof {
                        let rr = Err::<Vec<u8>, UdsError>(UdsError::EmptyResponse);
                        assert(uds_reply(request_sid, max, pending_waits as nat, c, self.rx_id, rr));
                        assert(uds_reply(request_sid, max, 0, seen + c, self.rx_id, rr));
                        lemma_request_done(*old(self), *self, payload@, rr, appended(r0, rx0), seen + c);
                    }
                    return Err(UdsError::EmptyResponse);
                },
            }
        }
    }

    /// Send a TesterPresent request.
    pub fn tester_present(&mut self) -> (r: Result<(), UdsError>)
        ensures
            final(self).spec_tx_id() == old(self).spec_tx_id(),
            final(self).spec_rx_id() == old(self).spec_rx_id(),
            final(self).spec_timeout_ms() == old(self).spec_timeout_ms(),
            final(self).spec_keepalive_after() == old(self).spec_keepalive_after(),
            final(self).spec_max_pending() == old(self).spec_max_pending(),
            r is Ok ==> is_prefix_of(
                old(self).spec_transport().sent_frames() + spec_segments(old(self).spec_tx_id(), seq![TESTER_PRESENT]),
                final(self).spec_transport().sent_frames(),
            ),
            r matches Err(e) ==> uds_outcome(TESTER_PRESENT, Err::<Vec<u8>, UdsError>(e)),
    {
        let req = [TESTER_PRESENT];
        assert(req@ =~= seq![TESTER_PRESENT]);
        match self.request(&req) {
            Ok(_) => Ok(()),
            Err(e) => Err(e),
        }
    }

    /// A keep-alive is due once the session has been idle `keepalive_after_ms`.
    pub fn keepalive_due_after(&self, idle_ms: u64) -> (r: bool)
        ensures
            r == (idle_ms >= self.spec_keepalive_after()),
    {
        idle_ms >= self.keepalive_after_ms
    }

    /// True when the session has been idle long enough that a keep-alive is due.
    ///
    /// With a zero keep-alive budget one is always due; otherwise it depends
    /// on the clock.
    pub fn keepalive_due(&self) -> (r: bool)
        ensures
            self.spec_keepalive_after() == 0 ==> r,
    {
        let idle = elapsed_ms(&self.last_exchange);
        self.keepalive_due_after(idle)
    }
}

} // verus!
