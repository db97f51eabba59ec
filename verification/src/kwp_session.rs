//! KWP2000 session: request/response exchange, P3 pacing, ResponsePending
//! handling, tester-present keep-alive, and frame tracing.

use vstd::prelude::*;
use std::time::Instant;
use crate::channel::{elapsed_ms, instant_now};
use crate::framing::{
    appended, declares_empty, extends, lemma_parse_prefix, read_frame, spec_checksum, spec_encode,
    spec_parse, FrameCodec, SpecParse,
};
use crate::kwp::KwpError;
use crate::services::{
    classify_response, positive_response, spec_classify, spec_positive_response,
    NegativeResponseCode, ResponseClass, TESTER_PRESENT,
};
use crate::timing::TimingParams;
use crate::transport::KLineTransport;

verus! {

#[derive(Debug, Clone, Copy, PartialEq, Eq)]
pub enum Direction {
    Sent,
    Received,
}

/// Observes every raw frame on the wire (wire-trace loggers plug in here).
pub trait TraceHook: Send {
    fn on_frame(&mut self, dir: Direction, raw: &[u8]);
}

pub struct KwpSession<T: KLineTransport> {
    transport: T,
    codec: FrameCodec,
    timing: TimingParams,
    last_exchange: Instant,
    trace: Option<Box<dyn TraceHook>>,
    traced: Ghost<Seq<(Direction, Seq<u8>)>>,
    /// How many ResponsePending (0x78) waits to tolerate per request.
    pub max_response_pending: u32,
}

/// What a request's outcome says about the response, given the request SID.
pub open spec fn request_outcome(request_sid: u8, r: Result<Vec<u8>, KwpError>) -> bool {
    match r {
        Ok(resp) => spec_classify(request_sid, resp@) == ResponseClass::Positive,
        Err(KwpError::NegativeResponse { service, code }) => service == request_sid,
        Err(KwpError::UnexpectedService { expected, got }) => {
            &&& expected == spec_positive_response(request_sid)
            &&& got != expected
        },
        _ => true,
    }
}

/// What a request with SID `sid` returns once `waits` ResponsePending
/// answers have come in, when `rx` is every byte received after that: the
/// first frame in `rx` decides, a ResponsePending answer within the limit
/// of `max` hands on to the rest, and nothing follows the deciding frame.
/// Bytes that end before a whole frame mean the transport failed; a frame
/// that cannot be valid is a checksum or a format error.
pub open spec fn kwp_reply(sid: u8, max: nat, waits: nat, rx: Seq<u8>, r: Result<Vec<u8>, KwpError>) -> bool
    decreases rx.len(),
{
    match spec_parse(rx) {
        SpecParse::Complete { payload, consumed, .. } => if 0 < consumed <= rx.len() {
            let rest = rx.subrange(consumed as int, rx.len() as int);
            match spec_classify(sid, payload) {
                ResponseClass::Pending => if waits >= max {
                    rest.len() == 0 && r == Err::<Vec<u8>, KwpError>(
                        KwpError::NegativeResponse { service: sid, code: NegativeResponseCode::ResponsePending },
                    )
                } else {
                    kwp_reply(sid, max, waits + 1, rest, r)
                },
                ResponseClass::Positive => rest.len() == 0 && (r matches Ok(p) && p@ == payload),
                ResponseClass::Negative(code) => rest.len() == 0 && r == Err::<Vec<u8>, KwpError>(
                    KwpError::NegativeResponse { service: sid, code },
                ),
                ResponseClass::Unexpected(got) => rest.len() == 0 && r == Err::<Vec<u8>, KwpError>(
                    KwpError::UnexpectedService { expected: spec_positive_response(sid), got },
                ),
                ResponseClass::Empty => rest.len() == 0 && (r matches Err(KwpError::MalformedFrame(_))),
            }
        } else {
            false
        },
        SpecParse::Incomplete => r matches Err(KwpError::Transport(_)),
        SpecParse::Invalid => if declares_empty(rx) {
            r matches Err(KwpError::MalformedFrame(_))
        } else {
            &&& rx.len() >= 1
            &&& r matches Err(KwpError::BadChecksum { computed, received }) && computed
                == spec_checksum(rx.drop_last()) && received == rx.last()
        },
    }
}

/// The whole frames read, oldest first, while a request with SID `sid`
/// waits out its answer in `rx` (as `kwp_reply` reads it).
pub open spec fn kwp_frames(sid: u8, max: nat, waits: nat, rx: Seq<u8>) -> Seq<Seq<u8>>
    decreases rx.len(),
{
    match spec_parse(rx) {
        SpecParse::Complete { payload, consumed, .. } => if 0 < consumed <= rx.len() {
            let rest = rx.subrange(consumed as int, rx.len() as int);
            seq![rx.take(consumed as int)] + if spec_classify(sid, payload) == ResponseClass::Pending
                && waits < max {
                kwp_frames(sid, max, waits + 1, rest)
            } else {
                Seq::empty()
            }
        } else {
            Seq::empty()
        },
        _ => Seq::empty(),
    }
}

/// Frames as the trace hook sees them on their way in.
pub open spec fn received_trace(frames: Seq<Seq<u8>>) -> Seq<(Direction, Seq<u8>)> {
    frames.map_values(|f: Seq<u8>| (Direction::Received, f))
}

/// Everything a request with a non-empty `payload` does, from the session
/// `before` to `after`. Either the frame never reached the bus (the
/// transport refused it, and that error is returned), or the encoded
/// request went out exactly once and the reply is what `kwp_reply` reads
/// from the bytes received after it. A transport error is one the
/// transport reported; the trace hook, if any, sees the request and then
/// every whole frame read.
pub open spec fn request_done<T: KLineTransport>(
    before: KwpSession<T>,
    after: KwpSession<T>,
    payload: Seq<u8>,
    r: Result<Vec<u8>, KwpError>,
) -> bool {
    let t0 = before.spec_transport();
    let t1 = after.spec_transport();
    let enc = spec_encode(before.spec_codec(), payload);
    let sid = payload[0];
    let max = before.spec_max_pending() as nat;
    let traced_sent = if before.spec_has_trace_hook() {
        before.spec_traced().push((Direction::Sent, enc))
    } else {
        before.spec_traced()
    };
    ||| {
        &&& t1.sent() == t0.sent()
        &&& t1.received() == t0.received()
        &&& r matches Err(KwpError::Transport(e)) && t1.errors() == t0.errors().push(e)
        &&& after.spec_traced() == traced_sent
    }
    ||| {
        &&& t1.sent() == t0.sent() + enc
        &&& extends(t0.received(), t1.received())
        &&& kwp_reply(sid, max, 0, appended(t0.received(), t1.received()), r)
        &&& r matches Err(KwpError::Transport(e)) ==> t1.errors() == t0.errors().push(e)
        &&& !(r matches Err(KwpError::Transport(_))) ==> t1.errors() == t0.errors()
        &&& after.spec_traced() == traced_sent + if before.spec_has_trace_hook() {
            received_trace(kwp_frames(sid, max, 0, appended(t0.received(), t1.received())))
        } else {
            Seq::empty()
        }
    }
}

/// Law: when the first reply frame's payload starts with neither the
/// positive SID (request SID with bit 6 set) nor the negative marker, the
/// request fails with an unexpected service naming the SID it expected and
/// the one it got; such a reply is never returned as a positive response.
pub proof fn lemma_foreign_reply_fails(
    sid: u8,
    max: nat,
    rx: Seq<u8>,
    payload: Seq<u8>,
    r: Result<Vec<u8>, KwpError>,
)
    requires
        spec_parse(rx) matches SpecParse::Complete { payload: p, .. } && p == payload,
        payload.len() > 0,
        payload[0] != (sid | 0x40),
        payload[0] != 0x7F,
        kwp_reply(sid, max, 0, rx, r),
    ensures
        r == Err::<Vec<u8>, KwpError>(KwpError::UnexpectedService { expected: sid | 0x40, got: payload[0] }),
{
    crate::services::lemma_positive_only_on_echoed_sid(sid, payload);
}

proof fn lemma_appended_chain(a: Seq<u8>, b: Seq<u8>, c: Seq<u8>)
    requires
        extends(a, b),
        extends(b, c),
    ensures
        extends(a, c),
        appended(a, c) == appended(a, b) + appended(b, c),
{
    assert(c.subrange(0, a.len() as int) =~= b.subrange(0, a.len() as int));
    assert(appended(a, c) =~= appended(a, b) + appended(b, c));
}

proof fn lemma_frame_step(c: Seq<u8>)
    ensures
        c.take(c.len() as int) == c,
        c.subrange(c.len() as int, c.len() as int) == Seq::<u8>::empty(),
{
    assert(c.take(c.len() as int) =~= c);
    assert(c.subrange(c.len() as int, c.len() as int) =~= Seq::<u8>::empty());
}

proof fn lemma_frame_step_with(c: Seq<u8>, f: Seq<u8>)
    requires
        spec_parse(c) matches SpecParse::Complete { consumed, .. } && consumed == c.len(),
    ensures
        spec_parse(c + f) == spec_parse(c),
        (c + f).subrange(c.len() as int, (c + f).len() as int) == f,
        (c + f).take(c.len() as int) == c,
{
    lemma_parse_prefix(c, f);
    assert((c + f).subrange(c.len() as int, (c + f).len() as int) =~= f);
    assert((c + f).take(c.len() as int) =~= c);
}

proof fn lemma_finish(
    sid: u8,
    max: nat,
    waits: nat,
    seen: Seq<u8>,
    c: Seq<u8>,
    frames_seen: Seq<Seq<u8>>,
    rr: Result<Vec<u8>, KwpError>,
)
    requires
        forall|f: Seq<u8>, r: Result<Vec<u8>, KwpError>|
            #[trigger] kwp_reply(sid, max, 0, seen + f, r) == kwp_reply(sid, max, waits, f, r),
        forall|f: Seq<u8>| #[trigger] kwp_frames(sid, max, 0, seen + f) == frames_seen + kwp_frames(sid, max, waits, f),
        kwp_reply(sid, max, waits, c, rr),
        kwp_frames(sid, max, waits, c) == seq![c],
    ensures
        kwp_reply(sid, max, 0, seen + c, rr),
        kwp_frames(sid, max, 0, seen + c) == frames_seen.push(c),
        received_trace(frames_seen.push(c)) == received_trace(frames_seen).push((Direction::Received, c)),
{
    assert(kwp_reply(sid, max, 0, seen + c, rr) == kwp_reply(sid, max, waits, c, rr));
    assert(kwp_frames(sid, max, 0, seen + c) == frames_seen + kwp_frames(sid, max, waits, c));
    assert(frames_seen + seq![c] =~= frames_seen.push(c));
    assert(received_trace(frames_seen.push(c)) =~= received_trace(frames_seen).push((Direction::Received, c)));
}

impl<T: KLineTransport> KwpSession<T> {
    pub closed spec fn spec_transport(&self) -> T {
        self.transport
    }

    pub closed spec fn spec_codec(&self) -> FrameCodec {
        self.codec
    }

    pub closed spec fn spec_timing(&self) -> TimingParams {
        self.timing
    }

    pub closed spec fn spec_max_pending(&self) -> u32 {
        self.max_response_pending
    }

    /// A trace hook is installed.
    pub closed spec fn spec_has_trace_hook(&self) -> bool {
        self.trace is Some
    }

    /// Every frame handed to the trace hook, with its direction, oldest
    /// first.
    pub closed spec fn spec_traced(&self) -> Seq<(Direction, Seq<u8>)> {
        self.traced@
    }

    pub fn new(transport: T, codec: FrameCodec, timing: TimingParams) -> (s: Self)
        ensures
            s.spec_transport() == transport,
            s.spec_codec() == codec,
            s.spec_timing() == timing,
            s.spec_max_pending() == 10,
            !s.spec_has_trace_hook(),
            s.spec_traced().len() == 0,
    {
        KwpSession {
            transport,
            codec,
            timing,
            last_exchange: instant_now(),
            trace: None,
            traced: Ghost(Seq::empty()),
            max_response_pending: 10,
        }
    }

    /// Hand every frame sent or received from now on to `hook`.
    pub fn set_trace_hook(&mut self, hook: Box<dyn TraceHook>)
        ensures
            final(self).spec_has_trace_hook(),
            final(self).spec_traced() == old(self).spec_traced(),
            final(self).spec_transport() == old(self).spec_transport(),
            final(self).spec_codec() == old(self).spec_codec(),
            final(self).spec_timing() == old(self).spec_timing(),
            final(self).spec_max_pending() == old(self).spec_max_pending(),
    {
        self.trace = Some(hook);
    }

    pub fn transport_mut(&mut self) -> (t: &mut T)
        ensures
            *t == old(self).spec_transport(),
            final(self).spec_transport() == *final(t),
            final(self).spec_codec() == old(self).spec_codec(),
            final(self).spec_timing() == old(self).spec_timing(),
            final(self).spec_max_pending() == old(self).spec_max_pending(),
    {
        &mut self.transport
    }

    pub fn codec(&self) -> (c: &FrameCodec)
        ensures
            *c == self.spec_codec(),
    {
        &self.codec
    }

    pub fn timing(&self) -> (t: &TimingParams)
        ensures
            *t == self.spec_timing(),
    {
        &self.timing
    }

    /// Hand a frame to the trace hook, if one is installed.
    fn trace_frame(&mut self, dir: Direction, raw: &[u8])
        ensures
            final(self).spec_has_trace_hook() == old(self).spec_has_trace_hook(),
            final(self).spec_traced() == if old(self).spec_has_trace_hook() {
                old(self).spec_traced().push((dir, raw@))
            } else {
                old(self).spec_traced()
            },
            final(self).spec_transport() == old(self).spec_transport(),
            final(self).spec_codec() == old(self).spec_codec(),
            final(self).spec_timing() == old(self).spec_timing(),
            final(self).spec_max_pending() == old(self).spec_max_pending(),
    {
        match &mut self.trace {
            Some(hook) => {
                hook.on_frame(dir, raw);
                self.traced = Ghost(self.traced@.push((dir, raw@)));
            },
            None => {},
        }
    }

    /// Send a request payload (starting with the SID) and return the positive
    /// response payload (starting with SID + 0x40), waiting through at most
    /// `max_response_pending` ResponsePending answers.
    ///
    /// A non-empty request goes on the bus exactly once, encoded by the
    /// session's codec, before any response is read.
    pub fn request(&mut self, payload: &[u8]) -> (r: Result<Vec<u8>, KwpError>)
        requires
            payload@.len() <= 255,
        ensures
            final(self).spec_codec() == old(self).spec_codec(),
            final(self).spec_timing() == old(self).spec_timing(),
            final(self).spec_max_pending() == old(self).spec_max_pending(),
            final(self).spec_has_trace_hook() == old(self).spec_has_trace_hook(),
            payload@.len() == 0 ==> (r matches Err(KwpError::MalformedFrame(_)) && *final(self) == *old(self)),
            payload@.len() > 0 ==> request_done(*old(self), *final(self), payload@, r),
            payload@.len() > 0 ==> request_outcome(payload@[0], r),
            payload@.len() > 0 && (r is Ok || r matches Err(KwpError::NegativeResponse { .. })
                || r matches Err(KwpError::UnexpectedService { .. }))
                ==> final(self).spec_transport().sent() == old(self).spec_transport().sent()
                + spec_encode(old(self).spec_codec(), payload@),
            final(self).spec_transport().sent() == old(self).spec_transport().sent() || (payload@.len()
                > 0 && final(self).spec_transport().sent() == old(self).spec_transport().sent()
                + spec_encode(old(self).spec_codec(), payload@)),
    {
        if payload.len() == 0 {
            return Err(KwpError::MalformedFrame(String::from_str("empty request payload")));
        }
        let request_sid = payload[0];
        let ghost max = self.max_response_pending as nat;
        let ghost hook = self.trace is Some;

        // Honor P3 min: don't transmit too soon after the previous exchange.
        let since_last = elapsed_ms(&self.last_exchange);
        if since_last < self.timing.p3_min_ms {
            self.transport.pause(self.timing.p3_min_ms - since_last);
        }

        let frame = self.codec.encode(payload);
        self.trace_frame(Direction::Sent, frame.as_slice());
        let ghost traced_sent = self.traced@;
        match self.transport.send(frame.as_slice()) {
            Ok(()) => {},
            Err(e) => return Err(KwpError::Transport(e)),
        }
        let ghost sent_after = self.transport.sent();
        let ghost rx0 = self.transport.received();
        let ghost mut frames_seen: Seq<Seq<u8>> = Seq::empty();
        proof {
            assert forall|f: Seq<u8>, rr: Result<Vec<u8>, KwpError>|
                kwp_reply(request_sid, max, 0, appended(rx0, self.transport.received()) + f, rr)
                    == kwp_reply(request_sid, max, 0, f, rr) by {
                assert(appended(rx0, self.transport.received()) + f =~= f);
            }
            assert forall|f: Seq<u8>|
                kwp_frames(request_sid, max, 0, appended(rx0, self.transport.received()) + f)
                    == frames_seen + kwp_frames(request_sid, max, 0, f) by {
                assert(appended(rx0, self.transport.received()) + f =~= f);
                assert(frames_seen + kwp_frames(request_sid, max, 0, f) =~= kwp_frames(request_sid, max, 0, f));
            }
            assert(self.transport.received().subrange(0, rx0.len() as int) =~= rx0);
            assert(received_trace(frames_seen) =~= Seq::<(Direction, Seq<u8>)>::empty());
            assert(traced_sent + received_trace(frames_seen) =~= traced_sent);
        }

        let mut pending_waits: u32 = 0;
        loop
            invariant
                self.transport.sent() == sent_after,
                sent_after == old(self).transport.sent() + spec_encode(old(self).codec, payload@),
                self.transport.errors() == old(self).transport.errors(),
                rx0 == old(self).transport.received(),
                extends(rx0, self.transport.received()),
                self.codec == old(self).codec,
                self.timing == old(self).timing,
                self.max_response_pending == old(self).max_response_pending,
                max == self.max_response_pending as nat,
                hook == (self.trace is Some),
                hook == (old(self).trace is Some),
                pending_waits <= self.max_response_pending,
                payload@.len() > 0,
                request_sid == payload@[0],
                traced_sent == (if hook {
                    old(self).traced@.push((Direction::Sent, spec_encode(old(self).codec, payload@)))
                } else {
                    old(self).traced@
                }),
                self.traced@ == traced_sent + (if hook {
                    received_trace(frames_seen)
                } else {
                    Seq::empty()
                }),
                forall|f: Seq<u8>, rr: Result<Vec<u8>, KwpError>|
                    #[trigger] kwp_reply(request_sid, max, 0, appended(rx0, self.transport.received()) + f, rr)
                        == kwp_reply(request_sid, max, pending_waits as nat, f, rr),
                forall|f: Seq<u8>|
                    #[trigger] kwp_frames(request_sid, max, 0, appended(rx0, self.transport.received()) + f)
                        == frames_seen + kwp_frames(request_sid, max, pending_waits as nat, f),
            decreases self.max_response_pending - pending_waits,
        {
            let first_ms = self.timing.first_byte_deadline();
            let inter_ms = self.timing.inter_byte_deadline();
            let ghost seen = appended(rx0, self.transport.received());
            let ghost before = self.transport.received();
            let response = match read_frame(&mut self.transport, first_ms, inter_ms) {
                Ok(f) => f,
                Err(e) => {
                    proof {
                        let c = appended(before, self.transport.received());
                        lemma_appended_chain(rx0, before, self.transport.received());
                        assert(seen + c =~= appended(rx0, self.transport.received()));
                        assert(seen + c + Seq::<u8>::empty() =~= seen + c);
                        assert(c + Seq::<u8>::empty() =~= c);
                        let rr = Err::<Vec<u8>, KwpError>(e);
                        assert(kwp_reply(request_sid, max, 0, seen + c + Seq::<u8>::empty(), rr)
                            == kwp_reply(request_sid, max, pending_waits as nat, c + Seq::<u8>::empty(), rr));
                        assert(kwp_frames(request_sid, max, 0, seen + c + Seq::<u8>::empty())
                            == frames_seen + kwp_frames(request_sid, max, pending_waits as nat, c + Seq::<u8>::empty()));
                        assert(frames_seen + kwp_frames(request_sid, max, pending_waits as nat, c) =~= frames_seen);
                    }
                    return Err(e);
                },
            };
            let ghost c = appended(before, self.transport.received());
            proof {
                lemma_appended_chain(rx0, before, self.transport.received());
                assert(seen + c =~= appended(rx0, self.transport.received()));
                lemma_frame_step(c);
            }
            self.trace_frame(Direction::Received, response.raw.as_slice());
            self.last_exchange = instant_now();

            match classify_response(request_sid, response.payload.as_slice()) {
                ResponseClass::Pending => {
                    if pending_waits >= self.max_response_pending {
                        proof {
                            let rr = Err::<Vec<u8>, KwpError>(
                                KwpError::NegativeResponse {
                                    service: request_sid,
                                    code: NegativeResponseCode::ResponsePending,
                                },
                            );
                            assert(kwp_reply(request_sid, max, pending_waits as nat, c, rr));
                            assert(kwp_frames(request_sid, max, pending_waits as nat, c) =~= seq![c]);
                            lemma_finish(request_sid, max, pending_waits as nat, seen, c, frames_seen, rr);
                        }
                        return Err(
                            KwpError::NegativeResponse {
                                service: request_sid,
                                code: crate::services::NegativeResponseCode::ResponsePending,
                            },
                        );
                    }
                    proof {
                        assert forall|f: Seq<u8>, rr: Result<Vec<u8>, KwpError>|
                            #[trigger] kwp_reply(request_sid, max, 0, appended(rx0, self.transport.received()) + f, rr)
                                == kwp_reply(request_sid, max, (pending_waits + 1) as nat, f, rr) by {
                            lemma_frame_step_with(c, f);
                            assert(seen + c + f =~= seen + (c + f));
                            assert(kwp_reply(request_sid, max, 0, seen + (c + f), rr)
                                == kwp_reply(request_sid, max, pending_waits as nat, c + f, rr));
                        }
                        assert forall|f: Seq<u8>|
                            #[trigger] kwp_frames(request_sid, max, 0, appended(rx0, self.transport.received()) + f)
                                == frames_seen.push(c) + kwp_frames(request_sid, max, (pending_waits + 1) as nat, f) by {
                            lemma_frame_step_with(c, f);
                            assert(seen + c + f =~= seen + (c + f));
                            assert(kwp_frames(request_sid, max, 0, seen + (c + f))
                                == frames_seen + kwp_frames(request_sid, max, pending_waits as nat, c + f));
                            assert(frames_seen + (seq![c] + kwp_frames(request_sid, max, (pending_waits + 1) as nat, f))
                                =~= frames_seen.push(c) + kwp_frames(request_sid, max, (pending_waits + 1) as nat, f));
                        }
                        assert(received_trace(frames_seen.push(c)) =~= received_trace(frames_seen).push((Direction::Received, c)));
                        frames_seen = frames_seen.push(c);
                    }
                    pending_waits = pending_waits + 1;
                },
                ResponseClass::Negative(code) => {
                    proof {
                        let rr = Err::<Vec<u8>, KwpError>(KwpError::NegativeResponse { service: request_sid, code });
                        assert(kwp_reply(request_sid, max, pending_waits as nat, c, rr));
                        assert(kwp_frames(request_sid, max, pending_waits as nat, c) =~= seq![c]);
                        lemma_finish(request_sid, max, pending_waits as nat, seen, c, frames_seen, rr);
                    }
                    return Err(KwpError::NegativeResponse { service: request_sid, code });
                },
                ResponseClass::Positive => {
                    proof {
                        let rr = Ok::<Vec<u8>, KwpError>(response.payload);
                        assert(kwp_reply(request_sid, max, pending_waits as nat, c, rr));
                        assert(kwp_frames(request_sid, max, pending_waits as nat, c) =~= seq![c]);
                        lemma_finish(request_sid, max, pending_waits as nat, seen, c, frames_seen, rr);
                    }
                    return Ok(response.payload);
                },
                ResponseClass::Unexpected(got) => {
                    let err = KwpError::UnexpectedService { expected: positive_response(request_sid), got };
                    proof {
                        let rr = Err::<Vec<u8>, KwpError>(err);
                        assert(kwp_reply(request_sid, max, pending_waits as nat, c, rr));
                        assert(kwp_frames(request_sid, max, pending_waits as nat, c) =~= seq![c]);
                        lemma_finish(request_sid, max, pending_waits as nat, seen, c, frames_seen, rr);
                    }
                    return Err(err);
                },
                ResponseClass::Empty => {
                    let err = KwpError::MalformedFrame(String::from_str("empty response payload"));
                    proof {
                        let rr = Err::<Vec<u8>, KwpError>(err);
                        assert(kwp_reply(request_sid, max, pending_waits as nat, c, rr));
                        assert(kwp_frames(request_sid, max, pending_waits as nat, c) =~= seq![c]);
                        lemma_finish(request_sid, max, pending_waits as nat, seen, c, frames_seen, rr);
                    }
                    return Err(err);
                },
            }
        }
    }

    /// Send a TesterPresent request.
    pub fn tester_present(&mut self) -> (r: Result<(), KwpError>)
        ensures
            final(self).spec_codec() == old(self).spec_codec(),
            final(self).spec_timing() == old(self).spec_timing(),
            final(self).spec_max_pending() == old(self).spec_max_pending(),
            r is Ok ==> final(self).spec_transport().sent() == old(self).spec_transport().sent()
                + spec_encode(old(self).spec_codec(), seq![TESTER_PRESENT]),
            final(self).spec_transport().sent() == old(self).spec_transport().sent()
                || final(self).spec_transport().sent() == old(self).spec_transport().sent()
                + spec_encode(old(self).spec_codec(), seq![TESTER_PRESENT]),
            r matches Err(e) ==> request_outcome(TESTER_PRESENT, Err::<Vec<u8>, KwpError>(e)),
    {
        let req = [TESTER_PRESENT];
        assert(req@ =~= seq![TESTER_PRESENT]);
        match self.request(&req) {
            Ok(_) => Ok(()),
            Err(e) => Err(e),
        }
    }

    /// A keep-alive is due once the bus has been idle for the timing's
    /// keep-alive budget.
    pub fn keepalive_due_after(&self, idle_ms: u64) -> (r: bool)
        ensures
            r == (idle_ms >= self.spec_timing().p3_max_ms / 2),
    {
        idle_ms >= self.timing.keepalive_after()
    }

    /// True when the bus has been idle long enough that a keep-alive is due.
    ///
    /// With a zero keep-alive budget one is always due; otherwise it depends
    /// on the clock.
    pub fn keepalive_due(&self) -> (r: bool)
        ensures
            self.spec_timing().p3_max_ms / 2 == 0 ==> r,
    {
        let idle = elapsed_ms(&self.last_exchange);
        self.keepalive_due_after(idle)
    }
}

} // verus!
