//! ISO 15765-2 (ISO-TP) segmentation over CAN frames.
//!
//! Payloads of up to 7 bytes travel in one Single Frame. Longer payloads are
//! a First Frame (PCI 0x1L LL, 6 data bytes) followed by Consecutive Frames
//! (PCI 0x2N, 7 data bytes each, N counting 1..15, 0..), paced by the
//! receiver's Flow Control. Block size is honored; separation time is not.

use vstd::prelude::*;
use crate::can::{spec_can_frame, CanError, CanFrame, CanFrameView, CanTransport};
use crate::framing::{appended, extends};
use crate::text::{hex2, push_hex2};

verus! {

#[derive(Debug, Clone, PartialEq, Eq)]
pub enum IsoTpError {
    Can(CanError),
    /// ISO-TP protocol error, with a description.
    Protocol(String),
    /// Flow control reported overflow.
    Overflow,
}

/// A receive gives up with a protocol error after this many frames.
pub const FRAME_BUDGET: u64 = 0xFFFF_FFFF_FFFF_FFFF;

/// A frame on `id` whose data is the PCI byte followed by `body`.
pub open spec fn pci_frame(id: u32, pci: u8, body: Seq<u8>) -> CanFrameView {
    spec_can_frame(id, seq![pci] + body)
}

/// The Consecutive Frames carrying `data` from offset `sent` on, the first
/// one numbered `seq`.
pub open spec fn spec_cf_frames(id: u32, data: Seq<u8>, sent: nat, seq: nat) -> Seq<CanFrameView>
    decreases data.len() - sent,
{
    if sent >= data.len() {
        Seq::empty()
    } else {
        let end: nat = if data.len() - sent < 7 { data.len() } else { sent + 7 };
        seq![pci_frame(id, (0x20 + seq % 16) as u8, data.subrange(sent as int, end as int))]
            + spec_cf_frames(id, data, end, (seq + 1) % 16)
    }
}

/// Every frame a message is sent as, in order.
pub open spec fn spec_segments(id: u32, data: Seq<u8>) -> Seq<CanFrameView> {
    if data.len() <= 7 {
        seq![pci_frame(id, data.len() as u8, data)]
    } else {
        seq![pci_frame(id, (0x10 + data.len() / 256) as u8, seq![(data.len() % 256) as u8] + data.subrange(0, 6))]
            + spec_cf_frames(id, data, 6, 1)
    }
}

/// The Flow Control frame a receiver sends: Continue-To-Send, no block limit.
pub open spec fn spec_flow_control(id: u32) -> CanFrameView {
    spec_can_frame(id, seq![0x30u8, 0x00u8, 0x00u8])
}

/// Where a receiver stands after some frames.
pub enum RxState {
    Start,
    Collecting { total: nat, data: Seq<u8>, expected: nat },
    Done(Seq<u8>),
    Failed,
}

pub open spec fn rx_start(f: CanFrameView) -> RxState {
    if f.data.len() == 0 {
        RxState::Failed
    } else {
        let pci = f.data[0];
        if pci / 16 == 0 {
            let len = (pci % 16) as int;
            if 1 + len <= f.data.len() {
                RxState::Done(f.data.subrange(1, 1 + len))
            } else {
                RxState::Failed
            }
        } else if pci / 16 == 1 {
            if f.data.len() < 2 {
                RxState::Failed
            } else {
                let total = (pci % 16) as nat * 256 + f.data[1] as nat;
                let data = f.data.subrange(2, f.data.len() as int);
                if data.len() >= total {
                    RxState::Done(data.take(total as int))
                } else {
                    RxState::Collecting { total, data, expected: 1 }
                }
            }
        } else {
            RxState::Failed
        }
    }
}

pub open spec fn rx_continue(total: nat, data: Seq<u8>, expected: nat, f: CanFrameView) -> RxState {
    if f.data.len() == 0 {
        RxState::Failed
    } else {
        let pci = f.data[0];
        if pci / 16 != 2 || pci % 16 != expected {
            RxState::Failed
        } else {
            let remaining: int = total - data.len();
            let avail: int = f.data.len() - 1;
            let take: int = if remaining < avail { remaining } else { avail };
            let d2 = data + f.data.subrange(1, 1 + take);
            if d2.len() >= total {
                RxState::Done(d2.take(total as int))
            } else {
                RxState::Collecting { total, data: d2, expected: (expected + 1) % 16 }
            }
        }
    }
}

pub open spec fn rx_step(st: RxState, f: CanFrameView) -> RxState {
    match st {
        RxState::Start => rx_start(f),
        RxState::Collecting { total, data, expected } => rx_continue(total, data, expected, f),
        other => other,
    }
}

/// The receiver's state after `frames`, ignoring frames not on `rx_id`.
pub open spec fn rx_run(frames: Seq<CanFrameView>, rx_id: u32) -> RxState
    decreases frames.len(),
{
    if frames.len() == 0 {
        RxState::Start
    } else {
        let prev = rx_run(frames.drop_last(), rx_id);
        if frames.last().id != rx_id {
            prev
        } else {
            rx_step(prev, frames.last())
        }
    }
}

pub open spec fn is_prefix_of<A>(a: Seq<A>, b: Seq<A>) -> bool {
    a.len() <= b.len() && b.subrange(0, a.len() as int) == a
}

fn frame_with_pci(id: u32, pci: u8, data: &[u8], start: usize, end: usize) -> (f: CanFrame)
    requires
        start <= end <= data@.len(),
        end - start <= 7,
    ensures
        f@ == pci_frame(id, pci, data@.subrange(start as int, end as int)),
{
    let mut payload: Vec<u8> = Vec::new();
    payload.push(pci);
    let mut i = start;
    while i < end
        invariant
            start <= i <= end,
            end <= data@.len(),
            payload@ =~= seq![pci] + data@.subrange(start as int, i as int),
        decreases end - i,
    {
        payload.push(data[i]);
        i = i + 1;
    }
    CanFrame::new(id, payload)
}

fn send_frame<T: CanTransport>(transport: &mut T, frame: &CanFrame) -> (r: Result<(), IsoTpError>)
    ensures
        r is Ok ==> final(transport).sent_frames() == old(transport).sent_frames().push(frame@),
        r matches Err(e) ==> e is Can && final(transport).sent_frames() == old(
            transport,
        ).sent_frames(),
        final(transport).received_frames() == old(transport).received_frames(),
        r is Ok ==> final(transport).errors() == old(transport).errors(),
        r matches Err(IsoTpError::Can(e)) ==> final(transport).errors() == old(transport).errors().push(e),
{
    match transport.send(frame) {
        Ok(()) => Ok(()),
        Err(e) => Err(IsoTpError::Can(e)),
    }
}

fn protocol_error(text: &str) -> (e: IsoTpError)
    ensures
        e matches IsoTpError::Protocol(m) && m@ == text@,
{
    IsoTpError::Protocol(String::from_str(text))
}

fn protocol_error_with_pci(text: &str, pci: u8) -> (e: IsoTpError)
    ensures
        e matches IsoTpError::Protocol(m) && m@ == text@ + hex2(pci),
{
    let mut s = String::from_str(text);
    push_hex2(&mut s, pci);
    IsoTpError::Protocol(s)
}

/// What a frame on the peer's id says as a Flow Control answer.
pub enum FcAnswer {
    /// Continue-To-Send, with the block size and separation time.
    Continue(u8, u8),
    Wait,
    Overflow,
    /// Not a Flow Control frame, or an unknown flow status.
    Broken,
}

pub open spec fn fc_answer(f: CanFrameView) -> FcAnswer {
    if f.data.len() == 0 || f.data[0] / 16 != 3 {
        FcAnswer::Broken
    } else if f.data[0] % 16 == 0 {
        FcAnswer::Continue(
            if f.data.len() > 1 { f.data[1] } else { 0u8 },
            if f.data.len() > 2 { f.data[2] } else { 0u8 },
        )
    } else if f.data[0] % 16 == 1 {
        FcAnswer::Wait
    } else if f.data[0] % 16 == 2 {
        FcAnswer::Overflow
    } else {
        FcAnswer::Broken
    }
}

/// A frame that leaves the sender waiting: another node's, or a Wait.
pub open spec fn fc_undecided(f: CanFrameView, rx_id: u32) -> bool {
    f.id != rx_id || fc_answer(f) is Wait
}

/// The block sizes of the Continue-To-Send answers among `frames`, in order.
pub open spec fn fc_blocks(frames: Seq<CanFrameView>, rx_id: u32) -> Seq<u8>
    decreases frames.len(),
{
    if frames.len() == 0 {
        Seq::empty()
    } else {
        fc_blocks(frames.drop_last(), rx_id) + if frames.last().id == rx_id && fc_answer(
            frames.last(),
        ) is Continue {
            seq![fc_answer(frames.last())->Continue_0]
        } else {
            Seq::empty()
        }
    }
}

proof fn lemma_fc_blocks_concat(a: Seq<CanFrameView>, b: Seq<CanFrameView>, rx_id: u32)
    ensures
        fc_blocks(a + b, rx_id) == fc_blocks(a, rx_id) + fc_blocks(b, rx_id),
    decreases b.len(),
{
    if b.len() == 0 {
        assert(a + b =~= a);
        assert(fc_blocks(a, rx_id) + fc_blocks(b, rx_id) =~= fc_blocks(a, rx_id));
    } else {
        lemma_fc_blocks_concat(a, b.drop_last(), rx_id);
        assert((a + b).drop_last() =~= a + b.drop_last());
        assert(fc_blocks(a + b, rx_id) =~= fc_blocks(a, rx_id) + fc_blocks(b, rx_id));
    }
}

/// Wait for and check one Flow Control frame; returns `(block_size, stmin)`.
/// Looks at no more than 8 frames (other nodes' frames and Wait answers
/// included): the first deciding frame answers, and eight undecided ones
/// are a protocol error.
fn read_flow_control<T: CanTransport>(transport: &mut T, rx_id: u32, timeout_ms: u64) -> (r: Result<
    (u8, u8),
    IsoTpError,
>)
    ensures
        final(transport).sent_frames() == old(transport).sent_frames(),
        extends(old(transport).received_frames(), final(transport).received_frames()),
        ({
            let got = appended(old(transport).received_frames(), final(transport).received_frames());
            &&& got.len() <= 8
            &&& forall|k: int| 0 <= k < got.len() - 1 ==> fc_undecided(#[trigger] got[k], rx_id)
            &&& r matches Ok((bs, st)) ==> got.len() >= 1 && got.last().id == rx_id && fc_answer(
                got.last(),
            ) == FcAnswer::Continue(bs, st) && fc_blocks(got, rx_id) == seq![bs]
            &&& !(r is Ok) ==> fc_blocks(got, rx_id) == Seq::<u8>::empty()
            &&& r matches Err(IsoTpError::Overflow) ==> got.len() >= 1 && got.last().id == rx_id
                && fc_answer(got.last()) is Overflow
            &&& r matches Err(IsoTpError::Protocol(_)) ==> got.len() >= 1 && (got.last().id == rx_id
                && fc_answer(got.last()) is Broken || got.len() == 8 && fc_undecided(got.last(), rx_id))
            &&& r matches Err(IsoTpError::Can(e)) ==> got.len() < 8 && (got.len() > 0 ==> fc_undecided(
                got.last(),
                rx_id,
            )) && final(transport).errors() == old(transport).errors().push(e)
            &&& !(r matches Err(IsoTpError::Can(_))) ==> final(transport).errors() == old(transport).errors()
        }),
{
    let ghost base = transport.received_frames();
    assert(transport.received_frames().subrange(0, base.len() as int) =~= base);
    assert(appended(base, transport.received_frames()) =~= Seq::<CanFrameView>::empty());
    let mut i: u32 = 0;
    while i < 8
        invariant
            i <= 8,
            transport.sent_frames() == old(transport).sent_frames(),
            transport.errors() == old(transport).errors(),
            extends(base, transport.received_frames()),
            base == old(transport).received_frames(),
            appended(base, transport.received_frames()).len() == i,
            forall|k: int|
                0 <= k < i ==> fc_undecided(#[trigger] appended(base, transport.received_frames())[k], rx_id),
            fc_blocks(appended(base, transport.received_frames()), rx_id) == Seq::<u8>::empty(),
        decreases 8 - i,
    {
        let ghost got0 = appended(base, transport.received_frames());
        let frame = match transport.recv(timeout_ms) {
            Ok(f) => f,
            Err(e) => return Err(IsoTpError::Can(e)),
        };
        let ghost got = appended(base, transport.received_frames());
        proof {
            assert(transport.received_frames().subrange(0, base.len() as int) =~= base);
            assert(got =~= got0.push(frame@));
            assert(got.drop_last() =~= got0);
            assert forall|k: int| 0 <= k < i implies fc_undecided(#[trigger] got[k], rx_id) by {
                assert(got[k] == got0[k]);
            }
        }
        i = i + 1;
        if frame.id == rx_id {
            if frame.data.len() == 0 {
                return Err(protocol_error("empty flow control frame"));
            }
            let pci = frame.data[0];
            proof {
                lemma_pci_bits(pci);
            }
            if pci & 0xF0 != 0x30 {
                return Err(protocol_error_with_pci("expected flow control (0x3_), got PCI 0x", pci));
            }
            let status = pci & 0x0F;
            if status == 0 {
                let block_size = if frame.data.len() > 1 { frame.data[1] } else { 0 };
                let stmin = if frame.data.len() > 2 { frame.data[2] } else { 0 };
                proof {
                    assert(Seq::<u8>::empty() + seq![block_size] =~= seq![block_size]);
                }
                return Ok((block_size, stmin));
            } else if status == 2 {
                return Err(IsoTpError::Overflow);
            } else if status != 1 {
                return Err(protocol_error("unknown flow status"));
            }
        }
        proof {
            assert(fc_blocks(got, rx_id) =~= Seq::<u8>::empty());
        }
    }
    Err(protocol_error("peer kept sending Wait; giving up"))
}

proof fn lemma_cf_unfold(id: u32, data: Seq<u8>, sent: nat, seq: nat)
    requires
        sent < data.len(),
    ensures
        ({
            let end: nat = if data.len() - sent < 7 { data.len() } else { sent + 7 };
            spec_cf_frames(id, data, sent, seq) == seq![
                pci_frame(id, (0x20 + seq % 16) as u8, data.subrange(sent as int, end as int)),
            ] + spec_cf_frames(id, data, end, (seq + 1) % 16)
        }),
{
}

/// The sum of block sizes.
pub open spec fn bsum(bss: Seq<u8>) -> nat
    decreases bss.len(),
{
    if bss.len() == 0 {
        0
    } else {
        bsum(bss.drop_last()) + bss.last() as nat
    }
}

/// `n` Consecutive Frames went out in blocks granted by Flow Control
/// answers with block sizes `bss`: every answer but the last granted a
/// limited block that was sent in full, and the last one's block (no limit
/// when its size is 0) carried the rest.
pub open spec fn blocks_cover(bss: Seq<u8>, n: nat) -> bool {
    &&& bss.len() >= 1
    &&& forall|i: int| 0 <= i < bss.len() - 1 ==> #[trigger] bss[i] > 0
    &&& bsum(bss.drop_last()) < n
    &&& bss.last() == 0 || bsum(bss) >= n
}

proof fn lemma_received_chain(a: Seq<CanFrameView>, b: Seq<CanFrameView>, c: Seq<CanFrameView>)
    requires
        extends(a, b),
        extends(b, c),
    ensures
        extends(a, c),
        appended(a, c) == appended(a, b) + appended(b, c),
{
    assert(c.subrange(0, a.len() as int) =~= b.subrange(0, a.len() as int));
    assert(appended(a, c) =~= appended(a, b) + appended(b, c));
}

/// A protocol error seen at the end of what was read: frames read earlier
/// stay in front of it, and the last frame, or the last eight undecided
/// frames, are still at the end.
proof fn lemma_protocol_tail(head: Seq<CanFrameView>, chunk: Seq<CanFrameView>, rx_id: u32)
    requires
        forall|k: int| 0 <= k < chunk.len() - 1 ==> fc_undecided(#[trigger] chunk[k], rx_id),
        chunk.len() >= 1,
        chunk.last().id == rx_id && fc_answer(chunk.last()) is Broken || chunk.len() == 8 && fc_undecided(
            chunk.last(),
            rx_id,
        ),
    ensures
        ({
            let got = head + chunk;
            &&& got.len() >= 1
            &&& got.last().id == rx_id && fc_answer(got.last()) is Broken || got.len() >= 8 && forall|k: int|
                got.len() - 8 <= k < got.len() ==> fc_undecided(#[trigger] got[k], rx_id)
        }),
{
    let got = head + chunk;
    assert(got.last() == chunk.last());
    if !(got.last().id == rx_id && fc_answer(got.last()) is Broken) {
        assert forall|k: int| got.len() - 8 <= k < got.len() implies fc_undecided(#[trigger] got[k], rx_id) by {
            assert(got[k] == chunk[k - head.len()]);
            if k - head.len() < chunk.len() - 1 {
                assert(fc_undecided(chunk[k - head.len()], rx_id));
            }
        }
    }
}

/// Send `data` as one ISO-TP message: a Single Frame if it fits, otherwise a
/// First Frame and Consecutive Frames governed by the peer's Flow Control.
/// Whatever happens, the frames put on the bus are a prefix of the message's
/// segments; on success they are all of them.
#[verifier::spinoff_prover]
pub fn send<T: CanTransport>(transport: &mut T, tx_id: u32, rx_id: u32, data: &[u8], timeout_ms: u64) -> (r:
    Result<(), IsoTpError>)
    requires
        data@.len() <= 0x0FFF,
    ensures
        extends(old(transport).sent_frames(), final(transport).sent_frames()),
        is_prefix_of(
            appended(old(transport).sent_frames(), final(transport).sent_frames()),
            spec_segments(tx_id, data@),
        ),
        r is Ok ==> final(transport).sent_frames() == old(transport).sent_frames()
            + spec_segments(tx_id, data@),
        extends(old(transport).received_frames(), final(transport).received_frames()),
        ({
            let got = appended(old(transport).received_frames(), final(transport).received_frames());
            &&& data@.len() <= 7 ==> got.len() == 0
            &&& r matches Err(IsoTpError::Overflow) ==> got.len() >= 1 && got.last().id == rx_id
                && fc_answer(got.last()) is Overflow
            &&& r matches Err(IsoTpError::Protocol(_)) ==> got.len() >= 1 && (got.last().id == rx_id
                && fc_answer(got.last()) is Broken || got.len() >= 8 && forall|k: int|
                got.len() - 8 <= k < got.len() ==> fc_undecided(#[trigger] got[k], rx_id))
            &&& (r matches Err(IsoTpError::Overflow) || r matches Err(IsoTpError::Protocol(_)))
                ==> appended(old(transport).sent_frames(), final(transport).sent_frames())
                == spec_segments(tx_id, data@).take(1 + bsum(fc_blocks(got, rx_id)) as int)
            &&& r is Ok && data@.len() > 7 ==> blocks_cover(
                fc_blocks(got, rx_id),
                spec_cf_frames(tx_id, data@, 6, 1).len(),
            )
            &&& r matches Err(IsoTpError::Can(e)) ==> final(transport).errors() == old(transport).errors().push(e)
            &&& !(r matches Err(IsoTpError::Can(_))) ==> final(transport).errors() == old(transport).errors()
        }),
{
    let ghost base = transport.sent_frames();
    let ghost rbase = transport.received_frames();
    proof {
        assert(transport.received_frames().subrange(0, rbase.len() as int) =~= rbase);
        assert(appended(rbase, transport.received_frames()) =~= Seq::<CanFrameView>::empty());
    }
    let ghost segs = spec_segments(tx_id, data@);
    let len = data.len();
    if len <= 7 {
        let frame = frame_with_pci(tx_id, len as u8, data, 0, len);
        assert(data@.subrange(0, len as int) =~= data@);
        let r = send_frame(transport, &frame);
        proof {
            assert(transport.sent_frames().subrange(0, base.len() as int) =~= base);
            if r is Ok {
                assert(appended(base, transport.sent_frames()) =~= segs);
                assert(segs.subrange(0, 1) =~= segs);
            } else {
                assert(appended(base, transport.sent_frames()) =~= Seq::<CanFrameView>::empty());
                assert(segs.subrange(0, 0) =~= Seq::<CanFrameView>::empty());
            }
        }
        return r;
    }
    let pci: u8 = 0x10 + (len / 256) as u8;
    let mut first: Vec<u8> = Vec::new();
    first.push(pci);
    first.push((len % 256) as u8);
    let mut k: usize = 0;
    while k < 6
        invariant
            k <= 6,
            6 < data@.len(),
            first@ =~= seq![pci, (len % 256) as u8] + data@.subrange(0, k as int),
        decreases 6 - k,
    {
        first.push(data[k]);
        k = k + 1;
    }
    assert(len / 256 < 16);
    assert(pci == (0x10 + len / 256) as u8);
    assert(first@ =~= seq![pci] + (seq![(len % 256) as u8] + data@.subrange(0, 6)));
    let ff = CanFrame::new(tx_id, first);
    let ghost ffv = ff@;
    assert(ffv == pci_frame(tx_id, (0x10 + len / 256) as u8, seq![(len % 256) as u8] + data@.subrange(0, 6)));
    assert(segs == seq![ffv] + spec_cf_frames(tx_id, data@, 6, 1));
    match send_frame(transport, &ff) {
        Ok(()) => {},
        Err(e) => {
            proof {
                assert(transport.sent_frames().subrange(0, base.len() as int) =~= base);
                assert(appended(base, transport.sent_frames()) =~= Seq::<CanFrameView>::empty());
                assert(segs.subrange(0, 0) =~= Seq::<CanFrameView>::empty());
            }
            return Err(e);
        },
    }
    let mut sent: usize = 6;
    let mut seq: u8 = 1;
    let ghost mut done: Seq<CanFrameView> = Seq::empty();
    let ghost n_cf = spec_cf_frames(tx_id, data@, 6, 1).len();
    proof {
        lemma_cf_unfold(tx_id, data@, 6, 1);
        assert(fc_blocks(Seq::<CanFrameView>::empty(), rx_id) =~= Seq::<u8>::empty());
    }
    loop
        invariant
            rbase == old(transport).received_frames(),
            extends(rbase, transport.received_frames()),
            transport.errors() == old(transport).errors(),
            n_cf == spec_cf_frames(tx_id, data@, 6, 1).len(),
            done.len() < n_cf,
            forall|i: int|
                0 <= i < fc_blocks(appended(rbase, transport.received_frames()), rx_id).len() ==> #[trigger] fc_blocks(
                    appended(rbase, transport.received_frames()),
                    rx_id,
                )[i] > 0,
            bsum(fc_blocks(appended(rbase, transport.received_frames()), rx_id)) == done.len(),
            6 <= sent < len,
            len == data@.len(),
            len <= 0x0FFF,
            seq < 16,
            segs == spec_segments(tx_id, data@),
            segs == seq![ffv] + spec_cf_frames(tx_id, data@, 6, 1),
            spec_cf_frames(tx_id, data@, 6, 1) == done + spec_cf_frames(
                tx_id,
                data@,
                sent as nat,
                seq as nat,
            ),
            transport.sent_frames() == base + seq![ffv] + done,
            base == old(transport).sent_frames(),
        decreases len - sent,
    {
        let ghost at_start = sent;
        let ghost rec0 = transport.received_frames();
        let ghost bss0 = fc_blocks(appended(rbase, rec0), rx_id);
        let ghost done0 = done;
        let (block_size, _stmin) = match read_flow_control(transport, rx_id, timeout_ms) {
            Ok(v) => v,
            Err(e) => {
                proof {
                    assert(transport.sent_frames().subrange(0, base.len() as int) =~= base);
                    assert(appended(base, transport.sent_frames()) =~= seq![ffv] + done);
                    assert(segs.subrange(0, 1 + done.len() as int) =~= seq![ffv] + done);
                    lemma_received_chain(rbase, rec0, transport.received_frames());
                    lemma_fc_blocks_concat(appended(rbase, rec0), appended(rec0, transport.received_frames()), rx_id);
                    assert(fc_blocks(appended(rbase, transport.received_frames()), rx_id) =~= bss0);
                    let head = appended(rbase, rec0);
                    let chunk = appended(rec0, transport.received_frames());
                    let got = appended(rbase, transport.received_frames());
                    assert forall|k: int| head.len() <= k < got.len() implies got[k] == chunk[k - head.len()] by {}
                    assert(chunk.len() > 0 ==> got.last() == chunk.last());
                    assert(segs.take(1 + done.len() as int) =~= seq![ffv] + done);
                    if e is Protocol {
                        lemma_protocol_tail(head, chunk, rx_id);
                    }
                }
                return Err(e);
            },
        };
        proof {
            lemma_received_chain(rbase, rec0, transport.received_frames());
            lemma_fc_blocks_concat(appended(rbase, rec0), appended(rec0, transport.received_frames()), rx_id);
            assert(fc_blocks(appended(rbase, transport.received_frames()), rx_id) =~= bss0.push(block_size));
            assert(bss0.push(block_size).drop_last() =~= bss0);
        }
        let ghost rec1 = transport.received_frames();
        let frames_this_block: u32 = if block_size == 0 {
            0xFFFF_FFFF
        } else {
            block_size as u32
        };
        let mut sent_this_block: u32 = 0;
        while sent < len && sent_this_block < frames_this_block
            invariant
                6 <= at_start <= sent <= len,
                at_start < len,
                len == data@.len(),
                seq < 16,
                frames_this_block >= 1,
                sent_this_block > 0 ==> sent > at_start,
                base == old(transport).sent_frames(),
                segs == spec_segments(tx_id, data@),
                segs == seq![ffv] + spec_cf_frames(tx_id, data@, 6, 1),
                spec_cf_frames(tx_id, data@, 6, 1) == done + spec_cf_frames(
                    tx_id,
                    data@,
                    sent as nat,
                    seq as nat,
                ),
                transport.sent_frames() == base + seq![ffv] + done,
                transport.received_frames() == rec1,
                extends(rbase, rec1),
                rbase == old(transport).received_frames(),
                transport.errors() == old(transport).errors(),
                done.len() == done0.len() + sent_this_block,
                sent_this_block <= sent - at_start,
                sent_this_block <= frames_this_block,
                frames_this_block == (if block_size == 0 { 0xFFFF_FFFFu32 } else { block_size as u32 }),
                n_cf == spec_cf_frames(tx_id, data@, 6, 1).len(),
            decreases len - sent,
        {
            let chunk_len = if len - sent < 7 {
                len - sent
            } else {
                7
            };
            let cf = frame_with_pci(tx_id, 0x20 + seq, data, sent, sent + chunk_len);
            proof {
                lemma_cf_unfold(tx_id, data@, sent as nat, seq as nat);
            }
            match send_frame(transport, &cf) {
                Ok(()) => {},
                Err(e) => {
                    proof {
                        assert(transport.sent_frames().subrange(0, base.len() as int) =~= base);
                        assert(appended(base, transport.sent_frames()) =~= seq![ffv] + done);
                        assert(segs.subrange(0, 1 + done.len() as int) =~= seq![ffv] + done);
                        assert(e is Can);
                        assert(extends(old(transport).received_frames(), transport.received_frames()));
                        assert(is_prefix_of(appended(base, transport.sent_frames()), segs));
                        assert(transport.errors() == old(transport).errors().push(e->Can_0));
                    }
                    return Err(e);
                },
            }
            proof {
                let ghost rest = spec_cf_frames(tx_id, data@, (sent + chunk_len) as nat, ((seq + 1) % 16) as nat);
                assert(done + (seq![cf@] + rest) =~= done.push(cf@) + rest);
                done = done.push(cf@);
                assert(transport.sent_frames() =~= base + seq![ffv] + done);
            }
            sent = sent + chunk_len;
            seq = (seq + 1) % 16;
            sent_this_block = sent_this_block + 1;
        }
        proof {
            if sent < len {
                lemma_cf_unfold(tx_id, data@, sent as nat, seq as nat);
                assert(done.len() < n_cf);
                assert(sent_this_block == block_size);
            }
        }
        if sent >= len {
            proof {
                assert(spec_cf_frames(tx_id, data@, sent as nat, seq as nat) =~= Seq::<CanFrameView>::empty());
                assert(done =~= spec_cf_frames(tx_id, data@, 6, 1));
                let bss = bss0.push(block_size);
                assert(bss.last() == block_size);
                assert(forall|i: int| 0 <= i < bss.len() - 1 ==> #[trigger] bss[i] == bss0[i]);
                assert(blocks_cover(bss, n_cf));
                assert(transport.sent_frames() =~= base + segs);
                assert(transport.sent_frames().subrange(0, base.len() as int) =~= base);
                assert(appended(base, transport.sent_frames()) =~= segs);
                assert(segs.subrange(0, segs.len() as int) =~= segs);
            }
            return Ok(());
        }
    }
}


/// Frame `k` of `got` is a First Frame on `rx_id` that starts a message.
pub open spec fn first_frame_at(got: Seq<CanFrameView>, rx_id: u32, k: int) -> bool {
    &&& 0 <= k < got.len()
    &&& got[k].id == rx_id
    &&& got[k].data.len() >= 2
    &&& got[k].data[0] / 16 == 1
    &&& rx_run(got.take(k), rx_id) == RxState::Start
}

/// The receiver has neither finished nor failed.
pub open spec fn rx_open(st: RxState) -> bool {
    st is Start || st is Collecting
}

proof fn lemma_rx_run_push(frames: Seq<CanFrameView>, f: CanFrameView, rx_id: u32)
    ensures
        rx_run(frames.push(f), rx_id) == (if f.id != rx_id {
            rx_run(frames, rx_id)
        } else {
            rx_step(rx_run(frames, rx_id), f)
        }),
{
    assert(frames.push(f).drop_last() =~= frames);
}

proof fn lemma_pci_bits(pci: u8)
    ensures
        pci & 0xF0 == (pci / 16) * 16,
        pci & 0x0F == pci % 16,
{
    assert(pci & 0xF0 == (pci / 16) * 16) by (bit_vector);
    assert(pci & 0x0F == pci % 16) by (bit_vector);
}

fn copy_from(src: &Vec<u8>, start: usize, end: usize, out: &mut Vec<u8>)
    requires
        start <= end <= src@.len(),
    ensures
        final(out)@ == old(out)@ + src@.subrange(start as int, end as int),
{
    let mut i = start;
    while i < end
        invariant
            start <= i <= end,
            end <= src@.len(),
            out@ =~= old(out)@ + src@.subrange(start as int, i as int),
        decreases end - i,
    {
        out.push(src[i]);
        i = i + 1;
    }
}

/// Receive one ISO-TP message on `rx_id`, answering a First Frame with Flow
/// Control (Continue-To-Send, no block limit) on `tx_id`.
///
/// The frames read are judged by `rx_run`: the call stops at the first frame
/// that completes or breaks the message, returns the message when complete,
/// and a protocol error when broken. A transport error ends an unfinished
/// message, or is the failure to send the Flow Control a First Frame asks
/// for; the only frame sent is that Flow Control.
pub fn receive<T: CanTransport>(transport: &mut T, tx_id: u32, rx_id: u32, timeout_ms: u64) -> (r:
    Result<Vec<u8>, IsoTpError>)
    ensures
        extends(old(transport).received_frames(), final(transport).received_frames()),
        ({
            let got = appended(old(transport).received_frames(), final(transport).received_frames());
            &&& forall|k: int| 0 <= k < got.len() ==> #[trigger] rx_open(rx_run(got.take(k), rx_id))
            &&& r matches Ok(d) ==> rx_run(got, rx_id) == RxState::Done(d@)
            &&& r matches Err(IsoTpError::Protocol(_)) ==> rx_run(got, rx_id) is Failed || got.len()
                >= FRAME_BUDGET && rx_open(rx_run(got, rx_id))
            &&& r matches Err(IsoTpError::Can(e)) ==> (rx_open(rx_run(got, rx_id)) || rx_run(got, rx_id) is Done
                && first_frame_at(got, rx_id, got.len() - 1)) && final(transport).errors() == old(
                transport,
            ).errors().push(e)
            &&& !(r matches Err(IsoTpError::Can(_))) ==> final(transport).errors() == old(transport).errors()
            &&& !(r matches Err(IsoTpError::Overflow))
            &&& appended(old(transport).sent_frames(), final(transport).sent_frames()).len() > 0
                ==> exists|k: int| #[trigger] first_frame_at(got, rx_id, k)
            &&& (exists|k: int| #[trigger] first_frame_at(got, rx_id, k)) && !(r matches Err(
                IsoTpError::Can(_),
            )) ==> appended(old(transport).sent_frames(), final(transport).sent_frames())
                == seq![spec_flow_control(tx_id)]
        }),
        extends(old(transport).sent_frames(), final(transport).sent_frames()),
        appended(old(transport).sent_frames(), final(transport).sent_frames()) == Seq::<
            CanFrameView,
        >::empty() || appended(old(transport).sent_frames(), final(transport).sent_frames())
            == seq![spec_flow_control(tx_id)],
{
    let ghost rbase = transport.received_frames();
    let ghost sbase = transport.sent_frames();
    let mut started = false;
    let mut total: usize = 0;
    let mut data: Vec<u8> = Vec::new();
    let mut expected: u8 = 0;
    let mut count: u64 = 0;
    let ghost mut ff_at: int = 0;
    proof {
        assert(transport.received_frames().subrange(0, rbase.len() as int) =~= rbase);
        assert(appended(rbase, transport.received_frames()) =~= Seq::<CanFrameView>::empty());
        assert(transport.sent_frames().subrange(0, sbase.len() as int) =~= sbase);
        assert(appended(sbase, transport.sent_frames()) =~= Seq::<CanFrameView>::empty());
    }
    loop
        invariant
            rbase == old(transport).received_frames(),
            sbase == old(transport).sent_frames(),
            extends(rbase, transport.received_frames()),
            extends(sbase, transport.sent_frames()),
            count == appended(rbase, transport.received_frames()).len(),
            forall|k: int|
                0 <= k <= appended(rbase, transport.received_frames()).len() ==> #[trigger] rx_open(
                    rx_run(appended(rbase, transport.received_frames()).take(k), rx_id),
                ),
            !started ==> rx_run(appended(rbase, transport.received_frames()), rx_id)
                == RxState::Start,
            !started ==> appended(sbase, transport.sent_frames()) == Seq::<CanFrameView>::empty(),
            started ==> rx_run(appended(rbase, transport.received_frames()), rx_id)
                == (RxState::Collecting {
                total: total as nat,
                data: data@,
                expected: expected as nat,
            }),
            started ==> appended(sbase, transport.sent_frames()) == seq![spec_flow_control(tx_id)],
            started ==> data@.len() < total && expected < 16,
            transport.errors() == old(transport).errors(),
            appended(sbase, transport.sent_frames()).len() > 0 ==> first_frame_at(
                appended(rbase, transport.received_frames()),
                rx_id,
                ff_at,
            ),
            !started ==> forall|k: int| !#[trigger] first_frame_at(appended(rbase, transport.received_frames()), rx_id, k),
        decreases FRAME_BUDGET - count,
    {
        let ghost got0 = appended(rbase, transport.received_frames());
        assert(rx_open(rx_run(got0.take(got0.len() as int), rx_id)));
        assert(got0.take(got0.len() as int) =~= got0);
        if count == FRAME_BUDGET {
            return Err(protocol_error("too many frames"));
        }
        let frame = match transport.recv(timeout_ms) {
            Ok(f) => f,
            Err(e) => return Err(IsoTpError::Can(e)),
        };
        count = count + 1;
        let ghost got = appended(rbase, transport.received_frames());
        proof {
            assert(transport.received_frames().subrange(0, rbase.len() as int) =~= rbase);
            assert(got =~= got0.push(frame@));
            lemma_rx_run_push(got0, frame@, rx_id);
            assert forall|k: int| 0 <= k <= got0.len() implies #[trigger] got.take(k) == got0.take(k) by {
                assert(got.take(k) =~= got0.take(k));
            }
            assert forall|k: int| 0 <= k < got.len() implies #[trigger] rx_open(rx_run(got.take(k), rx_id)) by {
                assert(got.take(k) == got0.take(k));
            }
            assert(got.take(got.len() as int) =~= got);
            if !started {
                assert forall|k: int| 0 <= k < got0.len() implies (#[trigger] first_frame_at(got, rx_id, k)
                    == first_frame_at(got0, rx_id, k)) by {
                    assert(got[k] == got0[k]);
                    assert(got.take(k) == got0.take(k));
                }
                if frame.id != rx_id || frame.data@.len() < 2 || frame.data@[0] / 16 != 1 {
                    assert forall|k: int| !#[trigger] first_frame_at(got, rx_id, k) by {
                        if 0 <= k < got0.len() {
                            assert(first_frame_at(got, rx_id, k) == first_frame_at(got0, rx_id, k));
                        }
                    }
                }
            }
            if appended(sbase, transport.sent_frames()).len() > 0 {
                assert(got[ff_at] == got0[ff_at]);
                assert(got.take(ff_at) == got0.take(ff_at));
                assert(first_frame_at(got, rx_id, ff_at));
            }
        }
        if frame.id == rx_id {
            if frame.data.len() == 0 {
                return Err(protocol_error(if started { "empty consecutive frame" } else { "empty frame" }));
            }
            let pci = frame.data[0];
            proof {
                lemma_pci_bits(pci);
            }
            if !started {
                let kind = pci & 0xF0;
                if kind == 0x00 {
                    let len = (pci & 0x0F) as usize;
                    if 1 + len <= frame.data.len() {
                        let mut out: Vec<u8> = Vec::new();
                        copy_from(&frame.data, 1, 1 + len, &mut out);
                        assert(out@ =~= frame.data@.subrange(1, 1 + len as int));
                        return Ok(out);
                    }
                    return Err(protocol_error("single frame shorter than declared"));
                } else if kind == 0x10 {
                    if frame.data.len() < 2 {
                        return Err(protocol_error("truncated first frame"));
                    }
                    let total_len = ((pci & 0x0F) as usize) * 256 + frame.data[1] as usize;
                    let mut first_data: Vec<u8> = Vec::new();
                    copy_from(&frame.data, 2, frame.data.len(), &mut first_data);
                    assert(first_data@ =~= frame.data@.subrange(2, frame.data@.len() as int));
                    let fc = CanFrame::new(tx_id, vec![0x30, 0x00, 0x00]);
                    assert(fc@.data =~= seq![0x30u8, 0x00u8, 0x00u8]);
                    proof {
                        ff_at = got0.len() as int;
                        assert(got.take(ff_at) =~= got0);
                        assert(first_frame_at(got, rx_id, ff_at));
                    }
                    match send_frame(transport, &fc) {
                        Ok(()) => {},
                        Err(e) => {
                            proof {
                                assert(transport.sent_frames() == sbase);
                            }
                            return Err(e);
                        },
                    }
                    proof {
                        assert(transport.sent_frames().subrange(0, sbase.len() as int) =~= sbase);
                        assert(appended(sbase, transport.sent_frames()) =~= seq![spec_flow_control(tx_id)]);
                        assert(appended(rbase, transport.received_frames()) == got);
                    }
                    if first_data.len() >= total_len {
                        first_data.truncate(total_len);
                        assert(first_data@ =~= frame.data@.subrange(2, frame.data@.len() as int).take(total_len as int));
                        return Ok(first_data);
                    }
                    started = true;
                    total = total_len;
                    data = first_data;
                    expected = 1;
                } else {
                    return Err(protocol_error_with_pci("unexpected PCI starting a message: 0x", pci));
                }
            } else {
                if pci & 0xF0 != 0x20 {
                    return Err(protocol_error_with_pci("expected consecutive frame (0x2_), got PCI 0x", pci));
                }
                let seq_no = pci & 0x0F;
                if seq_no != expected {
                    return Err(protocol_error("consecutive frame out of sequence"));
                }
                let remaining = total - data.len();
                let avail = frame.data.len() - 1;
                let take = if remaining < avail { remaining } else { avail };
                let ghost before = data@;
                copy_from(&frame.data, 1, 1 + take, &mut data);
                expected = (expected + 1) % 16;
                if data.len() >= total {
                    assert(data@.take(total as int) =~= data@);
                    return Ok(data);
                }
            }
        }
    }
}

/// Law: a message of up to 4095 bytes, segmented the way `send` puts it on the
/// bus, is reassembled by a receiver on the same id into exactly that message.
pub proof fn lemma_segments_reassemble(id: u32, data: Seq<u8>)
    requires
        data.len() <= 0x0FFF,
    ensures
        rx_run(spec_segments(id, data), id) == RxState::Done(data),
{
    let segs = spec_segments(id, data);
    if data.len() <= 7 {
        lemma_rx_run_push(Seq::<CanFrameView>::empty(), segs[0], id);
        assert(segs =~= Seq::<CanFrameView>::empty().push(segs[0]));
        let f = segs[0];
        assert(f.data[0] == data.len() as u8);
        assert(f.data.subrange(1, 1 + data.len() as int) =~= data);
    } else {
        let ff = segs[0];
        let len = data.len();
        assert(len / 256 < 16);
        let pci = ff.data[0];
        assert(pci == (0x10 + len / 256) as u8);
        assert(pci / 16 == 1);
        assert(pci % 16 == len / 256);
        assert(ff.data[1] == (len % 256) as u8);
        lemma_rx_run_push(Seq::<CanFrameView>::empty(), ff, id);
        assert(seq![ff] =~= Seq::<CanFrameView>::empty().push(ff));
        assert(ff.data.subrange(2, ff.data.len() as int) =~= data.subrange(0, 6));
        assert(rx_run(seq![ff], id) == RxState::Collecting { total: len, data: data.subrange(0, 6), expected: 1 });
        lemma_cf_reassemble(id, data, seq![ff], 6, 1);
    }
}

proof fn lemma_cf_reassemble(id: u32, data: Seq<u8>, prefix: Seq<CanFrameView>, sent: nat, seq: nat)
    requires
        7 < data.len() <= 0x0FFF,
        6 <= sent < data.len(),
        seq < 16,
        rx_run(prefix, id) == (RxState::Collecting { total: data.len(), data: data.subrange(0, sent as int), expected: seq }),
    ensures
        rx_run(prefix + spec_cf_frames(id, data, sent, seq), id) == RxState::Done(data),
        forall|k: int|
            prefix.len() <= k < (prefix + spec_cf_frames(id, data, sent, seq)).len() ==> #[trigger] rx_open(
                rx_run((prefix + spec_cf_frames(id, data, sent, seq)).take(k), id),
            ),
    decreases data.len() - sent,
{
    let end: nat = if data.len() - sent < 7 { data.len() } else { sent + 7 };
    let c = pci_frame(id, (0x20 + seq % 16) as u8, data.subrange(sent as int, end as int));
    let rest = spec_cf_frames(id, data, end, (seq + 1) % 16);
    lemma_cf_unfold(id, data, sent, seq);
    assert(prefix + spec_cf_frames(id, data, sent, seq) =~= prefix.push(c) + rest);
    lemma_rx_run_push(prefix, c, id);
    let pci = c.data[0];
    assert(pci / 16 == 2);
    assert(pci % 16 == seq);
    assert(c.data.subrange(1, 1 + (end - sent)) =~= data.subrange(sent as int, end as int));
    let d2 = data.subrange(0, sent as int) + data.subrange(sent as int, end as int);
    assert(d2 =~= data.subrange(0, end as int));
    let all = prefix + spec_cf_frames(id, data, sent, seq);
    assert(all.take(prefix.len() as int) =~= prefix);
    if end >= data.len() {
        assert(d2 =~= data);
        assert(d2.take(data.len() as int) =~= data);
        assert(rest =~= Seq::<CanFrameView>::empty());
        assert(prefix.push(c) + rest =~= prefix.push(c));
    } else {
        lemma_cf_reassemble(id, data, prefix.push(c), end, (seq + 1) % 16);
        assert forall|k: int| prefix.len() <= k < all.len() implies #[trigger] rx_open(rx_run(all.take(k), id)) by {
            if k > prefix.len() {
                assert(all.take(k) == (prefix.push(c) + rest).take(k));
            }
        }
    }
}

/// Law: a receiver reading the segments of a message of up to 4095 bytes
/// frame by frame stays open until the last one, which completes exactly
/// that message; and a First Frame, the one frame a receiver answers with
/// Flow Control, is among them exactly when the message is longer than
/// seven bytes.
pub proof fn lemma_segments_receive(id: u32, data: Seq<u8>)
    requires
        data.len() <= 0x0FFF,
    ensures
        rx_run(spec_segments(id, data), id) == RxState::Done(data),
        forall|k: int| 0 <= k < spec_segments(id, data).len() ==> #[trigger] rx_open(
            rx_run(spec_segments(id, data).take(k), id),
        ),
        (exists|k: int| #[trigger] first_frame_at(spec_segments(id, data), id, k)) <==> data.len() > 7,
{
    lemma_segments_reassemble(id, data);
    let segs = spec_segments(id, data);
    assert(segs.take(0) =~= Seq::<CanFrameView>::empty());
    if data.len() <= 7 {
        assert forall|k: int| 0 <= k < segs.len() implies #[trigger] rx_open(rx_run(segs.take(k), id)) by {
            assert(k == 0);
        }
        if exists|k: int| #[trigger] first_frame_at(segs, id, k) {
            let k = choose|k: int| #[trigger] first_frame_at(segs, id, k);
            assert(k == 0);
            assert(segs[0].data[0] == data.len() as u8);
        }
    } else {
        let ff = segs[0];
        let len = data.len();
        assert(len / 256 < 16);
        assert(ff.data[0] == (0x10 + len / 256) as u8);
        assert(seq![ff] =~= Seq::<CanFrameView>::empty().push(ff));
        lemma_rx_run_push(Seq::<CanFrameView>::empty(), ff, id);
        assert(ff.data.subrange(2, ff.data.len() as int) =~= data.subrange(0, 6));
        assert(rx_run(seq![ff], id) == RxState::Collecting { total: len, data: data.subrange(0, 6), expected: 1 });
        lemma_cf_reassemble(id, data, seq![ff], 6, 1);
        assert(segs =~= seq![ff] + spec_cf_frames(id, data, 6, 1));
        assert forall|k: int| 0 <= k < segs.len() implies #[trigger] rx_open(rx_run(segs.take(k), id)) by {
            if k >= 1 {
                assert(segs.take(k) == (seq![ff] + spec_cf_frames(id, data, 6, 1)).take(k));
            }
        }
        assert(first_frame_at(segs, id, 0));
    }
}

} // verus!
