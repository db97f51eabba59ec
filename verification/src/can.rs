//! Classic CAN 2.0 frames and the CAN transport trait, with an in-memory
//! duplex bus for tests and the bench simulator.

use vstd::prelude::*;
use std::sync::mpsc::{Receiver, Sender};
use crate::channel::{channel_recv_timeout, channel_send, new_channel, RecvFailure};

verus! {

/// A single CAN frame: an 11-bit (standard) or 29-bit (extended) identifier
/// and up to 8 data bytes.
#[derive(Debug, Clone, PartialEq, Eq)]
pub struct CanFrame {
    pub id: u32,
    pub extended: bool,
    pub data: Vec<u8>,
}

pub struct CanFrameView {
    pub id: u32,
    pub extended: bool,
    pub data: Seq<u8>,
}

impl View for CanFrame {
    type V = CanFrameView;

    open spec fn view(&self) -> CanFrameView {
        CanFrameView { id: self.id, extended: self.extended, data: self.data@ }
    }
}

/// The frame `CanFrame::new(id, data)` builds.
pub open spec fn spec_can_frame(id: u32, data: Seq<u8>) -> CanFrameView {
    CanFrameView { id, extended: id > 0x7FF, data }
}

impl CanFrame {
    /// Classic CAN frames carry at most 8 bytes; ids above 0x7FF are extended.
    pub fn new(id: u32, data: Vec<u8>) -> (f: Self)
        requires
            data@.len() <= 8,
        ensures
            f@ == spec_can_frame(id, data@),
    {
        CanFrame { id, extended: id > 0x7FF, data }
    }

    pub fn clone_frame(&self) -> (f: Self)
        ensures
            f@ == self@,
    {
        CanFrame { id: self.id, extended: self.extended, data: self.data.clone() }
    }
}

#[derive(Debug, Clone, PartialEq, Eq)]
pub enum CanError {
    /// I/O error, with the underlying error's message.
    Io(String),
    /// Timed out waiting for a CAN frame.
    Timeout,
    /// Bus closed.
    Closed,
}

/// `after` is `before` with the error of `r` added, if it is one.
pub open spec fn can_noted<A>(before: Seq<CanError>, after: Seq<CanError>, r: Result<A, CanError>) -> bool {
    match r {
        Ok(_) => after == before,
        Err(e) => after == before.push(e),
    }
}

/// A CAN bus endpoint. `sent_frames()` is every frame successfully put on the
/// bus, `received_frames()` every frame delivered by `recv`, and `errors()`
/// every error an operation returned, oldest first.
pub trait CanTransport {
    spec fn sent_frames(&self) -> Seq<CanFrameView>;

    spec fn received_frames(&self) -> Seq<CanFrameView>;

    spec fn errors(&self) -> Seq<CanError>;

    fn send(&mut self, frame: &CanFrame) -> (r: Result<(), CanError>)
        ensures
            r is Ok ==> final(self).sent_frames() == old(self).sent_frames().push(frame@),
            r is Err ==> final(self).sent_frames() == old(self).sent_frames(),
            final(self).received_frames() == old(self).received_frames(),
            can_noted(old(self).errors(), final(self).errors(), r),
    ;

    fn recv(&mut self, timeout_ms: u64) -> (r: Result<CanFrame, CanError>)
        ensures
            r matches Ok(f) ==> final(self).received_frames() == old(self).received_frames().push(
                f@,
            ),
            r is Err ==> final(self).received_frames() == old(self).received_frames(),
            final(self).sent_frames() == old(self).sent_frames(),
            can_noted(old(self).errors(), final(self).errors(), r),
    ;
}

/// Tester-side endpoint of an in-memory CAN bus.
pub struct MockCanBus {
    tx: Sender<CanFrame>,
    rx: Receiver<CanFrame>,
    sent_log: Ghost<Seq<CanFrameView>>,
    recv_log: Ghost<Seq<CanFrameView>>,
    err_log: Ghost<Seq<CanError>>,
}

/// ECU-side endpoint of an in-memory CAN bus.
pub struct CanBusEcuEnd {
    tx: Sender<CanFrame>,
    rx: Receiver<CanFrame>,
    sent_log: Ghost<Seq<CanFrameView>>,
    recv_log: Ghost<Seq<CanFrameView>>,
    err_log: Ghost<Seq<CanError>>,
}

/// A connected (tester, ecu) pair: what one end sends, the other receives.
pub fn pair() -> (r: (MockCanBus, CanBusEcuEnd))
    ensures
        r.0.sent_frames() == Seq::<CanFrameView>::empty(),
        r.0.received_frames() == Seq::<CanFrameView>::empty(),
        r.1.sent_frames() == Seq::<CanFrameView>::empty(),
        r.1.received_frames() == Seq::<CanFrameView>::empty(),
{
    let (t2e_tx, t2e_rx) = new_channel();
    let (e2t_tx, e2t_rx) = new_channel();
    (
        MockCanBus {
            tx: t2e_tx,
            rx: e2t_rx,
            sent_log: Ghost(Seq::empty()),
            recv_log: Ghost(Seq::empty()),
            err_log: Ghost(Seq::empty()),
        },
        CanBusEcuEnd {
            tx: e2t_tx,
            rx: t2e_rx,
            sent_log: Ghost(Seq::empty()),
            recv_log: Ghost(Seq::empty()),
            err_log: Ghost(Seq::empty()),
        },
    )
}

fn map_recv_failure(e: RecvFailure) -> (r: CanError)
    ensures
        e is Timeout ==> r is Timeout,
        e is Disconnected ==> r is Closed,
{
    match e {
        RecvFailure::Timeout => CanError::Timeout,
        RecvFailure::Disconnected => CanError::Closed,
    }
}

impl CanTransport for MockCanBus {
    closed spec fn sent_frames(&self) -> Seq<CanFrameView> {
        self.sent_log@
    }

    closed spec fn received_frames(&self) -> Seq<CanFrameView> {
        self.recv_log@
    }

    closed spec fn errors(&self) -> Seq<CanError> {
        self.err_log@
    }

    fn send(&mut self, frame: &CanFrame) -> (r: Result<(), CanError>)
        ensures
            r matches Err(e) ==> e is Closed,
    {
        match channel_send(&self.tx, frame.clone_frame()) {
            Ok(()) => {
                self.sent_log = Ghost(self.sent_log@.push(frame@));
                Ok(())
            },
            Err(()) => {
                self.err_log = Ghost(self.err_log@.push(CanError::Closed));
                Err(CanError::Closed)
            },
        }
    }

    fn recv(&mut self, timeout_ms: u64) -> (r: Result<CanFrame, CanError>)
        ensures
            r matches Err(e) ==> e is Timeout || e is Closed,
    {
        match channel_recv_timeout(&self.rx, timeout_ms) {
            Ok(f) => {
                self.recv_log = Ghost(self.recv_log@.push(f@));
                Ok(f)
            },
            Err(e) => {
                let err = map_recv_failure(e);
                self.err_log = Ghost(self.err_log@.push(err));
                Err(err)
            },
        }
    }
}

impl CanTransport for CanBusEcuEnd {
    closed spec fn sent_frames(&self) -> Seq<CanFrameView> {
        self.sent_log@
    }

    closed spec fn received_frames(&self) -> Seq<CanFrameView> {
        self.recv_log@
    }

    closed spec fn errors(&self) -> Seq<CanError> {
        self.err_log@
    }

    fn send(&mut self, frame: &CanFrame) -> (r: Result<(), CanError>)
        ensures
            r matches Err(e) ==> e is Closed,
    {
        match channel_send(&self.tx, frame.clone_frame()) {
            Ok(()) => {
                self.sent_log = Ghost(self.sent_log@.push(frame@));
                Ok(())
            },
            Err(()) => {
                self.err_log = Ghost(self.err_log@.push(CanError::Closed));
                Err(CanError::Closed)
            },
        }
    }

    fn recv(&mut self, timeout_ms: u64) -> (r: Result<CanFrame, CanError>)
        ensures
            r matches Err(e) ==> e is Timeout || e is Closed,
    {
        match channel_recv_timeout(&self.rx, timeout_ms) {
            Ok(f) => {
                self.recv_log = Ghost(self.recv_log@.push(f@));
                Ok(f)
            },
            Err(e) => {
                let err = map_recv_failure(e);
                self.err_log = Ghost(self.err_log@.push(err));
                Err(err)
            },
        }
    }
}

} // verus!
