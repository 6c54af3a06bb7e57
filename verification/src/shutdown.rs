use crate::frame::{Frame, FrameView};
use crate::outbound::OutboundQueue;
use vstd::prelude::*;

verus! {

/// Why a connection ends.
#[derive(Clone, Copy, Debug, PartialEq, Eq, Structural)]
pub enum ShutdownReason {
    /// The peer closed the connection.
    PeerClosed,
    /// The transport failed while a frame was read.
    TransportError,
    /// No matching pong came within the timeout.
    HeartbeatTimeout,
    /// The transport failed while a frame was written.
    WriteFailed,
    /// One of the activities of the session failed.
    TaskFailed,
}

/// The signal that ends a connection. It is fired at most once: the first
/// reason stays.
#[derive(Clone, Copy, Debug, PartialEq, Eq)]
pub struct ShutdownSignal {
    reason: Option<ShutdownReason>,
}

impl View for ShutdownSignal {
    type V = Option<ShutdownReason>;

    closed spec fn view(&self) -> Option<ShutdownReason> {
        self.reason
    }
}

/// The state of a signal after it is fired with `reason`: the reason it had,
/// if it was fired before, else `reason`.
pub open spec fn fired_with(signal: Option<ShutdownReason>, reason: ShutdownReason) -> Option<
    ShutdownReason,
> {
    match signal {
        Some(first) => Some(first),
        None => Some(reason),
    }
}

/// Firing a signal again changes nothing, whatever the reasons are.
pub proof fn lemma_fire_is_idempotent(
    signal: Option<ShutdownReason>,
    first: ShutdownReason,
    second: ShutdownReason,
)
    ensures
        fired_with(signal, first) is Some,
        fired_with(fired_with(signal, first), second) == fired_with(signal, first),
        signal is None ==> fired_with(signal, first) == Some(first),
        signal is Some ==> fired_with(signal, first) == signal,
{
}

impl ShutdownSignal {
    /// A signal that has not been fired.
    pub fn new() -> (signal: ShutdownSignal)
        ensures
            signal@ is None,
    {
        ShutdownSignal { reason: None }
    }

    /// Fires the signal with `reason`, unless it has been fired before.
    /// Returns whether this call was the first.
    pub fn fire(&mut self, reason: ShutdownReason) -> (first: bool)
        ensures
            final(self)@ == fired_with(old(self)@, reason),
            first == old(self)@ is None,
    {
        match self.reason {
            Some(_) => false,
            None => {
                self.reason = Some(reason);
                true
            },
        }
    }

    /// Whether the signal has been fired.
    pub fn is_fired(&self) -> (fired: bool)
        ensures
            fired == self@ is Some,
    {
        self.reason.is_some()
    }

    /// The reason with which the signal was fired, if it was.
    pub fn reason(&self) -> (reason: Option<ShutdownReason>)
        ensures
            reason == self@,
    {
        self.reason
    }
}

/// The outbound queue after the connection is ended: where the signal had
/// not been fired before, a close frame is put behind the frames that wait,
/// so that the peer is told after it has been sent what was queued before.
pub open spec fn closed_with(signal: Option<ShutdownReason>, queue: Seq<FrameView>) -> Seq<
    FrameView,
> {
    match signal {
        Some(_) => queue,
        None => queue.push(FrameView::Close),
    }
}

/// Ends the connection for `reason`: fires the signal and, where this is the
/// first time, queues a close frame, which the queue takes however full it
/// is. Ending a connection again changes nothing. Returns whether this call
/// was the first.
pub fn end_connection(
    in_tx: &mut ShutdownSignal,
    tx: &mut OutboundQueue,
    reason: ShutdownReason,
) -> (first: bool)
    ensures
        final(in_tx)@ == fired_with(old(in_tx)@, reason),
        final(tx)@ == closed_with(old(in_tx)@, old(tx)@),
        final(tx).limit() == old(tx).limit(),
        first == old(in_tx)@ is None,
{
    let first = in_tx.fire(reason);
    if first {
        let outcome = tx.offer(Frame::Close);
        assert(outcome is Ok);
    }
    first
}

/// Ending a connection again changes nothing: the signal keeps its first
/// reason, and the queue holds the one close frame of the first time and no
/// second one.
pub proof fn lemma_end_is_idempotent(
    signal: Option<ShutdownReason>,
    queue: Seq<FrameView>,
    first: ShutdownReason,
    second: ShutdownReason,
)
    ensures
        closed_with(fired_with(signal, first), closed_with(signal, queue)) == closed_with(
            signal,
            queue,
        ),
        signal is None ==> closed_with(signal, queue) == queue.push(FrameView::Close),
        signal is Some ==> closed_with(signal, queue) == queue,
        fired_with(fired_with(signal, first), second) == fired_with(signal, first),
{
}

} // verus!
