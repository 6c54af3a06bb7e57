use crate::frame::{Frame, FrameView};
use crate::heartbeat::{ping_bytes, Heartbeat};
use crate::registry::{
    can_tick, entries_of, lemma_subscribed, lemma_unsubscribed, subscribed, ticked, unsubscribed,
    valid, Entry, Registry, Subscription,
};
use crate::outbound::{accepts, OutboundQueue};
use crate::shutdown::{closed_with, end_connection, fired_with, ShutdownReason, ShutdownSignal};
use crate::subscrib_stream::{
    names_of, texts_of, Command, Method, ParseError, StreamName, SubscribStream,
};
use rand::rngs::StdRng;
use vstd::prelude::*;

verus! {

/// The time between two ticks of the update broadcaster, in the unit of the
/// session's clock (microseconds): one second.
pub const TICK_INTERVAL: u64 = 1_000_000;

/// What the inbound router is handed for one frame of the transport, or for
/// its failure. The text of a text frame has been decoded before: it is
/// either the envelope of a command or malformed.
#[derive(Debug, PartialEq, Eq)]
pub enum Inbound {
    /// A text frame that holds a command envelope.
    Command { method: String, params: Vec<String> },
    /// A text frame that holds no command envelope.
    Malformed,
    /// A pong frame.
    Pong(Vec<u8>),
    /// A close frame, or the end of the transport.
    Close,
    /// The transport failed.
    TransportError,
    /// Any other frame.
    Other,
}

/// What the inbound router did with one frame.
#[derive(Clone, Copy, Debug, PartialEq, Eq, Structural)]
pub enum Routed {
    /// A command was applied to the subscriptions.
    Applied(Method),
    /// A command was refused. The connection stays open.
    Rejected(ParseError),
    /// A matching pong was handed to the heartbeat.
    PongAccepted,
    /// A pong that does not match was passed over.
    PongIgnored,
    /// The frame was passed over.
    Ignored,
    /// The connection ends: the router stops.
    Stopped(ShutdownReason),
}

/// What the update broadcaster does at one tick.
#[derive(Debug, PartialEq, Eq)]
pub enum Tick {
    /// The updates of this tick, one for each subscription, to be serialized
    /// and queued each on its own.
    Emitted(Vec<Subscription>),
    /// The connection ends: the broadcaster stops.
    Stopped,
}

/// What the heartbeat monitor does when it wakes up.
#[derive(Debug, PartialEq, Eq)]
pub enum Beat {
    /// Queue `frame`, a ping, then sleep for `sleep`.
    Ping { frame: Frame, sleep: u64 },
    /// The connection ends: the monitor stops.
    Stopped,
}

/// What became of a frame that a producer wanted queued.
#[derive(Debug, PartialEq, Eq)]
pub enum Queueing {
    /// The frame is in the queue.
    Queued,
    /// The queue is full. The frame comes back, to be offered again when
    /// there is room.
    Full(Frame),
    /// The connection ends. The frame was not queued.
    Ended,
}

/// What the outbound writer does next.
#[derive(Debug, PartialEq, Eq)]
pub enum WriterAction {
    /// Write this frame to the transport.
    Write(Frame),
    /// Wait for the next frame.
    Wait,
    /// Stop.
    Exit,
}

/// Subscribes each of `params` that is not subscribed yet, in order. A
/// channel that is subscribed already keeps its generator as it is.
pub fn subscribe(params: Vec<StreamName>, stream_names: &mut Registry)
    ensures
        final(stream_names)@ == subscribed(old(stream_names)@, names_of(params@)),
        valid(final(stream_names)@),
{
    let ghost all = names_of(params@);
    let ghost before = stream_names@;
    proof {
        use_type_invariant(&*stream_names);
        assert(all.take(0) =~= Seq::empty());
    }
    for name in it: params
        invariant
            names_of(it.seq()) == all,
            stream_names@ == subscribed(before, all.take(it.index() as int)),
            valid(stream_names@),
    {
        proof {
            assert(all.take(it.index() + 1).drop_last() =~= all.take(it.index() as int));
            assert(all.take(it.index() + 1).last() == name@);
        }
        stream_names.insert_if_absent(name);
    }
    proof {
        assert(all.take(all.len() as int) =~= all);
    }
}

/// Ends the subscription of each of `params`, in order. A channel that is not
/// subscribed is passed over.
pub fn unsubscribe(params: Vec<StreamName>, stream_names: &mut Registry)
    ensures
        final(stream_names)@ == unsubscribed(old(stream_names)@, names_of(params@)),
        valid(final(stream_names)@),
{
    let ghost all = names_of(params@);
    let ghost before = stream_names@;
    proof {
        use_type_invariant(&*stream_names);
        assert(all.take(0) =~= Seq::empty());
    }
    for name in it: params
        invariant
            names_of(it.seq()) == all,
            stream_names@ == unsubscribed(before, all.take(it.index() as int)),
            valid(stream_names@),
    {
        proof {
            assert(all.take(it.index() + 1).drop_last() =~= all.take(it.index() as int));
            assert(all.take(it.index() + 1).last() == name@);
        }
        stream_names.remove(&name);
    }
    proof {
        assert(all.take(all.len() as int) =~= all);
    }
}

/// One tick of the update broadcaster. Where the connection ends it stops
/// and leaves the subscriptions as they are; else it advances every
/// generator and hands out one update for each subscription, none where
/// nothing is subscribed.
pub fn updata_stream(
    stream_names: &mut Registry,
    time: u64,
    rng: &mut StdRng,
    in_rx: &ShutdownSignal,
) -> (tick: Tick)
    requires
        in_rx@ is None ==> can_tick(old(stream_names)@),
    ensures
        match tick {
            Tick::Stopped => in_rx@ is Some && final(stream_names)@ == old(stream_names)@,
            Tick::Emitted(updates) => in_rx@ is None && ticked(
                old(stream_names)@,
                time,
                final(stream_names)@,
            ) && entries_of(updates@) == final(stream_names)@,
        },
{
    if in_rx.is_fired() {
        Tick::Stopped
    } else {
        Tick::Emitted(stream_names.snapshot_and_advance(time, rng))
    }
}

/// Queues `frame` for a producer. Where the connection ends, nothing more
/// is queued. Where the queue is full, the frame comes back and the producer
/// has to wait: no frame is dropped to make room.
pub fn queue_frame(frame: Frame, tx: &mut OutboundQueue, in_rx: &ShutdownSignal) -> (outcome:
    Queueing)
    ensures
        final(tx).limit() == old(tx).limit(),
        match outcome {
            Queueing::Queued => in_rx@ is None && accepts(old(tx)@, old(tx).limit(), frame@)
                && final(tx)@ == old(tx)@.push(frame@),
            Queueing::Full(back) => in_rx@ is None && !accepts(old(tx)@, old(tx).limit(), frame@)
                && back == frame && final(tx)@ == old(tx)@,
            Queueing::Ended => in_rx@ is Some && final(tx)@ == old(tx)@,
        },
{
    if in_rx.is_fired() {
        Queueing::Ended
    } else {
        match tx.offer(frame) {
            Ok(_) => Queueing::Queued,
            Err(back) => Queueing::Full(back),
        }
    }
}

/// One turn of the outbound writer: it takes the frame that has waited
/// longest. A frame that was queued is written, also after the connection
/// has begun to end; the writer stops when nothing is queued and the
/// connection ends, and waits when nothing is queued and it does not.
pub fn send_message(rx: &mut OutboundQueue, in_rx: &ShutdownSignal) -> (action: WriterAction)
    ensures
        final(rx).limit() == old(rx).limit(),
        match action {
            WriterAction::Write(frame) => old(rx)@.len() > 0 && frame@ == old(rx)@[0] && final(rx)@
                == old(rx)@.drop_first(),
            WriterAction::Wait => old(rx)@.len() == 0 && in_rx@ is None && final(rx)@ == old(rx)@,
            WriterAction::Exit => old(rx)@.len() == 0 && in_rx@ is Some && final(rx)@ == old(rx)@,
        },
{
    match rx.take() {
        Some(frame) => WriterAction::Write(frame),
        None => if in_rx.is_fired() {
            WriterAction::Exit
        } else {
            WriterAction::Wait
        },
    }
}

/// Takes note of how a write to the transport ended. A failed write ends the
/// connection, with the reason `WriteFailed` unless it was ending already.
/// Returns whether the writer goes on.
pub fn written(ok: bool, in_rx: &mut ShutdownSignal, rx: &mut OutboundQueue) -> (go_on: bool)
    ensures
        go_on == ok,
        final(rx).limit() == old(rx).limit(),
        ok ==> final(in_rx)@ == old(in_rx)@ && final(rx)@ == old(rx)@,
        !ok ==> final(in_rx)@ == fired_with(old(in_rx)@, ShutdownReason::WriteFailed)
            && final(rx)@ == closed_with(old(in_rx)@, old(rx)@),
{
    if !ok {
        end_connection(in_rx, rx, ShutdownReason::WriteFailed);
    }
    ok
}

/// One turn of the heartbeat monitor, at `now`. Where the connection ends
/// it stops. Where the last matching pong is longer ago than the timeout it
/// ends the connection, with the reason `HeartbeatTimeout`, and stops. Else
/// it asks for a ping and for a sleep of one interval.
pub fn send_ping(
    heartbeat: &Heartbeat,
    now: u64,
    in_rx: &mut ShutdownSignal,
    tx: &mut OutboundQueue,
) -> (beat: Beat)
    ensures
        final(tx).limit() == old(tx).limit(),
        old(in_rx)@ is None && heartbeat.expired(now) ==> final(in_rx)@ == Some(
            ShutdownReason::HeartbeatTimeout,
        ) && final(tx)@ == old(tx)@.push(FrameView::Close),
        !(old(in_rx)@ is None && heartbeat.expired(now)) ==> final(in_rx)@ == old(in_rx)@
            && final(tx)@ == old(tx)@,
        match beat {
            Beat::Stopped => final(in_rx)@ is Some,
            Beat::Ping { frame, sleep } => final(in_rx)@ is None && frame@ == FrameView::Ping(
                ping_bytes(),
            ) && sleep == heartbeat.interval,
        },
{
    if in_rx.is_fired() {
        Beat::Stopped
    } else if heartbeat.timed_out(now) {
        end_connection(in_rx, tx, ShutdownReason::HeartbeatTimeout);
        Beat::Stopped
    } else {
        Beat::Ping { frame: Frame::Ping(Heartbeat::ping_payload()), sleep: heartbeat.interval }
    }
}

/// What the inbound router works on: the subscriptions, the heartbeat, the
/// signal and the outbound queue of one connection.
#[verifier::ext_equal]
pub struct Connection {
    pub entries: Seq<Entry>,
    pub heartbeat: Heartbeat,
    pub signal: Option<ShutdownReason>,
    pub queue: Seq<FrameView>,
}

impl Connection {
    /// The connection after it is ended for `reason`.
    pub open spec fn ended(self, reason: ShutdownReason) -> Connection {
        Connection {
            signal: fired_with(self.signal, reason),
            queue: closed_with(self.signal, self.queue),
            ..self
        }
    }
}

/// An inbound message as a mathematical value.
#[verifier::ext_equal]
pub enum InboundView {
    Command { method: Seq<char>, params: Seq<Seq<char>> },
    Malformed,
    Pong(Seq<u8>),
    Close,
    TransportError,
    Other,
}

impl View for Inbound {
    type V = InboundView;

    open spec fn view(&self) -> InboundView {
        match self {
            Inbound::Command { method, params } => InboundView::Command {
                method: method@,
                params: texts_of(params@),
            },
            Inbound::Malformed => InboundView::Malformed,
            Inbound::Pong(payload) => InboundView::Pong(payload@),
            Inbound::Close => InboundView::Close,
            Inbound::TransportError => InboundView::TransportError,
            Inbound::Other => InboundView::Other,
        }
    }
}

/// What the router makes of `message` at `now` where the connection is not
/// ending: the connection after it, and what the router reports.
pub open spec fn routed(before: Connection, message: InboundView, now: u64) -> (
    Connection,
    Routed,
) {
    match message {
        InboundView::Command { method, params } => match Command::parse(method, params) {
            Ok(command) => match command.method {
                Method::Subscribe => (
                    Connection { entries: subscribed(before.entries, command.params), ..before },
                    Routed::Applied(Method::Subscribe),
                ),
                Method::Unsubscribe => (
                    Connection { entries: unsubscribed(before.entries, command.params), ..before },
                    Routed::Applied(Method::Unsubscribe),
                ),
            },
            Err(e) => (before, Routed::Rejected(e)),
        },
        InboundView::Malformed => (before, Routed::Rejected(ParseError::MalformedCommand)),
        InboundView::Pong(payload) => (
            Connection { heartbeat: before.heartbeat.after_pong(payload, now), ..before },
            if payload == ping_bytes() {
                Routed::PongAccepted
            } else {
                Routed::PongIgnored
            },
        ),
        InboundView::Close => (
            before.ended(ShutdownReason::PeerClosed),
            Routed::Stopped(ShutdownReason::PeerClosed),
        ),
        InboundView::TransportError => (
            before.ended(ShutdownReason::TransportError),
            Routed::Stopped(ShutdownReason::TransportError),
        ),
        InboundView::Other => (before, Routed::Ignored),
    }
}

/// One turn of the inbound router, for `message` at `now`. Where the
/// connection is ending already it stops and touches nothing. Else a command
/// is applied to the subscriptions, or refused as a whole and reported, with
/// the connection left open; a pong goes to the heartbeat; a close frame or a
/// failure of the transport ends the connection; any other frame is passed
/// over. The router queues no frame but the close frame that ends the
/// connection.
pub fn read_message(
    stream_names: &mut Registry,
    message: Inbound,
    now: u64,
    heartbeat: &mut Heartbeat,
    in_tx: &mut ShutdownSignal,
    tx: &mut OutboundQueue,
) -> (outcome: Routed)
    ensures
        valid(final(stream_names)@),
        final(tx).limit() == old(tx).limit(),
        old(in_tx)@ matches Some(reason) ==> {
            &&& outcome == Routed::Stopped(reason)
            &&& final(stream_names)@ == old(stream_names)@
            &&& *final(heartbeat) == *old(heartbeat)
            &&& final(in_tx)@ == old(in_tx)@
            &&& final(tx)@ == old(tx)@
        },
        old(in_tx)@ is None ==> (
            Connection {
                entries: final(stream_names)@,
                heartbeat: *final(heartbeat),
                signal: final(in_tx)@,
                queue: final(tx)@,
            },
            outcome,
        ) == routed(
            Connection {
                entries: old(stream_names)@,
                heartbeat: *old(heartbeat),
                signal: old(in_tx)@,
                queue: old(tx)@,
            },
            message@,
            now,
        ),
{
    proof {
        use_type_invariant(&*stream_names);
    }
    if let Some(reason) = in_tx.reason() {
        return Routed::Stopped(reason);
    }
    match message {
        Inbound::Command { method, params } => {
            match SubscribStream::parse(method.as_str(), &params) {
                Ok(command) => {
                    match command.method {
                        Method::Subscribe => {
                            subscribe(command.params, stream_names);
                            Routed::Applied(Method::Subscribe)
                        },
                        Method::Unsubscribe => {
                            unsubscribe(command.params, stream_names);
                            Routed::Applied(Method::Unsubscribe)
                        },
                    }
                },
                Err(e) => Routed::Rejected(e),
            }
        },
        Inbound::Malformed => Routed::Rejected(ParseError::MalformedCommand),
        Inbound::Pong(payload) => {
            if heartbeat.pong(&payload, now) {
                Routed::PongAccepted
            } else {
                Routed::PongIgnored
            }
        },
        Inbound::Close => {
            end_connection(in_tx, tx, ShutdownReason::PeerClosed);
            Routed::Stopped(ShutdownReason::PeerClosed)
        },
        Inbound::TransportError => {
            end_connection(in_tx, tx, ShutdownReason::TransportError);
            Routed::Stopped(ShutdownReason::TransportError)
        },
        Inbound::Other => Routed::Ignored,
    }
}

/// The router ends the connection for a close frame and for a failure of the
/// transport and for nothing else, and it stops exactly then. It queues a
/// frame only then, and the frame is a close frame. A command, applied or
/// refused, leaves the connection open and the heartbeat as it was, and a
/// refused one leaves the subscriptions as they were. Whatever the message
/// is, the subscriptions stay valid.
pub proof fn lemma_routed(before: Connection, message: InboundView, now: u64)
    requires
        valid(before.entries),
        before.signal is None,
    ensures
        valid(routed(before, message, now).0.entries),
        routed(before, message, now).0.signal is Some <==> message is Close
            || message is TransportError,
        routed(before, message, now).1 is Stopped <==> routed(before, message, now).0.signal
            is Some,
        routed(before, message, now).0.queue == if routed(before, message, now).1 is Stopped {
            before.queue.push(FrameView::Close)
        } else {
            before.queue
        },
        message is Command || message is Malformed ==> routed(before, message, now).0.heartbeat
            == before.heartbeat,
        routed(before, message, now).1 is Rejected ==> routed(before, message, now).0 == before,
        !(message is Command) ==> routed(before, message, now).0.entries == before.entries,
{
    if let InboundView::Command { method, params } = message {
        if let Ok(command) = Command::parse(method, params) {
            lemma_subscribed(before.entries, command.params);
            lemma_unsubscribed(before.entries, command.params);
        }
    }
}

} // verus!
