use crate::frame::FrameView;
use crate::heartbeat::{Heartbeat, PING_INTERVAL, PONG_TIMEOUT};
use crate::outbound::OutboundQueue;
use crate::registry::{Entry, Registry};
use crate::shutdown::{closed_with, end_connection, fired_with, ShutdownReason, ShutdownSignal};
use vstd::prelude::*;

verus! {

/// The number of frames, close frames apart, that the outbound queue of a
/// connection holds before its producers have to wait.
pub const OUTBOUND_QUEUE_CAPACITY: usize = 1000;

/// One of the four activities that serve a connection.
#[derive(Clone, Copy, Debug, PartialEq, Eq, Structural)]
pub enum Task {
    Broadcaster,
    HeartbeatMonitor,
    InboundRouter,
    OutboundWriter,
}

/// Which of the four activities have come to their end.
#[derive(Clone, Copy, Debug, PartialEq, Eq, Structural)]
pub struct Exited {
    pub broadcaster: bool,
    pub heartbeat_monitor: bool,
    pub inbound_router: bool,
    pub outbound_writer: bool,
}

impl Exited {
    /// Whether `task` has come to its end.
    pub open spec fn has(self, task: Task) -> bool {
        match task {
            Task::Broadcaster => self.broadcaster,
            Task::HeartbeatMonitor => self.heartbeat_monitor,
            Task::InboundRouter => self.inbound_router,
            Task::OutboundWriter => self.outbound_writer,
        }
    }

    /// The same, with `task` at its end too.
    pub open spec fn with(self, task: Task) -> Exited {
        match task {
            Task::Broadcaster => Exited { broadcaster: true, ..self },
            Task::HeartbeatMonitor => Exited { heartbeat_monitor: true, ..self },
            Task::InboundRouter => Exited { inbound_router: true, ..self },
            Task::OutboundWriter => Exited { outbound_writer: true, ..self },
        }
    }

    /// All four activities have come to their end.
    pub open spec fn all(self) -> bool {
        self.broadcaster && self.heartbeat_monitor && self.inbound_router && self.outbound_writer
    }
}

/// The state of one connection: its subscriptions, its heartbeat, the signal
/// that ends it, the frames that it has still to write, and which of its
/// activities have come to their end. The activities share it and take turns
/// on it.
pub struct Session {
    pub stream_names: Registry,
    pub heartbeat: Heartbeat,
    pub shutdown: ShutdownSignal,
    pub outbound: OutboundQueue,
    pub exited: Exited,
}

impl Session {
    /// The session of a connection that was accepted at `now`: nothing is
    /// subscribed, the heartbeat starts at `now`, the signal has not been
    /// fired, nothing is queued, and all four activities are about to run.
    pub fn new(now: u64) -> (session: Session)
        ensures
            session.stream_names@ == Seq::<Entry>::empty(),
            session.heartbeat == (Heartbeat {
                last_pong_at: now,
                interval: PING_INTERVAL,
                timeout: PONG_TIMEOUT,
            }),
            session.shutdown@ is None,
            session.outbound@ == Seq::<FrameView>::empty(),
            session.outbound.limit() == OUTBOUND_QUEUE_CAPACITY,
            session.exited == (Exited {
                broadcaster: false,
                heartbeat_monitor: false,
                inbound_router: false,
                outbound_writer: false,
            }),
    {
        Session {
            stream_names: Registry::new(),
            heartbeat: Heartbeat::new(now),
            shutdown: ShutdownSignal::new(),
            outbound: OutboundQueue::new(OUTBOUND_QUEUE_CAPACITY),
            exited: Exited {
                broadcaster: false,
                heartbeat_monitor: false,
                inbound_router: false,
                outbound_writer: false,
            },
        }
    }

    /// Takes note that `task` has come to its end, and whether it failed. A
    /// failure ends the connection as a signal fired by the activity would,
    /// with the reason `TaskFailed` unless it was ending already. An activity
    /// that has ended is never started again. Returns whether the connection
    /// is now closed: whether all four activities have come to their end.
    pub fn task_exited(&mut self, task: Task, failed: bool) -> (closed: bool)
        ensures
            final(self).exited == old(self).exited.with(task),
            final(self).shutdown@ == if failed {
                fired_with(old(self).shutdown@, ShutdownReason::TaskFailed)
            } else {
                old(self).shutdown@
            },
            final(self).outbound@ == if failed {
                closed_with(old(self).shutdown@, old(self).outbound@)
            } else {
                old(self).outbound@
            },
            final(self).outbound.limit() == old(self).outbound.limit(),
            final(self).stream_names@ == old(self).stream_names@,
            final(self).heartbeat == old(self).heartbeat,
            closed == final(self).exited.all(),
    {
        if failed {
            end_connection(&mut self.shutdown, &mut self.outbound, ShutdownReason::TaskFailed);
        }
        match task {
            Task::Broadcaster => {
                self.exited.broadcaster = true;
            },
            Task::HeartbeatMonitor => {
                self.exited.heartbeat_monitor = true;
            },
            Task::InboundRouter => {
                self.exited.inbound_router = true;
            },
            Task::OutboundWriter => {
                self.exited.outbound_writer = true;
            },
        }
        self.is_closed()
    }

    /// Whether the connection is closed: whether all four activities have
    /// come to their end, so that the transport can be released.
    pub fn is_closed(&self) -> (closed: bool)
        ensures
            closed == self.exited.all(),
    {
        self.exited.broadcaster && self.exited.heartbeat_monitor && self.exited.inbound_router
            && self.exited.outbound_writer
    }
}

/// A connection is closed only when each of the four activities has come to
/// its end, and an activity that has ended stays so whatever ends after it.
pub proof fn lemma_closed_after_all(exited: Exited, task: Task, other: Task)
    ensures
        exited.with(task).has(task),
        exited.has(other) ==> exited.with(task).has(other),
        exited.all() <==> exited.has(Task::Broadcaster) && exited.has(Task::HeartbeatMonitor)
            && exited.has(Task::InboundRouter) && exited.has(Task::OutboundWriter),
        exited.with(task).all() ==> forall|each: Task| #[trigger] exited.with(task).has(each),
{
}

} // verus!
