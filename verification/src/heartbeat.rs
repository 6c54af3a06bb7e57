use crate::text::same_bytes;
use vstd::prelude::*;

verus! {

/// The time between two pings, in the unit of the session's clock
/// (microseconds): ten seconds.
pub const PING_INTERVAL: u64 = 10_000_000;

/// The longest time without a matching pong that a connection survives, in
/// the unit of the session's clock (microseconds): twenty seconds.
pub const PONG_TIMEOUT: u64 = 20_000_000;

/// The payload of every ping, `Ping!`. A pong matches when it carries the
/// same bytes.
pub open spec fn ping_bytes() -> Seq<u8> {
    seq![80u8, 105u8, 110u8, 103u8, 33u8]
}

/// What the heartbeat monitor knows: when the last matching pong came, how
/// long it sleeps between two pings, and after how long without a matching
/// pong the connection counts as dead.
#[derive(Clone, Copy, Debug, PartialEq, Eq, Structural)]
pub struct Heartbeat {
    pub last_pong_at: u64,
    pub interval: u64,
    pub timeout: u64,
}

/// One thing that happens to the heartbeat of a session.
pub enum HeartbeatEvent {
    /// A pong with `payload` arrived at `at`.
    Pong { payload: Seq<u8>, at: u64 },
    /// The monitor woke up at `at` and looked at the time of the last pong.
    Check { at: u64 },
}

impl HeartbeatEvent {
    /// The time of the event.
    pub open spec fn at(self) -> u64 {
        match self {
            HeartbeatEvent::Pong { at, .. } => at,
            HeartbeatEvent::Check { at } => at,
        }
    }

    /// The event is a pong that matches the ping.
    pub open spec fn is_matching_pong(self) -> bool {
        self matches HeartbeatEvent::Pong { payload, .. } && payload == ping_bytes()
    }
}

impl Heartbeat {
    /// The heartbeat after a pong with `payload` at `now`: a matching pong
    /// sets the time of the last pong to `now`, whatever it was; any other
    /// pong changes nothing.
    pub open spec fn after_pong(self, payload: Seq<u8>, now: u64) -> Heartbeat {
        if payload == ping_bytes() {
            Heartbeat { last_pong_at: now, interval: self.interval, timeout: self.timeout }
        } else {
            self
        }
    }

    /// At `now` the last matching pong is longer ago than the timeout.
    pub open spec fn expired(self, now: u64) -> bool {
        now - self.last_pong_at > self.timeout
    }

    /// The heartbeat after `event`.
    pub open spec fn after(self, event: HeartbeatEvent) -> Heartbeat {
        match event {
            HeartbeatEvent::Pong { payload, at } => self.after_pong(payload, at),
            HeartbeatEvent::Check { .. } => self,
        }
    }

    /// The heartbeat after all of `events`, in order.
    pub open spec fn after_all(self, events: Seq<HeartbeatEvent>) -> Heartbeat
        decreases events.len(),
    {
        if events.len() == 0 {
            self
        } else {
            self.after_all(events.drop_last()).after(events.last())
        }
    }

    /// Whether the check that is event `k` of `events` finds the connection
    /// dead.
    pub open spec fn check_fails(self, events: Seq<HeartbeatEvent>, k: int) -> bool {
        events[k] is Check && self.after_all(events.take(k)).expired(events[k].at())
    }

    /// A heartbeat that starts at `now`, with the usual interval and
    /// timeout.
    pub fn new(now: u64) -> (heartbeat: Heartbeat)
        ensures
            heartbeat == (Heartbeat {
                last_pong_at: now,
                interval: PING_INTERVAL,
                timeout: PONG_TIMEOUT,
            }),
    {
        Heartbeat { last_pong_at: now, interval: PING_INTERVAL, timeout: PONG_TIMEOUT }
    }

    /// The payload of a ping.
    pub fn ping_payload() -> (payload: Vec<u8>)
        ensures
            payload@ == ping_bytes(),
    {
        let payload = vec![80u8, 105u8, 110u8, 103u8, 33u8];
        assert(payload@ =~= ping_bytes());
        payload
    }

    /// Takes note of a pong that arrived at `now`. Returns whether it
    /// matched.
    pub fn pong(&mut self, payload: &Vec<u8>, now: u64) -> (matched: bool)
        ensures
            *final(self) == old(self).after_pong(payload@, now),
            matched == (payload@ == ping_bytes()),
    {
        let expected = Heartbeat::ping_payload();
        if same_bytes(payload, &expected) {
            self.last_pong_at = now;
            true
        } else {
            false
        }
    }

    /// Whether at `now` the last matching pong is longer ago than the
    /// timeout.
    pub fn timed_out(&self, now: u64) -> (dead: bool)
        ensures
            dead == self.expired(now),
    {
        now > self.last_pong_at && now - self.last_pong_at > self.timeout
    }
}

/// The events come in the order of their times.
pub open spec fn in_time_order(events: Seq<HeartbeatEvent>) -> bool {
    forall|i: int, j: int|
        0 <= i <= j < events.len() ==> (#[trigger] events[i]).at() <= (#[trigger] events[j]).at()
}

/// The place of the last matching pong among `events`, or -1 where none of
/// them is one.
pub open spec fn last_matching_pong(events: Seq<HeartbeatEvent>) -> int
    decreases events.len(),
{
    if events.len() == 0 {
        -1
    } else if events.last().is_matching_pong() {
        events.len() - 1
    } else {
        last_matching_pong(events.drop_last())
    }
}

/// The time of the last matching pong among `events`, or the time that
/// `start` remembers where none of them is one.
pub open spec fn last_pong_time(start: Heartbeat, events: Seq<HeartbeatEvent>) -> u64 {
    if last_matching_pong(events) >= 0 {
        events[last_matching_pong(events)].at()
    } else {
        start.last_pong_at
    }
}

/// What a heartbeat remembers after some events is the time of the last
/// pong among them that matched, set as it came and not added up; pongs that
/// do not match and checks leave no trace.
pub proof fn lemma_after_all(start: Heartbeat, events: Seq<HeartbeatEvent>)
    ensures
        start.after_all(events) == (Heartbeat {
            last_pong_at: last_pong_time(start, events),
            interval: start.interval,
            timeout: start.timeout,
        }),
        -1 <= last_matching_pong(events) < events.len(),
        last_matching_pong(events) >= 0 ==> events[last_matching_pong(events)].is_matching_pong(),
        forall|i: int|
            last_matching_pong(events) < i < events.len() ==> !(#[trigger] events[i]).is_matching_pong(),
    decreases events.len(),
{
    if events.len() > 0 {
        let front = events.drop_last();
        lemma_after_all(start, front);
        if !events.last().is_matching_pong() {
            assert forall|i: int| last_matching_pong(events) < i < events.len() implies !(
            #[trigger] events[i]).is_matching_pong() by {
                if i < front.len() {
                    assert(front[i] == events[i]);
                }
            }
            if last_matching_pong(front) >= 0 {
                assert(front[last_matching_pong(front)] == events[last_matching_pong(front)]);
            }
        }
    }
}

/// Under timely pongs the connection stays open, however long it lasts: when
/// the events come in time order and a check has a matching pong before it
/// that is no longer ago than the timeout, the check does not find the
/// connection dead.
pub proof fn lemma_timely_pongs_keep_open(start: Heartbeat, events: Seq<HeartbeatEvent>, k: int)
    requires
        in_time_order(events),
        0 <= k < events.len(),
        events[k] is Check,
        exists|j: int|
            0 <= j < k && (#[trigger] events[j]).is_matching_pong() && events[k].at()
                - events[j].at() <= start.timeout,
    ensures
        !start.check_fails(events, k),
{
    let j = choose|j: int|
        0 <= j < k && (#[trigger] events[j]).is_matching_pong() && events[k].at()
            - events[j].at() <= start.timeout;
    let before = events.take(k);
    lemma_after_all(start, before);
    let last = last_matching_pong(before);
    assert(before[j] == events[j]);
    assert(last >= j);
    assert(before[last] == events[last]);
    assert(events[j].at() <= events[last].at());
}

/// Silence is found out: a check that comes longer than the timeout after
/// the last matching pong before it, or after the start of the heartbeat
/// where no pong has matched yet, finds the connection dead.
pub proof fn lemma_silence_is_detected(start: Heartbeat, events: Seq<HeartbeatEvent>, k: int)
    requires
        0 <= k < events.len(),
        events[k] is Check,
        events[k].at() - last_pong_time(start, events.take(k)) > start.timeout,
    ensures
        start.check_fails(events, k),
{
    lemma_after_all(start, events.take(k));
}

/// A dead connection is found within one interval of the timeout running
/// out: where the monitor checks at `earlier` and one interval later, and the
/// first check still finds the connection alive, the second check comes no
/// later than one interval after the timeout has run out, and finds the
/// connection dead if no matching pong has come and the timeout has run out
/// by then.
pub proof fn lemma_detection_delay(heartbeat: Heartbeat, earlier: u64, check: u64)
    requires
        check == earlier + heartbeat.interval,
        !heartbeat.expired(earlier),
    ensures
        check <= heartbeat.last_pong_at + heartbeat.timeout + heartbeat.interval,
        check > heartbeat.last_pong_at + heartbeat.timeout ==> heartbeat.expired(check),
{
}

} // verus!
