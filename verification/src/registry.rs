use crate::subscrib_stream::{ChannelId, StreamName};
use crate::{parse_stream_name, Generator, UpdataStream};
use rand::rngs::StdRng;
use vstd::prelude::*;

verus! {

/// One subscription: a channel and the generator that serves it.
#[derive(Debug, PartialEq, Eq)]
pub struct Subscription {
    pub name: StreamName,
    pub stream: UpdataStream,
}

/// A subscription as a mathematical value.
#[verifier::ext_equal]
pub struct Entry {
    pub name: ChannelId,
    pub stream: Generator,
}

impl View for Subscription {
    type V = Entry;

    open spec fn view(&self) -> Entry {
        Entry { name: self.name@, stream: self.stream@ }
    }
}

impl Clone for Subscription {
    fn clone(&self) -> (copy: Subscription)
        ensures
            copy@ == self@,
    {
        Subscription { name: self.name.clone(), stream: self.stream.clone() }
    }
}

/// The subscriptions as mathematical values, in their order.
pub open spec fn entries_of(subscriptions: Seq<Subscription>) -> Seq<Entry> {
    subscriptions.map_values(|subscription: Subscription| subscription@)
}

/// Whether `name` is subscribed.
pub open spec fn holds(entries: Seq<Entry>, name: ChannelId) -> bool {
    exists|i: int| 0 <= i < entries.len() && (#[trigger] entries[i]).name == name
}

/// Where the subscription of `name` stands, if `name` is subscribed.
pub open spec fn position(entries: Seq<Entry>, name: ChannelId) -> int {
    choose|i: int| 0 <= i < entries.len() && (#[trigger] entries[i]).name == name
}

/// The entry that a first subscription of `name` makes: the channel with a
/// generator that has emitted nothing yet.
pub open spec fn fresh(name: ChannelId) -> Entry {
    Entry { name, stream: Generator::initial(name.stream, name.symbol) }
}

/// No channel is subscribed twice, and every generator is of the kind and
/// for the instrument that its channel names.
pub open spec fn valid(entries: Seq<Entry>) -> bool {
    &&& forall|i: int, j: int|
        0 <= i < j < entries.len() ==> (#[trigger] entries[i]).name != (#[trigger] entries[j]).name
    &&& forall|i: int|
        0 <= i < entries.len() ==> (#[trigger] entries[i]).stream.kind() == entries[i].name.stream
            && entries[i].stream.symbol() == entries[i].name.symbol
}

/// The subscriptions after `name` is subscribed: unchanged where it is
/// subscribed already, else with a fresh entry at the end.
pub open spec fn subscribed_one(entries: Seq<Entry>, name: ChannelId) -> Seq<Entry> {
    if holds(entries, name) {
        entries
    } else {
        entries.push(fresh(name))
    }
}

/// The subscriptions after each of `names` is subscribed, in order.
pub open spec fn subscribed(entries: Seq<Entry>, names: Seq<ChannelId>) -> Seq<Entry>
    decreases names.len(),
{
    if names.len() == 0 {
        entries
    } else {
        subscribed_one(subscribed(entries, names.drop_last()), names.last())
    }
}

/// The subscriptions after `name` is unsubscribed: unchanged where it is not
/// subscribed, else without its entry.
pub open spec fn unsubscribed_one(entries: Seq<Entry>, name: ChannelId) -> Seq<Entry> {
    if holds(entries, name) {
        entries.remove(position(entries, name))
    } else {
        entries
    }
}

/// The subscriptions after each of `names` is unsubscribed, in order.
pub open spec fn unsubscribed(entries: Seq<Entry>, names: Seq<ChannelId>) -> Seq<Entry>
    decreases names.len(),
{
    if names.len() == 0 {
        entries
    } else {
        unsubscribed_one(unsubscribed(entries, names.drop_last()), names.last())
    }
}

/// Every generator can make one more update.
pub open spec fn can_tick(entries: Seq<Entry>) -> bool {
    forall|i: int| 0 <= i < entries.len() ==> (#[trigger] entries[i]).stream.can_advance()
}

/// `after` is `before` one tick later: the same channels in the same order,
/// each generator one update further at `time`.
pub open spec fn ticked(before: Seq<Entry>, time: u64, after: Seq<Entry>) -> bool {
    &&& after.len() == before.len()
    &&& forall|i: int|
        0 <= i < before.len() ==> (#[trigger] after[i]).name == before[i].name
            && before[i].stream.advances_to(time, after[i].stream)
}

/// The generator of `name`, where `name` is subscribed.
pub open spec fn generator_of(entries: Seq<Entry>, name: ChannelId) -> Option<Generator> {
    if holds(entries, name) {
        Some(entries[position(entries, name)].stream)
    } else {
        None
    }
}

/// The live subscriptions of one connection, in the order in which they were
/// made.
pub struct Registry {
    entries: Vec<Subscription>,
}

impl View for Registry {
    type V = Seq<Entry>;

    closed spec fn view(&self) -> Seq<Entry> {
        entries_of(self.entries@)
    }
}

impl Registry {
    /// What holds of every registry: its subscriptions are valid.
    #[verifier::type_invariant]
    pub open spec fn entries_valid(self) -> bool {
        valid(self@)
    }

    /// A registry without subscriptions.
    pub fn new() -> (registry: Registry)
        ensures
            registry@ == Seq::<Entry>::empty(),
    {
        let registry = Registry { entries: Vec::new() };
        assert(registry@ =~= Seq::<Entry>::empty());
        registry
    }

    /// The number of subscriptions.
    pub fn len(&self) -> (count: usize)
        ensures
            count == self@.len(),
    {
        self.entries.len()
    }

    /// Where the subscription of `name` stands, if there is one.
    fn find(&self, name: &StreamName) -> (at: Option<usize>)
        ensures
            valid(self@),
            match at {
                Some(i) => i < self@.len() && self@[i as int].name == name@ && holds(
                    self@,
                    name@,
                ) && position(self@, name@) == i,
                None => !holds(self@, name@),
            },
    {
        proof {
            use_type_invariant(self);
        }
        let mut i: usize = 0;
        while i < self.entries.len()
            invariant
                i <= self.entries.len(),
                valid(self@),
                self@ == entries_of(self.entries@),
                forall|j: int| 0 <= j < i ==> (#[trigger] self@[j]).name != name@,
            decreases self.entries.len() - i,
        {
            if self.entries[i].name.same_channel(name) {
                assert(self@[i as int].name == name@);
                return Some(i);
            }
            i += 1;
        }
        None
    }

    /// Whether `name` is subscribed.
    pub fn contains(&self, name: &StreamName) -> (found: bool)
        ensures
            found == holds(self@, name@),
    {
        self.find(name).is_some()
    }

    /// The generator of `name`, where `name` is subscribed.
    pub fn get(&self, name: &StreamName) -> (stream: Option<&UpdataStream>)
        ensures
            match stream {
                Some(stream) => generator_of(self@, name@) == Some(stream@),
                None => generator_of(self@, name@) is None,
            },
    {
        match self.find(name) {
            Some(i) => Some(&self.entries[i].stream),
            None => None,
        }
    }

    /// Subscribes `name` unless it is subscribed already. An existing
    /// subscription is left as it is.
    pub fn insert_if_absent(&mut self, name: StreamName) -> (added: bool)
        ensures
            final(self)@ == subscribed_one(old(self)@, name@),
            added == !holds(old(self)@, name@),
            valid(final(self)@),
    {
        match self.find(&name) {
            Some(_) => false,
            None => {
                let stream = parse_stream_name(name.clone());
                let ghost before = self@;
                let mut entries: Vec<Subscription> = Vec::new();
                core::mem::swap(&mut self.entries, &mut entries);
                entries.push(Subscription { name, stream });
                proof {
                    assert(entries_of(entries@) =~= before.push(fresh(name@)));
                }
                self.entries = entries;
                true
            },
        }
    }

    /// Ends the subscription of `name`, if there is one.
    pub fn remove(&mut self, name: &StreamName) -> (removed: bool)
        ensures
            final(self)@ == unsubscribed_one(old(self)@, name@),
            removed == holds(old(self)@, name@),
            valid(final(self)@),
    {
        match self.find(name) {
            Some(i) => {
                let ghost before = self@;
                let mut entries: Vec<Subscription> = Vec::new();
                core::mem::swap(&mut self.entries, &mut entries);
                entries.remove(i);
                proof {
                    assert(entries_of(entries@) =~= before.remove(i as int));
                }
                self.entries = entries;
                true
            },
            None => false,
        }
    }

    /// Whether every generator can make one more update.
    pub fn can_advance(&self) -> (ok: bool)
        ensures
            ok == can_tick(self@),
    {
        let mut i: usize = 0;
        while i < self.entries.len()
            invariant
                i <= self.entries.len(),
                self@ == entries_of(self.entries@),
                forall|j: int| 0 <= j < i ==> (#[trigger] self@[j]).stream.can_advance(),
            decreases self.entries.len() - i,
        {
            if !self.entries[i].stream.can_advance() {
                assert(!self@[i as int].stream.can_advance());
                return false;
            }
            i += 1;
        }
        true
    }

    /// Advances every generator by one update at `time` and returns what each
    /// emitted, with its channel, in the order of the subscriptions.
    pub fn snapshot_and_advance(&mut self, time: u64, rng: &mut StdRng) -> (emitted: Vec<
        Subscription,
    >)
        requires
            can_tick(old(self)@),
        ensures
            ticked(old(self)@, time, final(self)@),
            entries_of(emitted@) == final(self)@,
            valid(final(self)@),
    {
        proof {
            use_type_invariant(&*self);
        }
        let ghost start = self@;
        let mut entries: Vec<Subscription> = Vec::new();
        core::mem::swap(&mut self.entries, &mut entries);
        let mut emitted: Vec<Subscription> = Vec::new();
        let mut i: usize = 0;
        while i < entries.len()
            invariant
                i <= entries.len(),
                entries@.len() == start.len(),
                can_tick(start),
                valid(entries_of(entries@)),
                emitted@.len() == i,
                forall|j: int|
                    0 <= j < i ==> (#[trigger] entries@[j])@.name == start[j].name
                        && start[j].stream.advances_to(time, entries@[j]@.stream),
                forall|j: int| 0 <= j < i ==> (#[trigger] emitted@[j])@ == entries@[j]@,
                forall|j: int| i <= j < entries@.len() ==> (#[trigger] entries@[j])@ == start[j],
            decreases entries.len() - i,
        {
            let ghost before = entries_of(entries@);
            assert(before[i as int] == start[i as int]);
            entries[i].stream.update(time, rng);
            proof {
                let after = entries_of(entries@);
                crate::lemma_update_facts(before[i as int].stream, time, after[i as int].stream);
                assert forall|j: int| 0 <= j < after.len() && j != i implies #[trigger] after[j]
                    == before[j] by {}
                assert(after[i as int].name == before[i as int].name);
            }
            emitted.push(entries[i].clone());
            i += 1;
        }
        self.entries = entries;
        assert(entries_of(emitted@) =~= self@);
        emitted
    }
}

/// How often `name` is subscribed.
pub open spec fn occurrences(entries: Seq<Entry>, name: ChannelId) -> nat
    decreases entries.len(),
{
    if entries.len() == 0 {
        0
    } else {
        occurrences(entries.drop_last(), name) + if entries.last().name == name {
            1nat
        } else {
            0nat
        }
    }
}

/// A run of ticks: each state but the first is the state before it one tick
/// later, at the time of that tick.
pub open spec fn tick_run(states: Seq<Seq<Entry>>, times: Seq<u64>) -> bool {
    &&& states.len() == times.len() + 1
    &&& forall|k: int|
        0 <= k < times.len() ==> can_tick(#[trigger] states[k]) && ticked(
            states[k],
            times[k],
            states[k + 1],
        )
}

/// In valid subscriptions the entry of a name stands at one place only.
pub proof fn lemma_position(entries: Seq<Entry>, name: ChannelId, i: int)
    requires
        valid(entries),
        0 <= i < entries.len(),
        entries[i].name == name,
    ensures
        holds(entries, name),
        position(entries, name) == i,
        generator_of(entries, name) == Some(entries[i].stream),
{
    let p = position(entries, name);
    assert(0 <= p < entries.len() && entries[p].name == name);
    if p < i {
        assert(entries[p].name != entries[i].name);
    } else if i < p {
        assert(entries[i].name != entries[p].name);
    }
}

/// Valid subscriptions hold a name once or not at all.
pub proof fn lemma_occurrences(entries: Seq<Entry>, name: ChannelId)
    requires
        valid(entries),
    ensures
        occurrences(entries, name) == if holds(entries, name) {
            1nat
        } else {
            0nat
        },
    decreases entries.len(),
{
    if entries.len() > 0 {
        let front = entries.drop_last();
        let last = entries.len() - 1;
        assert forall|i: int| 0 <= i < front.len() implies #[trigger] front[i] == entries[i] by {}
        assert(valid(front));
        lemma_occurrences(front, name);
        if entries.last().name == name {
            assert(holds(entries, name));
            if holds(front, name) {
                let p = position(front, name);
                assert(entries[p].name != entries[last].name);
            }
        } else if holds(front, name) {
            let p = position(front, name);
            assert(entries[p].name == name);
        } else if holds(entries, name) {
            let p = position(entries, name);
            assert(front[p].name == name);
        }
    }
}

/// Subscribing one name keeps the subscriptions valid and every earlier
/// entry as it was, and the name is subscribed afterwards.
pub proof fn lemma_subscribed_one(entries: Seq<Entry>, name: ChannelId)
    requires
        valid(entries),
    ensures
        valid(subscribed_one(entries, name)),
        holds(subscribed_one(entries, name), name),
        entries.is_prefix_of(subscribed_one(entries, name)),
        forall|other: ChannelId|
            holds(entries, other) ==> #[trigger] generator_of(subscribed_one(entries, name), other)
                == generator_of(entries, other),
{
    let after = subscribed_one(entries, name);
    if !holds(entries, name) {
        let last = entries.len() as int;
        assert(after[last].name == name);
        assert forall|i: int, j: int| 0 <= i < j < after.len() implies (#[trigger] after[i]).name
            != (#[trigger] after[j]).name by {
            if j == last {
                assert(entries[i].name != name);
            } else {
                assert(entries[i].name != entries[j].name);
            }
        }
        assert forall|i: int| 0 <= i < after.len() implies (#[trigger] after[i]).stream.kind()
            == after[i].name.stream && after[i].stream.symbol() == after[i].name.symbol by {
            if i < last {
                assert(after[i] == entries[i]);
            }
        }
    }
    assert forall|other: ChannelId| holds(entries, other) implies #[trigger] generator_of(
        after,
        other,
    ) == generator_of(entries, other) by {
        let p = position(entries, other);
        assert(after[p] == entries[p]);
        lemma_position(entries, other, p);
        lemma_position(after, other, p);
    }
}

/// Subscribing keeps the subscriptions valid and every earlier entry as it
/// was: no generator is reset. Each of the names is subscribed afterwards.
pub proof fn lemma_subscribed(entries: Seq<Entry>, names: Seq<ChannelId>)
    requires
        valid(entries),
    ensures
        valid(subscribed(entries, names)),
        entries.is_prefix_of(subscribed(entries, names)),
        forall|i: int| 0 <= i < names.len() ==> holds(subscribed(entries, names), #[trigger] names[i]),
        forall|other: ChannelId|
            holds(entries, other) ==> #[trigger] generator_of(subscribed(entries, names), other)
                == generator_of(entries, other),
    decreases names.len(),
{
    if names.len() > 0 {
        let front = names.drop_last();
        let middle = subscribed(entries, front);
        let after = subscribed(entries, names);
        lemma_subscribed(entries, front);
        lemma_subscribed_one(middle, names.last());
        assert forall|i: int| 0 <= i < names.len() implies holds(after, #[trigger] names[i]) by {
            if i < front.len() {
                assert(front[i] == names[i]);
                let p = position(middle, names[i]);
                assert(after[p] == middle[p]);
            }
        }
        assert forall|other: ChannelId| holds(entries, other) implies #[trigger] generator_of(
            after,
            other,
        ) == generator_of(entries, other) by {
            let p = position(entries, other);
            assert(middle[p] == entries[p]);
            assert(holds(middle, other));
            assert(generator_of(after, other) == generator_of(middle, other));
        }
    }
}

/// Subscribing names that are all subscribed already changes nothing: not
/// the number of subscriptions, and no generator.
pub proof fn lemma_resubscribe_is_noop(entries: Seq<Entry>, names: Seq<ChannelId>)
    requires
        forall|i: int| 0 <= i < names.len() ==> holds(entries, #[trigger] names[i]),
    ensures
        subscribed(entries, names) == entries,
    decreases names.len(),
{
    if names.len() > 0 {
        let front = names.drop_last();
        assert forall|i: int| 0 <= i < front.len() implies holds(entries, #[trigger] front[i]) by {
            assert(front[i] == names[i]);
        }
        lemma_resubscribe_is_noop(entries, front);
        assert(holds(entries, names.last()));
    }
}

/// Two subscribe commands with the same names, one after the other, leave
/// what the first one left, with each of the names subscribed exactly once.
pub proof fn lemma_subscribe_twice(entries: Seq<Entry>, names: Seq<ChannelId>)
    requires
        valid(entries),
    ensures
        subscribed(subscribed(entries, names), names) == subscribed(entries, names),
        forall|i: int|
            0 <= i < names.len() ==> occurrences(subscribed(entries, names), #[trigger] names[i])
                == 1,
{
    let once = subscribed(entries, names);
    lemma_subscribed(entries, names);
    lemma_resubscribe_is_noop(once, names);
    assert forall|i: int| 0 <= i < names.len() implies occurrences(once, #[trigger] names[i])
        == 1 by {
        lemma_occurrences(once, names[i]);
    }
}

/// Unsubscribing one name keeps the subscriptions valid, ends that
/// subscription and leaves every other one as it was.
pub proof fn lemma_unsubscribed_one(entries: Seq<Entry>, name: ChannelId)
    requires
        valid(entries),
    ensures
        valid(unsubscribed_one(entries, name)),
        !holds(unsubscribed_one(entries, name), name),
        forall|other: ChannelId|
            other != name ==> #[trigger] generator_of(unsubscribed_one(entries, name), other)
                == generator_of(entries, other),
{
    let after = unsubscribed_one(entries, name);
    if holds(entries, name) {
        let p = position(entries, name);
        assert forall|i: int| 0 <= i < after.len() implies #[trigger] after[i] == entries[if i
            < p {
            i
        } else {
            i + 1
        }] by {}
        assert forall|i: int, j: int| 0 <= i < j < after.len() implies (#[trigger] after[i]).name
            != (#[trigger] after[j]).name by {
            let a = if i < p {
                i
            } else {
                i + 1
            };
            let b = if j < p {
                j
            } else {
                j + 1
            };
            assert(entries[a].name != entries[b].name);
        }
        assert forall|i: int| 0 <= i < after.len() implies (#[trigger] after[i]).stream.kind()
            == after[i].name.stream && after[i].stream.symbol() == after[i].name.symbol by {
            let a = if i < p {
                i
            } else {
                i + 1
            };
            assert(after[i] == entries[a]);
        }
        if holds(after, name) {
            let q = position(after, name);
            let a = if q < p {
                q
            } else {
                q + 1
            };
            assert(after[q] == entries[a]);
            lemma_position(entries, name, a);
        }
        assert forall|other: ChannelId| other != name implies #[trigger] generator_of(
            after,
            other,
        ) == generator_of(entries, other) by {
            if holds(entries, other) {
                let q = position(entries, other);
                let a = if q < p {
                    q
                } else {
                    q - 1
                };
                assert(after[a] == entries[q]);
                lemma_position(entries, other, q);
                lemma_position(after, other, a);
            } else if holds(after, other) {
                let q = position(after, other);
                let a = if q < p {
                    q
                } else {
                    q + 1
                };
                assert(after[q] == entries[a]);
            }
        }
    }
}

/// Unsubscribing keeps the subscriptions valid; none of the names is
/// subscribed afterwards, and every other subscription is as it was.
pub proof fn lemma_unsubscribed(entries: Seq<Entry>, names: Seq<ChannelId>)
    requires
        valid(entries),
    ensures
        valid(unsubscribed(entries, names)),
        forall|i: int|
            0 <= i < names.len() ==> !holds(unsubscribed(entries, names), #[trigger] names[i]),
        forall|other: ChannelId|
            !names.contains(other) ==> #[trigger] generator_of(unsubscribed(entries, names), other)
                == generator_of(entries, other),
    decreases names.len(),
{
    if names.len() > 0 {
        let front = names.drop_last();
        let middle = unsubscribed(entries, front);
        let after = unsubscribed(entries, names);
        lemma_unsubscribed(entries, front);
        lemma_unsubscribed_one(middle, names.last());
        assert forall|i: int| 0 <= i < names.len() implies !holds(after, #[trigger] names[i]) by {
            if i < front.len() {
                assert(front[i] == names[i]);
                if names[i] != names.last() {
                    assert(generator_of(after, names[i]) == generator_of(middle, names[i]));
                }
            }
        }
        assert forall|other: ChannelId| !names.contains(other) implies #[trigger] generator_of(
            after,
            other,
        ) == generator_of(entries, other) by {
            assert(other != names.last());
            if front.contains(other) {
                let k = choose|k: int| 0 <= k < front.len() && front[k] == other;
                assert(names[k] == other);
            }
            assert(generator_of(after, other) == generator_of(middle, other));
        }
    }
}

/// Unsubscribing names of which none is subscribed changes nothing.
pub proof fn lemma_unsubscribe_unknown_is_noop(entries: Seq<Entry>, names: Seq<ChannelId>)
    requires
        forall|i: int| 0 <= i < names.len() ==> !holds(entries, #[trigger] names[i]),
    ensures
        unsubscribed(entries, names) == entries,
    decreases names.len(),
{
    if names.len() > 0 {
        let front = names.drop_last();
        assert forall|i: int| 0 <= i < front.len() implies !holds(entries, #[trigger] front[i]) by {
            assert(front[i] == names[i]);
        }
        lemma_unsubscribe_unknown_is_noop(entries, front);
        assert(!holds(entries, names.last()));
    }
}

/// One tick keeps the subscriptions valid, and of every entry the channel;
/// it sets the event time, moves each running count up by exactly one, and
/// leaves no skewed timestamp after the event time.
pub proof fn lemma_ticked(before: Seq<Entry>, time: u64, after: Seq<Entry>)
    requires
        valid(before),
        can_tick(before),
        ticked(before, time, after),
    ensures
        valid(after),
        forall|name: ChannelId| holds(after, name) == holds(before, name),
        forall|i: int|
            0 <= i < after.len() ==> {
                &&& (#[trigger] after[i]).stream.event_time() == time
                &&& before[i].stream.counter() matches Some(count) ==> after[i].stream.counter()
                    == Some((count + 1) as u64) && count < u64::MAX
                &&& after[i].stream.skewed_timestamp() matches Some(stamp) ==> stamp <= time
            },
{
    assert forall|i: int| 0 <= i < after.len() implies {
        &&& (#[trigger] after[i]).stream.event_time() == time
        &&& before[i].stream.counter() matches Some(count) ==> after[i].stream.counter() == Some(
            (count + 1) as u64,
        ) && count < u64::MAX
        &&& after[i].stream.skewed_timestamp() matches Some(stamp) ==> stamp <= time
        &&& after[i].stream.kind() == after[i].name.stream
        &&& after[i].stream.symbol() == after[i].name.symbol
    } by {
        assert(before[i].stream.can_advance());
        crate::lemma_update_facts(before[i].stream, time, after[i].stream);
    }
    assert forall|i: int, j: int| 0 <= i < j < after.len() implies (#[trigger] after[i]).name
        != (#[trigger] after[j]).name by {
        assert(before[i].name != before[j].name);
    }
    assert forall|name: ChannelId| holds(after, name) == holds(before, name) by {
        if holds(after, name) {
            let p = position(after, name);
            assert(before[p].name == name);
        }
        if holds(before, name) {
            let p = position(before, name);
            assert(after[p].name == name);
        }
    }
}

/// After `k` ticks in a row a running count stands at its first value plus
/// `k`: it has gone up at every tick and has never come back to a value it
/// had.
pub proof fn lemma_counter_after_ticks(states: Seq<Seq<Entry>>, times: Seq<u64>, i: int, k: int)
    requires
        tick_run(states, times),
        0 <= i < states[0].len(),
        states[0][i].stream.counter() is Some,
        0 <= k < states.len(),
    ensures
        states[k].len() == states[0].len(),
        states[k][i].name == states[0][i].name,
        states[k][i].stream.counter() == Some((states[0][i].stream.counter()->0 + k) as u64),
        states[0][i].stream.counter()->0 + k <= u64::MAX,
        forall|j: int|
            0 <= j < k ==> (#[trigger] states[j])[i].stream.counter()->0
                < states[k][i].stream.counter()->0,
    decreases k,
{
    if k > 0 {
        lemma_counter_after_ticks(states, times, i, k - 1);
        let before = states[k - 1];
        let after = states[k];
        assert(can_tick(before) && ticked(before, times[k - 1], after));
        assert(before[i].stream.can_advance());
        crate::lemma_update_facts(before[i].stream, times[k - 1], after[i].stream);
        assert forall|j: int| 0 <= j < k implies (#[trigger] states[j])[i].stream.counter()->0
            < states[k][i].stream.counter()->0 by {
            if j < k - 1 {
                assert(states[j][i].stream.counter()->0 < before[i].stream.counter()->0);
            }
        }
    }
}

} // verus!
