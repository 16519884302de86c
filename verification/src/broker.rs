//! The broker: an event store and a subscriber registry, with the fan-out
//! that connects them.
//!
//! A broker has one owner at a time: `produce` and `subscribe` borrow it
//! exclusively, so the appends and the fan-outs of all callers happen in one
//! order, and the subscribers offered an event are exactly those registered
//! when `produce` was entered. Callers that share a broker put it behind a
//! lock of their own; no call waits on a subscriber, so the lock is never
//! held across a wait. The sending halves never leave the broker: what a
//! subscriber's channel carries is what `produce` put there.

use crate::channel::after_offer;
use crate::channel::open_channel;
use crate::model::embeds;
use crate::model::lemma_embeds_contains;
use crate::model::lemma_embeds_full;
use crate::model::lemma_embeds_in_suffix;
use crate::model::lemma_embeds_len;
use crate::model::lemma_embeds_push_both;
use crate::model::lemma_embeds_push_whole;
use crate::registry::inboxes_of;
use crate::registry::offered;
use crate::registry::SubscriberRegistry;
use crate::store::history_of;
use crate::store::EventStore;
use tokio::sync::mpsc::UnboundedReceiver;
use vstd::prelude::*;

verus! {

/// What a broker amounts to: the history of every topic, the inbox of every
/// subscriber, and for every subscriber the length its topic's history had
/// when it registered.
pub struct BrokerView {
    pub history: Map<Seq<char>, Seq<Seq<char>>>,
    pub inboxes: Map<Seq<char>, Seq<Seq<Seq<char>>>>,
    pub joined: Map<Seq<char>, Seq<nat>>,
}

impl BrokerView {
    /// The events produced to `topic`, oldest first.
    pub open spec fn events(self, topic: Seq<char>) -> Seq<Seq<char>> {
        history_of(self.history, topic)
    }

    /// How many subscribers have registered on `topic`.
    pub open spec fn subscribers(self, topic: Seq<char>) -> nat {
        inboxes_of(self.inboxes, topic).len()
    }

    /// The events that the channel of subscriber `i` of `topic` has taken,
    /// oldest first.
    pub open spec fn inbox(self, topic: Seq<char>, i: int) -> Seq<Seq<char>> {
        inboxes_of(self.inboxes, topic)[i]
    }

    /// How many events `topic` had had when its subscriber `i` registered.
    pub open spec fn joined_at(self, topic: Seq<char>, i: int) -> nat {
        joined_of(self.joined, topic)[i]
    }

    /// The inbox of subscriber `i` of `topic` can be obtained from what was
    /// produced to the topic since the subscriber registered by leaving
    /// events out.
    pub open spec fn agrees(self, topic: Seq<char>, i: int) -> bool {
        &&& self.joined_at(topic, i) <= self.events(topic).len()
        &&& embeds(self.inbox(topic, i), self.events(topic).skip(self.joined_at(topic, i) as int))
    }

    /// Every subscriber has its mark, and every inbox agrees with the
    /// history of its topic: it holds nothing from before the registration,
    /// nothing from elsewhere, nothing twice and nothing out of order.
    pub open spec fn consistent(self) -> bool {
        &&& forall|topic: Seq<char>|
            (#[trigger] joined_of(self.joined, topic)).len() == self.subscribers(topic)
        &&& forall|topic: Seq<char>, i: int|
            0 <= i < self.subscribers(topic) ==> #[trigger] self.agrees(topic, i)
    }
}

/// The registration marks that `joined` holds for `topic`: none where the
/// topic is absent.
pub open spec fn joined_of(joined: Map<Seq<char>, Seq<nat>>, topic: Seq<char>) -> Seq<nat> {
    if joined.contains_key(topic) {
        joined[topic]
    } else {
        Seq::empty()
    }
}

/// One `produce` of `event` to `topic`, in which subscriber `i` of the topic
/// took the event exactly if `taken[i]`: the topic's history is one longer,
/// the inboxes of the topic follow `taken`, and nothing else differs.
pub open spec fn produced(
    pre: BrokerView,
    post: BrokerView,
    topic: Seq<char>,
    event: Seq<char>,
    taken: Seq<bool>,
) -> bool {
    &&& taken.len() == pre.subscribers(topic)
    &&& post.history == pre.history.insert(topic, pre.events(topic).push(event))
    &&& post.inboxes == offered(pre.inboxes, topic, event, taken)
    &&& post.joined == pre.joined
}

/// One `subscribe` to `topic`: the topic has one more subscriber, the last,
/// with an empty inbox and the present length of the history as its mark;
/// nothing else differs.
pub open spec fn subscribed(pre: BrokerView, post: BrokerView, topic: Seq<char>) -> bool {
    &&& post.history == pre.history
    &&& post.inboxes == pre.inboxes.insert(
        topic,
        inboxes_of(pre.inboxes, topic).push(Seq::empty()),
    )
    &&& post.joined == pre.joined.insert(
        topic,
        joined_of(pre.joined, topic).push(pre.events(topic).len()),
    )
}

/// The event store and the subscriber registry under one owner.
pub struct Broker {
    store: EventStore,
    registry: SubscriberRegistry,
    joined: Ghost<Map<Seq<char>, Seq<nat>>>,
}

impl View for Broker {
    type V = BrokerView;

    closed spec fn view(&self) -> BrokerView {
        BrokerView { history: self.store@, inboxes: self.registry@, joined: self.joined@ }
    }
}

impl Broker {
    /// Both parts are well formed.
    pub closed spec fn parts_wf(&self) -> bool {
        self.store.wf() && self.registry.wf()
    }

    /// The parts are well formed and every inbox agrees with the history.
    pub open spec fn wf(&self) -> bool {
        self.parts_wf() && self@.consistent()
    }

    /// A broker without topics or subscribers.
    pub fn new() -> (broker: Self)
        ensures
            broker.wf(),
            broker@.history == Map::<Seq<char>, Seq<Seq<char>>>::empty(),
            broker@.inboxes == Map::<Seq<char>, Seq<Seq<Seq<char>>>>::empty(),
            broker@.joined == Map::<Seq<char>, Seq<nat>>::empty(),
    {
        Broker {
            store: EventStore::new(),
            registry: SubscriberRegistry::new(),
            joined: Ghost(Map::empty()),
        }
    }

    /// Appends `event` to the history of `topic`, then offers it once to
    /// every subscriber registered on the topic at this moment, in order of
    /// registration. A channel that refuses the event loses it; that neither
    /// undoes the append nor keeps the event from the other subscribers, and
    /// it is not reported.
    pub fn produce(&mut self, topic: String, event: String)
        requires
            old(self).wf(),
        ensures
            final(self).wf(),
            exists|taken: Seq<bool>| #[trigger]
                produced(old(self)@, final(self)@, topic@, event@, taken),
            final(self)@.events(topic@) == old(self)@.events(topic@).push(event@),
            forall|other: Seq<char>|
                other != topic@ ==> final(self)@.events(other) == old(self)@.events(other),
            forall|other: Seq<char>|
                other != topic@ ==> inboxes_of(final(self)@.inboxes, other) == inboxes_of(
                    old(self)@.inboxes,
                    other,
                ),
    {
        self.store.append(topic.clone(), event.clone());
        let taken = self.registry.fan_out(topic.as_str(), &event);
        proof {
            assert(produced(old(self)@, self@, topic@, event@, taken@));
            lemma_produced_consistent(old(self)@, self@, topic@, event@, taken@);
        }
    }

    /// Opens a new delivery channel, registers its sending half as the last
    /// subscriber of `topic`, and returns the receiving half. The new
    /// subscriber starts with an empty inbox whatever the topic's history
    /// holds: it is offered only what is produced from now on.
    pub fn subscribe(&mut self, topic: String) -> (receiver: UnboundedReceiver<String>)
        requires
            old(self).wf(),
        ensures
            final(self).wf(),
            subscribed(old(self)@, final(self)@, topic@),
    {
        let (sender, receiver) = open_channel();
        proof {
            let mark = self@.events(topic@).len();
            self.joined@ = self.joined@.insert(topic@, joined_of(self.joined@, topic@).push(mark));
        }
        self.registry.register(topic, sender);
        proof {
            lemma_subscribed_consistent(old(self)@, self@, topic@);
        }
        receiver
    }

    /// The event store, for reading.
    pub fn store(&self) -> (store: &EventStore)
        requires
            self.wf(),
        ensures
            store.wf(),
            store@ == self@.history,
    {
        &self.store
    }

    /// The subscriber registry, for reading.
    pub fn registry(&self) -> (registry: &SubscriberRegistry)
        requires
            self.wf(),
        ensures
            registry.wf(),
            registry@ == self@.inboxes,
    {
        &self.registry
    }
}

/// A `produce` keeps every inbox in agreement with the history.
pub proof fn lemma_produced_consistent(
    pre: BrokerView,
    post: BrokerView,
    topic: Seq<char>,
    event: Seq<char>,
    taken: Seq<bool>,
)
    requires
        pre.consistent(),
        produced(pre, post, topic, event, taken),
    ensures
        post.consistent(),
{
    assert forall|t: Seq<char>|
        (#[trigger] joined_of(post.joined, t)).len() == post.subscribers(t) by {
        assert(joined_of(pre.joined, t).len() == pre.subscribers(t));
    }
    assert forall|t: Seq<char>, i: int| 0 <= i < post.subscribers(t) implies #[trigger] post.agrees(
        t,
        i,
    ) by {
        assert(pre.agrees(t, i));
        if t == topic {
            let mark = pre.joined_at(t, i) as int;
            let since = pre.events(t).skip(mark);
            assert(post.events(t).skip(mark) =~= since.push(event));
            if taken[i] {
                lemma_embeds_push_both(pre.inbox(t, i), since, event);
            } else {
                lemma_embeds_push_whole(pre.inbox(t, i), since, event);
            }
        }
    }
}

/// A `subscribe` keeps every inbox in agreement with the history.
pub proof fn lemma_subscribed_consistent(pre: BrokerView, post: BrokerView, topic: Seq<char>)
    requires
        pre.consistent(),
        subscribed(pre, post, topic),
    ensures
        post.consistent(),
{
    assert forall|t: Seq<char>|
        (#[trigger] joined_of(post.joined, t)).len() == post.subscribers(t) by {
        assert(joined_of(pre.joined, t).len() == pre.subscribers(t));
    }
    assert forall|t: Seq<char>, i: int| 0 <= i < post.subscribers(t) implies #[trigger] post.agrees(
        t,
        i,
    ) by {
        assert(joined_of(pre.joined, t).len() == pre.subscribers(t));
        if t == topic && i == pre.subscribers(t) {
            assert(post.events(t).skip(post.joined_at(t, i) as int).len() == 0);
        } else {
            assert(pre.agrees(t, i));
        }
    }
}

/// No backfill. A subscriber that registers on a topic after one event was
/// produced to it and before a second one holds, after the second, at most
/// the second: its inbox is empty if its channel refused the event, and the
/// second event alone if it took it. The first event is never delivered to
/// it.
pub proof fn lemma_no_backfill(
    s0: BrokerView,
    s1: BrokerView,
    s2: BrokerView,
    s3: BrokerView,
    topic: Seq<char>,
    first: Seq<char>,
    second: Seq<char>,
    taken_first: Seq<bool>,
    taken_second: Seq<bool>,
)
    requires
        produced(s0, s1, topic, first, taken_first),
        subscribed(s1, s2, topic),
        produced(s2, s3, topic, second, taken_second),
    ensures
        s3.subscribers(topic) == s1.subscribers(topic) + 1,
        s3.inbox(topic, s1.subscribers(topic) as int) == after_offer(
            Seq::empty(),
            second,
            taken_second[s1.subscribers(topic) as int],
        ),
{
}

/// Order preservation. A subscriber registered on a topic before two
/// events are produced to it one after the other holds afterwards what it
/// held before, then the first event if its channel took it, then the second
/// if its channel took it: never the second before the first, and neither
/// twice.
pub proof fn lemma_order_kept(
    s0: BrokerView,
    s1: BrokerView,
    s2: BrokerView,
    topic: Seq<char>,
    first: Seq<char>,
    second: Seq<char>,
    taken_first: Seq<bool>,
    taken_second: Seq<bool>,
    i: int,
)
    requires
        produced(s0, s1, topic, first, taken_first),
        produced(s1, s2, topic, second, taken_second),
        0 <= i < s0.subscribers(topic),
    ensures
        s2.inbox(topic, i) == after_offer(
            after_offer(s0.inbox(topic, i), first, taken_first[i]),
            second,
            taken_second[i],
        ),
        taken_first[i] && taken_second[i] ==> s2.inbox(topic, i) == s0.inbox(topic, i).push(
            first,
        ).push(second),
{
}

/// Topic isolation, step by step. An event produced to one topic leaves the
/// subscribers of every other topic as they were: as many, with the same
/// inboxes.
pub proof fn lemma_topics_isolated(
    pre: BrokerView,
    post: BrokerView,
    topic: Seq<char>,
    event: Seq<char>,
    taken: Seq<bool>,
    other: Seq<char>,
)
    requires
        produced(pre, post, topic, event, taken),
        other != topic,
    ensures
        post.subscribers(other) == pre.subscribers(other),
        forall|i: int| 0 <= i < pre.subscribers(other) ==> post.inbox(other, i) == pre.inbox(other, i),
{
}

/// Topic isolation, in every state. Whatever a subscriber's inbox holds was
/// produced to the subscriber's own topic, and after the subscriber
/// registered; and the inbox holds no more events than were produced to the
/// topic since then.
pub proof fn lemma_inbox_within_history(state: BrokerView, topic: Seq<char>, i: int, event: Seq<char>)
    requires
        state.consistent(),
        0 <= i < state.subscribers(topic),
    ensures
        state.inbox(topic, i).len() + state.joined_at(topic, i) <= state.events(topic).len(),
        embeds(state.inbox(topic, i), state.events(topic)),
        state.inbox(topic, i).contains(event) ==> state.events(topic).skip(
            state.joined_at(topic, i) as int,
        ).contains(event) && state.events(topic).contains(event),
{
    assert(state.agrees(topic, i));
    let mark = state.joined_at(topic, i) as int;
    let since = state.events(topic).skip(mark);
    lemma_embeds_len(state.inbox(topic, i), since);
    lemma_embeds_in_suffix(state.inbox(topic, i), state.events(topic), mark);
    if state.inbox(topic, i).contains(event) {
        lemma_embeds_contains(state.inbox(topic, i), since, event);
        lemma_embeds_contains(state.inbox(topic, i), state.events(topic), event);
    }
}

/// Exactly once. A subscriber whose inbox is as long as the run of events
/// produced to its topic since it registered holds exactly that run: every
/// event once, in the order of the appends.
pub proof fn lemma_complete_inbox(state: BrokerView, topic: Seq<char>, i: int)
    requires
        state.consistent(),
        0 <= i < state.subscribers(topic),
        state.inbox(topic, i).len() + state.joined_at(topic, i) == state.events(topic).len(),
    ensures
        state.inbox(topic, i) == state.events(topic).skip(state.joined_at(topic, i) as int),
{
    assert(state.agrees(topic, i));
    lemma_embeds_full(
        state.inbox(topic, i),
        state.events(topic).skip(state.joined_at(topic, i) as int),
    );
}

/// `post` holds everything that `pre` holds, in the same places: every
/// history and every inbox of `pre` is the beginning of its counterpart, and
/// no subscriber is gone or has another mark.
pub open spec fn extends(pre: BrokerView, post: BrokerView) -> bool {
    &&& forall|topic: Seq<char>| #[trigger]
        pre.events(topic).is_prefix_of(post.events(topic)) && pre.subscribers(topic)
            <= post.subscribers(topic)
    &&& forall|topic: Seq<char>, i: int|
        0 <= i < pre.subscribers(topic) ==> (#[trigger] pre.inbox(topic, i)).is_prefix_of(
            post.inbox(topic, i),
        ) && post.joined_at(topic, i) == pre.joined_at(topic, i)
}

/// Nothing is ever removed. Neither a `produce` nor a `subscribe` drops or
/// reorders an event of any history or inbox, and neither removes a
/// subscriber: the store is append-only and the registry only grows.
pub proof fn lemma_steps_extend(
    pre: BrokerView,
    post: BrokerView,
    topic: Seq<char>,
    event: Seq<char>,
    taken: Seq<bool>,
)
    requires
        pre.consistent(),
        produced(pre, post, topic, event, taken) || subscribed(pre, post, topic),
    ensures
        extends(pre, post),
{
    assert forall|t: Seq<char>| #[trigger]
        pre.events(t).is_prefix_of(post.events(t)) && pre.subscribers(t) <= post.subscribers(
            t,
        ) by {
        assert(pre.events(t) =~= post.events(t).subrange(0, pre.events(t).len() as int));
    }
    assert forall|t: Seq<char>, i: int| 0 <= i < pre.subscribers(t) implies (#[trigger] pre.inbox(
        t,
        i,
    )).is_prefix_of(post.inbox(t, i)) && post.joined_at(t, i) == pre.joined_at(t, i) by {
        assert(joined_of(pre.joined, t).len() == pre.subscribers(t));
        assert(pre.inbox(t, i) =~= post.inbox(t, i).subrange(0, pre.inbox(t, i).len() as int));
    }
}

/// Dead-subscriber resilience. When the channel of one subscriber refuses
/// an event, the event is in the history all the same, the refusing
/// subscriber's inbox is as it was, and every subscriber of the topic whose
/// channel took the event has it at the end of its inbox.
pub proof fn lemma_refusal_is_local(
    pre: BrokerView,
    post: BrokerView,
    topic: Seq<char>,
    event: Seq<char>,
    taken: Seq<bool>,
    dead: int,
)
    requires
        produced(pre, post, topic, event, taken),
        0 <= dead < pre.subscribers(topic),
        !taken[dead],
    ensures
        post.events(topic) == pre.events(topic).push(event),
        post.inbox(topic, dead) == pre.inbox(topic, dead),
        forall|live: int|
            0 <= live < pre.subscribers(topic) && taken[live] ==> post.inbox(topic, live)
                == pre.inbox(topic, live).push(event),
{
}

} // verus!
