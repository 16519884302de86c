//! The subscriber registry: for each topic, the delivery channels of its
//! subscribers in order of registration.

use crate::channel::accepted;
use crate::channel::after_offer;
use crate::channel::inboxes_behind;
use crate::channel::offer;
use crate::table::TopicTable;
use tokio::sync::mpsc::UnboundedSender;
use vstd::prelude::*;

verus! {

/// The sending halves of the subscribers' channels, per topic. A subscriber
/// has no identity beyond its place in its topic's list. The registry only
/// grows: a channel whose receiving half is gone stays in its list and
/// refuses what it is offered.
pub struct SubscriberRegistry {
    table: TopicTable<UnboundedSender<String>>,
}

impl View for SubscriberRegistry {
    type V = Map<Seq<char>, Seq<Seq<Seq<char>>>>;

    /// Each topic that has had a subscriber, with the inbox of each of its
    /// subscribers in order of registration.
    closed spec fn view(&self) -> Map<Seq<char>, Seq<Seq<Seq<char>>>> {
        Map::new(
            |topic: Seq<char>| self.table@.contains_key(topic),
            |topic: Seq<char>| inboxes_behind(self.table@[topic]),
        )
    }
}

impl SubscriberRegistry {
    pub closed spec fn wf(&self) -> bool {
        self.table.wf()
    }

    /// The inboxes of the subscribers of `topic`, in order of registration;
    /// none for a topic without subscribers.
    pub open spec fn inboxes(&self, topic: Seq<char>) -> Seq<Seq<Seq<char>>> {
        inboxes_of(self@, topic)
    }

    /// The registry without any subscriber.
    pub fn new() -> (registry: Self)
        ensures
            registry.wf(),
            registry@ == Map::<Seq<char>, Seq<Seq<Seq<char>>>>::empty(),
    {
        let registry = SubscriberRegistry { table: TopicTable::new() };
        assert(registry@ =~= Map::<Seq<char>, Seq<Seq<Seq<char>>>>::empty());
        registry
    }

    /// Adds `channel` as the last subscriber of `topic`, creating the
    /// topic's list if it is new. The subscribers already there, of this
    /// topic and of every other, keep their places and their inboxes.
    pub fn register(&mut self, topic: String, channel: UnboundedSender<String>)
        requires
            old(self).wf(),
        ensures
            final(self).wf(),
            final(self)@ == old(self)@.insert(
                topic@,
                old(self).inboxes(topic@).push(accepted(channel)),
            ),
    {
        self.table.push(topic, channel);
        proof {
            let grown = old(self).table.list_of(topic@).push(channel);
            assert(inboxes_behind(grown) =~= old(self).inboxes(topic@).push(accepted(channel)));
            assert(self@ =~= old(self)@.insert(
                topic@,
                old(self).inboxes(topic@).push(accepted(channel)),
            ));
        }
    }

    /// Offers `event` once to each subscriber of `topic`, in order of
    /// registration, and reports which channels took it. A channel that
    /// refuses does not stop the offers to those after it. Subscribers of
    /// other topics are offered nothing.
    pub fn fan_out(&mut self, topic: &str, event: &String) -> (taken: Vec<bool>)
        requires
            old(self).wf(),
        ensures
            final(self).wf(),
            taken@.len() == old(self).inboxes(topic@).len(),
            final(self)@ == offered(old(self)@, topic@, event@, taken@),
    {
        let taken = match self.table.list_mut(topic) {
            Some(list) => offer_each(list, event),
            None => Vec::new(),
        };
        assert(self@ =~= offered(old(self)@, topic@, event@, taken@));
        taken
    }

    /// How many subscribers `topic` has had.
    pub fn count(&self, topic: &str) -> (n: usize)
        requires
            self.wf(),
        ensures
            n == self.inboxes(topic@).len(),
    {
        match self.table.list(topic) {
            Some(list) => list.len(),
            None => 0,
        }
    }
}

/// The inboxes that `registry` holds for `topic`: none where the topic is
/// absent.
pub open spec fn inboxes_of(registry: Map<Seq<char>, Seq<Seq<Seq<char>>>>, topic: Seq<char>) -> Seq<
    Seq<Seq<char>>,
> {
    if registry.contains_key(topic) {
        registry[topic]
    } else {
        Seq::empty()
    }
}

/// The inboxes of one topic after `event` was offered to each of them:
/// subscriber `i` has the event at the end of its inbox exactly if
/// `taken[i]`.
pub open spec fn delivered(inboxes: Seq<Seq<Seq<char>>>, event: Seq<char>, taken: Seq<bool>) -> Seq<
    Seq<Seq<char>>,
> {
    Seq::new(inboxes.len(), |i: int| after_offer(inboxes[i], event, taken[i]))
}

/// A registry after `event` was offered to each subscriber of `topic` with
/// the answers `taken`. Only the inboxes of `topic` can differ, and a topic
/// without subscribers is not created.
pub open spec fn offered(
    registry: Map<Seq<char>, Seq<Seq<Seq<char>>>>,
    topic: Seq<char>,
    event: Seq<char>,
    taken: Seq<bool>,
) -> Map<Seq<char>, Seq<Seq<Seq<char>>>> {
    if registry.contains_key(topic) {
        registry.insert(topic, delivered(registry[topic], event, taken))
    } else {
        registry
    }
}

/// Offers `event` to every channel of `list` from first to last, whatever
/// the earlier ones answered.
fn offer_each(list: &mut Vec<UnboundedSender<String>>, event: &String) -> (taken: Vec<bool>)
    ensures
        final(list)@.len() == old(list)@.len(),
        taken@.len() == old(list)@.len(),
        inboxes_behind(final(list)@) == delivered(inboxes_behind(old(list)@), event@, taken@),
{
    let mut taken: Vec<bool> = Vec::new();
    let mut i: usize = 0;
    while i < list.len()
        invariant
            i <= list@.len(),
            list@.len() == old(list)@.len(),
            taken@.len() == i,
            forall|k: int|
                0 <= k < i ==> accepted(list@[k]) == after_offer(
                    accepted(old(list)@[k]),
                    event@,
                    taken@[k],
                ),
            forall|k: int| i <= k < list@.len() ==> list@[k] == old(list)@[k],
        decreases list@.len() - i,
    {
        let answer = offer(&mut list[i], event.clone());
        taken.push(answer);
        i = i + 1;
    }
    assert(inboxes_behind(list@) =~= delivered(inboxes_behind(old(list)@), event@, taken@));
    taken
}

} // verus!
