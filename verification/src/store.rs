//! The event store: for each topic, every event produced to it, in order.

use crate::model::texts;
use crate::table::TopicTable;
use vstd::prelude::*;

verus! {

/// An append-only history of events per topic. Nothing is ever removed or
/// trimmed, and a topic appears with its first event.
pub struct EventStore {
    table: TopicTable<String>,
}

impl View for EventStore {
    type V = Map<Seq<char>, Seq<Seq<char>>>;

    /// Each topic that has had an event, with its events from first to last.
    closed spec fn view(&self) -> Map<Seq<char>, Seq<Seq<char>>> {
        Map::new(
            |topic: Seq<char>| self.table@.contains_key(topic),
            |topic: Seq<char>| texts(self.table@[topic]),
        )
    }
}

impl EventStore {
    pub closed spec fn wf(&self) -> bool {
        self.table.wf()
    }

    /// The history of `topic`; an unknown topic has the empty history.
    pub open spec fn events(&self, topic: Seq<char>) -> Seq<Seq<char>> {
        history_of(self@, topic)
    }

    /// The store without any topic.
    pub fn new() -> (store: Self)
        ensures
            store.wf(),
            store@ == Map::<Seq<char>, Seq<Seq<char>>>::empty(),
    {
        let store = EventStore { table: TopicTable::new() };
        assert(store@ =~= Map::<Seq<char>, Seq<Seq<char>>>::empty());
        store
    }

    /// Adds `event` at the end of the history of `topic`, creating the
    /// history if the topic is new. Every other history stays as it was.
    pub fn append(&mut self, topic: String, event: String)
        requires
            old(self).wf(),
        ensures
            final(self).wf(),
            final(self)@ == old(self)@.insert(topic@, old(self).events(topic@).push(event@)),
            final(self).events(topic@) == old(self).events(topic@).push(event@),
            forall|other: Seq<char>|
                other != topic@ ==> final(self).events(other) == old(self).events(other),
    {
        self.table.push(topic, event);
        proof {
            let grown = old(self).table.list_of(topic@).push(event);
            assert(texts(grown) =~= old(self).events(topic@).push(event@));
            assert(self@ =~= old(self)@.insert(topic@, old(self).events(topic@).push(event@)));
        }
    }

    /// A copy of the history of `topic` as it stands now, oldest event first;
    /// empty if the topic is unknown.
    pub fn snapshot(&self, topic: &str) -> (copy: Vec<String>)
        requires
            self.wf(),
        ensures
            texts(copy@) == self.events(topic@),
    {
        let mut copy: Vec<String> = Vec::new();
        match self.table.list(topic) {
            Some(list) => {
                let mut i: usize = 0;
                while i < list.len()
                    invariant
                        i <= list@.len(),
                        copy@.len() == i,
                        forall|k: int| 0 <= k < i ==> copy@[k]@ == list@[k]@,
                    decreases list@.len() - i,
                {
                    copy.push(list[i].clone());
                    i = i + 1;
                }
                assert(texts(copy@) =~= self.events(topic@));
            },
            None => {
                assert(texts(copy@) =~= self.events(topic@));
            },
        }
        copy
    }

    /// How many events `topic` has had.
    pub fn len(&self, topic: &str) -> (n: usize)
        requires
            self.wf(),
        ensures
            n == self.events(topic@).len(),
    {
        match self.table.list(topic) {
            Some(list) => list.len(),
            None => 0,
        }
    }
}

/// The history that `histories` holds for `topic`: the empty one where the
/// topic is absent.
pub open spec fn history_of(histories: Map<Seq<char>, Seq<Seq<char>>>, topic: Seq<char>) -> Seq<
    Seq<char>,
> {
    if histories.contains_key(topic) {
        histories[topic]
    } else {
        Seq::empty()
    }
}

} // verus!
