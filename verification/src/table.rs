//! A table from topics to growing lists.
//!
//! Both halves of the broker's state have this shape: a topic names a list,
//! lists only grow at the tail, and a topic appears on its first use. The
//! lists sit in a vector in order of first use; a hash map finds a topic's
//! place in it.

use vstd::hash_map::StringHashMap;
use vstd::prelude::*;

verus! {

/// One topic with its list.
struct Row<T> {
    topic: String,
    items: Vec<T>,
}

/// A map from topics to lists, keyed by the topic's text.
pub struct TopicTable<T> {
    slots: StringHashMap<usize>,
    rows: Vec<Row<T>>,
}

impl<T> View for TopicTable<T> {
    type V = Map<Seq<char>, Seq<T>>;

    closed spec fn view(&self) -> Map<Seq<char>, Seq<T>> {
        Map::new(
            |topic: Seq<char>| self.slots@.contains_key(topic),
            |topic: Seq<char>| self.rows@[self.slots@[topic] as int].items@,
        )
    }
}

impl<T> TopicTable<T> {
    /// The hash map and the vector describe the same topics: every slot
    /// points at the row of its topic, and every row is found under its topic.
    pub closed spec fn wf(&self) -> bool {
        &&& forall|topic: Seq<char>| #[trigger]
            self.slots@.contains_key(topic) ==> (self.slots@[topic] as int) < self.rows@.len()
                && self.rows@[self.slots@[topic] as int].topic@ == topic
        &&& forall|i: int|
            0 <= i < self.rows@.len() ==> self.slots@.contains_key(
                (#[trigger] self.rows@[i]).topic@,
            ) && self.slots@[self.rows@[i].topic@] as int == i
    }

    /// The list under `topic`; a topic never used has the empty list.
    pub open spec fn list_of(&self, topic: Seq<char>) -> Seq<T> {
        if self@.contains_key(topic) {
            self@[topic]
        } else {
            Seq::empty()
        }
    }

    /// The table without any topic.
    pub fn new() -> (table: Self)
        ensures
            table.wf(),
            table@ == Map::<Seq<char>, Seq<T>>::empty(),
    {
        let table = TopicTable { slots: StringHashMap::new(), rows: Vec::new() };
        assert(table@ =~= Map::<Seq<char>, Seq<T>>::empty());
        table
    }

    /// Adds `item` at the tail of the list under `topic`, which starts empty
    /// if the topic is new. No other list changes.
    pub fn push(&mut self, topic: String, item: T)
        requires
            old(self).wf(),
        ensures
            final(self).wf(),
            final(self)@ == old(self)@.insert(topic@, old(self).list_of(topic@).push(item)),
    {
        let found = self.slots.get(topic.as_str());
        match found {
            Some(slot) => {
                let r: usize = *slot;
                self.rows[r].items.push(item);
                assert(self@ =~= old(self)@.insert(topic@, old(self)@[topic@].push(item)));
            },
            None => {
                let r: usize = self.rows.len();
                let mut items: Vec<T> = Vec::new();
                items.push(item);
                let key = topic.clone();
                self.rows.push(Row { topic, items });
                self.slots.insert(key, r);
                assert(self@ =~= old(self)@.insert(topic@, Seq::<T>::empty().push(item)));
            },
        }
    }

    /// The list under `topic`, if the topic has been used.
    pub fn list(&self, topic: &str) -> (found: Option<&Vec<T>>)
        requires
            self.wf(),
        ensures
            match found {
                Some(list) => self@.contains_key(topic@) && list@ == self@[topic@],
                None => !self@.contains_key(topic@),
            },
    {
        match self.slots.get(topic) {
            Some(slot) => {
                let r: usize = *slot;
                Some(&self.rows[r].items)
            },
            None => None,
        }
    }

    /// The list under `topic` for changing in place, if the topic has been
    /// used. Whatever the caller leaves in the list is the topic's new list;
    /// no other list changes.
    pub fn list_mut(&mut self, topic: &str) -> (found: Option<&mut Vec<T>>)
        requires
            old(self).wf(),
        ensures
            final(self).wf(),
            match found {
                Some(list) => old(self)@.contains_key(topic@) && list@ == old(self)@[topic@]
                    && final(self)@ == old(self)@.insert(topic@, final(list)@),
                None => !old(self)@.contains_key(topic@) && final(self)@ == old(self)@,
            },
    {
        let slot = self.slots.get(topic);
        match slot {
            Some(slot) => {
                let r: usize = *slot;
                Some(&mut self.rows[r].items)
            },
            None => None,
        }
    }
}

} // verus!
