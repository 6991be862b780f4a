//! The messages that a search has found already.

use vstd::hash_map::StringHashMap;
use vstd::hash_set::StringHashSet;
use vstd::prelude::*;

verus! {

/// A set of messages, each known by the ids of its session and its own.
pub struct Seen {
    slots: StringHashMap<usize>,
    messages: Vec<StringHashSet>,
}

impl Seen {
    /// No two sessions share a slot, and every slot exists.
    pub closed spec fn valid(self) -> bool {
        &&& forall|id: Seq<char>| #[trigger]
            self.slots@.contains_key(id) ==> self.slots@[id] < self.messages.len()
        &&& forall|a: Seq<char>, b: Seq<char>| #[trigger]
            self.slots@.contains_key(a) && #[trigger] self.slots@.contains_key(b) && a != b
                ==> self.slots@[a] != self.slots@[b]
    }

    /// The message `message_id` of the session `session_id` is in the set.
    pub closed spec fn contains(self, session_id: Seq<char>, message_id: Seq<char>) -> bool {
        self.slots@.contains_key(session_id)
            && self.messages@[self.slots@[session_id] as int]@.contains(message_id)
    }

    /// The empty set.
    pub fn new() -> (seen: Self)
        ensures
            seen.valid(),
            forall|session_id: Seq<char>, message_id: Seq<char>|
                !seen.contains(session_id, message_id),
    {
        Seen { slots: StringHashMap::new(), messages: Vec::new() }
    }

    /// Adds a message. Says whether it is new in the set.
    pub fn insert(&mut self, session_id: String, message_id: String) -> (new: bool)
        requires
            old(self).valid(),
        ensures
            final(self).valid(),
            new == !old(self).contains(session_id@, message_id@),
            forall|s: Seq<char>, m: Seq<char>| #[trigger]
                final(self).contains(s, m) == (old(self).contains(s, m) || (s == session_id@ && m
                    == message_id@)),
    {
        let slot = match self.slots.get(session_id.as_str()) {
            Some(slot) => *slot,
            None => {
                let slot = self.messages.len();
                self.messages.push(StringHashSet::new());
                self.slots.insert(session_id, slot);
                slot
            },
        };
        let messages = &mut self.messages[slot];
        messages.insert(message_id)
    }
}

} // verus!
